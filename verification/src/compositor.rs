//! The compositor's own rules: which windows there are and where they stand, what
//! input reaches them, and what is said about it.

pub mod args;
pub mod buffer;
pub mod journal;
pub mod keyboard;
pub mod keys;
pub mod pointer;
pub mod run;
pub mod socket;
pub mod state;
pub mod window;
