//! Schorl: the verified core of a head-mounted work environment on Linux.
//!
//! - [`scope`] says what the first version does and what it leaves out.
//! - [`error`], [`id`], [`json`], [`log`], [`retry`], [`secret`], [`time`] and [`frame`] are
//!   what everything else is built of; [`text`] and [`scan`] write and read characters.
//! - [`display`] makes outputs on the host and gives them back, and [`capture`] copies their
//!   pixels.
//! - [`input`] carries clicks and keys; [`panel`] is the plane that hands point at and grab;
//!   [`xr`] is the session that shows it; [`driver`] turns all of them, step by step.
//! - [`compositor`] decides for a Wayland server of its own, and [`render`] for the drawing.
//!
//! What is done by somebody else (a sink for lines, a session, a host, a clock) stands behind
//! a trait. Such a trait keeps a history of what was asked of it, each entry with what was
//! answered, and contracts speak of these histories. A clock keeps none: it says which times
//! it may name, and contracts speak of those. An implementer outside this crate is not held to
//! any of it: one that leaves its history at the default has a history that never grows, does
//! not meet the clauses of its trait, and nothing that is proved through the trait is claimed
//! of it. A clock at its default may name any time.

pub mod capture;
pub mod compositor;
pub mod display;
pub mod driver;
pub mod error;
pub mod frame;
pub mod id;
pub mod input;
pub mod json;
pub mod laws;
pub mod log;
pub mod panel;
pub mod render;
pub mod retry;
pub mod scan;
pub mod scope;
pub mod secret;
pub mod testing;
pub mod text;
pub mod time;
pub mod xr;
