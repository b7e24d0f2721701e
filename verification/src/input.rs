//! Pointer and keyboard events, and the sinks that take them.

use vstd::prelude::*;

use crate::error::{Error, ErrorView};
use crate::id::{IdView, IdempotencyKey};
use crate::time::UtcTimestamp;

pub mod testing;

verus! {

/// What became of an event.
#[derive(Debug, Clone, Copy, PartialEq, Eq, Hash, Structural)]
pub enum Delivery {
    Delivered,
    DuplicateIgnored,
}

/// A pointer button.
#[derive(Debug, Clone, Copy, PartialEq, Eq, Hash, Structural)]
pub enum PointerButton {
    Left,
    Right,
    Middle,
}

/// Whether a button or key went down or up.
#[derive(Debug, Clone, Copy, PartialEq, Eq, Hash, Structural)]
pub enum ButtonState {
    Pressed,
    Released,
}

/// A key, by its evdev number.
#[derive(Debug, Clone, Copy, PartialEq, Eq, Hash, Structural)]
pub struct Keycode(pub u32);

/// What a pointer did.
#[derive(Debug, Clone, Copy, PartialEq, Eq, Structural)]
pub enum PointerEventKind {
    MotionAbsolute { x_px: i32, y_px: i32 },
    Button { button: PointerButton, state: ButtonState },
}

/// A pointer event.
#[derive(Debug, PartialEq, Eq)]
pub struct PointerEvent {
    pub idempotency_key: IdempotencyKey,
    pub at: UtcTimestamp,
    pub kind: PointerEventKind,
}

/// What a [`PointerEvent`] holds.
pub struct PointerEventView {
    pub idempotency_key: IdView,
    pub at: UtcTimestamp,
    pub kind: PointerEventKind,
}

impl View for PointerEvent {
    type V = PointerEventView;

    open spec fn view(&self) -> PointerEventView {
        PointerEventView {
            idempotency_key: self.idempotency_key@,
            at: self.at,
            kind: self.kind,
        }
    }
}

impl Clone for PointerEvent {
    fn clone(&self) -> (r: Self)
        ensures
            r@ == self@,
    {
        PointerEvent { idempotency_key: self.idempotency_key.clone(), at: self.at, kind: self.kind }
    }
}

/// A key event.
#[derive(Debug, PartialEq, Eq)]
pub struct KeyEvent {
    pub idempotency_key: IdempotencyKey,
    pub at: UtcTimestamp,
    pub keycode: Keycode,
    pub state: ButtonState,
}

/// What a [`KeyEvent`] holds.
pub struct KeyEventView {
    pub idempotency_key: IdView,
    pub at: UtcTimestamp,
    pub keycode: Keycode,
    pub state: ButtonState,
}

impl View for KeyEvent {
    type V = KeyEventView;

    open spec fn view(&self) -> KeyEventView {
        KeyEventView {
            idempotency_key: self.idempotency_key@,
            at: self.at,
            keycode: self.keycode,
            state: self.state,
        }
    }
}

impl Clone for KeyEvent {
    fn clone(&self) -> (r: Self)
        ensures
            r@ == self@,
    {
        KeyEvent {
            idempotency_key: self.idempotency_key.clone(),
            at: self.at,
            keycode: self.keycode,
            state: self.state,
        }
    }
}

/// A pointer event that was handed over, and what became of it.
pub struct PointerDeliveryView {
    pub event: PointerEventView,
    pub outcome: Result<Delivery, ErrorView>,
}

/// A key event that was handed over, and what became of it.
pub struct KeyDeliveryView {
    pub event: KeyEventView,
    pub outcome: Result<Delivery, ErrorView>,
}

/// What became of an event that was handed over.
pub open spec fn delivery_view(r: Result<Delivery, Error>) -> Result<Delivery, ErrorView> {
    match r {
        Ok(d) => Ok(d),
        Err(e) => Err(e@),
    }
}

/// Takes pointer events.
pub trait PointerSink {
    /// The pointer events that were handed over so far, in order.
    open spec fn pointer_offered(&self) -> Seq<PointerDeliveryView> {
        arbitrary()
    }

    fn deliver(&mut self, event: &PointerEvent) -> (r: Result<Delivery, Error>)
        ensures
            final(self).pointer_offered() == old(self).pointer_offered().push(
                PointerDeliveryView { event: event@, outcome: delivery_view(r) },
            ),
    ;
}

/// Takes key events.
pub trait KeyboardSink {
    /// The key events that were handed over so far, in order.
    open spec fn keys_offered(&self) -> Seq<KeyDeliveryView> {
        arbitrary()
    }

    fn deliver(&mut self, event: &KeyEvent) -> (r: Result<Delivery, Error>)
        ensures
            final(self).keys_offered() == old(self).keys_offered().push(
                KeyDeliveryView { event: event@, outcome: delivery_view(r) },
            ),
    ;
}

} // verus!
