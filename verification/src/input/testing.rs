//! A sink that keeps what it is given.

use vstd::prelude::*;

use crate::id::IdempotencyKey;
use crate::input::{
    Delivery, KeyDeliveryView, KeyEvent, KeyEventView, PointerDeliveryView, PointerEvent,
    PointerEventView,
};
use crate::testing::texts;
use crate::text::same_text;

mod keyboard;
mod pointer;

verus! {

/// Keeps each event whose key it has not seen, of either kind.
pub struct RecordingSink {
    seen: Vec<String>,
    pointer_events: Vec<PointerEvent>,
    key_events: Vec<KeyEvent>,
    pointer_log: Ghost<Seq<PointerDeliveryView>>,
    key_log: Ghost<Seq<KeyDeliveryView>>,
}

/// What a row of pointer events holds.
pub open spec fn pointer_views(events: Seq<PointerEvent>) -> Seq<PointerEventView> {
    Seq::new(events.len(), |i: int| events[i]@)
}

/// What a row of key events holds.
pub open spec fn key_views(events: Seq<KeyEvent>) -> Seq<KeyEventView> {
    Seq::new(events.len(), |i: int| events[i]@)
}

impl RecordingSink {
    /// The keys seen so far, in order.
    pub closed spec fn seen_keys(&self) -> Seq<Seq<char>> {
        texts(self.seen@)
    }

    /// The pointer events kept so far.
    pub closed spec fn kept_pointer(&self) -> Seq<PointerEventView> {
        pointer_views(self.pointer_events@)
    }

    /// The key events kept so far.
    pub closed spec fn kept_keys(&self) -> Seq<KeyEventView> {
        key_views(self.key_events@)
    }

    /// Every pointer event that was handed over, kept or not.
    pub closed spec fn pointer_history(&self) -> Seq<PointerDeliveryView> {
        self.pointer_log@
    }

    /// Every key event that was handed over, kept or not.
    pub closed spec fn key_history(&self) -> Seq<KeyDeliveryView> {
        self.key_log@
    }

    /// A sink that has seen nothing.
    pub fn new() -> (r: Self)
        ensures
            r.seen_keys() == Seq::<Seq<char>>::empty(),
            r.kept_pointer() == Seq::<PointerEventView>::empty(),
            r.kept_keys() == Seq::<KeyEventView>::empty(),
            r.pointer_history() == Seq::<PointerDeliveryView>::empty(),
            r.key_history() == Seq::<KeyDeliveryView>::empty(),
    {
        let r = RecordingSink {
            seen: Vec::new(),
            pointer_events: Vec::new(),
            key_events: Vec::new(),
            pointer_log: Ghost(Seq::empty()),
            key_log: Ghost(Seq::empty()),
        };
        assert(r.seen_keys() =~= Seq::<Seq<char>>::empty());
        assert(r.kept_pointer() =~= Seq::<PointerEventView>::empty());
        assert(r.kept_keys() =~= Seq::<KeyEventView>::empty());
        r
    }

    /// The pointer events kept so far.
    pub fn pointer_events(&self) -> (r: &[PointerEvent])
        ensures
            pointer_views(r@) == self.kept_pointer(),
    {
        self.pointer_events.as_slice()
    }

    /// The key events kept so far.
    pub fn key_events(&self) -> (r: &[KeyEvent])
        ensures
            key_views(r@) == self.kept_keys(),
    {
        self.key_events.as_slice()
    }

    fn accept(&mut self, key: &IdempotencyKey) -> (r: Delivery)
        ensures
            r == (if old(self).seen_keys().contains(key@.text) {
                Delivery::DuplicateIgnored
            } else {
                Delivery::Delivered
            }),
            final(self).seen_keys() == (if r == Delivery::Delivered {
                old(self).seen_keys().push(key@.text)
            } else {
                old(self).seen_keys()
            }),
            final(self).pointer_events == old(self).pointer_events,
            final(self).key_events == old(self).key_events,
            final(self).pointer_log == old(self).pointer_log,
            final(self).key_log == old(self).key_log,
    {
        let mut i: usize = 0;
        while i < self.seen.len()
            invariant
                i <= self.seen.len(),
                *self == *old(self),
                forall|j: int| 0 <= j < i ==> self.seen_keys()[j] != key@.text,
            decreases self.seen.len() - i,
        {
            if same_text(self.seen[i].as_str(), key.as_str()) {
                assert(self.seen_keys()[i as int] == key@.text);
                return Delivery::DuplicateIgnored;
            }
            i = i + 1;
        }
        self.seen.push(key.as_str().to_owned());
        assert(self.seen_keys() =~= old(self).seen_keys().push(key@.text));
        Delivery::Delivered
    }
}

} // verus!
