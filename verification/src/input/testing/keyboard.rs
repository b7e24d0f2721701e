//! The recording sink as a keyboard sink.

use vstd::prelude::*;

use crate::error::Error;
use crate::input::testing::RecordingSink;
use crate::input::{delivery_view, Delivery, KeyDeliveryView, KeyEvent, KeyboardSink};

verus! {

impl KeyboardSink for RecordingSink {
    open spec fn keys_offered(&self) -> Seq<KeyDeliveryView> {
        self.key_history()
    }

    fn deliver(&mut self, event: &KeyEvent) -> (r: Result<Delivery, Error>)
        ensures
            r is Ok,
            r->Ok_0 == (if old(self).seen_keys().contains(event@.idempotency_key.text) {
                Delivery::DuplicateIgnored
            } else {
                Delivery::Delivered
            }),
            final(self).kept_keys() == (if r->Ok_0 == Delivery::Delivered {
                old(self).kept_keys().push(event@)
            } else {
                old(self).kept_keys()
            }),
            final(self).seen_keys() == (if r->Ok_0 == Delivery::Delivered {
                old(self).seen_keys().push(event@.idempotency_key.text)
            } else {
                old(self).seen_keys()
            }),
            final(self).kept_pointer() == old(self).kept_pointer(),
            final(self).pointer_history() == old(self).pointer_history(),
    {
        let delivery = self.accept(&event.idempotency_key);
        if delivery == Delivery::Delivered {
            self.key_events.push(event.clone());
            assert(self.kept_keys() =~= old(self).kept_keys().push(event@));
        }
        let r: Result<Delivery, Error> = Ok(delivery);
        self.key_log = Ghost(
            self.key_log@.push(KeyDeliveryView { event: event@, outcome: delivery_view(r) }),
        );
        r
    }
}

} // verus!
