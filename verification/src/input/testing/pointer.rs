//! The recording sink as a pointer sink.

use vstd::prelude::*;

use crate::error::Error;
use crate::input::testing::RecordingSink;
use crate::input::{delivery_view, Delivery, PointerDeliveryView, PointerEvent, PointerSink};

verus! {

impl PointerSink for RecordingSink {
    open spec fn pointer_offered(&self) -> Seq<PointerDeliveryView> {
        self.pointer_history()
    }

    fn deliver(&mut self, event: &PointerEvent) -> (r: Result<Delivery, Error>)
        ensures
            r is Ok,
            r->Ok_0 == (if old(self).seen_keys().contains(event@.idempotency_key.text) {
                Delivery::DuplicateIgnored
            } else {
                Delivery::Delivered
            }),
            final(self).kept_pointer() == (if r->Ok_0 == Delivery::Delivered {
                old(self).kept_pointer().push(event@)
            } else {
                old(self).kept_pointer()
            }),
            final(self).seen_keys() == (if r->Ok_0 == Delivery::Delivered {
                old(self).seen_keys().push(event@.idempotency_key.text)
            } else {
                old(self).seen_keys()
            }),
            final(self).kept_keys() == old(self).kept_keys(),
            final(self).key_history() == old(self).key_history(),
    {
        let delivery = self.accept(&event.idempotency_key);
        if delivery == Delivery::Delivered {
            self.pointer_events.push(event.clone());
            assert(self.kept_pointer() =~= old(self).kept_pointer().push(event@));
        }
        let r: Result<Delivery, Error> = Ok(delivery);
        self.pointer_log = Ghost(
            self.pointer_log@.push(PointerDeliveryView { event: event@, outcome: delivery_view(r) }),
        );
        r
    }
}

} // verus!
