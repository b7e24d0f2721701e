//! The memory of keys that were delivered: the last ones, and no more.

use vstd::prelude::*;

use std::collections::VecDeque;

use crate::testing::texts;
use crate::text::same_text;

verus! {

/// The keys after `key` came: a key that is remembered changes nothing; another one
/// is remembered, and where the memory is full the oldest key is forgotten.
pub open spec fn after_key(order: Seq<Seq<char>>, key: Seq<char>) -> Seq<Seq<char>> {
    if order.contains(key) {
        order
    } else if order.len() == 1024 {
        order.drop_first().push(key)
    } else {
        order.push(key)
    }
}

/// The keys after a row of keys came.
pub open spec fn after_keys(order: Seq<Seq<char>>, keys: Seq<Seq<char>>) -> Seq<Seq<char>>
    decreases keys.len(),
{
    if keys.len() == 0 {
        order
    } else {
        after_key(after_keys(order, keys.drop_last()), keys.last())
    }
}

/// The last keys that were delivered: at most [`DeliveredKeys::CAPACITY`] of them, none
/// twice, the oldest first.
#[derive(Debug)]
pub struct DeliveredKeys {
    order: VecDeque<String>,
}

impl View for DeliveredKeys {
    type V = Seq<Seq<char>>;

    closed spec fn view(&self) -> Seq<Seq<char>> {
        texts(self.order@)
    }
}

impl Default for DeliveredKeys {
    fn default() -> (r: Self)
        ensures
            r@ == Seq::<Seq<char>>::empty(),
    {
        DeliveredKeys::new()
    }
}

/// How many keys are remembered, and that none stands twice.
pub open spec fn keys_in_order(order: Seq<Seq<char>>) -> bool {
    &&& order.len() <= 1024
    &&& order.no_duplicates()
}

impl DeliveredKeys {
    /// How many keys are remembered.
    pub const CAPACITY: usize = 1024;

    #[verifier::type_invariant]
    spec fn in_order(self) -> bool {
        keys_in_order(texts(self.order@))
    }

    /// No key.
    pub fn new() -> (r: Self)
        ensures
            r@ == Seq::<Seq<char>>::empty(),
    {
        let r = DeliveredKeys { order: VecDeque::new() };
        assert(r@ =~= Seq::<Seq<char>>::empty());
        r
    }

    /// Whether `key` is not remembered; it is from now on.
    pub fn accept(&mut self, key: &str) -> (r: bool)
        ensures
            r == !old(self)@.contains(key@),
            final(self)@ == after_key(old(self)@, key@),
            keys_in_order(final(self)@),
    {
        proof {
            use_type_invariant(&*self);
            law_keys_stay_in_order(self@, key@);
        }
        let mut i: usize = 0;
        while i < self.order.len()
            invariant
                i <= self.order@.len(),
                *self == *old(self),
                keys_in_order(self@),
                forall|j: int| 0 <= j < i ==> self@[j] != key@,
            decreases self.order@.len() - i,
        {
            if same_text(self.order[i].as_str(), key) {
                assert(self@[i as int] == key@);
                return false;
            }
            i = i + 1;
        }
        let mut taken = DeliveredKeys::new();
        core::mem::swap(self, &mut taken);
        let mut order = taken.order;
        if order.len() == Self::CAPACITY {
            let _ = order.pop_front();
        }
        order.push_back(key.to_owned());
        assert(texts(order@) =~= after_key(old(self)@, key@));
        *self = DeliveredKeys { order };
        true
    }
}

/// A key that comes keeps the memory in order: no more than its capacity, no key
/// twice.
pub proof fn law_keys_stay_in_order(order: Seq<Seq<char>>, key: Seq<char>)
    requires
        keys_in_order(order),
    ensures
        keys_in_order(after_key(order, key)),
        after_key(order, key).contains(key),
{
    if !order.contains(key) {
        let after = after_key(order, key);
        assert(after.last() == key);
        let kept = if order.len() == 1024 {
            order.drop_first()
        } else {
            order
        };
        assert forall|i: int, j: int| 0 <= i < after.len() && 0 <= j < after.len() && i != j implies
            after[i] != after[j] by {
            let shift: int = if order.len() == 1024 {
                1
            } else {
                0
            };
            if i < kept.len() {
                assert(after[i] == order[i + shift]);
            }
            if j < kept.len() {
                assert(after[j] == order[j + shift]);
            }
        }
    }
}

/// A key that came is refused until as many other keys as the memory holds have come
/// after it.
pub proof fn law_key_is_refused_while_remembered(
    order: Seq<Seq<char>>,
    key: Seq<char>,
    later: Seq<Seq<char>>,
)
    requires
        keys_in_order(order),
        later.len() < 1024,
        !order.contains(key),
    ensures
        after_keys(after_key(order, key), later).contains(key),
{
    lemma_distance_to_the_end(order, key, later);
    let all = after_keys(after_key(order, key), later);
    let at = choose|at: int| 0 <= at < all.len() && all[at] == key && all.len() - at <= later.len()
        + 1;
    assert(all[at] == key);
}

/// After it came, a key stands no further from the end than the keys that came later.
proof fn lemma_distance_to_the_end(order: Seq<Seq<char>>, key: Seq<char>, later: Seq<Seq<char>>)
    requires
        keys_in_order(order),
        later.len() < 1024,
        !order.contains(key),
    ensures
        keys_in_order(after_keys(after_key(order, key), later)),
        exists|at: int|
            {
                &&& 0 <= at < after_keys(after_key(order, key), later).len()
                &&& #[trigger] after_keys(after_key(order, key), later)[at] == key
                &&& after_keys(after_key(order, key), later).len() - at <= later.len() + 1
            },
    decreases later.len(),
{
    let first = after_key(order, key);
    law_keys_stay_in_order(order, key);
    if later.len() == 0 {
        assert(first[first.len() - 1] == key);
    } else {
        let rest = later.drop_last();
        lemma_distance_to_the_end(order, key, rest);
        let before = after_keys(first, rest);
        let at = choose|at: int|
            0 <= at < before.len() && before[at] == key && before.len() - at <= rest.len() + 1;
        law_keys_stay_in_order(before, later.last());
        let all = after_keys(first, later);
        if before.contains(later.last()) {
            assert(all[at] == key);
        } else if before.len() == 1024 {
            assert(at >= 1);
            assert(all[at - 1] == key);
        } else {
            assert(all[at] == key);
        }
    }
}

} // verus!
