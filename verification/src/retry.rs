//! Bounded retries with exponential backoff.

use vstd::arithmetic::power2::{lemma_pow2_pos, lemma_pow2_strictly_increases, lemma_pow2_unfold, pow2};
use vstd::bits::{lemma_u64_pow2_no_overflow, lemma_u64_shl_is_mul};
use vstd::prelude::*;

use crate::error::{plain_error, DetailView, Error, ErrorCode};
use crate::id::TraceId;

verus! {

/// No policy retries more often than this.
pub const MAX_RETRIES_LIMIT: u8 = 5;

/// The exponent of the backoff grows up to here.
pub const MAX_BACKOFF_EXPONENT: u32 = 32;

/// How long to wait between two attempts.
#[derive(Debug, Clone, Copy, PartialEq, Eq, Structural)]
pub enum Backoff {
    /// A random part of a ceiling that doubles with each attempt up to a cap.
    ExponentialJitter { base_millis: u64, cap_millis: u64 },
}

/// The smaller of two numbers.
pub open spec fn smaller(a: int, b: int) -> int {
    if a <= b {
        a
    } else {
        b
    }
}

impl Backoff {
    /// The longest wait before the attempt that follows `attempt`: the base doubled
    /// `attempt` times, at most thirty-two times, and never above the cap.
    pub open spec fn ceiling(self, attempt: nat) -> int {
        match self {
            Backoff::ExponentialJitter { base_millis, cap_millis } => smaller(
                base_millis * pow2(smaller(attempt as int, MAX_BACKOFF_EXPONENT as int) as nat),
                cap_millis as int,
            ),
        }
    }
}

/// How often to try again, and after what wait.
#[derive(Debug, Clone, Copy, PartialEq, Eq, Structural)]
pub struct RetryPolicy {
    max_retries: u8,
    backoff: Backoff,
}

impl RetryPolicy {
    #[verifier::type_invariant]
    spec fn within_limit(self) -> bool {
        self.max_retries <= MAX_RETRIES_LIMIT
    }

    /// How often the policy retries.
    pub closed spec fn retries(self) -> u8 {
        self.max_retries
    }

    /// The wait between two attempts.
    pub closed spec fn wait(self) -> Backoff {
        self.backoff
    }

    /// A policy; more retries than the limit are refused.
    pub fn new(max_retries: u8, backoff: Backoff) -> (r: Result<Self, Error>)
        ensures
            r is Ok <==> max_retries <= MAX_RETRIES_LIMIT,
            r matches Ok(p) ==> p.retries() == max_retries && p.wait() == backoff,
            r matches Err(e) ==> e@ == plain_error(
                ErrorCode::InvalidArgument,
                "retry.max is pinned to the range 0..5"@,
            ).with("requested"@, DetailView::Int(max_retries as int)).with(
                "limit"@,
                DetailView::Int(MAX_RETRIES_LIMIT as int),
            ),
    {
        if max_retries > MAX_RETRIES_LIMIT {
            return Err(
                Error::new(
                    ErrorCode::InvalidArgument,
                    "retry.max is pinned to the range 0..5",
                    TraceId::unattributed(),
                ).with_detail("requested", max_retries as i64).with_detail(
                    "limit",
                    MAX_RETRIES_LIMIT as i64,
                ),
            );
        }
        Ok(RetryPolicy { max_retries, backoff })
    }

    /// How often the policy retries, at most [`MAX_RETRIES_LIMIT`] times.
    pub fn max_retries(self) -> (r: u8)
        ensures
            r == self.retries(),
            r <= MAX_RETRIES_LIMIT,
    {
        proof {
            use_type_invariant(self);
        }
        self.max_retries
    }

    /// The wait between two attempts.
    pub fn backoff(self) -> (r: Backoff)
        ensures
            r == self.wait(),
    {
        self.backoff
    }

    /// The longest wait before the attempt that follows `attempt`.
    pub fn delay_ceiling_millis(self, attempt: u32) -> (r: u64)
        ensures
            r == self.wait().ceiling(attempt as nat),
    {
        let Backoff::ExponentialJitter { base_millis, cap_millis } = self.backoff;
        let exponent: u32 = if attempt < MAX_BACKOFF_EXPONENT {
            attempt
        } else {
            MAX_BACKOFF_EXPONENT
        };
        proof {
            lemma_u64_pow2_no_overflow(exponent as nat);
            lemma_u64_shl_is_mul(1u64, exponent as u64);
        }
        let factor: u64 = 1u64 << (exponent as u64);
        assert(factor == pow2(exponent as nat));
        match base_millis.checked_mul(factor) {
            Some(product) => if product < cap_millis {
                product
            } else {
                cap_millis
            },
            None => cap_millis,
        }
    }

    /// Whether to try again after `attempts_made` attempts.
    pub fn should_retry(self, attempts_made: u8) -> (r: bool)
        ensures
            r == (attempts_made < self.retries()),
    {
        attempts_made < self.max_retries
    }
}

/// Waits between two attempts, for a random part of a ceiling.
pub trait BackoffWait {
    /// The ceilings of the waits so far, in order.
    open spec fn ceilings(&self) -> Seq<u64> {
        arbitrary()
    }

    fn wait_up_to(&mut self, ceiling_millis: u64)
        ensures
            final(self).ceilings() == old(self).ceilings().push(ceiling_millis),
    ;
}

/// The ceilings of the first `count` waits of a policy.
pub open spec fn first_ceilings(policy: RetryPolicy, count: nat) -> Seq<u64> {
    Seq::new(count, |i: int| policy.wait().ceiling(i as nat) as u64)
}

/// No wait is longer than the cap.
pub proof fn law_ceiling_is_capped(backoff: Backoff, attempt: nat)
    ensures
        0 <= backoff.ceiling(attempt) <= backoff->cap_millis,
{
    let Backoff::ExponentialJitter { base_millis, cap_millis } = backoff;
    let e = smaller(attempt as int, MAX_BACKOFF_EXPONENT as int) as nat;
    lemma_pow2_pos(e);
    assert(0 <= base_millis * pow2(e)) by (nonlinear_arith)
        requires
            pow2(e) > 0,
            base_millis >= 0,
    ;
}

/// Waits do not get shorter from one attempt to a later one.
pub proof fn law_ceiling_does_not_shrink(backoff: Backoff, earlier: nat, later: nat)
    requires
        earlier <= later,
    ensures
        backoff.ceiling(earlier) <= backoff.ceiling(later),
{
    let Backoff::ExponentialJitter { base_millis, cap_millis } = backoff;
    let a = smaller(earlier as int, MAX_BACKOFF_EXPONENT as int) as nat;
    let b = smaller(later as int, MAX_BACKOFF_EXPONENT as int) as nat;
    if a < b {
        lemma_pow2_strictly_increases(a, b);
    }
    assert(base_millis * pow2(a) <= base_millis * pow2(b)) by (nonlinear_arith)
        requires
            pow2(a) <= pow2(b),
            base_millis >= 0,
    ;
}

/// Below the cap, the ceiling doubles from one attempt to the next.
pub proof fn law_ceiling_doubles_below_the_cap(backoff: Backoff, attempt: nat)
    requires
        attempt < MAX_BACKOFF_EXPONENT,
        backoff.ceiling(attempt + 1) < backoff->cap_millis,
    ensures
        backoff.ceiling(attempt + 1) == 2 * backoff.ceiling(attempt),
{
    let Backoff::ExponentialJitter { base_millis, cap_millis } = backoff;
    lemma_pow2_unfold(attempt + 1);
    lemma_pow2_pos(attempt);
    assert(base_millis * (2 * pow2(attempt)) == 2 * (base_millis * pow2(attempt))
        && base_millis * pow2(attempt) >= 0) by (nonlinear_arith)
        requires
            pow2(attempt) > 0,
            base_millis >= 0,
    ;
}

/// The first wait is the base, or the cap where that is smaller; every later one is twice the
/// one before it, or the cap, until the exponent is used up, and stays there.
pub proof fn law_waits_begin_at_the_base_and_double(
    policy: RetryPolicy,
    attempt: u32,
    first: u64,
    wait: u64,
    next: u64,
)
    requires
        attempt < u32::MAX,
        call_ensures(RetryPolicy::delay_ceiling_millis, (policy, 0u32), first),
        call_ensures(RetryPolicy::delay_ceiling_millis, (policy, attempt), wait),
        call_ensures(
            RetryPolicy::delay_ceiling_millis,
            (policy, (attempt + 1) as u32),
            next,
        ),
    ensures
        ({
            let Backoff::ExponentialJitter { base_millis, cap_millis } = policy.wait();
            &&& first <= base_millis && first <= cap_millis
            &&& first == base_millis || first == cap_millis
            &&& attempt < 32 ==> next <= 2 * wait && next <= cap_millis && (next == 2 * wait || next
                == cap_millis)
            &&& attempt >= 32 ==> next == wait
        }),
{
    let Backoff::ExponentialJitter { base_millis, cap_millis } = policy.wait();
    vstd::arithmetic::power2::lemma2_to64();
    assert(base_millis * pow2(0) == base_millis) by (nonlinear_arith)
        requires
            pow2(0) == 1,
    ;
    if attempt < 32 {
        lemma_pow2_unfold((attempt + 1) as nat);
        lemma_pow2_pos(attempt as nat);
        assert(base_millis * (2 * pow2(attempt as nat)) == 2 * (base_millis * pow2(attempt as nat))
            && base_millis * pow2(attempt as nat) >= 0) by (nonlinear_arith)
            requires
                pow2(attempt as nat) > 0,
                base_millis >= 0,
        ;
    }
}

} // verus!
