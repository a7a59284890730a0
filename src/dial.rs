use vstd::prelude::*;

verus! {

/// `b` to the power `e`.
pub open spec fn pow(b: int, e: nat) -> int
    decreases e,
{
    if e == 0 {
        1
    } else {
        b * pow(b, (e - 1) as nat)
    }
}

/// The wait before retry number `attempt`: `base ^ attempt` milliseconds,
/// capped at the largest `u64`.
pub open spec fn backoff_ms(base: u64, attempt: nat) -> int {
    if pow(base as int, attempt) > u64::MAX {
        u64::MAX as int
    } else {
        pow(base as int, attempt)
    }
}

/// What to do after a failed connection attempt.
#[derive(Debug, Clone, Copy, PartialEq, Eq, Structural)]
pub enum DialDecision {
    /// Wait `delay_ms`, then try the endpoint at index `endpoint`.
    Retry { endpoint: usize, delay_ms: u64 },
    /// Stop and report the last error.
    GiveUp,
}

proof fn lemma_pow_monotone(b: int, e: nat)
    requires
        b >= 1,
    ensures
        pow(b, e) >= 1,
        pow(b, e + 1) >= pow(b, e),
    decreases e,
{
    if e > 0 {
        lemma_pow_monotone(b, (e - 1) as nat);
    }
    assert(pow(b, e + 1) == b * pow(b, e));
    assert(b * pow(b, e) >= pow(b, e)) by (nonlinear_arith)
        requires
            b >= 1,
            pow(b, e) >= 1,
    ;
}

/// `base ^ attempt`, capped at the largest `u64`.
pub fn backoff(base: u64, attempt: usize) -> (r: u64)
    ensures
        r == backoff_ms(base, attempt as nat),
{
    if base == 0 {
        if attempt == 0 {
            return 1;
        }
        assert(pow(0, attempt as nat) == 0 * pow(0, (attempt - 1) as nat));
        return 0;
    }
    let mut acc: u64 = 1;
    let mut i: usize = 0;
    while i < attempt
        invariant
            base >= 1,
            i <= attempt,
            acc == pow(base as int, i as nat),
        decreases attempt - i,
    {
        assert(pow(base as int, (i + 1) as nat) == base * pow(base as int, i as nat));
        assert(acc * base == base * acc) by (nonlinear_arith);
        match acc.checked_mul(base) {
            Some(v) => {
                acc = v;
            },
            None => {
                proof {
                    lemma_pow_grows(base as int, (i + 1) as nat, attempt as nat);
                }
                return u64::MAX;
            },
        }
        i = i + 1;
    }
    acc
}

proof fn lemma_pow_grows(b: int, e: nat, f: nat)
    requires
        b >= 1,
        e <= f,
    ensures
        pow(b, e) <= pow(b, f),
    decreases f - e,
{
    if e < f {
        lemma_pow_monotone(b, e);
        lemma_pow_grows(b, e + 1, f);
    }
}

/// Decides what follows the failure of attempt number `attempts` (counted
/// from 1): at most `max_retries + 1` attempts in all, the endpoints taken in
/// turn, and before each retry a wait of `base_delay_ms ^ attempts`
/// milliseconds, capped.
pub fn after_failed_attempt(attempts: usize, max_retries: usize, endpoints: usize, base_delay_ms: u64) -> (r: DialDecision)
    requires
        endpoints > 0,
        attempts >= 1,
    ensures
        (r is GiveUp) <==> attempts > max_retries,
        r is Retry ==> r->endpoint == attempts % endpoints,
        r is Retry ==> r->delay_ms == backoff_ms(base_delay_ms, attempts as nat),
{
    if attempts > max_retries {
        return DialDecision::GiveUp;
    }
    DialDecision::Retry { endpoint: attempts % endpoints, delay_ms: backoff(base_delay_ms, attempts) }
}

} // verus!
