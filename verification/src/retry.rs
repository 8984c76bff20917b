//! Retrying with delays that double.
use vstd::arithmetic::power2::pow2;
use vstd::prelude::*;

verus! {

/// Attempts at creating a metadata store, and the delay after the first.
pub const INIT_MAX_ATTEMPTS: usize = 5;

pub const INIT_RETRY_BASE_DELAY_MS: u64 = 100;

/// Attempts at putting a file, and the delay after the first.
pub const PUT_MAX_ATTEMPTS: usize = 5;

pub const PUT_RETRY_BASE_DELAY_MS: u64 = 50;

/// What follows a failed attempt.
#[derive(Clone, Copy, Debug, PartialEq, Eq, Structural)]
pub enum RetryStep {
    Sleep { ms: u64 },
    GiveUp,
}

/// After failed attempt number `attempt`, counted from one: sleep for the base delay doubled once
/// for every earlier attempt, or give up after the last.
pub open spec fn after_failure_spec(attempt: nat, max_attempts: nat, base_ms: u64) -> RetryStep {
    if attempt >= max_attempts {
        RetryStep::GiveUp
    } else {
        RetryStep::Sleep {
            ms: if base_ms * pow2((attempt - 1) as nat) > u64::MAX {
                u64::MAX
            } else {
                (base_ms * pow2((attempt - 1) as nat)) as u64
            },
        }
    }
}

pub fn after_failure(attempt: usize, max_attempts: usize, base_ms: u64) -> (r: RetryStep)
    requires
        1 <= attempt,
        max_attempts <= 64,
    ensures
        r == after_failure_spec(attempt as nat, max_attempts as nat, base_ms),
{
    if attempt >= max_attempts {
        return RetryStep::GiveUp;
    }
    let k: u64 = (attempt - 1) as u64;
    proof {
        vstd::arithmetic::power2::lemma2_to64();
        vstd::arithmetic::power2::lemma2_to64_rest();
        if k < 63 {
            vstd::arithmetic::power2::lemma_pow2_strictly_increases(k as nat, 63);
        }
        vstd::bits::lemma_u64_shl_is_mul(1, k);
        assert(1 * pow2(k as nat) == pow2(k as nat));
    }
    let factor: u64 = 1u64 << k;
    let ms: u64 = match base_ms.checked_mul(factor) {
        Some(ms) => ms,
        None => u64::MAX,
    };
    RetryStep::Sleep { ms }
}

/// The delay after one attempt is twice that after the attempt before, as long as it fits.
pub proof fn lemma_delay_doubles(attempt: nat, max_attempts: nat, base_ms: u64)
    requires
        1 <= attempt,
        attempt + 1 < max_attempts,
        base_ms * pow2(attempt) <= u64::MAX,
    ensures
        after_failure_spec(attempt + 1, max_attempts, base_ms)->ms == 2 * after_failure_spec(
            attempt,
            max_attempts,
            base_ms,
        )->ms,
{
    vstd::arithmetic::power2::lemma_pow2_unfold(attempt);
    let p = pow2((attempt - 1) as nat);
    vstd::arithmetic::power2::lemma_pow2_pos((attempt - 1) as nat);
    assert(base_ms * (2 * p) == 2 * (base_ms * p)) by (nonlinear_arith);
    assert(base_ms * p >= 0) by (nonlinear_arith)
        requires
            p > 0,
    ;
}

/// What fails is tried again up to the number of attempts and no further. The first pause is the base,
/// and no pause is longer than 64 bits hold.
pub proof fn lemma_attempts_end(attempt: nat, max_attempts: nat, base_ms: u64)
    requires
        attempt >= 1,
    ensures
        after_failure_spec(attempt, max_attempts, base_ms) is GiveUp <==> attempt >= max_attempts,
        1 < max_attempts ==> after_failure_spec(1, max_attempts, base_ms) == (RetryStep::Sleep {
            ms: base_ms,
        }),
{
    vstd::arithmetic::power2::lemma2_to64();
    assert(base_ms * 1 == base_ms);
}

/// Opening a store is tried 5 times from a pause of 100 ms on, and putting a blob 5 times from a pause
/// of 50 ms on.
pub proof fn lemma_attempts_of_stores()
    ensures
        INIT_MAX_ATTEMPTS == 5,
        INIT_RETRY_BASE_DELAY_MS == 100,
        PUT_MAX_ATTEMPTS == 5,
        PUT_RETRY_BASE_DELAY_MS == 50,
{
}

} // verus!
