//! The notifier's delivery policy: at most three send attempts per
//! invocation, stopping at the first successful (2xx) delivery, with a
//! backoff of 500 ms times the attempt number between attempts. The
//! HTTP transport itself lives outside the library; the process drives
//! it with these decisions.

use vstd::prelude::*;

verus! {

/// The most send attempts one alert may consume.
pub const MAX_SEND_ATTEMPTS: u64 = 3;

/// Whether a further attempt follows attempt number `attempt` (counted
/// from 1) whose delivery result was `delivered`.
pub open spec fn spec_should_retry(attempt: int, delivered: bool) -> bool {
    !delivered && attempt < MAX_SEND_ATTEMPTS
}

/// How many sends the policy performs when the successive attempts
/// would come out as `outcomes` (first element first attempt), with
/// `budget` attempts still allowed.
pub open spec fn spec_attempts(outcomes: Seq<bool>, budget: nat) -> nat
    decreases budget,
{
    if budget == 0 || outcomes.len() == 0 {
        0
    } else if outcomes[0] {
        1
    } else {
        1 + spec_attempts(outcomes.drop_first(), (budget - 1) as nat)
    }
}

/// Decides whether to try again after attempt `attempt` (from 1) ended
/// with `delivered`.
pub fn should_retry(attempt: u64, delivered: bool) -> (r: bool)
    ensures
        r == spec_should_retry(attempt as int, delivered),
{
    !delivered && attempt < MAX_SEND_ATTEMPTS
}

/// The pause before the attempt after attempt `attempt`, in
/// milliseconds.
pub fn backoff_ms(attempt: u64) -> (r: u64)
    requires
        attempt <= MAX_SEND_ATTEMPTS,
    ensures
        r == 500 * attempt,
{
    500 * attempt
}

proof fn lemma_attempts_le_budget(outcomes: Seq<bool>, budget: nat)
    ensures
        spec_attempts(outcomes, budget) <= budget,
    decreases budget,
{
    if budget > 0 && outcomes.len() > 0 && !outcomes[0] {
        lemma_attempts_le_budget(outcomes.drop_first(), (budget - 1) as nat);
    }
}

proof fn lemma_attempts_first_success(outcomes: Seq<bool>, budget: nat, k: int)
    requires
        0 <= k < outcomes.len(),
        k < budget,
        outcomes[k],
        forall|j: int| 0 <= j < k ==> !outcomes[j],
    ensures
        spec_attempts(outcomes, budget) == k + 1,
    decreases budget,
{
    if k > 0 {
        let rest = outcomes.drop_first();
        assert(rest[k - 1] == outcomes[k]);
        assert forall|j: int| 0 <= j < k - 1 implies !rest[j] by {
            assert(rest[j] == outcomes[j + 1]);
        }
        lemma_attempts_first_success(rest, (budget - 1) as nat, k - 1);
    }
}

/// The notifier sends at most three times per invocation and stops on
/// the first successful delivery: with outcomes `outcomes` it performs
/// exactly `k + 1` sends when the first success is at attempt `k + 1 <= 3`,
/// and never more than three.
pub proof fn lemma_notifier_bounded(outcomes: Seq<bool>)
    ensures
        spec_attempts(outcomes, MAX_SEND_ATTEMPTS as nat) <= 3,
        outcomes.len() > 0 && outcomes[0] ==> spec_attempts(outcomes, MAX_SEND_ATTEMPTS as nat)
            == 1,
        forall|k: int|
            0 <= k < outcomes.len() && k < 3 && outcomes[k] && (forall|j: int|
                0 <= j < k ==> !outcomes[j]) ==> spec_attempts(outcomes, MAX_SEND_ATTEMPTS as nat)
                == k + 1,
{
    lemma_attempts_le_budget(outcomes, MAX_SEND_ATTEMPTS as nat);
    assert forall|k: int|
        0 <= k < outcomes.len() && k < 3 && outcomes[k] && (forall|j: int|
            0 <= j < k ==> !outcomes[j]) implies spec_attempts(outcomes, MAX_SEND_ATTEMPTS as nat)
        == k + 1 by {
        lemma_attempts_first_success(outcomes, MAX_SEND_ATTEMPTS as nat, k);
    }
}

} // verus!
