//! The attempts at one delivery.

use crate::webhook::payload::{EmailPayload, WebhookResult};
use vstd::prelude::*;

verus! {

/// A delivery under way. The first request goes out at once; how it went decides on the next.
#[derive(Debug, Clone)]
pub struct Delivery {
    pub payload: EmailPayload,
    /// The sender of the e-mail.
    pub sender_info: String,
    /// How long a request may take, in seconds.
    pub timeout_secs: u64,
    /// How often a failed request is tried again.
    pub max_retries: u32,
    /// How often it has been tried again so far.
    pub attempt: u32,
}

/// How a request went.
#[derive(Debug, Clone, Copy, PartialEq, Eq, Structural)]
pub enum AttemptOutcome {
    /// The webhook took the e-mail.
    Delivered,
    /// The request failed, or the webhook refused it.
    Failed,
    /// No answer came in time.
    TimedOut,
}

/// What follows a request.
#[derive(Debug, Clone)]
pub enum DeliveryStep {
    /// Wait, then send the request again.
    Retry { backoff_ms: u64 },
    /// The delivery is over.
    Finished(WebhookResult),
}

/// A number, wrapped around into 64 bits.
pub open spec fn wrapped(n: int) -> u64 {
    (n % 0x1_0000_0000_0000_0000) as u64
}

/// How long to wait before a retry, counted from one: 100 ms at first, then twice as long each
/// time.
pub open spec fn backoff_ms(retry: nat) -> nat
    decreases retry,
{
    if retry <= 1 {
        100
    } else {
        2 * backoff_ms((retry - 1) as nat)
    }
}

/// Whether a request is followed by another one.
pub open spec fn tries_again(attempt: nat, max_retries: nat, outcome: AttemptOutcome) -> bool {
    outcome != AttemptOutcome::Delivered && attempt < max_retries
}

/// The last retry whose wait fits in 64 bits of milliseconds.
pub const LAST_TIMED_RETRY: u32 = 58;

/// Every wait up to that retry fits.
proof fn lemma_backoff_fits(retry: nat)
    requires
        retry <= LAST_TIMED_RETRY,
    ensures
        backoff_ms(retry) <= u64::MAX,
{
    reveal_with_fuel(backoff_ms, 59);
    lemma_backoff_monotonic(retry, LAST_TIMED_RETRY as nat);
}

/// A later retry never waits less.
proof fn lemma_backoff_monotonic(early: nat, late: nat)
    requires
        early <= late,
    ensures
        backoff_ms(early) <= backoff_ms(late),
    decreases late,
{
    if early < late {
        lemma_backoff_monotonic(early, (late - 1) as nat);
    }
}

/// From this retry on, every wait is a multiple of 2^64 milliseconds.
proof fn lemma_backoff_vanishes(retry: nat)
    requires
        retry >= 63,
    ensures
        wrapped(backoff_ms(retry) as int) == 0,
    decreases retry,
{
    if retry == 63 {
        reveal_with_fuel(backoff_ms, 64);
    } else {
        lemma_backoff_vanishes((retry - 1) as nat);
    }
}

/// The wait before a retry, wrapped around into 64 bits.
fn backoff(retry: u32) -> (r: u64)
    ensures
        r == wrapped(backoff_ms(retry as nat) as int),
    decreases retry,
{
    if retry <= 1 {
        100
    } else if retry >= 63 {
        proof {
            lemma_backoff_vanishes(retry as nat);
        }
        0
    } else {
        backoff(retry - 1).wrapping_mul(2)
    }
}

/// Whether a delivery has gone one step on as it should: `wait` is the time to the next request.
pub open spec fn goes_on(
    before: Delivery,
    outcome: AttemptOutcome,
    after: Delivery,
    step: DeliveryStep,
    wait: nat,
) -> bool {
    &&& after.payload == before.payload
    &&& after.sender_info == before.sender_info
    &&& after.timeout_secs == before.timeout_secs
    &&& after.max_retries == before.max_retries
    &&& if tries_again(before.attempt as nat, before.max_retries as nat, outcome) {
        &&& after.attempt == before.attempt + 1
        &&& step matches DeliveryStep::Retry { backoff_ms } && backoff_ms == wait
    } else {
        &&& after.attempt == before.attempt
        &&& step matches DeliveryStep::Finished(result) && result.success == (outcome
            == AttemptOutcome::Delivered) && result.sender_info@ == before.sender_info@
    }
}

impl Delivery {
    /// Whether the wait that may follow a request fits.
    pub fn can_record(&self, outcome: AttemptOutcome) -> (r: bool)
        ensures
            r == (tries_again(self.attempt as nat, self.max_retries as nat, outcome)
                ==> self.attempt < LAST_TIMED_RETRY),
    {
        outcome == AttemptOutcome::Delivered || self.attempt >= self.max_retries || self.attempt
            < LAST_TIMED_RETRY
    }

    /// Decides what follows a request, given how it went.
    ///
    /// A delivered e-mail ends the delivery with success. Otherwise it is tried again as often as
    /// the settings allow, and ends in failure after that.
    pub fn record(&mut self, outcome: AttemptOutcome) -> (r: DeliveryStep)
        requires
            tries_again(old(self).attempt as nat, old(self).max_retries as nat, outcome) ==> old(
                self,
            ).attempt < LAST_TIMED_RETRY,
        ensures
            goes_on(
                *old(self),
                outcome,
                *final(self),
                r,
                backoff_ms((old(self).attempt + 1) as nat),
            ),
    {
        proof {
            if tries_again(self.attempt as nat, self.max_retries as nat, outcome) {
                lemma_backoff_fits((self.attempt + 1) as nat);
            }
        }
        self.record_wrapping(outcome)
    }

    /// Decides what follows a request as [`Delivery::record`] does, whatever the wait: one that
    /// does not fit in 64 bits wraps around.
    pub fn record_wrapping(&mut self, outcome: AttemptOutcome) -> (r: DeliveryStep)
        ensures
            goes_on(
                *old(self),
                outcome,
                *final(self),
                r,
                wrapped(backoff_ms((old(self).attempt + 1) as nat) as int) as nat,
            ),
    {
        if outcome != AttemptOutcome::Delivered && self.attempt < self.max_retries {
            self.attempt = self.attempt + 1;
            DeliveryStep::Retry { backoff_ms: backoff(self.attempt) }
        } else {
            DeliveryStep::Finished(
                WebhookResult {
                    success: outcome == AttemptOutcome::Delivered,
                    sender_info: self.sender_info.clone(),
                },
            )
        }
    }
}

/// How a delivery ends, given how its requests would go: how many were sent, and whether the
/// e-mail was delivered. `None` where it is not over after these.
pub open spec fn run(attempt: nat, max_retries: nat, outcomes: Seq<AttemptOutcome>) -> Option<
    (nat, bool),
>
    decreases outcomes.len(),
{
    if outcomes.len() == 0 {
        None
    } else if tries_again(attempt, max_retries, outcomes.first()) {
        match run(attempt + 1, max_retries, outcomes.drop_first()) {
            Some((sent, success)) => Some((sent + 1, success)),
            None => None,
        }
    } else {
        Some((1nat, outcomes.first() == AttemptOutcome::Delivered))
    }
}

/// A request that gets through within the retries ends the delivery with success, and nothing is
/// sent after it.
pub proof fn law_first_delivered_request_is_the_last(
    attempt: nat,
    max_retries: nat,
    outcomes: Seq<AttemptOutcome>,
    k: nat,
)
    requires
        attempt + k <= max_retries,
        k < outcomes.len(),
        outcomes[k as int] == AttemptOutcome::Delivered,
        forall|i: int| 0 <= i < k ==> outcomes[i] != AttemptOutcome::Delivered,
    ensures
        run(attempt, max_retries, outcomes) == Some((k + 1, true)),
    decreases k,
{
    if k > 0 {
        law_first_delivered_request_is_the_last(
            attempt + 1,
            max_retries,
            outcomes.drop_first(),
            (k - 1) as nat,
        );
    }
}

/// A delivery whose requests all fail is given up after one request and all the retries.
pub proof fn law_given_up_after_all_retries(
    attempt: nat,
    max_retries: nat,
    outcomes: Seq<AttemptOutcome>,
)
    requires
        attempt <= max_retries,
        max_retries - attempt < outcomes.len(),
        forall|i: int|
            0 <= i <= max_retries - attempt ==> outcomes[i] != AttemptOutcome::Delivered,
    ensures
        run(attempt, max_retries, outcomes) == Some(((max_retries - attempt + 1) as nat, false)),
    decreases max_retries - attempt,
{
    if attempt < max_retries {
        assert forall|i: int| 0 <= i <= max_retries - (attempt + 1) implies outcomes.drop_first()[i]
            != AttemptOutcome::Delivered by {
            assert(outcomes.drop_first()[i] == outcomes[i + 1]);
        }
        law_given_up_after_all_retries(attempt + 1, max_retries, outcomes.drop_first());
    }
}

/// The wait doubles from retry to retry, from 100 ms on.
pub proof fn law_backoff_doubles(retry: nat)
    requires
        retry >= 1,
    ensures
        backoff_ms(1) == 100,
        backoff_ms(retry + 1) == 2 * backoff_ms(retry),
{
}

} // verus!
