//! What a delivery does, call by call.

use crate::webhook::delivery::{
    backoff_ms, goes_on, run, wrapped, AttemptOutcome, Delivery, DeliveryStep,
};
use vstd::arithmetic::power2::{
    lemma2_to64, lemma2_to64_rest, lemma_pow2_strictly_increases, lemma_pow2_unfold, pow2,
};
use vstd::prelude::*;

verus! {

/// The wait before a retry is 100 ms times a power of two.
proof fn lemma_backoff_is_power(retry: nat)
    requires
        retry >= 1,
    ensures
        backoff_ms(retry) == 100 * pow2((retry - 1) as nat),
    decreases retry,
{
    if retry == 1 {
        lemma2_to64();
    } else {
        lemma_backoff_is_power((retry - 1) as nat);
        lemma_pow2_unfold((retry - 1) as nat);
    }
}

/// A delivery that goes on request by request, up to the one at position `k`.
proof fn lemma_delivery(
    calls: Seq<&mut Delivery>,
    outcomes: Seq<AttemptOutcome>,
    steps: Seq<DeliveryStep>,
    waits: Seq<nat>,
    k: int,
)
    requires
        calls.len() > 0,
        outcomes.len() == calls.len(),
        steps.len() == calls.len(),
        calls[0].attempt == 0,
        0 <= k < calls.len(),
        forall|i: int|
            0 <= i < calls.len() ==> goes_on(
                *calls[i],
                outcomes[i],
                *final(#[trigger] calls[i]),
                steps[i],
                waits[i],
            ),
        forall|i: int|
            0 <= i && i + 1 < calls.len() ==> *final(#[trigger] calls[i]) == *calls[i + 1],
        forall|i: int| 0 <= i < calls.len() - 1 ==> #[trigger] steps[i] is Retry,
    ensures
        k <= calls[0].max_retries,
        calls[k].attempt == k,
        calls[k].payload == calls[0].payload,
        calls[k].sender_info == calls[0].sender_info,
        calls[k].timeout_secs == calls[0].timeout_secs,
        calls[k].max_retries == calls[0].max_retries,
        forall|i: int| 0 <= i < k ==> #[trigger] outcomes[i] != AttemptOutcome::Delivered,
    decreases k,
{
    if k > 0 {
        lemma_delivery(calls, outcomes, steps, waits, k - 1);
        assert(goes_on(
            *calls[k - 1],
            outcomes[k - 1],
            *final(calls[k - 1]),
            steps[k - 1],
            waits[k - 1],
        ));
        assert(steps[k - 1] is Retry);
    }
}

/// How a delivery ends whose requests before the one at position `k` all failed.
proof fn lemma_run(attempt: nat, max_retries: nat, outcomes: Seq<AttemptOutcome>)
    requires
        outcomes.len() > 0,
        attempt + outcomes.len() <= max_retries + 1,
        forall|i: int|
            0 <= i < outcomes.len() - 1 ==> #[trigger] outcomes[i] != AttemptOutcome::Delivered,
        outcomes.last() == AttemptOutcome::Delivered || attempt + outcomes.len() == max_retries + 1,
    ensures
        run(attempt, max_retries, outcomes) == Some(
            (outcomes.len(), outcomes.last() == AttemptOutcome::Delivered),
        ),
    decreases outcomes.len(),
{
    if outcomes.len() > 1 {
        let rest = outcomes.drop_first();
        assert(outcomes[0] != AttemptOutcome::Delivered);
        assert forall|i: int| 0 <= i < rest.len() - 1 implies #[trigger] rest[i]
            != AttemptOutcome::Delivered by {
            assert(rest[i] == outcomes[i + 1]);
        }
        lemma_run(attempt + 1, max_retries, rest);
    }
}

/// A delivery, request by request, however it goes: `calls` are the calls of [`Delivery::record`]
/// up to any one of them, each on what the one before has left.
///
/// It is over exactly when the e-mail was delivered or the last retry has been made, and then it
/// has succeeded exactly if the last request got through: a time-out is a failure. Nothing is sent
/// after a request that got through, nor more often than the retries allow. The wait after the
/// request at position `i` is 100 ms times 2 to the power of `i`. What is sent, and how, stays.
pub proof fn law_delivery(
    calls: Seq<&mut Delivery>,
    outcomes: Seq<AttemptOutcome>,
    steps: Seq<DeliveryStep>,
)
    requires
        calls.len() > 0,
        outcomes.len() == calls.len(),
        steps.len() == calls.len(),
        calls[0].attempt == 0,
        forall|i: int|
            0 <= i < calls.len() ==> call_ensures(
                Delivery::record,
                (#[trigger] calls[i], outcomes[i]),
                steps[i],
            ),
        forall|i: int|
            0 <= i && i + 1 < calls.len() ==> *final(#[trigger] calls[i]) == *calls[i + 1],
        forall|i: int| 0 <= i < calls.len() - 1 ==> #[trigger] steps[i] is Retry,
    ensures
        calls.len() <= calls[0].max_retries + 1,
        forall|i: int|
            0 <= i < calls.len() - 1 ==> #[trigger] outcomes[i] != AttemptOutcome::Delivered,
        steps.last() is Finished <==> outcomes.last() == AttemptOutcome::Delivered || calls.len()
            == calls[0].max_retries + 1,
        steps.last() matches DeliveryStep::Finished(result) ==> result.success == (outcomes.last()
            == AttemptOutcome::Delivered) && result.sender_info@ == calls[0].sender_info@,
        steps.last() matches DeliveryStep::Finished(result) ==> run(
            0,
            calls[0].max_retries as nat,
            outcomes,
        ) == Some((calls.len(), result.success)),
        forall|i: int|
            0 <= i < calls.len() ==> (#[trigger] steps[i] matches DeliveryStep::Retry {
                backoff_ms,
            } ==> backoff_ms == 100 * pow2(i as nat)),
        forall|i: int|
            #![trigger outcomes[i]]
            0 <= i < calls.len() ==> calls[i].payload == calls[0].payload && calls[i].timeout_secs
                == calls[0].timeout_secs && calls[i].max_retries == calls[0].max_retries
                && calls[i].sender_info == calls[0].sender_info && calls[i].attempt == i,
        final(calls.last()).payload == calls[0].payload,
        final(calls.last()).timeout_secs == calls[0].timeout_secs,
        final(calls.last()).max_retries == calls[0].max_retries,
        final(calls.last()).sender_info == calls[0].sender_info,
        final(calls.last()).attempt == calls.len() - (if steps.last() is Finished {
            1int
        } else {
            0
        }),
{
    let waits = Seq::new(calls.len(), |i: int| backoff_ms((calls[i].attempt + 1) as nat));
    let n = calls.len() as int;
    assert forall|i: int| 0 <= i < n implies goes_on(
        *calls[i],
        outcomes[i],
        *final(#[trigger] calls[i]),
        steps[i],
        waits[i],
    ) by {
        assert(call_ensures(Delivery::record, (calls[i], outcomes[i]), steps[i]));
    }
    assert forall|i: int| 0 <= i < n implies {
        &&& calls[i].payload == calls[0].payload
        &&& calls[i].timeout_secs == calls[0].timeout_secs
        &&& calls[i].max_retries == calls[0].max_retries
        &&& calls[i].sender_info == calls[0].sender_info
        &&& calls[i].attempt == i
    } by {
        lemma_delivery(calls, outcomes, steps, waits, i);
    }
    assert forall|i: int| 0 <= i < n implies (#[trigger] steps[i] matches DeliveryStep::Retry {
        backoff_ms,
    } ==> backoff_ms == 100 * pow2(i as nat)) by {
        assert(goes_on(*calls[i], outcomes[i], *final(calls[i]), steps[i], waits[i]));
        lemma_delivery(calls, outcomes, steps, waits, i);
        lemma_backoff_is_power((i + 1) as nat);
    }
    lemma_delivery(calls, outcomes, steps, waits, n - 1);
    assert(goes_on(
        *calls[n - 1],
        outcomes[n - 1],
        *final(calls[n - 1]),
        steps[n - 1],
        waits[n - 1],
    ));
    if steps.last() is Finished {
        lemma_run(0, calls[0].max_retries as nat, outcomes);
    }
}

/// A delivery by [`Delivery::record_wrapping`] goes as one by [`Delivery::record`] does, but that a
/// wait is taken modulo 2^64.
pub proof fn law_delivery_wrapping(
    calls: Seq<&mut Delivery>,
    outcomes: Seq<AttemptOutcome>,
    steps: Seq<DeliveryStep>,
)
    requires
        calls.len() > 0,
        outcomes.len() == calls.len(),
        steps.len() == calls.len(),
        calls[0].attempt == 0,
        forall|i: int|
            0 <= i < calls.len() ==> call_ensures(
                Delivery::record_wrapping,
                (#[trigger] calls[i], outcomes[i]),
                steps[i],
            ),
        forall|i: int|
            0 <= i && i + 1 < calls.len() ==> *final(#[trigger] calls[i]) == *calls[i + 1],
        forall|i: int| 0 <= i < calls.len() - 1 ==> #[trigger] steps[i] is Retry,
    ensures
        calls.len() <= calls[0].max_retries + 1,
        forall|i: int|
            0 <= i < calls.len() - 1 ==> #[trigger] outcomes[i] != AttemptOutcome::Delivered,
        steps.last() is Finished <==> outcomes.last() == AttemptOutcome::Delivered || calls.len()
            == calls[0].max_retries + 1,
        steps.last() matches DeliveryStep::Finished(result) ==> result.success == (outcomes.last()
            == AttemptOutcome::Delivered) && result.sender_info@ == calls[0].sender_info@,
        steps.last() matches DeliveryStep::Finished(result) ==> run(
            0,
            calls[0].max_retries as nat,
            outcomes,
        ) == Some((calls.len(), result.success)),
        forall|i: int|
            0 <= i < calls.len() ==> (#[trigger] steps[i] matches DeliveryStep::Retry {
                backoff_ms,
            } ==> backoff_ms == (100 * pow2(i as nat)) % 0x1_0000_0000_0000_0000),
        forall|i: int|
            #![trigger outcomes[i]]
            0 <= i < calls.len() ==> calls[i].payload == calls[0].payload && calls[i].timeout_secs
                == calls[0].timeout_secs && calls[i].max_retries == calls[0].max_retries
                && calls[i].sender_info == calls[0].sender_info && calls[i].attempt == i,
        final(calls.last()).payload == calls[0].payload,
        final(calls.last()).timeout_secs == calls[0].timeout_secs,
        final(calls.last()).max_retries == calls[0].max_retries,
        final(calls.last()).sender_info == calls[0].sender_info,
        final(calls.last()).attempt == calls.len() - (if steps.last() is Finished {
            1int
        } else {
            0
        }),
{
    let waits = Seq::new(calls.len(), |i: int| wrapped(
            backoff_ms((calls[i].attempt + 1) as nat) as int,
        ) as nat);
    let n = calls.len() as int;
    assert forall|i: int| 0 <= i < n implies goes_on(
        *calls[i],
        outcomes[i],
        *final(#[trigger] calls[i]),
        steps[i],
        waits[i],
    ) by {
        assert(call_ensures(Delivery::record_wrapping, (calls[i], outcomes[i]), steps[i]));
    }
    assert forall|i: int| 0 <= i < n implies {
        &&& calls[i].payload == calls[0].payload
        &&& calls[i].timeout_secs == calls[0].timeout_secs
        &&& calls[i].max_retries == calls[0].max_retries
        &&& calls[i].sender_info == calls[0].sender_info
        &&& calls[i].attempt == i
    } by {
        lemma_delivery(calls, outcomes, steps, waits, i);
    }
    assert forall|i: int| 0 <= i < n implies (#[trigger] steps[i] matches DeliveryStep::Retry {
        backoff_ms,
    } ==> backoff_ms == (100 * pow2(i as nat)) % 0x1_0000_0000_0000_0000) by {
        assert(goes_on(*calls[i], outcomes[i], *final(calls[i]), steps[i], waits[i]));
        lemma_delivery(calls, outcomes, steps, waits, i);
        lemma_backoff_is_power((i + 1) as nat);
    }
    lemma_delivery(calls, outcomes, steps, waits, n - 1);
    assert(goes_on(
        *calls[n - 1],
        outcomes[n - 1],
        *final(calls[n - 1]),
        steps[n - 1],
        waits[n - 1],
    ));
    if steps.last() is Finished {
        lemma_run(0, calls[0].max_retries as nat, outcomes);
    }
}

/// A wait fits exactly if it is less than 2^64 milliseconds.
pub proof fn law_can_record(delivery: Delivery, outcome: AttemptOutcome, r: bool)
    requires
        call_ensures(Delivery::can_record, (&delivery, outcome), r),
    ensures
        r <==> outcome == AttemptOutcome::Delivered || delivery.attempt >= delivery.max_retries
            || 100 * pow2(delivery.attempt as nat) < 0x1_0000_0000_0000_0000,
{
    lemma2_to64();
    lemma2_to64_rest();
    if delivery.attempt < 57 {
        lemma_pow2_strictly_increases(delivery.attempt as nat, 57);
    } else if delivery.attempt > 58 {
        lemma_pow2_strictly_increases(58, delivery.attempt as nat);
    }
}

} // verus!
