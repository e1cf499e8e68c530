//! What the dispatcher does, call by call.

use crate::config::Config;
use crate::webhook::delivery::{wrapped, Delivery};
use crate::webhook::payload::{EmailPayload, ForwardEmail, WebhookResult};
use crate::webhook::state::{
    after_events, counted, decides, dropped, ended, step, wrapped_short, Event, ForwardDecision,
    WebhookState,
};
use vstd::arithmetic::div_mod::lemma_mod_multiples_vanish;
use vstd::prelude::*;

verus! {

/// Whether a delivery carries an e-mail as it came, under the rules of a state.
pub open spec fn carries(s: WebhookState, payload: EmailPayload, delivery: Delivery) -> bool {
    &&& delivery.payload.sender == payload.sender
    &&& delivery.payload.sender_name == payload.sender_name
    &&& delivery.payload.recipient == payload.recipient
    &&& delivery.payload.subject == payload.subject
    &&& delivery.payload.body == payload.body
    &&& delivery.payload.html_body == payload.html_body
    &&& delivery.payload.headers == payload.headers
    &&& delivery.payload.attachments == payload.attachments
    &&& delivery.payload.dmarc_result == payload.dmarc_result
    &&& delivery.payload.authenticated_from == payload.authenticated_from
    &&& delivery.sender_info@ == payload.sender@
    &&& delivery.timeout_secs == s.webhook_timeout_secs
    &&& delivery.max_retries == s.max_retries
    &&& delivery.attempt == 0
}

/// An e-mail that is let through is delivered as it came, in every field; one that is not is
/// dropped, and its sender named.
pub proof fn law_payload_unchanged(
    s: WebhookState,
    message: ForwardEmail,
    through: bool,
    decision: ForwardDecision,
)
    requires
        decides(s, message, through, decision),
    ensures
        through <==> decision is Deliver,
        decision matches ForwardDecision::Deliver(delivery) ==> delivery.payload == message.payload
            && carries(s, message.payload, delivery),
        decision matches ForwardDecision::Drop { sender_info } ==> sender_info@
            == message.payload.sender@,
{
}

proof fn lemma_wrapped(n: int, rest: int, turns: int)
    ensures
        0 <= rest < 0x1_0000_0000_0000_0000 && n == rest + turns * 0x1_0000_0000_0000_0000
            ==> wrapped(n) == rest,
{
    if 0 <= rest < 0x1_0000_0000_0000_0000 && n == rest + turns * 0x1_0000_0000_0000_0000 {
        lemma_mod_multiples_vanish(turns, rest, 0x1_0000_0000_0000_0000);
    }
}

proof fn lemma_wrapped_short(n: u32)
    ensures
        wrapped_short(n + 1) == (if n == u32::MAX {
            0
        } else {
            n + 1
        }),
{
}

/// By default there are neither counts nor rules.
pub proof fn law_default_state(s: WebhookState)
    requires
        call_ensures(WebhookState::default, (), s),
    ensures
        !s.circuit_open,
        s.consecutive_failures == 0,
        s.circuit_opened_at_ms == 0,
        s.total_forwarded == 0,
        s.total_failed == 0,
        s.webhook_timeout_secs == 0,
        s.max_retries == 0,
        s.circuit_threshold == 0,
        s.circuit_reset_secs == 0,
{
}

/// The dispatcher starts with a closed circuit, nothing counted, and the rules of the settings.
pub proof fn law_created(config: Config, s: WebhookState)
    requires
        call_ensures(WebhookState::create, (&config,), s),
    ensures
        !s.circuit_open,
        s.consecutive_failures == 0,
        s.circuit_opened_at_ms == 0,
        s.total_forwarded == 0,
        s.total_failed == 0,
        s.webhook_timeout_secs == config.webhook_timeout_secs,
        s.max_retries == config.webhook_max_retries,
        s.circuit_threshold == config.circuit_breaker_threshold,
        s.circuit_reset_secs == config.circuit_breaker_reset_secs,
{
}

/// While the circuit is closed, an e-mail is delivered as it came, and nothing is counted yet.
pub proof fn law_closed_circuit_delivers(
    s: &mut WebhookState,
    message: ForwardEmail,
    now_ms: u64,
    decision: ForwardDecision,
)
    requires
        call_ensures(WebhookState::on_forward_email, (s, message, now_ms), decision),
        !old(s).circuit_open,
    ensures
        decision matches ForwardDecision::Deliver(delivery) && carries(
            *old(s),
            message.payload,
            delivery,
        ),
        final(s).consecutive_failures == old(s).consecutive_failures,
        final(s).circuit_open == old(s).circuit_open,
        final(s).circuit_opened_at_ms == old(s).circuit_opened_at_ms,
        final(s).total_forwarded == old(s).total_forwarded,
        final(s).total_failed == old(s).total_failed,
        final(s).webhook_timeout_secs == old(s).webhook_timeout_secs,
        final(s).max_retries == old(s).max_retries,
        final(s).circuit_threshold == old(s).circuit_threshold,
        final(s).circuit_reset_secs == old(s).circuit_reset_secs,
{
}

/// While the circuit is open, and up to the last millisecond of the reset time, an e-mail is
/// dropped: it counts as failed, and nothing else changes.
pub proof fn law_open_circuit_drops_email(
    s: &mut WebhookState,
    message: ForwardEmail,
    now_ms: u64,
    decision: ForwardDecision,
)
    requires
        call_ensures(WebhookState::on_forward_email, (s, message, now_ms), decision),
        old(s).circuit_open,
        0 <= now_ms - old(s).circuit_opened_at_ms <= old(s).circuit_reset_secs * 1000,
        old(s).total_failed < u64::MAX,
    ensures
        decision matches ForwardDecision::Drop { sender_info } && sender_info@
            == message.payload.sender@,
        final(s).total_failed == old(s).total_failed + 1,
        final(s).consecutive_failures == old(s).consecutive_failures,
        final(s).circuit_open == old(s).circuit_open,
        final(s).circuit_opened_at_ms == old(s).circuit_opened_at_ms,
        final(s).total_forwarded == old(s).total_forwarded,
        final(s).webhook_timeout_secs == old(s).webhook_timeout_secs,
        final(s).max_retries == old(s).max_retries,
        final(s).circuit_threshold == old(s).circuit_threshold,
        final(s).circuit_reset_secs == old(s).circuit_reset_secs,
{
}

/// Once the reset time has passed, the next e-mail is delivered as it came; the circuit is closed
/// and the failures are forgotten, and nothing else changes.
pub proof fn law_reset_circuit_delivers(
    s: &mut WebhookState,
    message: ForwardEmail,
    now_ms: u64,
    decision: ForwardDecision,
)
    requires
        call_ensures(WebhookState::on_forward_email, (s, message, now_ms), decision),
        old(s).circuit_open,
        now_ms - old(s).circuit_opened_at_ms > old(s).circuit_reset_secs * 1000,
    ensures
        decision matches ForwardDecision::Deliver(delivery) && carries(
            *old(s),
            message.payload,
            delivery,
        ),
        !final(s).circuit_open,
        final(s).consecutive_failures == 0,
        final(s).circuit_opened_at_ms == old(s).circuit_opened_at_ms,
        final(s).total_forwarded == old(s).total_forwarded,
        final(s).total_failed == old(s).total_failed,
        final(s).webhook_timeout_secs == old(s).webhook_timeout_secs,
        final(s).max_retries == old(s).max_retries,
        final(s).circuit_threshold == old(s).circuit_threshold,
        final(s).circuit_reset_secs == old(s).circuit_reset_secs,
{
}

/// A delivery that succeeded counts as forwarded and ends the run of failures; nothing else
/// changes, so an open circuit stays open.
pub proof fn law_success_recorded(s: &mut WebhookState, result: WebhookResult, now_ms: u64, r: ())
    requires
        call_ensures(WebhookState::on_result, (s, &result, now_ms), r),
        result.success,
        old(s).total_forwarded < u64::MAX,
    ensures
        final(s).consecutive_failures == 0,
        final(s).total_forwarded == old(s).total_forwarded + 1,
        final(s).circuit_open == old(s).circuit_open,
        final(s).circuit_opened_at_ms == old(s).circuit_opened_at_ms,
        final(s).total_failed == old(s).total_failed,
        final(s).webhook_timeout_secs == old(s).webhook_timeout_secs,
        final(s).max_retries == old(s).max_retries,
        final(s).circuit_threshold == old(s).circuit_threshold,
        final(s).circuit_reset_secs == old(s).circuit_reset_secs,
{
}

/// A delivery that failed counts as failed and adds to the run of failures. If the run is then as
/// long as the threshold, the circuit is open from now on; else it is as before.
pub proof fn law_failure_recorded(s: &mut WebhookState, result: WebhookResult, now_ms: u64, r: ())
    requires
        call_ensures(WebhookState::on_result, (s, &result, now_ms), r),
        !result.success,
        old(s).consecutive_failures < u32::MAX,
        old(s).total_failed < u64::MAX,
    ensures
        final(s).consecutive_failures == old(s).consecutive_failures + 1,
        final(s).total_failed == old(s).total_failed + 1,
        if final(s).consecutive_failures >= old(s).circuit_threshold {
            &&& final(s).circuit_open
            &&& final(s).circuit_opened_at_ms == now_ms
        } else {
            &&& final(s).circuit_open == old(s).circuit_open
            &&& final(s).circuit_opened_at_ms == old(s).circuit_opened_at_ms
        },
        final(s).total_forwarded == old(s).total_forwarded,
        final(s).webhook_timeout_secs == old(s).webhook_timeout_secs,
        final(s).max_retries == old(s).max_retries,
        final(s).circuit_threshold == old(s).circuit_threshold,
        final(s).circuit_reset_secs == old(s).circuit_reset_secs,
{
}

/// While the circuit is closed, an e-mail is delivered as it came, and nothing is counted yet.
pub proof fn law_closed_circuit_delivers_wrapping(
    s: &mut WebhookState,
    message: ForwardEmail,
    now_ms: u64,
    decision: ForwardDecision,
)
    requires
        call_ensures(WebhookState::on_forward_email_wrapping, (s, message, now_ms), decision),
        !old(s).circuit_open,
    ensures
        decision matches ForwardDecision::Deliver(delivery) && carries(
            *old(s),
            message.payload,
            delivery,
        ),
        final(s).consecutive_failures == old(s).consecutive_failures,
        final(s).circuit_open == old(s).circuit_open,
        final(s).circuit_opened_at_ms == old(s).circuit_opened_at_ms,
        final(s).total_forwarded == old(s).total_forwarded,
        final(s).total_failed == old(s).total_failed,
        final(s).webhook_timeout_secs == old(s).webhook_timeout_secs,
        final(s).max_retries == old(s).max_retries,
        final(s).circuit_threshold == old(s).circuit_threshold,
        final(s).circuit_reset_secs == old(s).circuit_reset_secs,
{
}

/// While the circuit is open, whatever the numbers: with `elapsed` the time since it opened and
/// `reset` the reset time, both modulo 2^64, an e-mail is delivered and the circuit closed exactly
/// if `elapsed` exceeds `reset`; else it is dropped and counted, modulo 2^64.
pub proof fn law_open_circuit_wrapping(
    s: &mut WebhookState,
    message: ForwardEmail,
    now_ms: u64,
    decision: ForwardDecision,
    elapsed: int,
    reset: int,
    turns: int,
    reset_turns: int,
)
    requires
        call_ensures(WebhookState::on_forward_email_wrapping, (s, message, now_ms), decision),
        old(s).circuit_open,
        0 <= elapsed < 0x1_0000_0000_0000_0000,
        0 <= reset < 0x1_0000_0000_0000_0000,
        now_ms - old(s).circuit_opened_at_ms == elapsed + turns * 0x1_0000_0000_0000_0000,
        old(s).circuit_reset_secs * 1000 == reset + reset_turns * 0x1_0000_0000_0000_0000,
    ensures
        if elapsed > reset {
            &&& decision matches ForwardDecision::Deliver(delivery)
            &&& carries(*old(s), message.payload, delivery)
            &&& !final(s).circuit_open
            &&& final(s).consecutive_failures == 0
            &&& final(s).total_failed == old(s).total_failed
        } else {
            &&& decision matches ForwardDecision::Drop { sender_info }
            &&& sender_info@ == message.payload.sender@
            &&& final(s).circuit_open
            &&& final(s).consecutive_failures == old(s).consecutive_failures
            &&& final(s).total_failed == (if old(s).total_failed == u64::MAX {
                0
            } else {
                old(s).total_failed + 1
            })
        },
        final(s).circuit_opened_at_ms == old(s).circuit_opened_at_ms,
        final(s).total_forwarded == old(s).total_forwarded,
        final(s).webhook_timeout_secs == old(s).webhook_timeout_secs,
        final(s).max_retries == old(s).max_retries,
        final(s).circuit_threshold == old(s).circuit_threshold,
        final(s).circuit_reset_secs == old(s).circuit_reset_secs,
{
    lemma_wrapped(now_ms - s.circuit_opened_at_ms, elapsed, turns);
    lemma_wrapped(s.circuit_reset_secs * 1000, reset, reset_turns);
    lemma_wrapped(s.total_failed + 1, 0, 1);
    lemma_wrapped(s.total_failed + 1, s.total_failed + 1, 0);
}

/// A delivery that succeeded counts as forwarded and ends the run of failures; nothing else
/// changes, so an open circuit stays open.
pub proof fn law_success_recorded_wrapping(
    s: &mut WebhookState,
    result: WebhookResult,
    now_ms: u64,
    r: (),
)
    requires
        call_ensures(WebhookState::on_result_wrapping, (s, &result, now_ms), r),
        result.success,
    ensures
        final(s).consecutive_failures == 0,
        final(s).total_forwarded == (if old(s).total_forwarded == u64::MAX {
            0
        } else {
            old(s).total_forwarded + 1
        }),
        final(s).circuit_open == old(s).circuit_open,
        final(s).circuit_opened_at_ms == old(s).circuit_opened_at_ms,
        final(s).total_failed == old(s).total_failed,
        final(s).webhook_timeout_secs == old(s).webhook_timeout_secs,
        final(s).max_retries == old(s).max_retries,
        final(s).circuit_threshold == old(s).circuit_threshold,
        final(s).circuit_reset_secs == old(s).circuit_reset_secs,
{
    lemma_wrapped(s.total_forwarded + 1, 0, 1);
    lemma_wrapped(s.total_forwarded + 1, s.total_forwarded + 1, 0);
}

/// A delivery that failed counts as failed and adds to the run of failures. If the run is then as
/// long as the threshold, the circuit is open from now on; else it is as before.
pub proof fn law_failure_recorded_wrapping(
    s: &mut WebhookState,
    result: WebhookResult,
    now_ms: u64,
    r: (),
)
    requires
        call_ensures(WebhookState::on_result_wrapping, (s, &result, now_ms), r),
        !result.success,
    ensures
        final(s).consecutive_failures == (if old(s).consecutive_failures == u32::MAX {
            0
        } else {
            old(s).consecutive_failures + 1
        }),
        final(s).total_failed == (if old(s).total_failed == u64::MAX {
            0
        } else {
            old(s).total_failed + 1
        }),
        if final(s).consecutive_failures >= old(s).circuit_threshold {
            &&& final(s).circuit_open
            &&& final(s).circuit_opened_at_ms == now_ms
        } else {
            &&& final(s).circuit_open == old(s).circuit_open
            &&& final(s).circuit_opened_at_ms == old(s).circuit_opened_at_ms
        },
        final(s).total_forwarded == old(s).total_forwarded,
        final(s).webhook_timeout_secs == old(s).webhook_timeout_secs,
        final(s).max_retries == old(s).max_retries,
        final(s).circuit_threshold == old(s).circuit_threshold,
        final(s).circuit_reset_secs == old(s).circuit_reset_secs,
{
    lemma_wrapped(s.total_failed + 1, 0, 1);
    lemma_wrapped(s.total_failed + 1, s.total_failed + 1, 0);
    lemma_wrapped_short(s.consecutive_failures);
}

/// How many deliveries ended in success, or in failure.
pub open spec fn ended_in(events: Seq<Event>, outcome: bool) -> nat
    decreases events.len(),
{
    if events.len() == 0 {
        0
    } else {
        ended_in(events.drop_last(), outcome) + (match events.last() {
            Event::Forward { .. } => 0nat,
            Event::Result { success, .. } => if success == outcome {
                1
            } else {
                0
            },
        })
    }
}

proof fn lemma_step_counts(s: WebhookState, event: Event)
    requires
        s.total_forwarded + s.total_failed + counted(s, event) <= u64::MAX,
    ensures
        step(s, event).total_forwarded == s.total_forwarded + (match event {
            Event::Forward { .. } => 0int,
            Event::Result { success, .. } => if success {
                1
            } else {
                0
            },
        }),
        step(s, event).total_failed == s.total_failed + (match event {
            Event::Forward { .. } => counted(s, event) as int,
            Event::Result { success, .. } => if success {
                0
            } else {
                1
            },
        }),
{
    lemma_wrapped(s.total_failed + 1, s.total_failed + 1, 0);
    lemma_wrapped(s.total_forwarded + 1, s.total_forwarded + 1, 0);
}

/// As forwarded count exactly the deliveries that succeeded; as failed exactly those that failed
/// and the e-mails that were dropped, whatever the clock and the reset time.
pub proof fn law_counts(s: WebhookState, events: Seq<Event>)
    requires
        s.total_forwarded + s.total_failed + dropped(s, events) + ended(events) <= u64::MAX,
    ensures
        after_events(s, events).total_forwarded == s.total_forwarded + ended_in(events, true),
        after_events(s, events).total_failed == s.total_failed + ended_in(events, false) + dropped(
            s,
            events,
        ),
        ended(events) == ended_in(events, true) + ended_in(events, false),
    decreases events.len(),
{
    if events.len() > 0 {
        law_counts(s, events.drop_last());
        lemma_step_counts(after_events(s, events.drop_last()), events.last());
    }
}

/// The numbers allow an e-mail exactly if what is computed of them fits in 64 bits.
pub proof fn law_can_forward(s: WebhookState, now_ms: u64, r: bool)
    requires
        call_ensures(WebhookState::can_forward, (&s, now_ms), r),
    ensures
        r <==> !s.circuit_open || {
            let elapsed = now_ms - s.circuit_opened_at_ms;
            let reset = s.circuit_reset_secs * 1000;
            &&& 0 <= elapsed
            &&& reset < 0x1_0000_0000_0000_0000
            &&& elapsed > reset || s.total_failed + 1 < 0x1_0000_0000_0000_0000
        },
{
}

/// A result can be recorded exactly if the counts that it adds to have room.
pub proof fn law_can_record_result(s: WebhookState, success: bool, r: bool)
    requires
        call_ensures(WebhookState::can_record, (&s, success), r),
    ensures
        success ==> (r <==> s.total_forwarded + 1 < 0x1_0000_0000_0000_0000),
        !success ==> (r <==> s.total_failed + 1 < 0x1_0000_0000_0000_0000 && s.consecutive_failures
            + 1 < 0x1_0000_0000),
{
}

} // verus!
