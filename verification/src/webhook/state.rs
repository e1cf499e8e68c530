//! The circuit breaker.

use crate::config::Config;
use crate::webhook::delivery::{wrapped, Delivery};
use crate::webhook::payload::{ForwardEmail, WebhookResult};
use vstd::arithmetic::div_mod::lemma_mod_multiples_vanish;
use vstd::prelude::*;

verus! {

/// The state of the webhook dispatcher: the circuit breaker, the counts, and the settings that
/// rule them. Times are in milliseconds since the Unix epoch.
#[derive(Debug, Clone, Copy, PartialEq, Eq, Structural)]
pub struct WebhookState {
    pub consecutive_failures: u32,
    pub circuit_open: bool,
    pub circuit_opened_at_ms: u64,
    pub total_forwarded: u64,
    pub total_failed: u64,
    pub webhook_timeout_secs: u64,
    pub max_retries: u32,
    pub circuit_threshold: u32,
    pub circuit_reset_secs: u64,
}

/// What becomes of an e-mail that is to be forwarded.
#[derive(Debug, Clone)]
pub enum ForwardDecision {
    /// It is delivered.
    Deliver(Delivery),
    /// The circuit is open: it is dropped.
    Drop {
        /// The sender of the e-mail.
        sender_info: String,
    },
}

/// Whether an e-mail that comes at `now_ms` is let through: the circuit is closed, or has been
/// open for longer than the reset time.
pub open spec fn lets_through(s: WebhookState, now_ms: u64) -> bool {
    !s.circuit_open || now_ms - s.circuit_opened_at_ms > s.circuit_reset_secs * 1000
}

/// The state after an e-mail has come at `now_ms`.
pub open spec fn after_forward(s: WebhookState, now_ms: u64) -> WebhookState {
    if !lets_through(s, now_ms) {
        WebhookState { total_failed: (s.total_failed + 1) as u64, ..s }
    } else if s.circuit_open {
        WebhookState { circuit_open: false, consecutive_failures: 0, ..s }
    } else {
        s
    }
}

/// The state after a delivery has ended at `now_ms`.
pub open spec fn after_result(s: WebhookState, success: bool, now_ms: u64) -> WebhookState {
    if success {
        WebhookState {
            consecutive_failures: 0,
            total_forwarded: (s.total_forwarded + 1) as u64,
            ..s
        }
    } else if s.consecutive_failures + 1 >= s.circuit_threshold {
        WebhookState {
            consecutive_failures: (s.consecutive_failures + 1) as u32,
            total_failed: (s.total_failed + 1) as u64,
            circuit_open: true,
            circuit_opened_at_ms: now_ms,
            ..s
        }
    } else {
        WebhookState {
            consecutive_failures: (s.consecutive_failures + 1) as u32,
            total_failed: (s.total_failed + 1) as u64,
            ..s
        }
    }
}

/// Whether the numbers allow an e-mail at `now_ms`: the clock has not gone back behind the opening
/// of the circuit, and neither the reset time nor the count is too large.
pub open spec fn forward_fits(s: WebhookState, now_ms: u64) -> bool {
    s.circuit_open ==> {
        &&& s.circuit_opened_at_ms <= now_ms
        &&& s.circuit_reset_secs * 1000 <= u64::MAX
        &&& lets_through(s, now_ms) || s.total_failed < u64::MAX
    }
}

/// Whether an e-mail that comes at `now_ms` is let through, in arithmetic that wraps around.
pub open spec fn lets_through_wrapping(s: WebhookState, now_ms: u64) -> bool {
    !s.circuit_open || wrapped(now_ms - s.circuit_opened_at_ms) > wrapped(
        s.circuit_reset_secs * 1000,
    )
}

/// The state after an e-mail has come at `now_ms`, in arithmetic that wraps around.
pub open spec fn after_forward_wrapping(s: WebhookState, now_ms: u64) -> WebhookState {
    if !lets_through_wrapping(s, now_ms) {
        WebhookState { total_failed: wrapped(s.total_failed + 1), ..s }
    } else if s.circuit_open {
        WebhookState { circuit_open: false, consecutive_failures: 0, ..s }
    } else {
        s
    }
}

/// Where the numbers allow an e-mail, nothing wraps around.
pub proof fn lemma_forward_without_wrapping(s: WebhookState, now_ms: u64)
    requires
        forward_fits(s, now_ms),
    ensures
        lets_through_wrapping(s, now_ms) == lets_through(s, now_ms),
        after_forward_wrapping(s, now_ms) == after_forward(s, now_ms),
{
}

/// A number, wrapped around into 32 bits.
pub open spec fn wrapped_short(n: int) -> u32 {
    (n % 0x1_0000_0000) as u32
}

/// The state after a delivery has ended at `now_ms`, in arithmetic that wraps around.
pub open spec fn after_result_wrapping(
    s: WebhookState,
    success: bool,
    now_ms: u64,
) -> WebhookState {
    let failures = wrapped_short(s.consecutive_failures + 1);
    if success {
        WebhookState {
            consecutive_failures: 0,
            total_forwarded: wrapped(s.total_forwarded + 1),
            ..s
        }
    } else if failures >= s.circuit_threshold {
        WebhookState {
            consecutive_failures: failures,
            total_failed: wrapped(s.total_failed + 1),
            circuit_open: true,
            circuit_opened_at_ms: now_ms,
            ..s
        }
    } else {
        WebhookState {
            consecutive_failures: failures,
            total_failed: wrapped(s.total_failed + 1),
            ..s
        }
    }
}

/// Whether a decision is the right one on an e-mail that is let through, or not: to deliver it by
/// the rules of the state, or to drop it.
pub open spec fn decides(
    s: WebhookState,
    message: ForwardEmail,
    through: bool,
    decision: ForwardDecision,
) -> bool {
    match decision {
        ForwardDecision::Deliver(delivery) => {
            &&& through
            &&& delivery.payload == message.payload
            &&& delivery.sender_info@ == message.payload.sender@
            &&& delivery.timeout_secs == s.webhook_timeout_secs
            &&& delivery.max_retries == s.max_retries
            &&& delivery.attempt == 0
        },
        ForwardDecision::Drop { sender_info } => !through && sender_info@
            == message.payload.sender@,
    }
}

/// Whether the counts have room for a delivery that ends.
pub open spec fn result_fits(s: WebhookState, success: bool) -> bool {
    if success {
        s.total_forwarded < u64::MAX
    } else {
        s.consecutive_failures < u32::MAX && s.total_failed < u64::MAX
    }
}

/// Where the counts have room for a delivery that ends, nothing wraps around.
pub proof fn lemma_result_without_wrapping(s: WebhookState, success: bool, now_ms: u64)
    requires
        result_fits(s, success),
    ensures
        after_result_wrapping(s, success, now_ms) == after_result(s, success, now_ms),
{
}

impl Default for WebhookState {
    fn default() -> (r: Self)
        ensures
            r == (WebhookState {
                consecutive_failures: 0,
                circuit_open: false,
                circuit_opened_at_ms: 0,
                total_forwarded: 0,
                total_failed: 0,
                webhook_timeout_secs: 0,
                max_retries: 0,
                circuit_threshold: 0,
                circuit_reset_secs: 0,
            }),
    {
        WebhookState {
            consecutive_failures: 0,
            circuit_open: false,
            circuit_opened_at_ms: 0,
            total_forwarded: 0,
            total_failed: 0,
            webhook_timeout_secs: 0,
            max_retries: 0,
            circuit_threshold: 0,
            circuit_reset_secs: 0,
        }
    }
}

impl WebhookState {
    /// While the circuit is closed, the failures in a row have not reached the threshold; and they
    /// are among all failures.
    pub open spec fn well_formed(self) -> bool {
        &&& !self.circuit_open ==> self.consecutive_failures == 0 || self.consecutive_failures
            < self.circuit_threshold
        &&& self.consecutive_failures <= self.total_failed
    }

    /// The state to start with: a closed circuit, nothing counted, the rules from the settings.
    pub fn create(config: &Config) -> (r: Self)
        ensures
            r == (WebhookState {
                consecutive_failures: 0,
                circuit_open: false,
                circuit_opened_at_ms: 0,
                total_forwarded: 0,
                total_failed: 0,
                webhook_timeout_secs: config.webhook_timeout_secs,
                max_retries: config.webhook_max_retries,
                circuit_threshold: config.circuit_breaker_threshold,
                circuit_reset_secs: config.circuit_breaker_reset_secs,
            }),
            r.well_formed(),
    {
        WebhookState {
            webhook_timeout_secs: config.webhook_timeout_secs,
            max_retries: config.webhook_max_retries,
            circuit_threshold: config.circuit_breaker_threshold,
            circuit_reset_secs: config.circuit_breaker_reset_secs,
            ..WebhookState::default()
        }
    }

    /// Whether the numbers allow an e-mail at `now_ms`.
    pub fn can_forward(&self, now_ms: u64) -> (r: bool)
        ensures
            r == forward_fits(*self, now_ms),
    {
        if !self.circuit_open {
            return true;
        }
        if now_ms < self.circuit_opened_at_ms || self.circuit_reset_secs > 18_446_744_073_709_551 {
            return false;
        }
        now_ms - self.circuit_opened_at_ms > self.circuit_reset_secs * 1000 || self.total_failed
            < 18_446_744_073_709_551_615
    }

    /// Whether the counts have room for a delivery that ends.
    pub fn can_record(&self, success: bool) -> (r: bool)
        ensures
            r == result_fits(*self, success),
    {
        if success {
            self.total_forwarded < 18_446_744_073_709_551_615
        } else {
            self.consecutive_failures < 4_294_967_295 && self.total_failed
                < 18_446_744_073_709_551_615
        }
    }

    /// Decides on an e-mail that comes at `now_ms`.
    ///
    /// An open circuit drops it and counts a failure, until the reset time has passed: then the
    /// circuit closes, and this e-mail is let through like any other.
    pub fn on_forward_email(&mut self, message: ForwardEmail, now_ms: u64) -> (r: ForwardDecision)
        requires
            forward_fits(*old(self), now_ms),
        ensures
            *final(self) == after_forward(*old(self), now_ms),
            old(self).well_formed() ==> final(self).well_formed(),
            decides(*old(self), message, lets_through(*old(self), now_ms), r),
    {
        proof {
            lemma_forward_without_wrapping(*self, now_ms);
        }
        self.on_forward_email_wrapping(message, now_ms)
    }

    /// Decides on an e-mail as [`WebhookState::on_forward_email`] does, whatever the numbers: what
    /// does not fit in 64 bits wraps around. So a clock that has gone back behind the opening of
    /// the circuit counts as one that is far ahead.
    pub fn on_forward_email_wrapping(&mut self, message: ForwardEmail, now_ms: u64) -> (r:
        ForwardDecision)
        ensures
            *final(self) == after_forward_wrapping(*old(self), now_ms),
            old(self).well_formed() && old(self).total_failed < u64::MAX
                ==> final(self).well_formed(),
            decides(*old(self), message, lets_through_wrapping(*old(self), now_ms), r),
    {
        let sender_info = message.payload.sender.clone();
        if self.circuit_open {
            let elapsed: u64 = now_ms.wrapping_sub(self.circuit_opened_at_ms);
            if elapsed > self.circuit_reset_secs.wrapping_mul(1000) {
                self.circuit_open = false;
                self.consecutive_failures = 0;
            } else {
                self.total_failed = self.total_failed.wrapping_add(1);
                return ForwardDecision::Drop { sender_info };
            }
        }
        ForwardDecision::Deliver(
            Delivery {
                payload: message.payload,
                sender_info,
                timeout_secs: self.webhook_timeout_secs,
                max_retries: self.max_retries,
                attempt: 0,
            },
        )
    }

    /// Takes note of a delivery that ended at `now_ms`.
    ///
    /// A success ends the run of failures. The failure that makes the run as long as the threshold,
    /// and every one after it, opens the circuit.
    pub fn on_result(&mut self, result: &WebhookResult, now_ms: u64)
        requires
            result_fits(*old(self), result.success),
        ensures
            *final(self) == after_result(*old(self), result.success, now_ms),
            old(self).well_formed() ==> final(self).well_formed(),
    {
        proof {
            lemma_result_without_wrapping(*self, result.success, now_ms);
        }
        self.on_result_wrapping(result, now_ms)
    }

    /// Takes note of a delivery as [`WebhookState::on_result`] does, whatever the counts: those
    /// that are full wrap around.
    pub fn on_result_wrapping(&mut self, result: &WebhookResult, now_ms: u64)
        ensures
            *final(self) == after_result_wrapping(*old(self), result.success, now_ms),
            old(self).well_formed() && old(self).total_failed < u64::MAX
                ==> final(self).well_formed(),
    {
        if result.success {
            self.consecutive_failures = 0;
            self.total_forwarded = self.total_forwarded.wrapping_add(1);
        } else {
            self.consecutive_failures = self.consecutive_failures.wrapping_add(1);
            self.total_failed = self.total_failed.wrapping_add(1);
            if self.consecutive_failures >= self.circuit_threshold {
                self.circuit_open = true;
                self.circuit_opened_at_ms = now_ms;
            }
        }
    }
}

/// While the circuit is open and the reset time has not passed, an e-mail is dropped: the only
/// trace of it is one more failure.
pub proof fn law_open_circuit_drops(s: WebhookState, now_ms: u64)
    requires
        s.circuit_open,
        s.circuit_opened_at_ms <= now_ms <= s.circuit_opened_at_ms + s.circuit_reset_secs * 1000,
    ensures
        !lets_through(s, now_ms),
        after_forward(s, now_ms) == (WebhookState {
            total_failed: (s.total_failed + 1) as u64,
            ..s
        }),
{
}

/// Once the reset time has passed, the next e-mail is let through and finds the circuit closed,
/// with no failure held against it.
pub proof fn law_circuit_closes_after_reset(s: WebhookState, now_ms: u64)
    requires
        s.circuit_open,
        now_ms > s.circuit_opened_at_ms + s.circuit_reset_secs * 1000,
    ensures
        lets_through(s, now_ms),
        after_forward(s, now_ms) == (WebhookState {
            circuit_open: false,
            consecutive_failures: 0,
            ..s
        }),
{
}

/// A closed circuit lets every e-mail through and is not changed by it.
pub proof fn law_closed_circuit_lets_through(s: WebhookState, now_ms: u64)
    requires
        !s.circuit_open,
    ensures
        lets_through(s, now_ms),
        after_forward(s, now_ms) == s,
{
}

/// The state after deliveries that all failed, at these times.
pub open spec fn after_failures(s: WebhookState, times: Seq<u64>) -> WebhookState
    decreases times.len(),
{
    if times.len() == 0 {
        s
    } else {
        after_result(after_failures(s, times.drop_last()), false, times.last())
    }
}

/// From a closed circuit with no failure behind it, the circuit opens with the failure that makes
/// the run as long as the threshold (the first one, where the threshold is zero), and not before.
pub proof fn law_opens_at_threshold(s: WebhookState, times: Seq<u64>)
    requires
        !s.circuit_open,
        s.consecutive_failures == 0,
        times.len() <= s.circuit_threshold || times.len() == 1,
    ensures
        after_failures(s, times).consecutive_failures == times.len(),
        after_failures(s, times).circuit_threshold == s.circuit_threshold,
        after_failures(s, times).circuit_open <==> times.len() > 0 && times.len()
            >= s.circuit_threshold,
        after_failures(s, times).circuit_open ==> after_failures(s, times).circuit_opened_at_ms
            == times.last(),
    decreases times.len(),
{
    if times.len() > 0 {
        law_opens_at_threshold(s, times.drop_last());
    }
}

/// A success ends the run of failures, so that it takes a whole new run to open the circuit.
pub proof fn law_success_ends_run(s: WebhookState, now_ms: u64)
    ensures
        after_result(s, true, now_ms).consecutive_failures == 0,
        after_result(s, true, now_ms).circuit_open == s.circuit_open,
{
}

/// Something that happens to the dispatcher.
pub enum Event {
    /// An e-mail comes.
    Forward { now_ms: u64 },
    /// A delivery ends.
    Result { success: bool, now_ms: u64 },
}

/// The state after an event, in arithmetic that wraps around.
pub open spec fn step(s: WebhookState, event: Event) -> WebhookState {
    match event {
        Event::Forward { now_ms } => after_forward_wrapping(s, now_ms),
        Event::Result { success, now_ms } => after_result_wrapping(s, success, now_ms),
    }
}

/// Where the numbers allow an event, it is as if they had no limits.
pub proof fn law_steps_without_wrapping(s: WebhookState, event: Event)
    ensures
        event matches Event::Forward { now_ms } ==> (forward_fits(s, now_ms) ==> step(s, event)
            == after_forward(s, now_ms)),
        event matches Event::Result { success, now_ms } ==> (result_fits(s, success) ==> step(
            s,
            event,
        ) == after_result(s, success, now_ms)),
{
}

/// Nothing but an e-mail after the reset time closes an open circuit.
pub proof fn law_open_until_reset(s: WebhookState, event: Event)
    requires
        s.circuit_open,
        event matches Event::Forward { now_ms } ==> !lets_through_wrapping(s, now_ms),
    ensures
        step(s, event).circuit_open,
{
}

/// The state after events.
pub open spec fn after_events(s: WebhookState, events: Seq<Event>) -> WebhookState
    decreases events.len(),
{
    if events.len() == 0 {
        s
    } else {
        step(after_events(s, events.drop_last()), events.last())
    }
}

/// How many e-mails came.
pub open spec fn received(events: Seq<Event>) -> nat
    decreases events.len(),
{
    if events.len() == 0 {
        0
    } else {
        received(events.drop_last()) + (if events.last() is Forward {
            1nat
        } else {
            0
        })
    }
}

/// How many deliveries ended.
pub open spec fn ended(events: Seq<Event>) -> nat
    decreases events.len(),
{
    if events.len() == 0 {
        0
    } else {
        ended(events.drop_last()) + (if events.last() is Result {
            1nat
        } else {
            0
        })
    }
}

/// How many e-mails an event counts: one that is dropped, or whose delivery ends.
pub open spec fn counted(s: WebhookState, event: Event) -> nat {
    match event {
        Event::Forward { now_ms } => if lets_through_wrapping(s, now_ms) {
            0
        } else {
            1
        },
        Event::Result { success, now_ms } => 1,
    }
}

/// How many e-mails were dropped.
pub open spec fn dropped(s: WebhookState, events: Seq<Event>) -> nat
    decreases events.len(),
{
    if events.len() == 0 {
        0
    } else {
        dropped(s, events.drop_last()) + (if events.last() is Forward {
            counted(after_events(s, events.drop_last()), events.last())
        } else {
            0
        })
    }
}

proof fn lemma_wrapped_small(n: int)
    ensures
        0 <= n <= u64::MAX ==> wrapped(n) == n,
        n == u64::MAX + 1 ==> wrapped(n) == 0,
{
}

proof fn lemma_wrapped_sum(a: int, b: int, c: int, sum: int)
    requires
        wrapped(a) == wrapped(b),
        sum == a + c || sum == a + c - 0x1_0000_0000_0000_0000,
    ensures
        wrapped(sum) == wrapped(b + c),
{
    let m: int = 0x1_0000_0000_0000_0000;
    let k = a / m - b / m;
    assert(a == b + m * k);
    if sum == a + c {
        lemma_mod_multiples_vanish(k, b + c, m);
    } else {
        lemma_mod_multiples_vanish(k - 1, b + c, m);
    }
}

/// What an event does to the counts, and that it keeps the invariant while they have room.
proof fn lemma_step(s: WebhookState, event: Event)
    ensures
        ({
            let t = step(s, event);
            let sum = s.total_forwarded + s.total_failed + counted(s, event);
            &&& sum <= u64::MAX ==> t.total_forwarded + t.total_failed == sum
            &&& sum <= u64::MAX && s.well_formed() ==> t.well_formed()
            &&& t.total_forwarded + t.total_failed == sum || t.total_forwarded + t.total_failed
                == sum - 0x1_0000_0000_0000_0000
            &&& t.webhook_timeout_secs == s.webhook_timeout_secs
            &&& t.max_retries == s.max_retries
            &&& t.circuit_threshold == s.circuit_threshold
            &&& t.circuit_reset_secs == s.circuit_reset_secs
        }),
{
    lemma_wrapped_small(s.total_failed + 1);
    lemma_wrapped_small(s.total_forwarded + 1);
}

/// Whatever happens, in whatever order: while the circuit is closed, the failures in a row stay
/// below the threshold; they never exceed all failures; and the settings stay as they were. Only
/// the counts of e-mails must have room.
pub proof fn law_invariant(s: WebhookState, events: Seq<Event>)
    requires
        s.well_formed(),
        s.total_forwarded + s.total_failed + dropped(s, events) + ended(events) <= u64::MAX,
    ensures
        after_events(s, events).well_formed(),
        after_events(s, events).webhook_timeout_secs == s.webhook_timeout_secs,
        after_events(s, events).max_retries == s.max_retries,
        after_events(s, events).circuit_threshold == s.circuit_threshold,
        after_events(s, events).circuit_reset_secs == s.circuit_reset_secs,
    decreases events.len(),
{
    if events.len() > 0 {
        law_invariant(s, events.drop_last());
        law_every_email_counted_once(s, events.drop_last());
        lemma_step(after_events(s, events.drop_last()), events.last());
    }
}

/// Every e-mail that is dropped and every delivery that ends is counted once, as forwarded or as
/// failed, whatever the clock and the reset time. Only the counts of e-mails must have room.
pub proof fn law_every_email_counted_once(s: WebhookState, events: Seq<Event>)
    requires
        s.total_forwarded + s.total_failed + dropped(s, events) + ended(events) <= u64::MAX,
    ensures
        after_events(s, events).total_forwarded + after_events(s, events).total_failed
            == s.total_forwarded + s.total_failed + dropped(s, events) + ended(events),
    decreases events.len(),
{
    if events.len() > 0 {
        law_every_email_counted_once(s, events.drop_last());
        lemma_step(after_events(s, events.drop_last()), events.last());
    }
}

/// Without room for them, the counts of e-mails wrap around and are right up to that.
pub proof fn law_counts_wrap_around(s: WebhookState, events: Seq<Event>)
    ensures
        wrapped(after_events(s, events).total_forwarded + after_events(s, events).total_failed)
            == wrapped(
            s.total_forwarded + s.total_failed + dropped(s, events) + ended(events),
        ),
    decreases events.len(),
{
    if events.len() > 0 {
        let before = events.drop_last();
        let mid = after_events(s, before);
        let end = after_events(s, events);
        law_counts_wrap_around(s, before);
        lemma_step(mid, events.last());
        lemma_wrapped_sum(
            mid.total_forwarded + mid.total_failed,
            s.total_forwarded + s.total_failed + dropped(s, before) + ended(before),
            counted(mid, events.last()) as int,
            end.total_forwarded + end.total_failed,
        );
    }
}

/// Once every e-mail that came has been handled, that is, dropped or its delivery ended, as many
/// are counted as came since the counts were zero, whatever the clock and the reset time; and the
/// failures in a row are among all failures.
pub proof fn law_all_handled_emails_counted(s: WebhookState, events: Seq<Event>)
    requires
        s.well_formed(),
        s.total_forwarded == 0,
        s.total_failed == 0,
        received(events) == dropped(s, events) + ended(events),
        received(events) <= u64::MAX,
    ensures
        after_events(s, events).total_forwarded + after_events(s, events).total_failed
            == received(events),
        after_events(s, events).consecutive_failures <= after_events(s, events).total_failed,
{
    law_every_email_counted_once(s, events);
    law_invariant(s, events);
}

} // verus!
