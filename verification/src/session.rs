//! The probe session of one target: which request to send next, which frame
//! answers it, and what to report of each round.
//!
//! The session does no input or output. Its owner sends what the session
//! asks for, measures the time, and hands back what arrived.

use crate::codec::{
    as_echo_reply, decode_echo_reply, decoded_reply, echo_request_frame, encode_echo_request,
    lemma_reply_round_trip,
};
use crate::coordinator::{
    advance, advanced, effective_count, effective_count_spec, lemma_sequence_ranges_disjoint,
    per_target_count_spec, sequence_base_spec, ProbeTarget, Strategy,
};
use crate::event::{
    Outcome, OutcomeView, PingResult, PingResultView, ProbeSent, UpdateEvent, UpdateEventView,
};
use crate::text::concat3;
use vstd::prelude::*;

verus! {

/// The number of filler bytes in the payload of a request.
pub const PAYLOAD_SIZE: usize = 8;

/// How a prober is to probe one target.
#[derive(Clone, Debug)]
pub struct PingOptions {
    /// The address to probe.
    pub target: String,
    /// The time between two probes, and the time to wait for a reply, in
    /// milliseconds.
    pub interval: u64,
    /// The network interface to send from, if a particular one.
    pub interface: Option<String>,
    /// After how many probes lost in a row a prober may give up.
    pub stop_after_lost_n: i32,
}

impl PingOptions {
    /// Options for probing `target` every `interval` milliseconds from
    /// `interface`, giving up after ten probes lost in a row.
    pub fn new(target: String, interval: u64, interface: Option<String>) -> (options: PingOptions)
        ensures
            options.target == target,
            options.interval == interval,
            options.interface == interface,
            options.stop_after_lost_n == 10,
    {
        PingOptions { target, interval, interface, stop_after_lost_n: 10 }
    }
}

/// What a session asks of its owner at the top of a round.
#[derive(Clone, Debug, PartialEq, Eq)]
pub enum RoundAction {
    /// Put `notice` into the update pipeline and send `frame`, which carries
    /// `sequence`; then report what comes of it.
    Send { sequence: u16, frame: Vec<u8>, notice: ProbeSent },
    /// Too early for the next probe: ask again in `millis` milliseconds.
    Wait { millis: u64 },
    /// A probe is in flight: report what came of it first.
    Pending,
    /// The session has ended.
    Stop,
}

/// A round action as mathematics.
pub enum RoundActionView {
    Send { sequence: u16, frame: Seq<u8>, notice: ProbeSent },
    Wait { millis: u64 },
    Pending,
    Stop,
}

impl View for RoundAction {
    type V = RoundActionView;

    open spec fn view(&self) -> RoundActionView {
        match self {
            RoundAction::Send { sequence, frame, notice } => RoundActionView::Send {
                sequence: *sequence,
                frame: frame@,
                notice: *notice,
            },
            RoundAction::Wait { millis } => RoundActionView::Wait { millis: *millis },
            RoundAction::Pending => RoundActionView::Pending,
            RoundAction::Stop => RoundActionView::Stop,
        }
    }
}

/// The text of a probe error for the target at `address`.
pub open spec fn error_text_spec(address: Seq<char>, reason: Seq<char>, detail: Seq<char>) -> Seq<
    char,
> {
    "host("@ + address + ") ping err, reason: "@ + reason + ", err: "@ + detail
}

/// A session as mathematics.
pub struct SessionModel {
    /// The address that is probed.
    pub address: Seq<char>,
    /// The place of the target in the model.
    pub index: usize,
    /// How many probes to send.
    pub count: usize,
    /// The time between two probes, and the time to wait for a reply, in
    /// milliseconds.
    pub interval: u64,
    /// The identifier in every request.
    pub identifier: u16,
    /// The sequence number of the first request.
    pub sequence_base: u16,
    /// How many probes have been sent.
    pub sent: nat,
    /// The sequence number of the probe in flight, if one is.
    pub in_flight: Option<u16>,
    /// Whether the session has ended.
    pub stopped: bool,
}

impl SessionModel {
    /// A session that has sent nothing yet.
    pub open spec fn start(
        address: Seq<char>,
        count: usize,
        interval: u64,
        index: usize,
        identifier: u16,
        sequence_base: u16,
    ) -> SessionModel {
        SessionModel {
            address,
            index,
            count,
            interval,
            identifier,
            sequence_base,
            sent: 0,
            in_flight: None,
            stopped: false,
        }
    }

    /// The invariant of a session.
    pub open spec fn wf(self) -> bool {
        &&& self.sent <= self.count
        &&& self.stopped ==> self.in_flight.is_none()
        &&& self.in_flight matches Some(sequence) ==> self.sent > 0 && sequence == advanced(
            self.sequence_base,
            (self.sent - 1) as nat,
        )
    }

    /// The sequence number of the next request: the base advanced once for
    /// every request sent, wrapping at 16 bits.
    pub open spec fn next_sequence(self) -> u16 {
        advanced(self.sequence_base, self.sent) as u16
    }

    /// Whether the next probe may go out when `since_last_send` microseconds
    /// have passed since the last one: the first at once, the others when a
    /// whole interval has passed.
    pub open spec fn paced(self, since_last_send: u64) -> bool {
        self.sent == 0 || since_last_send / 1000 >= self.interval
    }

    /// Whether a reply that comes `elapsed` microseconds after its request
    /// is in time.
    pub open spec fn in_time(self, elapsed: u64) -> bool {
        elapsed / 1000 < self.interval
    }

    /// Whether `bytes` are the reply to the probe in flight: an echo reply
    /// with a valid checksum, this session's identifier and the sequence
    /// number that was sent.
    pub open spec fn answers(self, bytes: Seq<u8>) -> bool {
        self.in_flight matches Some(sequence) && decoded_reply(bytes) == Some(
            (self.identifier, sequence),
        )
    }

    /// The session with no probe in flight.
    pub open spec fn resolved(self) -> SessionModel {
        SessionModel { in_flight: None, ..self }
    }

    /// The event that reports `outcome` for this session.
    pub open spec fn event(self, outcome: OutcomeView) -> UpdateEventView {
        UpdateEventView { index: self.index, address: self.address, outcome }
    }

    /// The top of a round: the session afterwards and what it asks for.
    pub open spec fn round(self, since_last_send: u64, running: bool) -> (
        SessionModel,
        RoundActionView,
    ) {
        if self.stopped {
            (self, RoundActionView::Stop)
        } else if self.in_flight.is_some() {
            (self, RoundActionView::Pending)
        } else if self.sent >= self.count {
            (SessionModel { stopped: true, ..self }, RoundActionView::Stop)
        } else if !self.paced(since_last_send) {
            (self, RoundActionView::Wait { millis: (self.interval - since_last_send / 1000) as u64 })
        } else if !running {
            (SessionModel { stopped: true, ..self }, RoundActionView::Stop)
        } else {
            (
                SessionModel {
                    sent: self.sent + 1,
                    in_flight: Some(self.next_sequence()),
                    ..self
                },
                RoundActionView::Send {
                    sequence: self.next_sequence(),
                    frame: echo_request_frame(
                        self.identifier,
                        self.next_sequence(),
                        PAYLOAD_SIZE as nat,
                    ),
                    notice: ProbeSent { index: self.index },
                },
            )
        }
    }

    /// A frame arrived `elapsed` microseconds after the request: the session
    /// afterwards and the outcome of the round, if the frame ends it.
    pub open spec fn frame(self, bytes: Seq<u8>, elapsed: u64) -> (
        SessionModel,
        Option<OutcomeView>,
    ) {
        if !self.answers(bytes) {
            (self, None)
        } else if self.in_time(elapsed) {
            (self.resolved(), Some(OutcomeView::Replied(elapsed)))
        } else {
            (self.resolved(), Some(OutcomeView::TimedOut))
        }
    }

    /// Nothing has arrived `elapsed` microseconds after the request: the
    /// session afterwards and the outcome of the round, if that ends it.
    pub open spec fn deadline(self, elapsed: u64) -> (SessionModel, Option<OutcomeView>) {
        if self.in_flight.is_some() && !self.in_time(elapsed) {
            (self.resolved(), Some(OutcomeView::TimedOut))
        } else {
            (self, None)
        }
    }

    /// The outcome that a prober's result stands for, if it stands for one.
    pub open spec fn outcome_of(self, result: PingResultView) -> Option<OutcomeView> {
        match result {
            PingResultView::Pong(rtt, _) => Some(OutcomeView::Replied(rtt)),
            PingResultView::Timeout(_) => Some(OutcomeView::TimedOut),
            PingResultView::Unknown(text) => Some(
                OutcomeView::ProbeError(error_text_spec(self.address, "unknown"@, text)),
            ),
            PingResultView::PingExited(code, text) => if code == Some(0i32) {
                None
            } else {
                Some(OutcomeView::ProbeError(error_text_spec(self.address, "ping exited"@, text)))
            },
        }
    }

    /// A prober reported `result` for the probe in flight: the session
    /// afterwards and the outcome of the round.
    pub open spec fn result(self, result: PingResultView) -> (SessionModel, Option<OutcomeView>) {
        if self.in_flight.is_none() {
            (self, None)
        } else {
            (self.resolved(), self.outcome_of(result))
        }
    }

    /// The transport failed: the session afterwards and the outcome.
    pub open spec fn failure(self, message: Seq<char>, resource_failure: bool) -> (
        SessionModel,
        Option<OutcomeView>,
    ) {
        if self.stopped {
            (self, None)
        } else {
            (
                SessionModel { in_flight: None, stopped: resource_failure, ..self },
                Some(OutcomeView::ProbeError(message)),
            )
        }
    }
}

/// Every step keeps a session well formed.
pub proof fn lemma_steps_keep_wf(
    s: SessionModel,
    since_last_send: u64,
    running: bool,
    bytes: Seq<u8>,
    elapsed: u64,
    result: PingResultView,
    message: Seq<char>,
    resource_failure: bool,
)
    requires
        s.wf(),
    ensures
        s.round(since_last_send, running).0.wf(),
        s.frame(bytes, elapsed).0.wf(),
        s.deadline(elapsed).0.wf(),
        s.result(result).0.wf(),
        s.failure(message, resource_failure).0.wf(),
{
}

/// A session that has ended stays ended and is silent: it asks for nothing
/// more and reports no further event, whatever it is handed.
pub proof fn lemma_stopped_session_is_silent(
    s: SessionModel,
    since_last_send: u64,
    running: bool,
    bytes: Seq<u8>,
    elapsed: u64,
    result: PingResultView,
    message: Seq<char>,
    resource_failure: bool,
)
    requires
        s.wf(),
        s.stopped,
    ensures
        s.round(since_last_send, running) == (s, RoundActionView::Stop),
        s.frame(bytes, elapsed) == (s, None::<OutcomeView>),
        s.deadline(elapsed) == (s, None::<OutcomeView>),
        s.result(result) == (s, None::<OutcomeView>),
        s.failure(message, resource_failure) == (s, None::<OutcomeView>),
{
}

/// Cancellation is seen at the top of a round: a session with nothing in
/// flight, probes left and its pace kept, that finds the run cancelled,
/// ends there without sending. A session with a probe in flight is not
/// disturbed by the cancellation.
pub proof fn lemma_cancellation_ends_session(s: SessionModel, since_last_send: u64)
    requires
        s.wf(),
        !s.stopped,
    ensures
        s.in_flight.is_none() && s.paced(since_last_send) ==> s.round(since_last_send, false).0.stopped
            && s.round(since_last_send, false).1 == RoundActionView::Stop,
        s.in_flight.is_some() ==> s.round(since_last_send, false) == (s, RoundActionView::Pending),
        !(s.round(since_last_send, false).1 is Send),
{
}

/// A session never sends more than `count` probes: it sends only while
/// fewer have been sent, and each send counts one.
pub proof fn lemma_round_counts(s: SessionModel, since_last_send: u64, running: bool)
    requires
        s.wf(),
    ensures
        s.round(since_last_send, running).1 is Send ==> s.sent < s.count && s.round(
            since_last_send,
            running,
        ).0.sent == s.sent + 1,
        !(s.round(since_last_send, running).1 is Send) ==> s.round(since_last_send, running).0.sent
            == s.sent,
{
}

/// A reply answers the session whose request it replies to, and no other:
/// what a responder makes of the request for `identifier` and `sequence`
/// ends the round of a session exactly if that session has this identifier
/// and this sequence number in flight.
pub proof fn lemma_reply_answers_only_its_session(
    s: SessionModel,
    identifier: u16,
    sequence: u16,
    payload_size: nat,
)
    ensures
        s.answers(as_echo_reply(echo_request_frame(identifier, sequence, payload_size))) <==> (
        s.identifier == identifier && s.in_flight == Some(sequence)),
{
    lemma_reply_round_trip(identifier, sequence, payload_size);
}

/// The reply to the request that a round sends ends that round: in time
/// with the round-trip time, late as a timeout.
pub proof fn lemma_reply_to_sent_request_ends_round(
    s: SessionModel,
    since_last_send: u64,
    running: bool,
    elapsed: u64,
)
    requires
        s.wf(),
        s.round(since_last_send, running).1 is Send,
    ensures
        ({
            let (sending, action) = s.round(since_last_send, running);
            let reply = as_echo_reply(action->Send_frame);
            &&& sending.in_flight == Some(action->Send_sequence)
            &&& sending.frame(reply, elapsed).0 == sending.resolved()
            &&& sending.frame(reply, elapsed).1 == Some(
                if sending.in_time(elapsed) {
                    OutcomeView::Replied(elapsed)
                } else {
                    OutcomeView::TimedOut
                },
            )
        }),
{
    lemma_reply_round_trip(s.identifier, s.next_sequence(), PAYLOAD_SIZE as nat);
}

/// A round ends once: with no probe in flight, no frame, deadline or result
/// reports anything or changes the session.
pub proof fn lemma_no_event_without_probe(
    s: SessionModel,
    bytes: Seq<u8>,
    elapsed: u64,
    result: PingResultView,
)
    requires
        s.in_flight.is_none(),
    ensures
        s.frame(bytes, elapsed) == (s, None::<OutcomeView>),
        s.deadline(elapsed) == (s, None::<OutcomeView>),
        s.result(result) == (s, None::<OutcomeView>),
        s.frame(bytes, elapsed).0.in_flight.is_none(),
{
}

/// Sessions that share a receive path never use the same sequence number:
/// when each of `targets` targets starts at the base of its range and sends
/// no more probes than the range holds, the sequence number of any probe of
/// one target differs from that of any probe of another, and no sequence
/// number wraps.
pub proof fn lemma_shared_sequences_never_collide(
    targets: nat,
    first: nat,
    second: nat,
    first_sent: nat,
    second_sent: nat,
)
    requires
        first < second < targets,
        first_sent < per_target_count_spec(targets),
        second_sent < per_target_count_spec(targets),
    ensures
        advanced(sequence_base_spec(first, targets) as u16, first_sent) == sequence_base_spec(
            first,
            targets,
        ) + first_sent,
        advanced(sequence_base_spec(second, targets) as u16, second_sent) == sequence_base_spec(
            second,
            targets,
        ) + second_sent,
        advanced(sequence_base_spec(first, targets) as u16, first_sent) != advanced(
            sequence_base_spec(second, targets) as u16,
            second_sent,
        ),
{
    lemma_sequence_ranges_disjoint(first, second, targets);
}

/// The text of a probe error for the target at `address`.
fn error_text(address: &str, reason: &str, detail: &str) -> (text: String)
    ensures
        text@ == error_text_spec(address@, reason@, detail@),
{
    let cause = concat3(") ping err, reason: ", reason, ", err: ");
    let head = concat3("host(", address, cause.as_str());
    let text = concat3(head.as_str(), detail, "");
    proof {
        reveal_strlit("");
        assert(text@ =~= error_text_spec(address@, reason@, detail@));
    }
    text
}

/// The probe session of one target.
pub struct PingTask {
    addr: String,
    count: usize,
    interval: u64,
    index: usize,
    identifier: u16,
    sequence_base: u16,
    sent: usize,
    in_flight: Option<u16>,
    stopped: bool,
}

impl View for PingTask {
    type V = SessionModel;

    closed spec fn view(&self) -> SessionModel {
        SessionModel {
            address: self.addr@,
            index: self.index,
            count: self.count,
            interval: self.interval,
            identifier: self.identifier,
            sequence_base: self.sequence_base,
            sent: self.sent as nat,
            in_flight: self.in_flight,
            stopped: self.stopped,
        }
    }
}

impl PingTask {
    /// Whether the session satisfies its invariant. Every session that this
    /// module hands out does.
    pub open spec fn wf(&self) -> bool {
        self@.wf()
    }

    /// A session for the target at `addr`, which stands at `index` in the
    /// model: `count` probes, `interval` milliseconds apart, with
    /// `identifier` in every request and sequence numbers from
    /// `sequence_base` on.
    pub fn new(
        addr: String,
        count: usize,
        interval: u64,
        index: usize,
        identifier: u16,
        sequence_base: u16,
    ) -> (task: PingTask)
        ensures
            task@ == SessionModel::start(addr@, count, interval, index, identifier, sequence_base),
            task.wf(),
    {
        PingTask {
            addr,
            count,
            interval,
            index,
            identifier,
            sequence_base,
            sent: 0,
            in_flight: None,
            stopped: false,
        }
    }

    /// The options for a prober that serves this session.
    pub fn options(&self) -> (options: PingOptions)
        ensures
            options.target@ == self@.address,
            options.interval == self@.interval,
            options.interface.is_none(),
            options.stop_after_lost_n == 10,
    {
        PingOptions::new(self.addr.clone(), self.interval, None)
    }

    /// The identifier in the session's requests.
    pub fn identifier(&self) -> (identifier: u16)
        ensures
            identifier == self@.identifier,
    {
        self.identifier
    }

    /// How many probes have been sent.
    pub fn sent(&self) -> (n: usize)
        ensures
            n == self@.sent,
    {
        self.sent
    }

    /// The sequence number of the probe in flight, if one is.
    pub fn in_flight(&self) -> (sequence: Option<u16>)
        ensures
            sequence == self@.in_flight,
    {
        self.in_flight
    }

    /// Whether the session has ended.
    pub fn is_stopped(&self) -> (stopped: bool)
        ensures
            stopped == self@.stopped,
    {
        self.stopped
    }

    fn event(&self, outcome: Outcome) -> (event: UpdateEvent)
        ensures
            event@ == self@.event(outcome@),
    {
        UpdateEvent { index: self.index, address: self.addr.clone(), outcome }
    }

    /// The top of a round. `since_last_send` is the time in microseconds
    /// since the last request went out (it is not looked at before the first
    /// request); `running` is the run-control flag.
    ///
    /// A session that has ended, or has sent all its probes, stops. One with
    /// a probe in flight asks for that to be settled first. Otherwise the
    /// session waits until an interval has passed since the last request,
    /// then stops if the run is cancelled, and else counts one more probe as
    /// sent and asks for the next request to go out: its identifier, the next
    /// sequence number, `PAYLOAD_SIZE` filler bytes. With the request goes the
    /// notice for the update pipeline, so that the model counts the probe as
    /// sent too.
    pub fn next_round(&mut self, since_last_send: u64, running: bool) -> (action: RoundAction)
        ensures
            old(self).wf() ==> final(self).wf(),
            final(self)@ == old(self)@.round(since_last_send, running).0,
            action@ == old(self)@.round(since_last_send, running).1,
    {
        if self.stopped {
            return RoundAction::Stop;
        }
        if self.in_flight.is_some() {
            return RoundAction::Pending;
        }
        if self.sent >= self.count {
            self.stopped = true;
            return RoundAction::Stop;
        }
        if self.sent != 0 && since_last_send / 1000 < self.interval {
            return RoundAction::Wait { millis: self.interval - since_last_send / 1000 };
        }
        if !running {
            self.stopped = true;
            return RoundAction::Stop;
        }
        let sequence = advance(self.sequence_base, self.sent);
        let frame = encode_echo_request(self.identifier, sequence, PAYLOAD_SIZE);
        self.sent = self.sent + 1;
        self.in_flight = Some(sequence);
        RoundAction::Send { sequence, frame, notice: ProbeSent { index: self.index } }
    }

    /// A frame arrived on the receive path, `elapsed` microseconds after the
    /// request went out. If it is the reply to the probe in flight, the
    /// round ends: with the round-trip time if the reply is in time, as a
    /// timeout if it is late. Any other frame leaves the session waiting and
    /// reports nothing.
    pub fn on_frame(&mut self, bytes: &[u8], elapsed: u64) -> (event: Option<UpdateEvent>)
        ensures
            old(self).wf() ==> final(self).wf(),
            final(self)@ == old(self)@.frame(bytes@, elapsed).0,
            match old(self)@.frame(bytes@, elapsed).1 {
                Some(outcome) => event.is_some() && event.unwrap()@ == old(self)@.event(outcome),
                None => event.is_none(),
            },
    {
        let sequence = match self.in_flight {
            Some(sequence) => sequence,
            None => {
                return None;
            },
        };
        match decode_echo_reply(bytes) {
            Some((identifier, answered)) => {
                if identifier != self.identifier || answered != sequence {
                    return None;
                }
            },
            None => {
                return None;
            },
        }
        self.in_flight = None;
        if elapsed / 1000 < self.interval {
            Some(self.event(Outcome::Replied(elapsed)))
        } else {
            Some(self.event(Outcome::TimedOut))
        }
    }

    /// Nothing has answered the probe in flight `elapsed` microseconds after
    /// it went out. Once the interval has passed the round ends as a
    /// timeout; before that, and with no probe in flight, nothing happens.
    pub fn on_deadline(&mut self, elapsed: u64) -> (event: Option<UpdateEvent>)
        ensures
            old(self).wf() ==> final(self).wf(),
            final(self)@ == old(self)@.deadline(elapsed).0,
            match old(self)@.deadline(elapsed).1 {
                Some(outcome) => event.is_some() && event.unwrap()@ == old(self)@.event(outcome),
                None => event.is_none(),
            },
    {
        if self.in_flight.is_some() && elapsed / 1000 >= self.interval {
            self.in_flight = None;
            Some(self.event(Outcome::TimedOut))
        } else {
            None
        }
    }

    /// A prober with a receive path of its own reported `result` for the
    /// probe in flight, and the round ends: a pong as a reply with its
    /// round-trip time, a timeout as a timeout, a failure as a probe error
    /// that names this target, and the prober's own exit as a probe error
    /// unless its exit code is zero, which is reported as nothing. With no
    /// probe in flight nothing happens.
    pub fn on_result(&mut self, result: PingResult) -> (event: Option<UpdateEvent>)
        ensures
            old(self).wf() ==> final(self).wf(),
            final(self)@ == old(self)@.result(result@).0,
            match old(self)@.result(result@).1 {
                Some(outcome) => event.is_some() && event.unwrap()@ == old(self)@.event(outcome),
                None => event.is_none(),
            },
    {
        if self.in_flight.is_none() {
            return None;
        }
        self.in_flight = None;
        match result {
            PingResult::Pong(rtt, _) => Some(self.event(Outcome::Replied(rtt))),
            PingResult::Timeout(_) => Some(self.event(Outcome::TimedOut)),
            PingResult::Unknown(text) => {
                let message = error_text(self.addr.as_str(), "unknown", text.as_str());
                Some(self.event(Outcome::ProbeError(message)))
            },
            PingResult::PingExited(code, text) => {
                let clean = match code {
                    Some(c) => c == 0,
                    None => false,
                };
                if clean {
                    None
                } else {
                    let message = error_text(self.addr.as_str(), "ping exited", text.as_str());
                    Some(self.event(Outcome::ProbeError(message)))
                }
            },
        }
    }

    /// The transport failed, with or without a probe in flight. The failure
    /// is reported as a probe error with `message`; the round, if there is
    /// one, is over. After a resource failure (no socket could be made) the
    /// session ends; after any other it goes on with the next round. A
    /// session that has ended reports nothing.
    pub fn on_failure(&mut self, message: String, resource_failure: bool) -> (event: Option<
        UpdateEvent,
    >)
        ensures
            old(self).wf() ==> final(self).wf(),
            final(self)@ == old(self)@.failure(message@, resource_failure).0,
            match old(self)@.failure(message@, resource_failure).1 {
                Some(outcome) => event.is_some() && event.unwrap()@ == old(self)@.event(outcome),
                None => event.is_none(),
            },
    {
        if self.stopped {
            return None;
        }
        self.in_flight = None;
        self.stopped = resource_failure;
        Some(self.event(Outcome::ProbeError(message)))
    }
}

/// The sessions of a run: exactly one for every target of `plan`, in the
/// order of the plan, each with the place of its target as its index, the
/// identifier and first sequence number that the plan allocates to it, and
/// the number of probes that `requested` comes to under `strategy`.
pub fn sessions_for(
    plan: &Vec<ProbeTarget>,
    requested: usize,
    interval: u64,
    strategy: Strategy,
) -> (tasks: Vec<PingTask>)
    ensures
        tasks@.len() == plan@.len(),
        forall|i: int|
            0 <= i < tasks@.len() ==> (#[trigger] tasks@[i]).wf() && tasks@[i]@
                == SessionModel::start(
                plan@[i].address@,
                effective_count_spec(requested as nat, plan@.len(), strategy) as usize,
                interval,
                i as usize,
                plan@[i].identifier,
                plan@[i].sequence_base,
            ),
{
    let mut tasks: Vec<PingTask> = Vec::new();
    let n = plan.len();
    if n == 0 {
        return tasks;
    }
    let count = effective_count(requested, n, strategy);
    let mut i: usize = 0;
    while i < n
        invariant
            n == plan@.len(),
            i <= n,
            count == effective_count_spec(requested as nat, n as nat, strategy),
            tasks@.len() == i,
            forall|k: int|
                0 <= k < i ==> (#[trigger] tasks@[k]).wf() && tasks@[k]@ == SessionModel::start(
                    plan@[k].address@,
                    count,
                    interval,
                    k as usize,
                    plan@[k].identifier,
                    plan@[k].sequence_base,
                ),
        decreases n - i,
    {
        let target = &plan[i];
        tasks.push(
            PingTask::new(
                target.address.clone(),
                count,
                interval,
                i,
                target.identifier,
                target.sequence_base,
            ),
        );
        i = i + 1;
    }
    tasks
}

} // verus!
