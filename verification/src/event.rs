//! The messages that pass between a probe session, the prober that serves
//! it, and the consumer that keeps the display model.

use vstd::prelude::*;

verus! {

/// How one round of one session ended.
#[derive(Clone, Debug, PartialEq, Eq)]
pub enum Outcome {
    /// The reply arrived after this many microseconds.
    Replied(u64),
    /// No reply arrived in time.
    TimedOut,
    /// The probe could not be carried out; the text says why.
    ProbeError(String),
}

/// An outcome as mathematics.
pub enum OutcomeView {
    Replied(u64),
    TimedOut,
    ProbeError(Seq<char>),
}

impl View for Outcome {
    type V = OutcomeView;

    open spec fn view(&self) -> OutcomeView {
        match self {
            Outcome::Replied(rtt) => OutcomeView::Replied(*rtt),
            Outcome::TimedOut => OutcomeView::TimedOut,
            Outcome::ProbeError(text) => OutcomeView::ProbeError(text@),
        }
    }
}

/// What a session reports of one round.
#[derive(Clone, Debug, PartialEq, Eq)]
pub struct UpdateEvent {
    /// The place of the session's target in the model.
    pub index: usize,
    /// The address that was probed.
    pub address: String,
    /// How the round ended.
    pub outcome: Outcome,
}

/// An update event as mathematics.
pub struct UpdateEventView {
    pub index: usize,
    pub address: Seq<char>,
    pub outcome: OutcomeView,
}

impl View for UpdateEvent {
    type V = UpdateEventView;

    open spec fn view(&self) -> UpdateEventView {
        UpdateEventView { index: self.index, address: self.address@, outcome: self.outcome@ }
    }
}

/// The notice that a probe has gone out.
#[derive(Clone, Copy, Debug, PartialEq, Eq, Structural)]
pub struct ProbeSent {
    /// The place of the session's target in the model.
    pub index: usize,
}

/// What a session puts into the update pipeline: a notice when a probe goes
/// out, and one event when the round ends.
#[derive(Clone, Debug, PartialEq, Eq)]
pub enum PipelineMessage {
    /// A probe has gone out.
    Sent(ProbeSent),
    /// A round has ended.
    Round(UpdateEvent),
}

/// A pipeline message as mathematics.
pub enum PipelineMessageView {
    Sent(ProbeSent),
    Round(UpdateEventView),
}

impl View for PipelineMessage {
    type V = PipelineMessageView;

    open spec fn view(&self) -> PipelineMessageView {
        match self {
            PipelineMessage::Sent(notice) => PipelineMessageView::Sent(*notice),
            PipelineMessage::Round(event) => PipelineMessageView::Round(event@),
        }
    }
}

/// What a prober with a receive path of its own reports of one probe.
#[derive(Clone, Debug, PartialEq, Eq)]
pub enum PingResult {
    /// A reply after this many microseconds, from the named target.
    Pong(u64, String),
    /// No reply in time from the named target.
    Timeout(String),
    /// The probe failed; the text says how.
    Unknown(String),
    /// The prober itself ended, with this exit code if it had one, and this
    /// on its error stream.
    PingExited(Option<i32>, String),
}

/// A ping result as mathematics.
pub enum PingResultView {
    Pong(u64, Seq<char>),
    Timeout(Seq<char>),
    Unknown(Seq<char>),
    PingExited(Option<i32>, Seq<char>),
}

impl View for PingResult {
    type V = PingResultView;

    open spec fn view(&self) -> PingResultView {
        match self {
            PingResult::Pong(rtt, target) => PingResultView::Pong(*rtt, target@),
            PingResult::Timeout(target) => PingResultView::Timeout(target@),
            PingResult::Unknown(text) => PingResultView::Unknown(text@),
            PingResult::PingExited(code, text) => PingResultView::PingExited(*code, text@),
        }
    }
}

} // verus!
