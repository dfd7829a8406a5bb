//! The model that the display reads: one record per target and a short log
//! of recent errors. Only the consumer of the update pipeline changes it.

use crate::coordinator::ProbeTarget;
use crate::event::{
    Outcome, OutcomeView, PipelineMessage, PipelineMessageView, ProbeSent, UpdateEvent,
    UpdateEventView,
};
use crate::text::texts;
use crate::window::{
    lemma_record_keeps_wf, lemma_record_sent_keeps_wf, Sample, SampleWindow, WindowModel,
};
use vstd::prelude::*;

verus! {

/// The number of errors that the log keeps.
pub const ERROR_LOG_CAPACITY: usize = 5;

/// The record of one target.
pub struct IpData {
    /// The name under which the target is shown.
    pub addr: String,
    /// The address that is probed.
    pub ip: String,
    /// The samples and counters of the target.
    pub window: SampleWindow,
}

/// The record of one target as mathematics.
pub struct IpDataView {
    pub addr: Seq<char>,
    pub ip: Seq<char>,
    pub window: WindowModel,
}

impl View for IpData {
    type V = IpDataView;

    open spec fn view(&self) -> IpDataView {
        IpDataView { addr: self.addr@, ip: self.ip@, window: self.window@ }
    }
}

/// The records as mathematics.
pub open spec fn records_view(ip_data: Seq<IpData>) -> Seq<IpDataView> {
    Seq::new(ip_data.len(), |i: int| ip_data[i]@)
}

/// The record after one of its probes has gone out.
pub open spec fn after_sent(record: IpDataView) -> IpDataView {
    IpDataView { window: record.window.record_sent(), ..record }
}

/// The record after a reply from `address` that took `rtt` microseconds.
pub open spec fn after_reply(record: IpDataView, address: Seq<char>, rtt: u64) -> IpDataView {
    IpDataView { addr: record.addr, ip: address, window: record.window.record_reply(rtt) }
}

/// The record after a probe of `address` that timed out.
pub open spec fn after_timeout(record: IpDataView, address: Seq<char>) -> IpDataView {
    IpDataView { addr: record.addr, ip: address, window: record.window.record_timeout() }
}

/// The log after `text` has been added: the newest entry last, and only the
/// latest `ERROR_LOG_CAPACITY` entries kept.
pub open spec fn logged(log: Seq<Seq<char>>, text: Seq<char>) -> Seq<Seq<char>> {
    if log.len() >= ERROR_LOG_CAPACITY {
        log.skip(log.len() - ERROR_LOG_CAPACITY + 1).push(text)
    } else {
        log.push(text)
    }
}

/// Records that a probe for target `i` has gone out: the target has one
/// more probe sent, and nothing else changes.
pub fn update_sent_stats(ip_data: &mut Vec<IpData>, i: usize)
    requires
        i < old(ip_data)@.len(),
        old(ip_data)@[i as int].window@.sent < usize::MAX,
    ensures
        records_view(final(ip_data)@) == records_view(old(ip_data)@).update(
            i as int,
            after_sent(old(ip_data)@[i as int]@),
        ),
        final(ip_data)@.len() == old(ip_data)@.len(),
        old(ip_data)@[i as int].window.wf(),
        final(ip_data)@[i as int].window.wf(),
        final(ip_data)@[i as int]@ == after_sent(old(ip_data)@[i as int]@),
        forall|j: int|
            0 <= j < old(ip_data)@.len() && j != i ==> (#[trigger] final(ip_data)@[j])@ == old(
                ip_data,
            )@[j]@,
{
    ip_data[i].window.record_sent();
    proof {
        assert(records_view(ip_data@) =~= records_view(old(ip_data)@).update(
            i as int,
            after_sent(old(ip_data)@[i as int]@),
        ));
    }
}

/// Records the reply to the probe of target `i` that is in flight: the
/// probed address is noted and the round-trip time enters the target's
/// window. The number of probes sent stays, and no other record changes.
pub fn update_stats(ip_data: &mut Vec<IpData>, i: usize, addr: String, rtt: u64)
    requires
        i < old(ip_data)@.len(),
        old(ip_data)@[i as int].window@.in_flight(),
    ensures
        records_view(final(ip_data)@) == records_view(old(ip_data)@).update(
            i as int,
            after_reply(old(ip_data)@[i as int]@, addr@, rtt),
        ),
        final(ip_data)@.len() == old(ip_data)@.len(),
        old(ip_data)@[i as int].window.wf(),
        final(ip_data)@[i as int].window.wf(),
        final(ip_data)@[i as int]@ == after_reply(old(ip_data)@[i as int]@, addr@, rtt),
        forall|j: int|
            0 <= j < old(ip_data)@.len() && j != i ==> (#[trigger] final(ip_data)@[j])@ == old(
                ip_data,
            )@[j]@,
{
    ip_data[i].ip = addr;
    ip_data[i].window.record_reply(rtt);
    proof {
        assert(records_view(ip_data@) =~= records_view(old(ip_data)@).update(
            i as int,
            after_reply(old(ip_data)@[i as int]@, addr@, rtt),
        ));
    }
}

/// Records that the probe of target `i` that is in flight timed out: the
/// probed address is noted and a timeout enters the target's window. The
/// number of probes sent stays, and no other record changes.
pub fn update_timeout_stats(ip_data: &mut Vec<IpData>, i: usize, addr: String)
    requires
        i < old(ip_data)@.len(),
        old(ip_data)@[i as int].window@.in_flight(),
    ensures
        records_view(final(ip_data)@) == records_view(old(ip_data)@).update(
            i as int,
            after_timeout(old(ip_data)@[i as int]@, addr@),
        ),
        final(ip_data)@.len() == old(ip_data)@.len(),
        old(ip_data)@[i as int].window.wf(),
        final(ip_data)@[i as int].window.wf(),
        final(ip_data)@[i as int]@ == after_timeout(old(ip_data)@[i as int]@, addr@),
        forall|j: int|
            0 <= j < old(ip_data)@.len() && j != i ==> (#[trigger] final(ip_data)@[j])@ == old(
                ip_data,
            )@[j]@,
{
    ip_data[i].ip = addr;
    ip_data[i].window.record_timeout();
    proof {
        assert(records_view(ip_data@) =~= records_view(old(ip_data)@).update(
            i as int,
            after_timeout(old(ip_data)@[i as int]@, addr@),
        ));
    }
}

/// Adds `err` to the log of recent errors. The log keeps the latest
/// `ERROR_LOG_CAPACITY` entries, oldest first; older ones are dropped.
pub fn set_error(errs: &mut Vec<String>, err: String)
    ensures
        texts(final(errs)@) == logged(texts(old(errs)@), err@),
        final(errs)@.len() <= ERROR_LOG_CAPACITY,
{
    let ghost start = errs@;
    let ghost mut dropped: int = 0;
    while errs.len() >= ERROR_LOG_CAPACITY
        invariant
            0 <= dropped,
            dropped + errs@.len() == start.len(),
            errs@ == start.skip(dropped),
            dropped == 0 || errs@.len() >= ERROR_LOG_CAPACITY - 1,
        decreases errs@.len(),
    {
        errs.remove(0);
        proof {
            dropped = dropped + 1;
            assert(errs@ =~= start.skip(dropped));
        }
    }
    errs.push(err);
    proof {
        assert(texts(errs@) =~= logged(texts(start), err@));
    }
}

/// The model that the display reads.
pub struct SharedModel {
    ip_data: Vec<IpData>,
    errs: Vec<String>,
}

/// The model as mathematics.
pub struct SharedModelView {
    /// The record of every target, in the order of the targets.
    pub ip_data: Seq<IpDataView>,
    /// The recent errors, oldest first.
    pub errs: Seq<Seq<char>>,
}

impl SharedModelView {
    /// The model after `event` has been applied. A reply or a timeout goes
    /// to the record that the event's index names, and is dropped if there
    /// is no such record; a probe error goes to the log.
    pub open spec fn apply(self, event: UpdateEventView) -> SharedModelView {
        match event.outcome {
            OutcomeView::ProbeError(text) => SharedModelView {
                errs: logged(self.errs, text),
                ..self
            },
            OutcomeView::Replied(rtt) => if event.index < self.ip_data.len() {
                SharedModelView {
                    ip_data: self.ip_data.update(
                        event.index as int,
                        after_reply(self.ip_data[event.index as int], event.address, rtt),
                    ),
                    ..self
                }
            } else {
                self
            },
            OutcomeView::TimedOut => if event.index < self.ip_data.len() {
                SharedModelView {
                    ip_data: self.ip_data.update(
                        event.index as int,
                        after_timeout(self.ip_data[event.index as int], event.address),
                    ),
                    ..self
                }
            } else {
                self
            },
        }
    }

    /// Whether `event` changes the model.
    pub open spec fn accepts(self, event: UpdateEventView) -> bool {
        event.outcome is ProbeError || event.index < self.ip_data.len()
    }

    /// The model after the probe that `notice` tells of has gone out: the
    /// record that the notice names has one more probe sent; a notice that
    /// names no record changes nothing.
    pub open spec fn record_sent(self, notice: ProbeSent) -> SharedModelView {
        if notice.index < self.ip_data.len() {
            SharedModelView {
                ip_data: self.ip_data.update(
                    notice.index as int,
                    after_sent(self.ip_data[notice.index as int]),
                ),
                ..self
            }
        } else {
            self
        }
    }

    /// The model after `message` has been taken from the pipeline.
    pub open spec fn accept(self, message: PipelineMessageView) -> SharedModelView {
        match message {
            PipelineMessageView::Sent(notice) => self.record_sent(notice),
            PipelineMessageView::Round(event) => self.apply(event),
        }
    }

    /// Whether `message` changes the model.
    pub open spec fn takes(self, message: PipelineMessageView) -> bool {
        match message {
            PipelineMessageView::Sent(notice) => notice.index < self.ip_data.len(),
            PipelineMessageView::Round(event) => self.accepts(event),
        }
    }
}

/// A message about one target leaves the record of every other target as
/// it is. Only a probe error changes the log, and it changes no record.
pub proof fn lemma_message_touches_one_record(
    model: SharedModelView,
    message: PipelineMessageView,
    other: int,
)
    requires
        0 <= other < model.ip_data.len(),
    ensures
        model.accept(message).ip_data.len() == model.ip_data.len(),
        message matches PipelineMessageView::Sent(notice) ==> model.accept(message).errs
            == model.errs && (notice.index != other ==> model.accept(message).ip_data[other]
            == model.ip_data[other]),
        message matches PipelineMessageView::Round(event) ==> {
            &&& event.outcome is ProbeError ==> model.accept(message).ip_data == model.ip_data
            &&& !(event.outcome is ProbeError) ==> model.accept(message).errs == model.errs
            &&& event.index != other ==> model.accept(message).ip_data[other]
                == model.ip_data[other]
        },
{
}

/// A probe that was counted when it went out can be settled, and settling
/// it leaves the number of probes sent: after the notice of a probe for a
/// target, that target has one more probe sent and a probe in flight, and a
/// reply or a timeout for the target then adds to the replies or to the
/// timeouts and to nothing else that is counted.
pub proof fn lemma_counted_probe_is_settled(
    model: SharedModelView,
    notice: ProbeSent,
    event: UpdateEventView,
)
    requires
        notice.index < model.ip_data.len(),
        model.ip_data[notice.index as int].window.wf(),
        event.index == notice.index,
        !(event.outcome is ProbeError),
    ensures
        ({
            let i = notice.index as int;
            let before = model.ip_data[i].window;
            let counted = model.record_sent(notice).ip_data[i].window;
            let settled = model.record_sent(notice).apply(event).ip_data[i].window;
            &&& counted == before.record_sent()
            &&& counted.wf() && counted.in_flight()
            &&& settled.wf()
            &&& settled.sent == before.sent + 1
            &&& settled.received + settled.timeout == before.received + before.timeout + 1
            &&& event.outcome is TimedOut ==> settled.timeout == before.timeout + 1
                && settled.min_rtt == before.min_rtt && settled.max_rtt == before.max_rtt
            &&& event.outcome is Replied ==> settled.received == before.received + 1
        }),
{
    let i = notice.index as int;
    let before = model.ip_data[i].window;
    lemma_record_sent_keeps_wf(before);
    match event.outcome {
        OutcomeView::Replied(rtt) => {
            lemma_record_keeps_wf(before.record_sent(), Sample::Rtt(rtt));
        },
        OutcomeView::TimedOut => {
            lemma_record_keeps_wf(before.record_sent(), Sample::Timeout);
        },
        OutcomeView::ProbeError(_) => {},
    }
}

impl View for SharedModel {
    type V = SharedModelView;

    closed spec fn view(&self) -> SharedModelView {
        SharedModelView { ip_data: records_view(self.ip_data@), errs: texts(self.errs@) }
    }
}

impl SharedModel {
    #[verifier::type_invariant]
    spec fn sound(&self) -> bool {
        self.errs@.len() <= ERROR_LOG_CAPACITY
    }

    /// The model at the start of a run: for every target a record with its
    /// label, its address and an empty window, and an empty log.
    pub fn new(targets: &Vec<ProbeTarget>) -> (model: SharedModel)
        ensures
            model@.errs.len() == 0,
            model@.ip_data.len() == targets@.len(),
            forall|i: int|
                0 <= i < targets@.len() ==> #[trigger] model@.ip_data[i] == (IpDataView {
                    addr: targets@[i].label@,
                    ip: targets@[i].address@,
                    window: WindowModel::empty(),
                }),
    {
        let mut ip_data: Vec<IpData> = Vec::new();
        let mut i: usize = 0;
        while i < targets.len()
            invariant
                i <= targets@.len(),
                ip_data@.len() == i,
                forall|k: int|
                    0 <= k < i ==> #[trigger] ip_data@[k]@ == (IpDataView {
                        addr: targets@[k].label@,
                        ip: targets@[k].address@,
                        window: WindowModel::empty(),
                    }),
            decreases targets@.len() - i,
        {
            ip_data.push(
                IpData {
                    addr: targets[i].label.clone(),
                    ip: targets[i].address.clone(),
                    window: SampleWindow::new(),
                },
            );
            i = i + 1;
        }
        SharedModel { ip_data, errs: Vec::new() }
    }

    /// The records of the targets, in the order of the targets.
    pub fn ip_data(&self) -> (ip_data: &Vec<IpData>)
        ensures
            records_view(ip_data@) == self@.ip_data,
    {
        &self.ip_data
    }

    /// The recent errors, oldest first; never more than the log keeps.
    pub fn errs(&self) -> (errs: &Vec<String>)
        ensures
            texts(errs@) == self@.errs,
            errs@.len() <= ERROR_LOG_CAPACITY,
    {
        proof {
            use_type_invariant(self);
        }
        &self.errs
    }

    /// Whether the record that `notice` names, if it names one, can count
    /// one more probe as sent without the counter leaving its type.
    pub open spec fn has_room(&self, notice: ProbeSent) -> bool {
        notice.index < self@.ip_data.len() ==> self@.ip_data[notice.index as int].window.sent
            < usize::MAX
    }

    /// Whether `event` settles a probe that has gone out: the record that a
    /// reply or a timeout goes to, if the event names one, has a probe in
    /// flight.
    pub open spec fn awaits(&self, event: UpdateEventView) -> bool {
        !(event.outcome is ProbeError) && event.index < self@.ip_data.len()
            ==> self@.ip_data[event.index as int].window.in_flight()
    }

    /// Whether `message` can be taken: a notice finds room, an event
    /// settles a probe that has gone out.
    pub open spec fn admits(&self, message: PipelineMessageView) -> bool {
        match message {
            PipelineMessageView::Sent(notice) => self.has_room(notice),
            PipelineMessageView::Round(event) => self.awaits(event),
        }
    }

    /// Counts the probe that `notice` tells of as sent, in the record that
    /// the notice names. A notice that names no record changes nothing.
    /// Returns whether the model changed.
    pub fn record_sent(&mut self, notice: ProbeSent) -> (applied: bool)
        requires
            old(self).has_room(notice),
        ensures
            final(self)@ == old(self)@.record_sent(notice),
            applied == (notice.index < old(self)@.ip_data.len()),
    {
        proof {
            use_type_invariant(&*self);
        }
        if notice.index < self.ip_data.len() {
            let mut ip_data: Vec<IpData> = Vec::new();
            std::mem::swap(&mut ip_data, &mut self.ip_data);
            update_sent_stats(&mut ip_data, notice.index);
            self.ip_data = ip_data;
            true
        } else {
            false
        }
    }

    /// Takes one message from the update pipeline: a notice counts a probe
    /// as sent, an event is applied. Returns whether the model changed.
    pub fn accept(&mut self, message: PipelineMessage) -> (applied: bool)
        requires
            old(self).admits(message@),
        ensures
            final(self)@ == old(self)@.accept(message@),
            final(self)@.errs.len() <= ERROR_LOG_CAPACITY,
            applied == old(self)@.takes(message@),
    {
        match message {
            PipelineMessage::Sent(notice) => {
                let applied = self.record_sent(notice);
                proof {
                    use_type_invariant(&*self);
                }
                applied
            },
            PipelineMessage::Round(event) => self.apply(event),
        }
    }

    /// Whether `message` can be taken.
    pub fn can_take(&self, message: &PipelineMessage) -> (ok: bool)
        ensures
            ok == self.admits(message@),
    {
        match message {
            PipelineMessage::Sent(notice) => {
                if notice.index < self.ip_data.len() {
                    self.ip_data[notice.index].window.sent() < usize::MAX
                } else {
                    true
                }
            },
            PipelineMessage::Round(event) => {
                let settles = match event.outcome {
                    Outcome::ProbeError(_) => false,
                    _ => true,
                };
                if settles && event.index < self.ip_data.len() {
                    let window = &self.ip_data[event.index].window;
                    let sent = window.sent();
                    window.received() + window.timeout() < sent
                } else {
                    true
                }
            },
        }
    }

    /// Takes `message` from the update pipeline if it can be taken, and
    /// leaves the model as it is if not. Returns whether the model changed.
    pub fn offer(&mut self, message: PipelineMessage) -> (applied: bool)
        ensures
            final(self)@ == if old(self).admits(message@) {
                old(self)@.accept(message@)
            } else {
                old(self)@
            },
            applied == (old(self).admits(message@) && old(self)@.takes(message@)),
    {
        if self.can_take(&message) {
            self.accept(message)
        } else {
            false
        }
    }

    /// Applies one event of the update pipeline. A reply or a timeout
    /// settles the probe in flight of the record that the event's index
    /// names, and leaves the number of probes sent as it is; a probe error
    /// goes to the log of recent errors. An event whose index names no
    /// record changes nothing. Returns whether the model changed.
    pub fn apply(&mut self, event: UpdateEvent) -> (applied: bool)
        requires
            old(self).awaits(event@),
        ensures
            final(self)@ == old(self)@.apply(event@),
            final(self)@.errs.len() <= ERROR_LOG_CAPACITY,
            applied == old(self)@.accepts(event@),
    {
        proof {
            use_type_invariant(&*self);
        }
        let UpdateEvent { index, address, outcome } = event;
        match outcome {
            Outcome::ProbeError(text) => {
                let mut errs: Vec<String> = Vec::new();
                std::mem::swap(&mut errs, &mut self.errs);
                set_error(&mut errs, text);
                self.errs = errs;
                true
            },
            Outcome::Replied(rtt) => {
                if index < self.ip_data.len() {
                    let mut ip_data: Vec<IpData> = Vec::new();
                    std::mem::swap(&mut ip_data, &mut self.ip_data);
                    update_stats(&mut ip_data, index, address, rtt);
                    self.ip_data = ip_data;
                    true
                } else {
                    false
                }
            },
            Outcome::TimedOut => {
                if index < self.ip_data.len() {
                    let mut ip_data: Vec<IpData> = Vec::new();
                    std::mem::swap(&mut ip_data, &mut self.ip_data);
                    update_timeout_stats(&mut ip_data, index, address);
                    self.ip_data = ip_data;
                    true
                } else {
                    false
                }
            },
        }
    }
}

} // verus!
