//! The rolling window of round-trip samples that is kept for one target,
//! with its counters and its running minimum and maximum.

use std::collections::VecDeque;
use vstd::prelude::*;

verus! {

/// The number of samples that a window keeps.
pub const WINDOW_CAPACITY: usize = 10;

/// The outcome of one probe as the window stores it.
#[derive(Clone, Copy, Debug, PartialEq, Eq, Structural)]
pub enum Sample {
    /// A reply arrived after this many microseconds.
    Rtt(u64),
    /// No reply arrived in time.
    Timeout,
}

/// What a window holds, as mathematics.
pub struct WindowModel {
    /// The most recent samples, oldest first.
    pub samples: Seq<Sample>,
    /// How many samples have left the window because it was full.
    pub evicted: nat,
    /// How many probes have gone out.
    pub sent: nat,
    /// How many of them were answered.
    pub received: nat,
    /// How many of them timed out.
    pub timeout: nat,
    /// The round-trip time of the latest reply.
    pub last_rtt: Option<u64>,
    /// The smallest round-trip time seen so far.
    pub min_rtt: Option<u64>,
    /// The largest round-trip time seen so far.
    pub max_rtt: Option<u64>,
}

/// The smaller of two round-trip times.
pub open spec fn min_of(a: u64, b: u64) -> u64 {
    if a <= b {
        a
    } else {
        b
    }
}

/// The larger of two round-trip times.
pub open spec fn max_of(a: u64, b: u64) -> u64 {
    if a >= b {
        a
    } else {
        b
    }
}

/// `samples` with `sample` appended, and the oldest sample dropped when that
/// would exceed the capacity.
pub open spec fn pushed(samples: Seq<Sample>, sample: Sample) -> Seq<Sample> {
    if samples.len() >= WINDOW_CAPACITY {
        samples.push(sample).skip(1)
    } else {
        samples.push(sample)
    }
}

impl WindowModel {
    /// The window before any probe.
    pub open spec fn empty() -> WindowModel {
        WindowModel {
            samples: Seq::empty(),
            evicted: 0,
            sent: 0,
            received: 0,
            timeout: 0,
            last_rtt: None,
            min_rtt: None,
            max_rtt: None,
        }
    }

    /// How many samples have been pushed so far: the probes that have been
    /// settled, as a reply or as a timeout.
    pub open spec fn pushes(self) -> nat {
        self.received + self.timeout
    }

    /// Whether a probe has gone out that is not settled yet.
    pub open spec fn in_flight(self) -> bool {
        self.received + self.timeout < self.sent
    }

    /// The window after a probe has gone out: one more is sent, and nothing
    /// else changes.
    pub open spec fn record_sent(self) -> WindowModel {
        WindowModel { sent: self.sent + 1, ..self }
    }

    /// The invariant of a window.
    pub open spec fn wf(self) -> bool {
        &&& self.samples.len() <= WINDOW_CAPACITY
        &&& self.received + self.timeout <= self.sent
        &&& self.evicted + self.samples.len() == self.pushes()
        &&& self.samples.len() < WINDOW_CAPACITY ==> self.evicted == 0
        &&& self.min_rtt.is_some() <==> self.received > 0
        &&& self.max_rtt.is_some() <==> self.received > 0
        &&& self.last_rtt.is_some() <==> self.received > 0
        &&& self.received > 0 ==> self.min_rtt.unwrap() <= self.last_rtt.unwrap()
            <= self.max_rtt.unwrap()
        &&& forall|i: int|
            0 <= i < self.samples.len() ==> (#[trigger] self.samples[i] matches Sample::Rtt(v)
                ==> self.received > 0 && self.min_rtt.unwrap() <= v <= self.max_rtt.unwrap())
    }

    /// The window after a reply with round-trip time `rtt`. The number of
    /// probes sent stays: the probe was counted when it went out.
    pub open spec fn record_reply(self, rtt: u64) -> WindowModel {
        WindowModel {
            samples: pushed(self.samples, Sample::Rtt(rtt)),
            evicted: if self.samples.len() >= WINDOW_CAPACITY {
                self.evicted + 1
            } else {
                self.evicted
            },
            sent: self.sent,
            received: self.received + 1,
            timeout: self.timeout,
            last_rtt: Some(rtt),
            min_rtt: match self.min_rtt {
                Some(m) => Some(min_of(m, rtt)),
                None => Some(rtt),
            },
            max_rtt: match self.max_rtt {
                Some(m) => Some(max_of(m, rtt)),
                None => Some(rtt),
            },
        }
    }

    /// The window after a probe that timed out. The number of probes sent
    /// stays: the probe was counted when it went out.
    pub open spec fn record_timeout(self) -> WindowModel {
        WindowModel {
            samples: pushed(self.samples, Sample::Timeout),
            evicted: if self.samples.len() >= WINDOW_CAPACITY {
                self.evicted + 1
            } else {
                self.evicted
            },
            timeout: self.timeout + 1,
            ..self
        }
    }

    /// The window after a probe with the given outcome.
    pub open spec fn record(self, sample: Sample) -> WindowModel {
        match sample {
            Sample::Rtt(rtt) => self.record_reply(rtt),
            Sample::Timeout => self.record_timeout(),
        }
    }

    /// The window after the probes whose outcomes are `outcomes`, in order,
    /// each counted when it went out and settled before the next.
    pub open spec fn after(outcomes: Seq<Sample>) -> WindowModel
        decreases outcomes.len(),
    {
        if outcomes.len() == 0 {
            WindowModel::empty()
        } else {
            WindowModel::after(outcomes.drop_last()).record_sent().record(outcomes.last())
        }
    }
}

/// How many of `outcomes` are replies.
pub open spec fn reply_count(outcomes: Seq<Sample>) -> nat
    decreases outcomes.len(),
{
    if outcomes.len() == 0 {
        0
    } else {
        reply_count(outcomes.drop_last()) + if outcomes.last() is Rtt {
            1nat
        } else {
            0nat
        }
    }
}

/// Counting a probe that goes out keeps a window well formed, and puts a
/// probe in flight.
pub proof fn lemma_record_sent_keeps_wf(w: WindowModel)
    requires
        w.wf(),
    ensures
        w.record_sent().wf(),
        w.record_sent().in_flight(),
{
}

/// What a reply does to a window, whatever is in flight: the window grows
/// by one up to its capacity and never beyond, what has left the window and
/// what it holds are together what has been pushed, and minimum and maximum
/// are set and enclose the new value and every reply still in the window.
pub proof fn lemma_reply_law(w: WindowModel, rtt: u64)
    requires
        w.wf(),
    ensures
        ({
            let next = w.record_reply(rtt);
            &&& next.samples.len() == if w.samples.len() < WINDOW_CAPACITY {
                w.samples.len() + 1
            } else {
                WINDOW_CAPACITY as nat
            }
            &&& next.samples.last() == Sample::Rtt(rtt)
            &&& next.evicted + next.samples.len() == next.pushes()
            &&& next.sent == w.sent
            &&& next.received == w.received + 1
            &&& next.timeout == w.timeout
            &&& next.min_rtt.is_some() && next.max_rtt.is_some()
            &&& next.min_rtt.unwrap() <= rtt <= next.max_rtt.unwrap()
            &&& forall|i: int|
                0 <= i < next.samples.len() ==> (#[trigger] next.samples[i] matches Sample::Rtt(v)
                    ==> next.min_rtt.unwrap() <= v <= next.max_rtt.unwrap())
        }),
{
    let next = w.record_reply(rtt);
    assert forall|i: int| 0 <= i < next.samples.len() implies (#[trigger] next.samples[i] matches Sample::Rtt(
        v,
    ) ==> next.min_rtt.unwrap() <= v <= next.max_rtt.unwrap()) by {
        let grown = w.samples.push(Sample::Rtt(rtt));
        let j = if w.samples.len() >= WINDOW_CAPACITY {
            i + 1
        } else {
            i
        };
        assert(next.samples[i] == grown[j]);
        if j < w.samples.len() {
            assert(grown[j] == w.samples[j]);
        }
    }
}

/// What a timeout does to a window, whatever is in flight: a timeout is
/// appended, the oldest sample leaves a full window and the eviction counter
/// follows; the probes sent, the replies, the latest value, the minimum and
/// the maximum stay as they are, unset where they were unset.
pub proof fn lemma_timeout_law(w: WindowModel)
    requires
        w.wf(),
    ensures
        ({
            let next = w.record_timeout();
            &&& next.samples.len() == if w.samples.len() < WINDOW_CAPACITY {
                w.samples.len() + 1
            } else {
                WINDOW_CAPACITY as nat
            }
            &&& next.samples.last() == Sample::Timeout
            &&& w.samples.len() == WINDOW_CAPACITY ==> next.samples == w.samples.skip(1).push(
                Sample::Timeout,
            ) && next.evicted == w.evicted + 1
            &&& w.samples.len() < WINDOW_CAPACITY ==> next.samples == w.samples.push(
                Sample::Timeout,
            ) && next.evicted == w.evicted
            &&& next.evicted + next.samples.len() == next.pushes()
            &&& next.timeout == w.timeout + 1
            &&& next.sent == w.sent
            &&& next.received == w.received
            &&& next.last_rtt == w.last_rtt
            &&& next.min_rtt == w.min_rtt
            &&& next.max_rtt == w.max_rtt
        }),
{
    let next = w.record_timeout();
    if w.samples.len() == WINDOW_CAPACITY {
        assert(next.samples =~= w.samples.skip(1).push(Sample::Timeout));
    }
}

/// Settling a probe that is in flight keeps a window well formed.
pub proof fn lemma_record_keeps_wf(w: WindowModel, sample: Sample)
    requires
        w.wf(),
        w.in_flight(),
    ensures
        w.record(sample).wf(),
{
    let next = w.record(sample);
    assert forall|i: int| 0 <= i < next.samples.len() implies (#[trigger] next.samples[i] matches Sample::Rtt(
        v,
    ) ==> next.received > 0 && next.min_rtt.unwrap() <= v <= next.max_rtt.unwrap()) by {
        let grown = w.samples.push(sample);
        let j = if w.samples.len() >= WINDOW_CAPACITY {
            i + 1
        } else {
            i
        };
        assert(next.samples[i] == grown[j]);
        if j < w.samples.len() {
            assert(grown[j] == w.samples[j]);
        }
    }
}

/// The window never holds more than its capacity, and once more samples
/// have been pushed than it can hold, the eviction counter is the number of
/// pushes beyond the capacity.
pub proof fn lemma_eviction_count(w: WindowModel)
    requires
        w.wf(),
    ensures
        w.samples.len() <= WINDOW_CAPACITY,
        w.pushes() > WINDOW_CAPACITY ==> w.evicted == w.pushes() - WINDOW_CAPACITY,
        w.pushes() <= WINDOW_CAPACITY ==> w.evicted == 0 && w.samples.len() == w.pushes(),
{
}

/// Once a reply has been recorded the minimum is no larger than the maximum,
/// and both stay unset for as long as every probe has timed out.
pub proof fn lemma_min_max(w: WindowModel)
    requires
        w.wf(),
    ensures
        w.received > 0 ==> w.min_rtt.is_some() && w.max_rtt.is_some() && w.min_rtt.unwrap()
            <= w.max_rtt.unwrap(),
        w.received == 0 ==> w.min_rtt.is_none() && w.max_rtt.is_none(),
{
}

/// After any run of probes, each settled before the next goes out, the
/// window is well formed and holds the latest outcomes, at most
/// `WINDOW_CAPACITY` of them, in the order in which they came; every counter
/// is what the run makes it, and nothing is in flight.
pub proof fn lemma_window_after(outcomes: Seq<Sample>)
    ensures
        WindowModel::after(outcomes).wf(),
        WindowModel::after(outcomes).samples == if outcomes.len() > WINDOW_CAPACITY {
            outcomes.skip(outcomes.len() - WINDOW_CAPACITY)
        } else {
            outcomes
        },
        WindowModel::after(outcomes).evicted == if outcomes.len() > WINDOW_CAPACITY {
            outcomes.len() - WINDOW_CAPACITY
        } else {
            0
        },
        WindowModel::after(outcomes).sent == outcomes.len(),
        WindowModel::after(outcomes).received == reply_count(outcomes),
        WindowModel::after(outcomes).timeout == outcomes.len() - reply_count(outcomes),
        !WindowModel::after(outcomes).in_flight(),
        reply_count(outcomes) <= outcomes.len(),
    decreases outcomes.len(),
{
    if outcomes.len() > 0 {
        let before = outcomes.drop_last();
        lemma_window_after(before);
        lemma_record_keeps_wf(WindowModel::after(before).record_sent(), outcomes.last());
        let w = WindowModel::after(outcomes);
        let expected = if outcomes.len() > WINDOW_CAPACITY {
            outcomes.skip(outcomes.len() - WINDOW_CAPACITY)
        } else {
            outcomes
        };
        assert(w.samples =~= expected);
    }
}

/// For as long as every probe of a run has timed out, the minimum and the
/// maximum stay unset.
pub proof fn lemma_all_timeouts_leave_min_max_unset(outcomes: Seq<Sample>)
    requires
        forall|i: int| 0 <= i < outcomes.len() ==> outcomes[i] is Timeout,
    ensures
        WindowModel::after(outcomes).min_rtt.is_none(),
        WindowModel::after(outcomes).max_rtt.is_none(),
        WindowModel::after(outcomes).last_rtt.is_none(),
    decreases outcomes.len(),
{
    if outcomes.len() > 0 {
        lemma_all_timeouts_leave_min_max_unset(outcomes.drop_last());
    }
}

/// The fields of a window.
struct WindowState {
    rtts: VecDeque<Sample>,
    pop_count: usize,
    sent: usize,
    received: usize,
    timeout: usize,
    last_attr: Option<u64>,
    min_rtt: Option<u64>,
    max_rtt: Option<u64>,
}

impl WindowState {
    spec fn model(&self) -> WindowModel {
        WindowModel {
            samples: self.rtts@,
            evicted: self.pop_count as nat,
            sent: self.sent as nat,
            received: self.received as nat,
            timeout: self.timeout as nat,
            last_rtt: self.last_attr,
            min_rtt: self.min_rtt,
            max_rtt: self.max_rtt,
        }
    }

    fn empty() -> (state: WindowState)
        ensures
            state.model() == WindowModel::empty(),
    {
        WindowState {
            rtts: VecDeque::new(),
            pop_count: 0,
            sent: 0,
            received: 0,
            timeout: 0,
            last_attr: None,
            min_rtt: None,
            max_rtt: None,
        }
    }

    fn push(&mut self, sample: Sample)
        requires
            old(self).model().wf(),
            old(self).model().in_flight(),
        ensures
            final(self).rtts@ == pushed(old(self).rtts@, sample),
            final(self).pop_count == if old(self).rtts@.len() >= WINDOW_CAPACITY {
                old(self).pop_count + 1
            } else {
                old(self).pop_count as int
            },
            final(self).sent == old(self).sent,
            final(self).received == old(self).received,
            final(self).timeout == old(self).timeout,
            final(self).last_attr == old(self).last_attr,
            final(self).min_rtt == old(self).min_rtt,
            final(self).max_rtt == old(self).max_rtt,
    {
        self.rtts.push_back(sample);
        if self.rtts.len() > WINDOW_CAPACITY {
            self.rtts.pop_front();
            self.pop_count = self.pop_count + 1;
        }
    }
}

/// The rolling window of one target. A window always satisfies the
/// invariant `WindowModel::wf`.
pub struct SampleWindow {
    state: WindowState,
}

impl View for SampleWindow {
    type V = WindowModel;

    closed spec fn view(&self) -> WindowModel {
        self.state.model()
    }
}

impl SampleWindow {
    #[verifier::type_invariant]
    spec fn sound(&self) -> bool {
        self.state.model().wf()
    }

    /// Whether the window satisfies its invariant. Every window does, and
    /// every function that reads a window says so.
    pub open spec fn wf(&self) -> bool {
        self@.wf()
    }

    /// A window that has seen no probe.
    pub fn new() -> (w: SampleWindow)
        ensures
            w@ == WindowModel::empty(),
            w.wf(),
    {
        SampleWindow { state: WindowState::empty() }
    }

    /// Records that a probe has gone out: one more is sent, and nothing
    /// else changes.
    pub fn record_sent(&mut self)
        requires
            old(self)@.sent < usize::MAX,
        ensures
            final(self)@ == old(self)@.record_sent(),
            old(self).wf(),
            final(self).wf(),
    {
        proof {
            use_type_invariant(&*self);
        }
        let mut state = WindowState::empty();
        std::mem::swap(&mut state, &mut self.state);
        state.sent = state.sent + 1;
        self.state = state;
    }

    /// Records the reply to a probe in flight, which took `rtt`
    /// microseconds: the sample enters the window, the oldest leaves if the
    /// window was full, and the number of replies, the latest value and the
    /// running minimum and maximum follow. The number of probes sent stays.
    pub fn record_reply(&mut self, rtt: u64)
        requires
            old(self)@.in_flight(),
        ensures
            final(self)@ == old(self)@.record_reply(rtt),
            old(self).wf(),
            final(self).wf(),
    {
        proof {
            use_type_invariant(&*self);
            lemma_record_keeps_wf(self@, Sample::Rtt(rtt));
        }
        let mut state = WindowState::empty();
        std::mem::swap(&mut state, &mut self.state);
        state.push(Sample::Rtt(rtt));
        state.received = state.received + 1;
        state.last_attr = Some(rtt);
        state.min_rtt = match state.min_rtt {
            Some(m) => Some(if m <= rtt { m } else { rtt }),
            None => Some(rtt),
        };
        state.max_rtt = match state.max_rtt {
            Some(m) => Some(if m >= rtt { m } else { rtt }),
            None => Some(rtt),
        };
        self.state = state;
    }

    /// Records that a probe in flight timed out: a timeout enters the
    /// window, the oldest sample leaves if the window was full, and the
    /// number of timeouts follows. The number of probes sent, the latest
    /// value, the minimum and the maximum stay as they are.
    pub fn record_timeout(&mut self)
        requires
            old(self)@.in_flight(),
        ensures
            final(self)@ == old(self)@.record_timeout(),
            old(self).wf(),
            final(self).wf(),
    {
        proof {
            use_type_invariant(&*self);
            lemma_record_keeps_wf(self@, Sample::Timeout);
        }
        let mut state = WindowState::empty();
        std::mem::swap(&mut state, &mut self.state);
        state.push(Sample::Timeout);
        state.timeout = state.timeout + 1;
        self.state = state;
    }

    /// The samples in the window, oldest first.
    pub fn rtts(&self) -> (rtts: &VecDeque<Sample>)
        ensures
            rtts@ == self@.samples,
            self.wf(),
    {
        proof {
            use_type_invariant(self);
        }
        &self.state.rtts
    }

    /// How many samples have left the window because it was full.
    pub fn pop_count(&self) -> (n: usize)
        ensures
            n == self@.evicted,
            self.wf(),
    {
        proof {
            use_type_invariant(self);
        }
        self.state.pop_count
    }

    /// How many probes have gone out.
    pub fn sent(&self) -> (n: usize)
        ensures
            n == self@.sent,
            self.wf(),
    {
        proof {
            use_type_invariant(self);
        }
        self.state.sent
    }

    /// How many probes were answered.
    pub fn received(&self) -> (n: usize)
        ensures
            n == self@.received,
            self.wf(),
    {
        proof {
            use_type_invariant(self);
        }
        self.state.received
    }

    /// How many probes timed out.
    pub fn timeout(&self) -> (n: usize)
        ensures
            n == self@.timeout,
            self.wf(),
    {
        proof {
            use_type_invariant(self);
        }
        self.state.timeout
    }

    /// The round-trip time of the latest reply, if there has been one.
    pub fn last_attr(&self) -> (rtt: Option<u64>)
        ensures
            rtt == self@.last_rtt,
            self.wf(),
    {
        proof {
            use_type_invariant(self);
        }
        self.state.last_attr
    }

    /// The smallest round-trip time so far, if there has been a reply.
    pub fn min_rtt(&self) -> (rtt: Option<u64>)
        ensures
            rtt == self@.min_rtt,
            self.wf(),
    {
        proof {
            use_type_invariant(self);
        }
        self.state.min_rtt
    }

    /// The largest round-trip time so far, if there has been a reply.
    pub fn max_rtt(&self) -> (rtt: Option<u64>)
        ensures
            rtt == self@.max_rtt,
            self.wf(),
    {
        proof {
            use_type_invariant(self);
        }
        self.state.max_rtt
    }
}

} // verus!
