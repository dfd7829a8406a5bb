//! Statistics over a window of samples: average round-trip time, jitter and
//! loss rate. Times are whole microseconds; rates are hundredths of a percent.

use crate::window::{lemma_window_after, reply_count, Sample, WindowModel, WINDOW_CAPACITY};
use std::collections::VecDeque;
use vstd::prelude::*;

verus! {

/// A loss rate of one hundred percent, in hundredths of a percent.
pub const FULL_LOSS: u64 = 10000;

/// The loss rate above which a target is shown as failing: fifty percent.
pub const HIGH_LOSS: u64 = 5000;

/// The sum of the round-trip times among `samples`; timeouts add nothing.
pub open spec fn reply_sum(samples: Seq<Sample>) -> nat
    decreases samples.len(),
{
    if samples.len() == 0 {
        0
    } else {
        reply_sum(samples.drop_last()) + match samples.last() {
            Sample::Rtt(v) => v as nat,
            Sample::Timeout => 0nat,
        }
    }
}

/// The mean round-trip time of the replies among `samples`, rounded down;
/// zero when there is no reply among them.
pub open spec fn average_rtt(samples: Seq<Sample>) -> nat {
    if reply_count(samples) == 0 {
        0
    } else {
        reply_sum(samples) / reply_count(samples)
    }
}

/// The value with which a sample enters the series that jitter is taken
/// over: its round-trip time, and zero for a timeout.
pub open spec fn raw_value(sample: Sample) -> nat {
    match sample {
        Sample::Rtt(v) => v as nat,
        Sample::Timeout => 0,
    }
}

/// The distance between two values.
pub open spec fn distance(a: nat, b: nat) -> nat {
    if a >= b {
        (a - b) as nat
    } else {
        (b - a) as nat
    }
}

/// The sum of the distances between each sample and the one before it.
pub open spec fn total_variation(samples: Seq<Sample>) -> nat
    decreases samples.len(),
{
    if samples.len() < 2 {
        0
    } else {
        total_variation(samples.drop_last()) + distance(
            raw_value(samples[samples.len() - 1]),
            raw_value(samples[samples.len() - 2]),
        )
    }
}

/// The mean distance between consecutive samples, rounded down, timeouts
/// included with their raw value; zero for fewer than two samples.
pub open spec fn jitter(samples: Seq<Sample>) -> nat {
    if samples.len() < 2 {
        0
    } else {
        total_variation(samples) / ((samples.len() - 1) as nat)
    }
}

/// The share of timeouts among the probes that have been resolved, in
/// hundredths of a percent, rounded down; zero when none has been resolved.
pub open spec fn loss_rate(timeout: nat, received: nat) -> nat {
    if timeout + received == 0 {
        0
    } else {
        timeout * 10000 / (timeout + received)
    }
}

/// A quotient is at most `bound` when the dividend is at most `bound` times
/// the divisor.
proof fn lemma_quotient_bound(total: nat, count: nat, bound: nat)
    requires
        count > 0,
        total <= count * bound,
    ensures
        total / count <= bound,
{
    assert(total / count <= bound) by (nonlinear_arith)
        requires
            count > 0,
            total <= count * bound,
    ;
}

/// Of two fractions with positive denominators, the one that is smaller by
/// cross-multiplication has the smaller floor.
proof fn lemma_floor_monotonic(a: nat, b: nat, c: nat, d: nat)
    requires
        b > 0,
        d > 0,
        a * d <= c * b,
    ensures
        a / b <= c / d,
{
    let q = a / b;
    assert(q * b <= a) by (nonlinear_arith)
        requires
            q == a / b,
            b > 0,
    ;
    assert(q * d <= c) by (nonlinear_arith)
        requires
            q * b <= a,
            a * d <= c * b,
            b > 0,
            d > 0,
    ;
    assert(q <= c / d) by (nonlinear_arith)
        requires
            q * d <= c,
            d > 0,
    ;
}

/// The replies among some samples are no more than the samples, and their
/// sum is no more than if each had the largest value a sample can hold.
pub proof fn lemma_reply_sum_bound(samples: Seq<Sample>)
    ensures
        reply_count(samples) <= samples.len(),
        reply_sum(samples) <= reply_count(samples) * u64::MAX,
    decreases samples.len(),
{
    if samples.len() > 0 {
        lemma_reply_sum_bound(samples.drop_last());
    }
}

/// The total variation of some samples is no more than if each step had
/// spanned the whole range of a sample.
pub proof fn lemma_total_variation_bound(samples: Seq<Sample>)
    ensures
        samples.len() >= 1 ==> total_variation(samples) <= (samples.len() - 1) * u64::MAX,
        samples.len() == 0 ==> total_variation(samples) == 0,
    decreases samples.len(),
{
    if samples.len() >= 2 {
        lemma_total_variation_bound(samples.drop_last());
    }
}

/// With no timeout the loss rate is zero, whatever has been received.
pub proof fn lemma_loss_rate_without_timeouts(received: nat)
    ensures
        loss_rate(0, received) == 0,
{
}

/// The loss rate never exceeds one hundred percent.
pub proof fn lemma_loss_rate_bound(timeout: nat, received: nat)
    ensures
        loss_rate(timeout, received) <= FULL_LOSS,
{
    if timeout + received > 0 {
        lemma_quotient_bound(timeout * 10000, timeout + received, 10000);
    }
}

/// For a fixed number of replies, more timeouts never give a smaller loss
/// rate.
pub proof fn lemma_loss_rate_monotonic(fewer: nat, more: nat, received: nat)
    requires
        fewer <= more,
    ensures
        loss_rate(fewer, received) <= loss_rate(more, received),
{
    if fewer + received > 0 {
        assert((fewer * 10000) * (more + received) <= (more * 10000) * (fewer + received))
            by (nonlinear_arith)
            requires
                fewer <= more,
        ;
        lemma_floor_monotonic(fewer * 10000, fewer + received, more * 10000, more + received);
    }
}

/// The outcomes of `count` probes that are all answered after `rtt`
/// microseconds.
pub open spec fn steady(count: nat, rtt: u64) -> Seq<Sample> {
    Seq::new(count, |i: int| Sample::Rtt(rtt))
}

/// The statistics of samples that are all the same reply: as many replies
/// as samples, their sum, and no variation.
proof fn lemma_steady_statistics(count: nat, rtt: u64)
    ensures
        reply_count(steady(count, rtt)) == count,
        reply_sum(steady(count, rtt)) == count * rtt,
        total_variation(steady(count, rtt)) == 0,
    decreases count,
{
    if count > 0 {
        lemma_steady_statistics((count - 1) as nat, rtt);
        assert(steady(count, rtt).drop_last() == steady((count - 1) as nat, rtt));
        assert((count - 1) * rtt + rtt == count * rtt) by (nonlinear_arith);
    }
}

/// The minimum, maximum and latest value after probes that are all answered
/// after the same time are that time.
proof fn lemma_steady_extremes(count: nat, rtt: u64)
    requires
        count > 0,
    ensures
        WindowModel::after(steady(count, rtt)).min_rtt == Some(rtt),
        WindowModel::after(steady(count, rtt)).max_rtt == Some(rtt),
        WindowModel::after(steady(count, rtt)).last_rtt == Some(rtt),
    decreases count,
{
    assert(steady(count, rtt).drop_last() == steady((count - 1) as nat, rtt));
    if count > 1 {
        lemma_steady_extremes((count - 1) as nat, rtt);
    }
}

/// A run in which every probe is answered after the same time: after
/// `count` probes, each answered after `rtt` microseconds, the window has
/// `count` sent and received and none timed out, it holds the latest of the
/// replies, minimum and maximum are `rtt`, the average is `rtt`, and jitter
/// and loss rate are zero.
pub proof fn lemma_all_answered_alike(count: nat, rtt: u64)
    requires
        count > 0,
    ensures
        ({
            let w = WindowModel::after(steady(count, rtt));
            &&& w.wf()
            &&& w.sent == count
            &&& w.received == count
            &&& w.timeout == 0
            &&& w.samples == steady(
                if count <= WINDOW_CAPACITY {
                    count
                } else {
                    WINDOW_CAPACITY as nat
                },
                rtt,
            )
            &&& w.min_rtt == Some(rtt)
            &&& w.max_rtt == Some(rtt)
            &&& w.last_rtt == Some(rtt)
            &&& average_rtt(w.samples) == rtt
            &&& jitter(w.samples) == 0
            &&& loss_rate(w.timeout, w.received) == 0
        }),
{
    let w = WindowModel::after(steady(count, rtt));
    let held: nat = if count <= WINDOW_CAPACITY {
        count
    } else {
        WINDOW_CAPACITY as nat
    };
    lemma_window_after(steady(count, rtt));
    lemma_steady_statistics(count, rtt);
    lemma_steady_statistics(held, rtt);
    lemma_steady_extremes(count, rtt);
    assert(w.samples =~= steady(held, rtt));
    let total = reply_sum(steady(held, rtt));
    assert(total / held == rtt) by (nonlinear_arith)
        requires
            held > 0,
            total == held * rtt,
    ;
}

/// The mean round-trip time of the replies in `rtt`, in microseconds and
/// rounded down. Timeouts are left out; the result is zero when `rtt` holds
/// no reply.
pub fn calculate_avg_rtt(rtt: &VecDeque<Sample>) -> (avg: u64)
    ensures
        avg == average_rtt(rtt@),
{
    let n = rtt.len();
    let mut sum: u128 = 0;
    let mut count: u128 = 0;
    let mut i: usize = 0;
    while i < n
        invariant
            n == rtt@.len(),
            i <= n,
            sum == reply_sum(rtt@.take(i as int)),
            count == reply_count(rtt@.take(i as int)),
            count <= i,
            sum <= count * u64::MAX,
        decreases n - i,
    {
        proof {
            assert(rtt@.take(i + 1).drop_last() == rtt@.take(i as int));
            lemma_reply_sum_bound(rtt@.take(i + 1));
        }
        match rtt[i] {
            Sample::Rtt(v) => {
                sum = sum + v as u128;
                count = count + 1;
            },
            Sample::Timeout => {},
        }
        i = i + 1;
    }
    proof {
        assert(rtt@.take(n as int) == rtt@);
    }
    if count == 0 {
        0
    } else {
        proof {
            lemma_quotient_bound(sum as nat, count as nat, u64::MAX as nat);
        }
        (sum / count) as u64
    }
}

/// The jitter of `rtt`: the mean distance between each sample and the one
/// before it, in microseconds and rounded down. A timeout enters with the
/// value zero. The result is zero for fewer than two samples.
pub fn calculate_jitter(rtt: &VecDeque<Sample>) -> (jit: u64)
    ensures
        jit == jitter(rtt@),
{
    let n = rtt.len();
    if n < 2 {
        return 0;
    }
    let mut total: u128 = 0;
    let mut i: usize = 1;
    while i < n
        invariant
            n == rtt@.len(),
            1 <= i <= n,
            total == total_variation(rtt@.take(i as int)),
            total <= (i - 1) * u64::MAX,
        decreases n - i,
    {
        proof {
            assert(rtt@.take(i + 1).drop_last() == rtt@.take(i as int));
            lemma_total_variation_bound(rtt@.take(i + 1));
        }
        let a: u64 = match rtt[i] {
            Sample::Rtt(v) => v,
            Sample::Timeout => 0,
        };
        let b: u64 = match rtt[i - 1] {
            Sample::Rtt(v) => v,
            Sample::Timeout => 0,
        };
        let step: u64 = if a >= b {
            a - b
        } else {
            b - a
        };
        total = total + step as u128;
        i = i + 1;
    }
    proof {
        assert(rtt@.take(n as int) == rtt@);
        lemma_quotient_bound(total as nat, (n - 1) as nat, u64::MAX as nat);
    }
    (total / ((n - 1) as u128)) as u64
}

/// The loss rate in hundredths of a percent, rounded down: the share of
/// `timeout` in `timeout + received`, and zero when both are zero. Probes
/// that are still in flight count for nothing.
pub fn calculate_loss_pkg(timeout: usize, received: usize) -> (loss: u64)
    ensures
        loss == loss_rate(timeout as nat, received as nat),
        loss <= FULL_LOSS,
{
    proof {
        lemma_loss_rate_bound(timeout as nat, received as nat);
    }
    if timeout > 0 {
        let resolved: u128 = timeout as u128 + received as u128;
        ((timeout as u128 * 10000) / resolved) as u64
    } else {
        0
    }
}

/// How a loss rate is to be shown.
#[derive(Clone, Copy, Debug, PartialEq, Eq, Structural)]
pub enum LossColor {
    /// No loss.
    Green,
    /// Some loss, at most fifty percent.
    Yellow,
    /// More than fifty percent lost.
    Red,
}

/// The colour for a loss rate given in hundredths of a percent: red above
/// fifty percent, yellow above zero, green at zero.
pub fn get_loss_color_and_emoji(loss_rate: u64) -> (color: LossColor)
    ensures
        color == if loss_rate > HIGH_LOSS {
            LossColor::Red
        } else if loss_rate > 0 {
            LossColor::Yellow
        } else {
            LossColor::Green
        },
{
    if loss_rate > HIGH_LOSS {
        LossColor::Red
    } else if loss_rate > 0 {
        LossColor::Yellow
    } else {
        LossColor::Green
    }
}

} // verus!
