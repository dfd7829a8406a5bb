//! What the three views decide before anything is drawn: which view to
//! show, how the targets are laid out and ranked, and how a sample, a loss
//! rate or a key is to be read. Drawing itself is left to the caller.

use crate::metrics::{average_rtt, calculate_avg_rtt, calculate_loss_pkg, loss_rate};
use crate::model::{records_view, IpData, IpDataView, ERROR_LOG_CAPACITY};
use crate::window::{Sample, SampleWindow};
use vstd::prelude::*;

verus! {

/// The number of targets that the graph view puts in one row.
pub const GRAPHS_PER_ROW: usize = 5;

/// The view that is shown.
#[derive(Clone, Copy, Debug, PartialEq, Eq, Structural)]
pub enum ViewMode {
    /// One chart per target.
    Graph,
    /// One table row per target.
    Table,
    /// One line of marks per target.
    Point,
}

/// The view that `view_type` names: `table` and `point` name theirs, and
/// everything else the graph view.
pub open spec fn view_mode_spec(view_type: Seq<char>) -> ViewMode {
    if view_type == "table"@ {
        ViewMode::Table
    } else if view_type == "point"@ {
        ViewMode::Point
    } else {
        ViewMode::Graph
    }
}

/// The view that `view_type` names: the table view for `table`, the point
/// view for `point`, and the graph view for `graph` and for any other text.
pub fn view_mode(view_type: &String) -> (mode: ViewMode)
    ensures
        mode == view_mode_spec(view_type@),
{
    let table = "table".to_owned();
    let point = "point".to_owned();
    if *view_type == table {
        ViewMode::Table
    } else if *view_type == point {
        ViewMode::Point
    } else {
        ViewMode::Graph
    }
}

/// A key of the keyboard, as far as the run control reads it.
#[derive(Clone, Copy, Debug, PartialEq, Eq, Structural)]
pub enum Key {
    /// A character key.
    Char(char),
    /// The escape key.
    Esc,
    /// Any other key.
    Other,
}

/// Whether a key press ends the run: `q`, escape, or `c` with the control
/// key held down.
pub fn is_quit_key(key: Key, control: bool) -> (quit: bool)
    ensures
        quit == (key == Key::Esc || key == Key::Char('q') || (control && key == Key::Char('c'))),
{
    match key {
        Key::Esc => true,
        Key::Char(c) => c == 'q' || (control && c == 'c'),
        Key::Other => false,
    }
}

/// How many rows the graph view needs for `targets` targets.
pub open spec fn grid_rows_spec(targets: nat) -> nat {
    (targets + GRAPHS_PER_ROW - 1) as nat / (GRAPHS_PER_ROW as nat)
}

/// How many rows the graph view needs for `targets` targets: five targets
/// to a row, the last row as short as it must be.
pub fn grid_rows(targets: usize) -> (rows: usize)
    ensures
        rows == grid_rows_spec(targets as nat),
{
    if targets % GRAPHS_PER_ROW == 0 {
        targets / GRAPHS_PER_ROW
    } else {
        targets / GRAPHS_PER_ROW + 1
    }
}

/// The targets of row `row` of the graph view: from the first to just
/// before the second of the pair.
pub open spec fn row_span_spec(row: nat, targets: nat) -> (nat, nat) {
    (
        row * 5,
        if row * 5 + 5 <= targets {
            row * 5 + 5
        } else {
            targets
        },
    )
}

/// The targets of row `row` of the graph view, as the place of the first
/// and the place after the last.
pub fn row_span(row: usize, targets: usize) -> (span: (usize, usize))
    requires
        row < grid_rows_spec(targets as nat),
    ensures
        span.0 == row_span_spec(row as nat, targets as nat).0,
        span.1 == row_span_spec(row as nat, targets as nat).1,
        span.0 < span.1 <= targets,
        span.1 - span.0 <= GRAPHS_PER_ROW,
{
    let start = row * GRAPHS_PER_ROW;
    let end = if targets - start >= GRAPHS_PER_ROW {
        start + GRAPHS_PER_ROW
    } else {
        targets
    };
    (start, end)
}

/// The share of the height, in percent, that each of `rows` rows gets.
pub fn row_height_percent(rows: usize) -> (percent: u16)
    requires
        rows > 0,
    ensures
        percent == 100int / (rows as int),
{
    proof {
        assert(100int / (rows as int) <= 100) by (nonlinear_arith)
            requires
                rows > 0,
        ;
    }
    (100 / rows) as u16
}

/// The share of the width, in percent, of each chart in a row.
pub open spec fn cell_width_spec(targets: nat, in_row: nat) -> nat {
    if in_row == GRAPHS_PER_ROW || targets > GRAPHS_PER_ROW {
        20
    } else {
        100nat / in_row
    }
}

/// The share of the width, in percent, that each chart gets in a row of
/// `in_row` charts, when there are `targets` targets in all. A full row
/// gives a fifth to each. A short row after full rows keeps the width of a
/// chart as it is above; a short row that is the only row is divided
/// evenly.
pub fn cell_width_percent(targets: usize, in_row: usize) -> (percent: u16)
    requires
        0 < in_row <= GRAPHS_PER_ROW,
    ensures
        percent == cell_width_spec(targets as nat, in_row as nat),
{
    if in_row == GRAPHS_PER_ROW || targets > GRAPHS_PER_ROW {
        20
    } else {
        (100 / in_row) as u16
    }
}

/// The mark of a row in the table view.
#[derive(Clone, Copy, Debug, PartialEq, Eq, Structural)]
pub enum Rank {
    First,
    Second,
    Third,
    /// Among the first ten, and not last.
    Trophy,
    /// Last, or beyond the first ten.
    Turtle,
}

/// The mark of the row at place `index` among `total` rows: the first three
/// have their own, then a trophy for every row among the first ten that is
/// not the last row, and a turtle for the rest.
pub fn rank_of(index: usize, total: usize) -> (rank: Rank)
    ensures
        rank == if index == 0 {
            Rank::First
        } else if index == 1 {
            Rank::Second
        } else if index == 2 {
            Rank::Third
        } else if index < 10 && index + 1 != total {
            Rank::Trophy
        } else {
            Rank::Turtle
        },
{
    if index == 0 {
        Rank::First
    } else if index == 1 {
        Rank::Second
    } else if index == 2 {
        Rank::Third
    } else if index < 10 && index != total.wrapping_sub(1) {
        Rank::Trophy
    } else {
        Rank::Turtle
    }
}

/// The shortest round-trip time, in microseconds, that still shows as more
/// than zero when times are shown in hundredths of a millisecond.
pub const SHOWN_FLOOR: u64 = 5;

/// How the latest round-trip time of a target is shown.
#[derive(Clone, Copy, Debug, PartialEq, Eq, Structural)]
pub enum LastShown {
    /// There has been no reply yet.
    Nothing,
    /// The reply was quicker than can be shown.
    BelowFloor,
    /// The reply took this many microseconds.
    Micros(u64),
}

/// How the latest round-trip time is shown: as nothing while there has been
/// no reply, as below the floor when it is shorter than `SHOWN_FLOOR`, and
/// as its value otherwise.
pub fn last_shown(last_attr: Option<u64>) -> (shown: LastShown)
    ensures
        shown == match last_attr {
            None => LastShown::Nothing,
            Some(rtt) => if rtt < SHOWN_FLOOR {
                LastShown::BelowFloor
            } else {
                LastShown::Micros(rtt)
            },
        },
{
    match last_attr {
        None => LastShown::Nothing,
        Some(rtt) => if rtt < SHOWN_FLOOR {
            LastShown::BelowFloor
        } else {
            LastShown::Micros(rtt)
        },
    }
}

/// How one sample is marked in the point view.
#[derive(Clone, Copy, Debug, PartialEq, Eq, Structural)]
pub enum PointMark {
    /// The probe timed out.
    Lost,
    /// The reply took more than four fifths of the largest round-trip time.
    Slow,
    /// The reply came in good time.
    Healthy,
}

/// The mark of `sample` in the point view of a target whose largest
/// round-trip time is `max_rtt`.
pub fn point_mark(sample: Sample, max_rtt: u64) -> (mark: PointMark)
    ensures
        mark == match sample {
            Sample::Timeout => PointMark::Lost,
            Sample::Rtt(rtt) => if rtt * 10 > max_rtt * 8 {
                PointMark::Slow
            } else {
                PointMark::Healthy
            },
        },
{
    match sample {
        Sample::Timeout => PointMark::Lost,
        Sample::Rtt(rtt) => if rtt as u128 * 10 > max_rtt as u128 * 8 {
            PointMark::Slow
        } else {
            PointMark::Healthy
        },
    }
}

/// The samples of a window with the numbers under which a chart shows
/// them: the samples are numbered from one in the order in which they were
/// taken, and a number stays with its sample when older samples leave.
pub fn chart_points(window: &SampleWindow) -> (points: Vec<(usize, Sample)>)
    ensures
        points@.len() == window@.samples.len(),
        forall|i: int|
            0 <= i < points@.len() ==> #[trigger] points@[i] == (
                (window@.evicted + i + 1) as usize,
                window@.samples[i],
            ),
        window@.evicted + window@.samples.len() <= usize::MAX,
{
    let rtts = window.rtts();
    let first = window.pop_count();
    let sent = window.sent();
    assert(first + rtts@.len() <= sent);
    let mut points: Vec<(usize, Sample)> = Vec::new();
    let mut i: usize = 0;
    while i < rtts.len()
        invariant
            i <= rtts@.len(),
            first + rtts@.len() <= usize::MAX,
            points@.len() == i,
            forall|k: int|
                0 <= k < i ==> #[trigger] points@[k] == ((first + k + 1) as usize, rtts@[k]),
        decreases rtts@.len() - i,
    {
        points.push((first + i + 1, rtts[i]));
        i = i + 1;
    }
    points
}

/// The errors to show: the latest of `errs` first, and no more than the log
/// keeps.
pub fn recent_errors(errs: &[String]) -> (shown: Vec<String>)
    ensures
        shown@.len() == if errs@.len() <= ERROR_LOG_CAPACITY {
            errs@.len()
        } else {
            ERROR_LOG_CAPACITY as nat
        },
        forall|i: int|
            0 <= i < shown@.len() ==> (#[trigger] shown@[i])@ == errs@[errs@.len() - 1 - i]@,
{
    let n = errs.len();
    let mut shown: Vec<String> = Vec::new();
    let mut i: usize = 0;
    while i < n && i < ERROR_LOG_CAPACITY
        invariant
            n == errs@.len(),
            i <= n,
            i <= ERROR_LOG_CAPACITY,
            shown@.len() == i,
            forall|k: int| 0 <= k < i ==> (#[trigger] shown@[k])@ == errs@[n - 1 - k]@,
        decreases n - i,
    {
        shown.push(errs[n - 1 - i].clone());
        i = i + 1;
    }
    shown
}

/// What the table view orders a target by: its loss rate, and among equal
/// loss rates its average round-trip time.
pub open spec fn row_key(record: IpDataView) -> (nat, nat) {
    (
        loss_rate(record.window.timeout, record.window.received),
        average_rtt(record.window.samples),
    )
}

/// Whether a row with key `a` may stand before a row with key `b`.
pub open spec fn key_le(a: (nat, nat), b: (nat, nat)) -> bool {
    a.0 < b.0 || (a.0 == b.0 && a.1 <= b.1)
}

/// Whether `order` lists the places of `records` as the table view shows
/// them: every place once, lower loss first, among equal loss the lower
/// average first, and rows that tie in both in the order of the targets.
pub open spec fn is_table_order(order: Seq<usize>, records: Seq<IpDataView>) -> bool {
    &&& order.len() == records.len()
    &&& forall|i: int| 0 <= i < order.len() ==> (#[trigger] order[i]) < records.len()
    &&& forall|i: int, j: int|
        0 <= i < j < order.len() ==> {
            &&& #[trigger] order[i] != #[trigger] order[j]
            &&& key_le(row_key(records[order[i] as int]), row_key(records[order[j] as int]))
            &&& (row_key(records[order[i] as int]) == row_key(records[order[j] as int])
                ==> order[i] < order[j])
        }
}

fn key_before(a: (u64, u64), b: (u64, u64)) -> (le: bool)
    ensures
        le == key_le((a.0 as nat, a.1 as nat), (b.0 as nat, b.1 as nat)),
{
    a.0 < b.0 || (a.0 == b.0 && a.1 <= b.1)
}

/// The keys by which the table view orders `ip_data`.
fn row_keys(ip_data: &[IpData]) -> (keys: Vec<(u64, u64)>)
    ensures
        keys@.len() == ip_data@.len(),
        forall|i: int|
            0 <= i < keys@.len() ==> ((#[trigger] keys@[i]).0 as nat, keys@[i].1 as nat)
                == row_key(ip_data@[i]@),
{
    let mut keys: Vec<(u64, u64)> = Vec::new();
    let mut i: usize = 0;
    while i < ip_data.len()
        invariant
            i <= ip_data@.len(),
            keys@.len() == i,
            forall|k: int|
                0 <= k < i ==> ((#[trigger] keys@[k]).0 as nat, keys@[k].1 as nat) == row_key(
                    ip_data@[k]@,
                ),
        decreases ip_data@.len() - i,
    {
        let window = &ip_data[i].window;
        let loss = calculate_loss_pkg(window.timeout(), window.received());
        let avg = calculate_avg_rtt(window.rtts());
        keys.push((loss, avg));
        i = i + 1;
    }
    keys
}

/// The order in which the table view shows the targets: by loss rate, then
/// by average round-trip time, lowest first; targets that tie in both stay
/// in their own order. The result lists the places of the targets in
/// `ip_data`.
pub fn table_order(ip_data: &[IpData]) -> (order: Vec<usize>)
    ensures
        is_table_order(order@, records_view(ip_data@)),
{
    let keys = row_keys(ip_data);
    let n = ip_data.len();
    let ghost records = records_view(ip_data@);
    let mut order: Vec<usize> = Vec::new();
    let mut i: usize = 0;
    while i < n
        invariant
            n == ip_data@.len(),
            records == records_view(ip_data@),
            keys@.len() == n,
            forall|k: int|
                0 <= k < n ==> ((#[trigger] keys@[k]).0 as nat, keys@[k].1 as nat) == row_key(
                    records[k],
                ),
            i <= n,
            order@.len() == i,
            forall|k: int| 0 <= k < i ==> (#[trigger] order@[k]) < i,
            forall|a: int, b: int|
                0 <= a < b < i ==> {
                    &&& #[trigger] order@[a] != #[trigger] order@[b]
                    &&& key_le(row_key(records[order@[a] as int]), row_key(records[order@[b] as int]))
                    &&& (row_key(records[order@[a] as int]) == row_key(records[order@[b] as int])
                        ==> order@[a] < order@[b])
                },
        decreases n - i,
    {
        let mut p: usize = order.len();
        while p > 0 && !key_before(keys[order[p - 1]], keys[i])
            invariant
                i < n,
                keys@.len() == n,
                order@.len() == i,
                p <= i,
                forall|k: int| 0 <= k < i ==> (#[trigger] order@[k]) < i,
                forall|k: int|
                    0 <= k < n ==> ((#[trigger] keys@[k]).0 as nat, keys@[k].1 as nat) == row_key(
                        records[k],
                    ),
                forall|k: int|
                    p <= k < i ==> !key_le(
                        row_key(records[(#[trigger] order@[k]) as int]),
                        row_key(records[i as int]),
                    ),
            decreases p,
        {
            p = p - 1;
        }
        let ghost before = order@;
        order.insert(p, i);
        proof {
            let after = order@;
            assert forall|a: int, b: int| 0 <= a < b < i + 1 implies {
                &&& #[trigger] after[a] != #[trigger] after[b]
                &&& key_le(row_key(records[after[a] as int]), row_key(records[after[b] as int]))
                &&& (row_key(records[after[a] as int]) == row_key(records[after[b] as int])
                    ==> after[a] < after[b])
            } by {
                let a0 = if a < p {
                    a
                } else {
                    a - 1
                };
                let b0 = if b < p {
                    b
                } else {
                    b - 1
                };
                if a == p {
                    assert(after[b] == before[b0]);
                    assert(before[b0] < i);
                } else if b == p {
                    assert(after[a] == before[a0]);
                    assert(before[a0] < i);
                    if a0 < p - 1 {
                        assert(before[a0] != before[p - 1]);
                    }
                    assert(key_le(
                        row_key(records[before[p - 1] as int]),
                        row_key(records[i as int]),
                    ));
                } else {
                    assert(after[a] == before[a0]);
                    assert(after[b] == before[b0]);
                    assert(before[a0] != before[b0]);
                }
            }
            assert forall|k: int| 0 <= k < i + 1 implies (#[trigger] after[k]) < i + 1 by {
                if k < p {
                    assert(after[k] == before[k]);
                } else if k > p {
                    assert(after[k] == before[k - 1]);
                }
            }
        }
        i = i + 1;
    }
    order
}

} // verus!
