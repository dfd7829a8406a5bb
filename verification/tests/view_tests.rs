use nping::model::IpData;
use nping::view::{
    cell_width_percent, chart_points, grid_rows, is_quit_key, last_shown, point_mark, rank_of,
    recent_errors, row_height_percent, row_span, table_order, view_mode, Key, LastShown,
    PointMark, Rank, ViewMode,
};
use nping::window::{Sample, SampleWindow};

fn strings(items: &[&str]) -> Vec<String> {
    items.iter().map(|s| s.to_string()).collect()
}

fn record(name: &str, replies: &[u64], timeouts: usize) -> IpData {
    let mut window = SampleWindow::new();
    for rtt in replies {
        window.record_sent();
        window.record_reply(*rtt);
    }
    for _ in 0..timeouts {
        window.record_sent();
        window.record_timeout();
    }
    IpData { addr: name.to_string(), ip: String::new(), window }
}

#[test]
fn view_mode_by_name() {
    assert_eq!(view_mode(&"graph".to_string()), ViewMode::Graph);
    assert_eq!(view_mode(&"table".to_string()), ViewMode::Table);
    assert_eq!(view_mode(&"point".to_string()), ViewMode::Point);
}

#[test]
fn unknown_view_names_mean_graph() {
    for name in ["", "Table", "tables", "points", " table", "chart"] {
        assert_eq!(view_mode(&name.to_string()), ViewMode::Graph);
    }
}

#[test]
fn quit_keys() {
    assert!(is_quit_key(Key::Char('q'), false));
    assert!(is_quit_key(Key::Char('q'), true));
    assert!(is_quit_key(Key::Esc, false));
    assert!(is_quit_key(Key::Esc, true));
    assert!(is_quit_key(Key::Char('c'), true));
    assert!(!is_quit_key(Key::Char('c'), false));
    assert!(!is_quit_key(Key::Char('Q'), false));
    assert!(!is_quit_key(Key::Char('x'), true));
    assert!(!is_quit_key(Key::Other, false));
    assert!(!is_quit_key(Key::Other, true));
}

#[test]
fn graph_rows_hold_five_targets() {
    assert_eq!(grid_rows(0), 0);
    assert_eq!(grid_rows(1), 1);
    assert_eq!(grid_rows(5), 1);
    assert_eq!(grid_rows(6), 2);
    assert_eq!(grid_rows(10), 2);
    assert_eq!(grid_rows(11), 3);
    assert_eq!(grid_rows(usize::MAX), usize::MAX / 5);
    assert_eq!(grid_rows(usize::MAX - 1), usize::MAX / 5);
    assert_eq!(grid_rows(usize::MAX - 5), usize::MAX / 5 - 1);
}

#[test]
fn graph_row_spans() {
    assert_eq!(row_span(0, 3), (0, 3));
    assert_eq!(row_span(0, 5), (0, 5));
    assert_eq!(row_span(0, 7), (0, 5));
    assert_eq!(row_span(1, 7), (5, 7));
    assert_eq!(row_span(2, 11), (10, 11));
}

#[test]
fn graph_row_heights() {
    assert_eq!(row_height_percent(1), 100);
    assert_eq!(row_height_percent(2), 50);
    assert_eq!(row_height_percent(3), 33);
    assert_eq!(row_height_percent(101), 0);
}

#[test]
fn graph_cell_widths() {
    assert_eq!(cell_width_percent(5, 5), 20);
    assert_eq!(cell_width_percent(12, 5), 20);
    // the only row, not full: divided evenly
    assert_eq!(cell_width_percent(1, 1), 100);
    assert_eq!(cell_width_percent(2, 2), 50);
    assert_eq!(cell_width_percent(3, 3), 33);
    assert_eq!(cell_width_percent(4, 4), 25);
    // a short row under full rows: as wide as the charts above
    assert_eq!(cell_width_percent(7, 2), 20);
    assert_eq!(cell_width_percent(6, 1), 20);
}

#[test]
fn ranks() {
    assert_eq!(rank_of(0, 1), Rank::First);
    assert_eq!(rank_of(0, 20), Rank::First);
    assert_eq!(rank_of(1, 2), Rank::Second);
    assert_eq!(rank_of(2, 3), Rank::Third);
    assert_eq!(rank_of(3, 20), Rank::Trophy);
    assert_eq!(rank_of(9, 20), Rank::Trophy);
    assert_eq!(rank_of(10, 20), Rank::Turtle);
    assert_eq!(rank_of(19, 20), Rank::Turtle);
    // the last row, when it is not among the first three
    assert_eq!(rank_of(3, 4), Rank::Turtle);
    assert_eq!(rank_of(9, 10), Rank::Turtle);
    assert_eq!(rank_of(5, 0), Rank::Trophy);
}

#[test]
fn point_marks() {
    assert_eq!(point_mark(Sample::Timeout, 1000), PointMark::Lost);
    assert_eq!(point_mark(Sample::Rtt(800), 1000), PointMark::Healthy);
    assert_eq!(point_mark(Sample::Rtt(801), 1000), PointMark::Slow);
    assert_eq!(point_mark(Sample::Rtt(1000), 1000), PointMark::Slow);
    assert_eq!(point_mark(Sample::Rtt(0), 0), PointMark::Healthy);
    assert_eq!(point_mark(Sample::Rtt(1), 0), PointMark::Slow);
    assert_eq!(point_mark(Sample::Rtt(u64::MAX), u64::MAX), PointMark::Slow);
    assert_eq!(point_mark(Sample::Rtt(u64::MAX / 2), u64::MAX), PointMark::Healthy);
}

#[test]
fn chart_numbers_stay_with_their_samples() {
    let mut window = SampleWindow::new();
    assert!(chart_points(&window).is_empty());
    for k in 1..=3u64 {
        window.record_sent();
        window.record_reply(k * 10);
    }
    assert_eq!(
        chart_points(&window),
        vec![(1, Sample::Rtt(10)), (2, Sample::Rtt(20)), (3, Sample::Rtt(30))]
    );
    for _ in 0..9 {
        window.record_sent();
        window.record_timeout();
    }
    let points = chart_points(&window);
    assert_eq!(points.len(), 10);
    assert_eq!(points[0], (3, Sample::Rtt(30)));
    assert_eq!(points[1], (4, Sample::Timeout));
    assert_eq!(points[9], (12, Sample::Timeout));
}

#[test]
fn recent_errors_come_latest_first() {
    assert_eq!(recent_errors(&strings(&[])), strings(&[]));
    assert_eq!(recent_errors(&strings(&["a", "b", "c"])), strings(&["c", "b", "a"]));
    assert_eq!(
        recent_errors(&strings(&["1", "2", "3", "4", "5", "6", "7"])),
        strings(&["7", "6", "5", "4", "3"])
    );
}

#[test]
fn table_is_ordered_by_loss_then_by_average() {
    let data = vec![
        record("half lost", &[100, 100], 2),
        record("slow", &[900, 700], 0),
        record("all lost", &[], 3),
        record("fast", &[10, 30], 0),
        record("third lost", &[5, 5], 1),
    ];
    assert_eq!(table_order(&data), vec![3, 1, 4, 0, 2]);
}

#[test]
fn table_keeps_ties_in_target_order() {
    let data = vec![
        record("b", &[20], 0),
        record("a", &[20], 0),
        record("idle one", &[], 0),
        record("c", &[20, 21], 0),
        record("idle two", &[], 0),
    ];
    // no replies: loss 0 and average 0, so the idle targets come first
    assert_eq!(table_order(&data), vec![2, 4, 0, 1, 3]);
    assert_eq!(table_order(&Vec::new()), Vec::<usize>::new());
}

#[test]
fn table_order_is_a_sorted_permutation() {
    let mut data = Vec::new();
    for k in 0..40u64 {
        let replies: Vec<u64> = (0..(k % 7)).map(|j| (k * 37 + j * 11) % 50).collect();
        data.push(record("t", &replies, (k % 4) as usize));
    }
    let order = table_order(&data);
    let mut seen = order.clone();
    seen.sort();
    assert_eq!(seen, (0..40usize).collect::<Vec<_>>());
    let key = |i: usize| {
        let w = &data[i].window;
        (
            nping::metrics::calculate_loss_pkg(w.timeout(), w.received()),
            nping::metrics::calculate_avg_rtt(w.rtts()),
            i,
        )
    };
    for pair in order.windows(2) {
        assert!(key(pair[0]) < key(pair[1]));
    }
}

#[test]
fn latest_round_trip_time_as_shown() {
    assert_eq!(last_shown(None), LastShown::Nothing);
    assert_eq!(last_shown(Some(0)), LastShown::BelowFloor);
    assert_eq!(last_shown(Some(4)), LastShown::BelowFloor);
    assert_eq!(last_shown(Some(5)), LastShown::Micros(5));
    assert_eq!(last_shown(Some(10_000)), LastShown::Micros(10_000));
    assert_eq!(last_shown(Some(u64::MAX)), LastShown::Micros(u64::MAX));
}
