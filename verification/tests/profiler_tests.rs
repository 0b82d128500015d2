use minecraft_world::profiler::Profiler;

#[test]
fn record_then_summarize_exactly() {
    let mut p = Profiler::new();
    p.record("tick", 10);
    p.record("tick", 30);
    p.record("tick", 20);
    let summary = p.summary();
    assert_eq!(summary.len(), 1);
    let (name, m) = &summary[0];
    assert_eq!(name, "tick");
    assert_eq!(m.min, 10);
    assert_eq!(m.max, 30);
    assert_eq!(m.total, 60);
    assert_eq!(m.avg, 20);
    assert_eq!(m.count, 3);
}

#[test]
fn start_stop_records_the_elapsed_time() {
    let mut p = Profiler::new();
    p.start("load", 1000);
    p.stop("load", 1450);
    let summary = p.summary();
    assert_eq!(summary.len(), 1);
    assert_eq!(summary[0].1.total, 450);
    assert_eq!(summary[0].1.count, 1);
}

#[test]
fn stop_without_start_records_nothing() {
    let mut p = Profiler::new();
    p.stop("missing", 5);
    assert_eq!(p.summary().len(), 0);
}

#[test]
fn a_clock_that_moved_backwards_records_zero() {
    let mut p = Profiler::new();
    p.start("skewed", 100);
    p.stop("skewed", 40);
    let summary = p.summary();
    assert_eq!(summary[0].1.total, 0);
}

#[test]
fn several_names_are_kept_apart() {
    let mut p = Profiler::new();
    p.record("a", 1);
    p.record("b", 100);
    p.record("a", 3);
    let summary = p.summary();
    let a = summary.iter().find(|(n, _)| n == "a").unwrap();
    let b = summary.iter().find(|(n, _)| n == "b").unwrap();
    assert_eq!(a.1.count, 2);
    assert_eq!(a.1.total, 4);
    assert_eq!(b.1.count, 1);
    assert_eq!(b.1.max, 100);
}

#[test]
fn reset_and_clear_discard_measurements() {
    let mut p = Profiler::new();
    p.record("x", 5);
    p.reset();
    assert_eq!(p.summary().len(), 0);
    p.record("y", 5);
    p.clear();
    assert_eq!(p.summary().len(), 0);
}

#[test]
fn saturated_totals_stop_at_the_maximum() {
    let mut p = Profiler::new();
    p.record("big", u64::MAX);
    p.record("big", 17);
    let summary = p.summary();
    assert_eq!(summary[0].1.total, u64::MAX);
}
