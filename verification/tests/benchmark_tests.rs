use poly_battle::benchmark::{Benchmark, BenchmarkUnit};
use poly_battle::util::performance_tracking::PerformanceTracker;

#[test]
fn benchmark_unit_records_its_name() {
    let unit = BenchmarkUnit::new("draw");
    assert_eq!(unit.name(), "draw".to_string());
    assert_eq!(unit.elapsed(), None);
}

#[test]
fn benchmark_unit_end_records_a_duration() {
    let mut unit = BenchmarkUnit::new("draw");
    unit.end();
    assert!(unit.elapsed().is_some());
}

#[test]
fn benchmark_ends_a_named_unit() {
    let mut benchmark = Benchmark::new();
    benchmark.new_benchmark_unit("input");
    benchmark.new_benchmark_unit("render");
    assert!(benchmark.end_benchmark_unit("input").is_ok());
    assert!(benchmark.end_benchmark_unit("render").is_ok());
    assert!(benchmark.end().is_some());
}

#[test]
fn benchmark_reports_an_unknown_unit() {
    let mut benchmark = Benchmark::new();
    benchmark.new_benchmark_unit("input");
    let missing = benchmark.end_benchmark_unit("render");
    assert_eq!(missing, Err("Benchmark unit not found".to_string()));
}

#[test]
fn tracker_measures_a_closure() {
    let mut tracker = PerformanceTracker::new();
    let mut ran = 0u32;
    tracker.measure_unit_of_work("game_tick", || {
        ran += 1;
    });
    assert_eq!(ran, 1);
    assert!(tracker.end().is_some());
}

#[test]
fn tracker_start_then_end_unit() {
    let mut tracker = PerformanceTracker::new();
    tracker.start_unit_of_work("get_input");
    assert!(tracker.end_unit_of_work("get_input").is_ok());
    assert_eq!(
        tracker.end_unit_of_work("render"),
        Err("Benchmark unit not found".to_string())
    );
}
