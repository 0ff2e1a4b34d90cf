pub mod performance_tracking;

pub use performance_tracking::PerformanceTracker;
