use vstd::prelude::*;

verus! {

broadcast use vstd::string::group_string_axioms;

use crate::benchmark::current_time_micros;

/// One named measurement of a frame's unit of work: the clock reading when
/// it started, and how many microseconds it ran once it has been ended.
#[derive(Debug)]
pub struct BenchmarkUnit {
    name: String,
    start: u64,
    elapsed: Option<u64>,
}

impl BenchmarkUnit {
    /// The unit's name.
    pub closed spec fn spec_name(&self) -> Seq<char> {
        self.name@
    }

    /// The measured run time in microseconds, once ended.
    pub closed spec fn spec_elapsed(&self) -> Option<u64> {
        self.elapsed
    }

    /// Start a measurement called `name` now.
    pub fn new(name: &str) -> (r: Self)
        ensures
            r.spec_name() == name@,
            r.spec_elapsed() is None,
    {
        Self { name: name.to_string(), start: current_time_micros(), elapsed: None }
    }

    /// The unit's name.
    pub fn name(&self) -> (r: String)
        ensures
            r@ == self.spec_name(),
    {
        self.name.clone()
    }

    /// The measured run time in microseconds, or nothing while the unit is
    /// still running.
    pub fn elapsed(&self) -> (r: Option<u64>)
        ensures
            r == self.spec_elapsed(),
    {
        self.elapsed
    }

    /// End the measurement: record how long it ran, as far as the clock can
    /// tell; if the clock jumped backwards, record zero.
    pub fn end(&mut self)
        ensures
            final(self).spec_name() == old(self).spec_name(),
            final(self).spec_elapsed() is Some,
    {
        let now = current_time_micros();
        let elapsed = if now >= self.start {
            now - self.start
        } else {
            0
        };
        self.elapsed = Some(elapsed);
    }
}

/// Per-frame measurements: named units of work under one overall frame
/// measurement.
#[derive(Debug)]
pub struct PerformanceTracker {
    start: u64,
    benchmarks: Vec<BenchmarkUnit>,
    elapsed: Option<u64>,
}

impl PerformanceTracker {
    /// The units recorded so far.
    pub closed spec fn units(&self) -> Seq<BenchmarkUnit> {
        self.benchmarks@
    }

    /// The overall run time in microseconds, once ended.
    pub closed spec fn spec_elapsed(&self) -> Option<u64> {
        self.elapsed
    }

    /// Start tracking a frame now, with no units yet.
    pub fn new() -> (r: Self)
        ensures
            r.units() == Seq::<BenchmarkUnit>::empty(),
            r.spec_elapsed() is None,
    {
        let r = Self { start: current_time_micros(), benchmarks: Vec::new(), elapsed: None };
        proof {
            assert(r.units() =~= Seq::<BenchmarkUnit>::empty());
        }
        r
    }

    /// Run `work` as a unit called `name`: start the unit, run the closure,
    /// and end the first unit with that name.
    pub fn measure_unit_of_work<F: FnOnce() -> ()>(&mut self, name: &str, work: F)
        requires
            call_requires(work, ()),
        ensures
            exists|i: int|
                {
                    &&& 0 <= i < final(self).units().len()
                    &&& final(self).units().len() == old(self).units().len() + 1
                    &&& (#[trigger] final(self).units()[i]).spec_name() == name@
                    &&& final(self).units()[i].spec_elapsed() is Some
                },
            final(self).spec_elapsed() == old(self).spec_elapsed(),
    {
        self.start_unit_of_work(name);
        let ghost mid_units = self.units();
        work();
        proof {
            assert(mid_units[mid_units.len() - 1].spec_name() == name@);
        }
        let ended = self.end_unit_of_work(name);
        proof {
            assert(ended is Ok);
            let i = choose|i: int|
                {
                    &&& 0 <= i < mid_units.len()
                    &&& (#[trigger] mid_units[i]).spec_name() == name@
                    &&& forall|j: int| 0 <= j < i ==> mid_units[j].spec_name() != name@
                    &&& self.units().len() == mid_units.len()
                    &&& self.units()[i].spec_name() == name@
                    &&& self.units()[i].spec_elapsed() is Some
                    &&& forall|j: int|
                        0 <= j < mid_units.len() && j != i ==> self.units()[j] == mid_units[j]
                };
            assert(self.units()[i].spec_name() == name@);
            assert(self.units()[i].spec_elapsed() is Some);
        }
    }

    /// Start a new unit called `name`.
    pub fn start_unit_of_work(&mut self, name: &str)
        ensures
            final(self).units().len() == old(self).units().len() + 1,
            final(self).units().last().spec_name() == name@,
            final(self).units().last().spec_elapsed() is None,
            final(self).units().drop_last() == old(self).units(),
            final(self).spec_elapsed() == old(self).spec_elapsed(),
    {
        self.benchmarks.push(BenchmarkUnit::new(name));
        proof {
            assert(self.benchmarks@.drop_last() =~= old(self).benchmarks@);
        }
    }

    /// End the first unit called `name`, or report that no unit has that
    /// name.
    pub fn end_unit_of_work(&mut self, name: &str) -> (r: Result<(), String>)
        ensures
            (r is Ok) <==> exists|i: int|
                0 <= i < old(self).units().len() && (#[trigger] old(
                    self,
                ).units()[i]).spec_name() == name@,
            r is Ok ==> exists|i: int|
                {
                    &&& 0 <= i < old(self).units().len()
                    &&& (#[trigger] old(self).units()[i]).spec_name() == name@
                    &&& forall|j: int|
                        0 <= j < i ==> old(self).units()[j].spec_name() != name@
                    &&& final(self).units().len() == old(self).units().len()
                    &&& final(self).units()[i].spec_name() == name@
                    &&& final(self).units()[i].spec_elapsed() is Some
                    &&& forall|j: int|
                        0 <= j < old(self).units().len() && j != i ==> final(self).units()[j]
                            == old(self).units()[j]
                },
            r matches Err(m) ==> m@ == "Benchmark unit not found"@ && final(self).units() == old(
                self,
            ).units(),
            final(self).spec_elapsed() == old(self).spec_elapsed(),
    {
        let n = self.benchmarks.len();
        let mut i: usize = 0;
        while i < n
            invariant
                n == self.benchmarks@.len(),
                0 <= i <= n,
                self.benchmarks@ == old(self).benchmarks@,
                self.elapsed == old(self).elapsed,
                forall|j: int|
                    0 <= j < i ==> (#[trigger] self.benchmarks@[j]).spec_name() != name@,
            decreases n - i,
        {
            let name_string = name.to_string();
            let found = {
                let unit_name = &self.benchmarks[i].name;
                *unit_name == name_string
            };
            if found {
                proof {
                    assert(self.benchmarks@[i as int].spec_name() == name@);
                    assert(old(self).units()[i as int].spec_name() == name@);
                }
                self.benchmarks[i].end();
                proof {
                    assert(self.units().len() == old(self).units().len());
                    assert(self.units()[i as int].spec_name() == name@);
                    assert(self.units()[i as int].spec_elapsed() is Some);
                    assert forall|j: int|
                        0 <= j < old(self).units().len() && j != i as int implies self.units()[j]
                        == old(self).units()[j] by {}
                    assert forall|j: int|
                        0 <= j < i as int implies old(self).units()[j].spec_name() != name@ by {}
                }
                return Ok(());
            }
            i += 1;
        }
        proof {
            if exists|j: int|
                0 <= j < self.units().len() && (#[trigger] self.units()[j]).spec_name() == name@ {
                let j = choose|j: int|
                    0 <= j < self.units().len() && (#[trigger] self.units()[j]).spec_name()
                        == name@;
                assert(false);
            }
        }
        Err("Benchmark unit not found".to_string())
    }

    /// End the frame measurement and report how long it ran, as far as the
    /// clock can tell; a backwards clock jump reads as zero.
    pub fn end(&mut self) -> (r: Option<u64>)
        ensures
            r is Some,
            final(self).spec_elapsed() == r,
            final(self).units() == old(self).units(),
    {
        let now = current_time_micros();
        let elapsed = if now >= self.start {
            now - self.start
        } else {
            0
        };
        self.elapsed = Some(elapsed);
        self.elapsed
    }
}

} // verus!
