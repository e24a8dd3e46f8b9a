use vstd::prelude::*;
use crate::engine::{Autogram, IterationResult, search_step, spec_detector_inv, spec_is_fixed_point,
    spec_sentence, spec_cycle_chain, spec_texts};
use crate::cycle::CycleDetector;

verus! {

/// One worker of the parallel race: its own engine state, its own cycle
/// detector, and the alternation flag for partial updates. Workers share
/// nothing; the caller owns the cancellation flag, the result channel and
/// one progress counter per worker, and polls `step` once per iteration.
pub struct SearchWorker {
    pub engine: Autogram,
    pub detector: CycleDetector,
    pub find_cycle: bool,
    pub update_random: bool,
}

impl SearchWorker {
    pub open spec fn wf(self) -> bool {
        &&& self.engine.wf()
        &&& self.find_cycle ==> spec_detector_inv(self.engine, self.detector)
            && !self.update_random
    }

    /// A worker over the given configuration, freshly seeded (each worker
    /// seeds independently, so workers without fixed texts start from
    /// different random letters).
    pub fn new(
        prefix: &str,
        suffix: &str,
        make_plural: bool,
        include_final_and: bool,
        is_pangram: bool,
        include_punctuation: bool,
        find_cycle: bool,
        cache_limit: usize,
    ) -> (r: SearchWorker)
        ensures
            r.wf(),
            r.engine.prefix@ == prefix@,
            r.engine.suffix@ == suffix@,
            r.engine.make_plural == make_plural,
            r.engine.include_final_and == include_final_and,
            r.engine.is_pangram == is_pangram,
            r.engine.include_punctuation == include_punctuation,
            r.find_cycle == find_cycle,
            r.engine.epoch == 0,
    {
        let mut engine = Autogram::new(prefix, suffix);
        engine.make_plural = make_plural;
        engine.include_final_and = include_final_and;
        engine.is_pangram = is_pangram;
        engine.include_punctuation = include_punctuation;
        engine.reset();
        SearchWorker {
            engine,
            detector: CycleDetector::new(cache_limit),
            find_cycle,
            update_random: false,
        }
    }

    /// One iteration of this worker: one update step and the completion
    /// test. The step counter advances by exactly one (saturating), so the
    /// worker's final counter is exactly the number of steps it took and an
    /// aggregate over workers counts no step twice.
    pub fn step(&mut self) -> (r: IterationResult)
        requires
            old(self).wf(),
        ensures
            final(self).engine.wf(),
            r is Continue ==> final(self).wf(),
            final(self).find_cycle == old(self).find_cycle,
            final(self).engine.same_config(old(self).engine),
            final(self).engine.epoch as int == (if old(self).engine.epoch < u64::MAX {
                old(self).engine.epoch + 1
            } else {
                old(self).engine.epoch as int
            }),
            match r {
                IterationResult::Continue => !old(self).find_cycle ==> !spec_is_fixed_point(
                    final(self).engine,
                ),
                IterationResult::FixedPointFound(s) => !old(self).find_cycle
                    && spec_is_fixed_point(final(self).engine) && s@ == spec_sentence(
                    final(self).engine,
                ),
                IterationResult::CycleFound(v) => old(self).find_cycle && spec_cycle_chain(
                    final(self).engine,
                    spec_texts(v@),
                ),
            },
    {
        let fc = self.find_cycle;
        search_step(&mut self.engine, &mut self.detector, fc, &mut self.update_random)
    }
}

/// The sum of a sequence of counters.
pub open spec fn spec_sum(s: Seq<u64>) -> int
    decreases s.len(),
{
    if s.len() == 0 {
        0
    } else {
        spec_sum(s.drop_last()) + s.last()
    }
}

/// The aggregate iteration count of a race: the sum of every worker's final
/// progress counter, saturating only if it exceeds the counter range.
pub fn total_iterations(epochs: &Vec<u64>) -> (r: u64)
    ensures
        r as int == (if spec_sum(epochs@) <= u64::MAX {
            spec_sum(epochs@)
        } else {
            u64::MAX as int
        }),
{
    let mut acc: u64 = 0;
    let mut i: usize = 0;
    while i < epochs.len()
        invariant
            i <= epochs@.len(),
            acc as int == (if spec_sum(epochs@.take(i as int)) <= u64::MAX {
                spec_sum(epochs@.take(i as int))
            } else {
                u64::MAX as int
            }),
        decreases epochs@.len() - i,
    {
        proof {
            assert(epochs@.take(i + 1).drop_last() =~= epochs@.take(i as int));
            assert(epochs@.take(i + 1).last() == epochs@[i as int]);
        }
        let e = epochs[i];
        if e > u64::MAX - acc {
            acc = u64::MAX;
        } else {
            acc = acc + e;
        }
        i += 1;
    }
    proof {
        assert(epochs@.take(epochs@.len() as int) =~= epochs@);
    }
    acc
}

} // verus!
