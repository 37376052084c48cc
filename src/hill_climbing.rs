//! Hill climbing: every creature tries one mutation and keeps it only when
//! it scores strictly higher.
use vstd::prelude::*;
use crate::creature::{Creature, CreatureModel, FitnessTrial, near_genome};
use crate::population::{Population, SimulationError, advances, generation_ok, is_advance, models, scored_as, scores_for};

verus! {

/// Every lineage of the history only ever climbs from generation `from`
/// on: generations from there to before the current one are scored, and
/// each creature scores at least what its parent scored.
pub open spec fn lineages_climb(h: Seq<Seq<CreatureModel>>, from: int, gen: int) -> bool {
    forall|k: int, i: int|
        from <= k < gen && 0 <= i < h[k].len() ==> {
            &&& (#[trigger] h[k][i]).scored
            &&& h[k + 1][i].scored
            &&& h[k + 1][i].fitness >= h[k][i].fitness
        }
}

/// Hill climbing over `data`, which it took over at generation `start`.
pub struct HillClimbing {
    pub data: Population,
    pub start: Ghost<usize>,
}

/// The hill-climbing rule: a candidate replaces its parent only when it
/// scores strictly higher.
pub fn hill_accept(parent: i64, candidate: i64) -> (r: bool)
    ensures
        r == (candidate > parent),
{
    candidate > parent
}

/// `c` succeeds `p` by the hill-climbing rule: `p` kept when the candidate
/// scored no higher, a fresh mutation of `p` scoring strictly higher
/// otherwise.
pub open spec fn climbed(p: CreatureModel, c: CreatureModel) -> bool {
    c == p || {
        &&& near_genome(p.genes, c.genes)
        &&& c.scored
        &&& c.fitness > p.fitness
        &&& c.position == 0
    }
}

impl HillClimbing {
    pub open spec fn wf(&self) -> bool {
        &&& self.data.wf()
        &&& self.start@ <= self.data.gen
        &&& lineages_climb(self.data.history(), self.start@ as int, self.data.gen as int)
    }

    /// `s` scores the current generation and `next` follows it by the
    /// hill-climbing rule.
    pub open spec fn step_ok(&self, s: Seq<i64>, next: Seq<CreatureModel>) -> bool {
        &&& scores_for(self.data.last(), s)
        &&& generation_ok(next, self.data.size as nat)
        &&& forall|i: int| 0 <= i < next.len() ==> climbed(scored_as(self.data.last(), s)[i], #[trigger] next[i])
    }

    /// Takes over a population, at whatever generation it stands; lineages
    /// climb from there on.
    pub fn new(population: Population) -> (r: HillClimbing)
        requires
            population.wf(),
        ensures
            r.wf(),
            r.data == population,
            r.start@ == population.gen,
    {
        let ghost g = population.gen;
        HillClimbing { data: population, start: Ghost(g) }
    }

    pub fn get_data(&self) -> (r: &Population)
        ensures
            *r == self.data,
    {
        &self.data
    }

    /// The history, for changes made from outside (such as putting a
    /// creature back at its start); keeping the strategy well formed is then
    /// the caller's part.
    pub fn get_data_mut(&mut self) -> (r: &mut Population)
        ensures
            *r == old(self).data,
            final(self).data == *final(r),
    {
        &mut self.data
    }

    /// Works out the next generation without changing the strategy: scores
    /// the current generation, then gives each creature one mutated
    /// candidate, kept by `hill_accept`. A failed trial ends the work.
    pub fn prepare_next<T: FitnessTrial>(&self, rng: &mut rand::rngs::StdRng, trial: &mut T) -> (r: Result<(Vec<i64>, Vec<Creature>), SimulationError>)
        requires
            self.wf(),
        ensures
            r is Err ==> r->Err_0 == SimulationError::EvaluationFailure,
            r is Ok ==> self.step_ok(r->Ok_0.0@, models(r->Ok_0.1@)),
    {
        let scores = match self.data.score_current(trial) {
            Ok(s) => s,
            Err(e) => return Err(e),
        };
        let ghost g0 = self.data.last();
        let ghost sc = scored_as(g0, scores@);
        let cur = &self.data.generations[self.data.gen];
        assert(cur@ == g0);
        let mut next: Vec<Creature> = Vec::new();
        let mut i: usize = 0;
        while i < cur.creatures.len()
            invariant
                self.data.wf(),
                cur@ == g0,
                sc == scored_as(g0, scores@),
                g0 == self.data.last(),
                cur.creatures@.len() == self.data.size,
                scores@.len() == g0.len(),
                i <= g0.len(),
                next@.len() == i,
                forall|k: int| 0 <= k < i ==> (#[trigger] next@[k])@.wf() && climbed(sc[k], next@[k]@),
            decreases g0.len() - i,
        {
            let parent = &cur.creatures[i];
            assert(parent@ == g0[i as int]);
            assert(sc[i as int] == (CreatureModel { fitness: scores@[i as int], scored: true, ..g0[i as int] }));
            let cand = parent.mutated(rng);
            match trial.run_trial(&cand.genes) {
                None => return Err(SimulationError::EvaluationFailure),
                Some(f) => {
                    if hill_accept(scores[i], f) {
                        next.push(cand.with_score(f));
                    } else {
                        next.push(parent.with_score(scores[i]));
                    }
                },
            }
            i = i + 1;
        }
        proof {
            let nx = models(next@);
            assert forall|k: int| 0 <= k < nx.len() implies climbed(sc[k], #[trigger] nx[k]) && nx[k].wf() by {
                assert(nx[k] == next@[k]@);
            }
        }
        Ok((scores, next))
    }

    /// Commits a prepared step: the scores go into the current generation
    /// and `next` is appended.
    pub fn apply_next(&mut self, scores: Vec<i64>, next: Vec<Creature>)
        requires
            old(self).wf(),
            old(self).data.gen < usize::MAX,
            old(self).step_ok(scores@, models(next@)),
        ensures
            final(self).wf(),
            is_advance(old(self).data, final(self).data, scores@, models(next@)),
    {
        let ghost g0 = self.data.last();
        let ghost sc = scored_as(g0, scores@);
        let ghost nx = models(next@);
        proof {
            assert forall|i: int| 0 <= i < next@.len() implies (#[trigger] next@[i])@.wf() by {
                assert(nx[i] == next@[i]@);
            }
        }
        let res = self.data.commit(scores, next);
        assert(res is Ok);
        proof {
            let h = self.data.history();
            let n = old(self).data.gen as int;
            assert(h[n] == sc);
            assert(h[n + 1] == nx);
            assert forall|k: int, i: int| self.start@ <= k < n + 1 && 0 <= i < h[k].len() implies {
                &&& (#[trigger] h[k][i]).scored
                &&& h[k + 1][i].scored
                &&& h[k + 1][i].fitness >= h[k][i].fitness
            } by {
                if k < n {
                    assert(h[k] == old(self).data.history()[k]);
                    if k + 1 < n {
                        assert(h[k + 1] == old(self).data.history()[k + 1]);
                    } else {
                        assert(old(self).data.history()[k][i].scored);
                        assert(old(self).data.history()[k + 1] == g0);
                        assert(g0[i].scored);
                    }
                } else {
                    assert(climbed(sc[i], nx[i]));
                }
            }
        }
    }

    /// Advances one generation: `prepare_next`, then `apply_next`. A failed
    /// trial changes nothing.
    pub fn generation_single<T: FitnessTrial>(&mut self, rng: &mut rand::rngs::StdRng, trial: &mut T) -> (r: Result<(), SimulationError>)
        requires
            old(self).wf(),
            old(self).data.gen < usize::MAX,
        ensures
            r is Err ==> r->Err_0 == SimulationError::EvaluationFailure && *final(self) == *old(self),
            r is Ok ==> {
                &&& final(self).wf()
                &&& advances(old(self).data, final(self).data)
                &&& forall|i: int| 0 <= i < old(self).data.size ==>
                    climbed(final(self).data.history()[old(self).data.gen as int][i], #[trigger] final(self).data.last()[i])
            },
    {
        match self.prepare_next(rng, trial) {
            Err(e) => Err(e),
            Ok((s, next)) => {
                let ghost nx = models(next@);
                let ghost sv = s@;
                self.apply_next(s, next);
                assert(is_advance(old(self).data, self.data, sv, nx));
                Ok(())
            },
        }
    }
}

} // verus!

verus! {

/// Under hill climbing no lineage ever loses fitness: creature `i` scores at
/// generation `k2` at least what it scored at any earlier generation `k1`
/// since the strategy took over.
pub proof fn lemma_lineage_monotone(hc: HillClimbing, i: int, k1: int, k2: int)
    requires
        hc.wf(),
        0 <= i < hc.data.size,
        hc.start@ <= k1 <= k2 <= hc.data.gen,
    ensures
        hc.data.history()[k2][i].fitness >= hc.data.history()[k1][i].fitness,
    decreases k2 - k1,
{
    if k1 < k2 {
        let h = hc.data.history();
        assert(crate::population::generation_ok(h[k2 - 1], hc.data.size as nat));
        assert(h[k2 - 1][i].scored);
        lemma_lineage_monotone(hc, i, k1, k2 - 1);
    }
}

} // verus!
