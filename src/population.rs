//! Generations and the population history that every strategy owns.
use vstd::prelude::*;
use crate::creature::{Creature, CreatureModel, FitnessTrial};

verus! {

/// Why a run could not be configured or a generation could not be produced.
#[derive(Debug, Clone, Copy, PartialEq, Eq, Structural)]
pub enum SimulationError {
    /// A population of no creatures, or a run with no strategy selected.
    InvalidConfiguration,
    /// The fitness trial failed for a creature.
    EvaluationFailure,
    /// A produced generation does not have the population's size.
    InvariantViolation,
}

/// The models of a sequence of creatures.
pub open spec fn models(v: Seq<Creature>) -> Seq<CreatureModel> {
    v.map_values(|c: Creature| c@)
}

/// One round of the population: an ordered set of creatures.
pub struct Generation {
    pub creatures: Vec<Creature>,
}

impl View for Generation {
    type V = Seq<CreatureModel>;

    open spec fn view(&self) -> Seq<CreatureModel> {
        models(self.creatures@)
    }
}

/// The ordered history of generations, `gen` of them completed after the
/// first; every generation holds `size` creatures.
pub struct Population {
    pub generations: Vec<Generation>,
    pub gen: usize,
    pub size: usize,
}

/// A generation in which every creature is well formed and `size` strong.
pub open spec fn generation_ok(g: Seq<CreatureModel>, size: nat) -> bool {
    &&& g.len() == size
    &&& forall|i: int| 0 <= i < g.len() ==> (#[trigger] g[i]).wf()
}

/// The generation `g` with the scores `s` written into it.
pub open spec fn scored_as(g: Seq<CreatureModel>, s: Seq<i64>) -> Seq<CreatureModel> {
    Seq::new(g.len(), |i: int| CreatureModel { fitness: s[i], scored: true, ..g[i] })
}

/// `s` scores the generation `g`: one score per creature, and a creature
/// already scored keeps its score.
pub open spec fn scores_for(g: Seq<CreatureModel>, s: Seq<i64>) -> bool {
    &&& s.len() == g.len()
    &&& forall|i: int| 0 <= i < g.len() && (#[trigger] g[i]).scored ==> s[i] == g[i].fitness
}

/// `b` is `a` after one successful advance: the current generation scored
/// by `s`, followed by the new generation `next`.
pub open spec fn is_advance(a: Population, b: Population, s: Seq<i64>, next: Seq<CreatureModel>) -> bool {
    &&& b.gen == a.gen + 1
    &&& b.size == a.size
    &&& scores_for(a.last(), s)
    &&& generation_ok(next, a.size as nat)
    &&& b.history() == a.history().update(a.gen as int, scored_as(a.last(), s)).push(next)
}

/// `b` is `a` after one successful advance, whatever the scores and the new
/// generation were.
pub open spec fn advances(a: Population, b: Population) -> bool {
    exists|s: Seq<i64>, next: Seq<CreatureModel>| #[trigger] is_advance(a, b, s, next)
}

impl Population {
    pub open spec fn history(&self) -> Seq<Seq<CreatureModel>> {
        self.generations@.map_values(|g: Generation| g@)
    }

    /// The current generation.
    pub open spec fn last(&self) -> Seq<CreatureModel> {
        self.history()[self.gen as int]
    }

    pub open spec fn wf(&self) -> bool {
        &&& self.size > 0
        &&& self.generations@.len() == self.gen + 1
        &&& forall|k: int| 0 <= k < self.history().len() ==> generation_ok(#[trigger] self.history()[k], self.size as nat)
    }

    /// Generation 0: `size` creatures with random genomes. A population of
    /// no creatures is refused.
    pub fn new(size: usize, rng: &mut rand::rngs::StdRng) -> (r: Result<Population, SimulationError>)
        ensures
            size == 0 <==> r == Err::<Population, SimulationError>(SimulationError::InvalidConfiguration),
            r is Ok <==> size > 0,
            size == 0 ==> *final(rng) == *old(rng),
            r is Ok ==> {
                let p = r->Ok_0;
                &&& p.wf()
                &&& p.gen == 0
                &&& p.size == size
                &&& forall|i: int| 0 <= i < size ==> (#[trigger] p.last()[i]).is_fresh()
            },
    {
        if size == 0 {
            return Err(SimulationError::InvalidConfiguration);
        }
        let mut creatures: Vec<Creature> = Vec::new();
        let mut i: usize = 0;
        while i < size
            invariant
                i <= size,
                creatures@.len() == i,
                forall|k: int| 0 <= k < i ==> (#[trigger] creatures@[k])@.wf() && creatures@[k]@.is_fresh(),
            decreases size - i,
        {
            creatures.push(Creature::random(rng));
            i = i + 1;
        }
        let mut generations: Vec<Generation> = Vec::new();
        generations.push(Generation { creatures });
        let p = Population { generations, gen: 0, size };
        assert(p.history()[0] == p.generations@[0]@);
        Ok(p)
    }

    /// A deep copy of the whole history.
    pub fn duplicate(&self) -> (r: Population)
        ensures
            r.history() == self.history(),
            r.gen == self.gen,
            r.size == self.size,
    {
        let mut generations: Vec<Generation> = Vec::new();
        let mut k: usize = 0;
        while k < self.generations.len()
            invariant
                k <= self.generations@.len(),
                generations@.len() == k,
                forall|m: int| 0 <= m < k ==> (#[trigger] generations@[m])@ == self.generations@[m]@,
            decreases self.generations@.len() - k,
        {
            let src = &self.generations[k];
            let mut creatures: Vec<Creature> = Vec::new();
            let mut i: usize = 0;
            while i < src.creatures.len()
                invariant
                    i <= src.creatures@.len(),
                    creatures@.len() == i,
                    forall|m: int| 0 <= m < i ==> (#[trigger] creatures@[m])@ == src.creatures@[m]@,
                decreases src.creatures@.len() - i,
            {
                creatures.push(src.creatures[i].duplicate());
                i = i + 1;
            }
            let g = Generation { creatures };
            assert(g@ =~= src@);
            generations.push(g);
            k = k + 1;
        }
        let r = Population { generations, gen: self.gen, size: self.size };
        assert(r.history() =~= self.history());
        r
    }

    /// The score of each creature of the current generation: the one it has,
    /// or the trial's. The first failed trial ends the pass.
    pub fn score_current<T: FitnessTrial>(&self, trial: &mut T) -> (r: Result<Vec<i64>, SimulationError>)
        requires
            self.wf(),
        ensures
            r is Ok ==> scores_for(self.last(), r->Ok_0@),
            r is Err ==> r->Err_0 == SimulationError::EvaluationFailure,
            (forall|i: int| 0 <= i < self.size ==> (#[trigger] self.last()[i]).scored) ==> r is Ok,
    {
        let cur = &self.generations[self.gen];
        assert(cur@ == self.last());
        let mut scores: Vec<i64> = Vec::new();
        let mut i: usize = 0;
        while i < cur.creatures.len()
            invariant
                cur@ == self.last(),
                cur.creatures@.len() == self.size,
                i <= cur.creatures@.len(),
                scores@.len() == i,
                forall|k: int| 0 <= k < i && (#[trigger] cur.creatures@[k]).scored ==> scores@[k] == cur.creatures@[k].fitness,
            decreases cur.creatures@.len() - i,
        {
            let c = &cur.creatures[i];
            if c.scored {
                scores.push(c.fitness);
            } else {
                assert(!self.last()[i as int].scored);
                match trial.run_trial(&c.genes) {
                    Some(f) => scores.push(f),
                    None => return Err(SimulationError::EvaluationFailure),
                }
            }
            i = i + 1;
        }
        Ok(scores)
    }

    /// Writes `scores` into the current generation and appends `next`, or
    /// refuses a `next` of the wrong size and changes nothing.
    pub fn commit(&mut self, scores: Vec<i64>, next: Vec<Creature>) -> (r: Result<(), SimulationError>)
        requires
            old(self).wf(),
            old(self).gen < usize::MAX,
            scores_for(old(self).last(), scores@),
            forall|i: int| 0 <= i < next@.len() ==> (#[trigger] next@[i])@.wf(),
        ensures
            r is Ok <==> next@.len() == old(self).size,
            r is Err ==> r->Err_0 == SimulationError::InvariantViolation,
            r is Err ==> *final(self) == *old(self),
            r is Ok ==> final(self).wf() && is_advance(*old(self), *final(self), scores@, models(next@)),
    {
        if next.len() != self.size {
            return Err(SimulationError::InvariantViolation);
        }
        let ghost g0 = self.last();
        let ghost h0 = self.history();
        let mut done: Vec<Creature> = Vec::new();
        let cur = &self.generations[self.gen];
        assert(cur@ == g0);
        let mut i: usize = 0;
        while i < cur.creatures.len()
            invariant
                cur@ == g0,
                cur.creatures@.len() == g0.len(),
                g0.len() == scores@.len(),
                i <= g0.len(),
                done@.len() == i,
                forall|k: int| 0 <= k < i ==> (#[trigger] done@[k])@ == scored_as(g0, scores@)[k],
            decreases g0.len() - i,
        {
            done.push(cur.creatures[i].with_score(scores[i]));
            i = i + 1;
        }
        let scored = Generation { creatures: done };
        assert(scored@ =~= scored_as(g0, scores@));
        let ghost nx = Generation { creatures: next }@;
        let at = self.gen;
        self.generations.set(at, scored);
        self.generations.push(Generation { creatures: next });
        self.gen = self.gen + 1;
        assert(self.history() =~= h0.update(old(self).gen as int, scored_as(g0, scores@)).push(nx));
        Ok(())
    }

    /// Returns creature `i` of generation `g` to its starting position;
    /// nothing else changes.
    pub fn reset_position(&mut self, g: usize, i: usize)
        requires
            old(self).wf(),
            g <= old(self).gen,
            i < old(self).size,
        ensures
            final(self).wf(),
            final(self).gen == old(self).gen,
            final(self).size == old(self).size,
            final(self).history() == old(self).history().update(
                g as int,
                old(self).history()[g as int].update(i as int, CreatureModel { position: 0, ..old(self).history()[g as int][i as int] }),
            ),
    {
        let ghost h0 = self.history();
        let src = &self.generations[g];
        assert(src@ == h0[g as int]);
        let mut creatures: Vec<Creature> = Vec::new();
        let mut j: usize = 0;
        while j < src.creatures.len()
            invariant
                src@ == h0[g as int],
                j <= src.creatures@.len(),
                creatures@.len() == j,
                forall|m: int| 0 <= m < j && m != i ==> (#[trigger] creatures@[m])@ == src.creatures@[m]@,
                i < j ==> creatures@[i as int]@ == (CreatureModel { position: 0, ..src.creatures@[i as int]@ }),
            decreases src.creatures@.len() - j,
        {
            let mut c = src.creatures[j].duplicate();
            if j == i {
                c.reset_position();
            }
            creatures.push(c);
            j = j + 1;
        }
        let fresh = Generation { creatures };
        assert(fresh@ =~= h0[g as int].update(i as int, CreatureModel { position: 0, ..h0[g as int][i as int] }));
        self.generations.set(g, fresh);
        assert(self.history() =~= h0.update(g as int, h0[g as int].update(i as int, CreatureModel { position: 0, ..h0[g as int][i as int] })));
    }
}

/// After `n` successful advances from a well-formed population, `gen` has
/// grown by exactly `n` and the history holds `gen + 1` generations.
pub proof fn lemma_history_growth(runs: Seq<Population>)
    requires
        runs.len() >= 1,
        runs[0].wf(),
        forall|k: int| 0 <= k < runs.len() - 1 ==> advances(#[trigger] runs[k], runs[k + 1]),
    ensures
        runs.last().gen == runs[0].gen + (runs.len() - 1),
        runs.last().history().len() == runs.last().gen + 1,
    decreases runs.len(),
{
    if runs.len() > 1 {
        let n = runs.len() - 1;
        let front = runs.subrange(0, n);
        assert forall|k: int| 0 <= k < front.len() - 1 implies advances(#[trigger] front[k], front[k + 1]) by {
            assert(advances(runs[k], runs[k + 1]));
        }
        lemma_history_growth(front);
        assert(advances(runs[n - 1], runs[n]));
        let (s, next) = choose|s: Seq<i64>, next: Seq<CreatureModel>| #[trigger] is_advance(runs[n - 1], runs[n], s, next);
        assert(is_advance(runs[n - 1], runs[n], s, next));
    } else {
        assert(runs[0].history().len() == runs[0].generations@.len());
    }
}

/// One successful advance keeps the population's size: the new generation
/// holds as many creatures as the one it came from, and the history stays
/// well formed.
pub proof fn lemma_size_conserved(a: Population, b: Population)
    requires
        a.wf(),
        advances(a, b),
    ensures
        b.wf(),
        b.size == a.size,
        b.last().len() == a.size,
        b.history()[a.gen as int].len() == a.last().len(),
        a.last().len() == a.size,
{
    let (s, next) = choose|s: Seq<i64>, next: Seq<CreatureModel>| #[trigger] is_advance(a, b, s, next);
    assert(is_advance(a, b, s, next));
    assert(generation_ok(a.history()[a.gen as int], a.size as nat));
    assert(b.history().len() == b.generations@.len());
    assert forall|k: int| 0 <= k < b.history().len() implies generation_ok(#[trigger] b.history()[k], b.size as nat) by {
        if k < a.gen {
            assert(b.history()[k] == a.history()[k]);
        } else if k == a.gen {
            let g = a.history()[k];
            assert(b.history()[k] == scored_as(g, s));
            assert forall|i: int| 0 <= i < g.len() implies (#[trigger] scored_as(g, s)[i]).wf() by {
                assert(g[i].wf());
            }
        }
    }
}

} // verus!
