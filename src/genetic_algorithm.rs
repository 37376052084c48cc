//! The genetic algorithm: parents chosen by binary tournament, one-point
//! crossover, then mutation. No creature is carried over unchanged.
use vstd::prelude::*;
use crate::creature::{Creature, CreatureModel, FitnessTrial, GENOME_LEN, MUTATION_STEP, genome_ok, near_genome};
use crate::population::{Population, SimulationError, advances, generation_ok, is_advance, models, scores_for};
use crate::random::draw_below;

verus! {

/// The winner of a binary tournament between `a` and `b`: the higher score;
/// on a tie, `a` when `coin` is zero and `b` otherwise.
pub open spec fn tournament_winner(scores: Seq<i64>, a: int, b: int, coin: u64) -> int {
    if scores[a] > scores[b] {
        a
    } else if scores[b] > scores[a] {
        b
    } else if coin == 0 {
        a
    } else {
        b
    }
}

/// Every gene of the child `c` lies within one mutation step of the same
/// gene of some creature of the parent generation `g`.
pub open spec fn bred_from(g: Seq<CreatureModel>, c: CreatureModel) -> bool {
    &&& c.genes.len() == GENOME_LEN
    &&& forall|j: int| #![trigger c.genes[j]] 0 <= j < GENOME_LEN ==> exists|p: int| #![trigger g[p]]
        0 <= p < g.len() && -MUTATION_STEP <= c.genes[j] - g[p].genes[j] <= MUTATION_STEP
}

/// Binary tournament over `scores`, exactly as `tournament_winner`.
pub fn tournament_pick(scores: &Vec<i64>, a: usize, b: usize, coin: u64) -> (r: usize)
    requires
        a < scores@.len(),
        b < scores@.len(),
    ensures
        r == tournament_winner(scores@, a as int, b as int, coin),
{
    if scores[a] > scores[b] {
        a
    } else if scores[b] > scores[a] {
        b
    } else if coin == 0 {
        a
    } else {
        b
    }
}

/// One-point crossover: the genes of `a` before `cut`, then those of `b`.
pub fn crossover(a: &Vec<i64>, b: &Vec<i64>, cut: usize) -> (r: Vec<i64>)
    requires
        a@.len() == b@.len(),
        cut <= a@.len(),
    ensures
        r@ == a@.subrange(0, cut as int) + b@.subrange(cut as int, b@.len() as int),
{
    let mut r: Vec<i64> = Vec::new();
    let mut j: usize = 0;
    while j < a.len()
        invariant
            a@.len() == b@.len(),
            cut <= a@.len(),
            j <= a@.len(),
            r@.len() == j,
            forall|k: int| 0 <= k < j ==> #[trigger] r@[k] == if k < cut { a@[k] } else { b@[k] },
        decreases a@.len() - j,
    {
        if j < cut {
            r.push(a[j]);
        } else {
            r.push(b[j]);
        }
        j = j + 1;
    }
    assert(r@ =~= a@.subrange(0, cut as int) + b@.subrange(cut as int, b@.len() as int));
    r
}

pub struct GeneticAlgorithm {
    pub data: Population,
}

impl GeneticAlgorithm {
    pub open spec fn wf(&self) -> bool {
        self.data.wf()
    }

    /// Takes over a population, at whatever generation it stands.
    pub fn new(population: Population) -> (r: GeneticAlgorithm)
        requires
            population.wf(),
        ensures
            r.wf(),
            r.data == population,
    {
        GeneticAlgorithm { data: population }
    }

    pub fn get_data(&self) -> (r: &Population)
        ensures
            *r == self.data,
    {
        &self.data
    }

    /// The history, for changes made from outside (such as putting a
    /// creature back at its start); keeping the strategy well formed is then
    /// the caller's part.
    pub fn get_data_mut(&mut self) -> (r: &mut Population)
        ensures
            *r == old(self).data,
            final(self).data == *final(r),
    {
        &mut self.data
    }

    /// `s` scores the current generation and `next` is `size` fresh
    /// children bred from it.
    pub open spec fn step_ok(&self, s: Seq<i64>, next: Seq<CreatureModel>) -> bool {
        &&& scores_for(self.data.last(), s)
        &&& generation_ok(next, self.data.size as nat)
        &&& forall|i: int| 0 <= i < next.len() ==> (#[trigger] next[i]).is_fresh() && bred_from(self.data.last(), next[i])
    }

    /// Every creature of the current generation already has its score, so
    /// a step runs no trial.
    pub open spec fn all_scored(&self) -> bool {
        forall|i: int| 0 <= i < self.data.size ==> (#[trigger] self.data.last()[i]).scored
    }

    /// Works out the next generation without changing the strategy: scores
    /// the current generation, then breeds `size` children, each from two
    /// tournament winners by crossover and mutation. A failed trial ends the
    /// work; when every creature is already scored no trial runs and the
    /// work succeeds.
    pub fn prepare_next<T: FitnessTrial>(&self, rng: &mut rand::rngs::StdRng, trial: &mut T) -> (r: Result<(Vec<i64>, Vec<Creature>), SimulationError>)
        requires
            self.wf(),
        ensures
            r is Err ==> r->Err_0 == SimulationError::EvaluationFailure,
            r is Ok ==> self.step_ok(r->Ok_0.0@, models(r->Ok_0.1@)),
            self.all_scored() ==> r is Ok,
    {
        let scores = match self.data.score_current(trial) {
            Ok(s) => s,
            Err(e) => return Err(e),
        };
        let ghost g0 = self.data.last();
        let size = self.data.size;
        let cur = &self.data.generations[self.data.gen];
        assert(cur@ == g0);
        let mut next: Vec<Creature> = Vec::new();
        let mut i: usize = 0;
        while i < size
            invariant
                self.data.wf(),
                cur@ == g0,
                g0 == self.data.last(),
                size == self.data.size,
                cur.creatures@.len() == size,
                scores@.len() == size,
                i <= size,
                next@.len() == i,
                forall|k: int| 0 <= k < i ==> {
                    &&& (#[trigger] next@[k])@.wf()
                    &&& next@[k]@.is_fresh()
                    &&& bred_from(g0, next@[k]@)
                },
            decreases size - i,
        {
            let size64 = size as u64;
            let a = draw_below(rng, size64) as usize;
            let b = draw_below(rng, size64) as usize;
            let coin = draw_below(rng, 2);
            let pa = tournament_pick(&scores, a, b, coin);
            let c = draw_below(rng, size64) as usize;
            let d = draw_below(rng, size64) as usize;
            let coin2 = draw_below(rng, 2);
            let pb = tournament_pick(&scores, c, d, coin2);
            let cut = draw_below(rng, (GENOME_LEN + 1) as u64) as usize;
            let ga = &cur.creatures[pa].genes;
            let gb = &cur.creatures[pb].genes;
            assert(g0[pa as int].wf() && g0[pb as int].wf());
            let mixed = crossover(ga, gb, cut);
            let base = Creature::from_genes(mixed);
            assert(genome_ok(base.genes@)) by {
                assert forall|j: int| 0 <= j < GENOME_LEN implies crate::creature::gene_ok(#[trigger] base.genes@[j]) by {
                    if j < cut {
                        assert(base.genes@[j] == ga@[j]);
                    } else {
                        assert(base.genes@[j] == gb@[j]);
                    }
                }
            }
            let child = base.mutated(rng);
            assert(bred_from(g0, child@)) by {
                assert forall|j: int| #![trigger child.genes@[j]] 0 <= j < GENOME_LEN implies exists|p: int| #![trigger g0[p]]
                    0 <= p < g0.len() && -MUTATION_STEP <= child.genes@[j] - g0[p].genes[j] <= MUTATION_STEP by {
                    assert(-MUTATION_STEP <= child.genes@[j] - base.genes@[j] <= MUTATION_STEP);
                    if j < cut {
                        assert(base.genes@[j] == g0[pa as int].genes[j]);
                    } else {
                        assert(base.genes@[j] == g0[pb as int].genes[j]);
                    }
                }
            }
            next.push(child);
            i = i + 1;
        }
        proof {
            let nx = models(next@);
            assert forall|k: int| 0 <= k < nx.len() implies (#[trigger] nx[k]).is_fresh() && bred_from(g0, nx[k]) && nx[k].wf() by {
                assert(nx[k] == next@[k]@);
            }
        }
        Ok((scores, next))
    }

    /// Commits a prepared step: the scores go into the current generation
    /// and `next` is appended.
    pub fn apply_next(&mut self, scores: Vec<i64>, next: Vec<Creature>)
        requires
            old(self).wf(),
            old(self).data.gen < usize::MAX,
            old(self).step_ok(scores@, models(next@)),
        ensures
            final(self).wf(),
            is_advance(old(self).data, final(self).data, scores@, models(next@)),
    {
        let ghost nx = models(next@);
        proof {
            assert forall|i: int| 0 <= i < next@.len() implies (#[trigger] next@[i])@.wf() by {
                assert(nx[i] == next@[i]@);
            }
        }
        let res = self.data.commit(scores, next);
        assert(res is Ok);
    }

    /// Advances one generation: `prepare_next`, then `apply_next`. A failed
    /// trial changes nothing; with every creature already scored the step
    /// succeeds.
    pub fn generation_single<T: FitnessTrial>(&mut self, rng: &mut rand::rngs::StdRng, trial: &mut T) -> (r: Result<(), SimulationError>)
        requires
            old(self).wf(),
            old(self).data.gen < usize::MAX,
        ensures
            r is Err ==> r->Err_0 == SimulationError::EvaluationFailure && *final(self) == *old(self),
            old(self).all_scored() ==> r is Ok,
            r is Ok ==> {
                &&& final(self).wf()
                &&& advances(old(self).data, final(self).data)
                &&& forall|i: int| 0 <= i < old(self).data.size ==> {
                    &&& (#[trigger] final(self).data.last()[i]).is_fresh()
                    &&& bred_from(old(self).data.last(), final(self).data.last()[i])
                }
            },
    {
        match self.prepare_next(rng, trial) {
            Err(e) => Err(e),
            Ok((s, next)) => {
                let ghost nx = models(next@);
                let ghost sv = s@;
                self.apply_next(s, next);
                proof {
                    assert(is_advance(old(self).data, self.data, sv, nx));
                    assert forall|i: int| 0 <= i < old(self).data.size implies {
                        &&& (#[trigger] self.data.last()[i]).is_fresh()
                        &&& bred_from(old(self).data.last(), self.data.last()[i])
                    } by {
                        assert(self.data.last() == nx);
                    }
                }
                Ok(())
            },
        }
    }
}

} // verus!
