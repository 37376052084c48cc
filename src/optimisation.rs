//! The strategies as one closed set, dispatched on the active variant.
use vstd::prelude::*;
use crate::creature::{Creature, CreatureModel, FitnessTrial};
use crate::genetic_algorithm::GeneticAlgorithm;
use crate::hill_climbing::HillClimbing;
use crate::population::{Population, SimulationError, is_advance, models};
use crate::simulated_annealing::{SimulatedAnnealing, cooled};

verus! {

pub enum OptimisationMethod {
    Genetic(GeneticAlgorithm),
    Hill(HillClimbing),
    Annealing(SimulatedAnnealing),
}

/// Code of a strategy: 0 for the genetic algorithm, 1 for hill climbing,
/// 2 for simulated annealing.
pub open spec fn kind_of(m: OptimisationMethod) -> nat {
    match m {
        OptimisationMethod::Genetic(_) => 0,
        OptimisationMethod::Hill(_) => 1,
        OptimisationMethod::Annealing(_) => 2,
    }
}

/// `b` is `a` advanced by its own rule, with the scores `s` and the new
/// generation `next`: the same strategy, well formed, and an annealing
/// strategy cooled by one step.
pub open spec fn ruled_step(a: OptimisationMethod, b: OptimisationMethod, s: Seq<i64>, next: Seq<CreatureModel>) -> bool {
    &&& kind_of(b) == kind_of(a)
    &&& b.wf()
    &&& a.step_ok(s, next)
    &&& is_advance(a.data(), b.data(), s, next)
    &&& match (a, b) {
        (OptimisationMethod::Annealing(x), OptimisationMethod::Annealing(y)) => y.temperature == cooled(x.temperature as nat),
        _ => true,
    }
}

/// `b` is `a` advanced one generation by its own rule.
pub open spec fn advanced_by_rule(a: OptimisationMethod, b: OptimisationMethod) -> bool {
    exists|s: Seq<i64>, next: Seq<CreatureModel>| #[trigger] ruled_step(a, b, s, next)
}

impl OptimisationMethod {
    /// `s` and `next` are a step by the active strategy's rule.
    pub open spec fn step_ok(&self, s: Seq<i64>, next: Seq<CreatureModel>) -> bool {
        match self {
            OptimisationMethod::Genetic(m) => m.step_ok(s, next),
            OptimisationMethod::Hill(m) => m.step_ok(s, next),
            OptimisationMethod::Annealing(m) => m.step_ok(s, next),
        }
    }

    /// A step of this strategy runs no trial: a genetic algorithm whose
    /// current generation is all scored.
    pub open spec fn no_trial_needed(&self) -> bool {
        match self {
            OptimisationMethod::Genetic(m) => m.all_scored(),
            _ => false,
        }
    }

    /// The history the strategy owns.
    pub open spec fn data(&self) -> Population {
        match self {
            OptimisationMethod::Genetic(m) => m.data,
            OptimisationMethod::Hill(m) => m.data,
            OptimisationMethod::Annealing(m) => m.data,
        }
    }

    pub open spec fn wf(&self) -> bool {
        match self {
            OptimisationMethod::Genetic(m) => m.wf(),
            OptimisationMethod::Hill(m) => m.wf(),
            OptimisationMethod::Annealing(m) => m.wf(),
        }
    }

    pub fn get_data(&self) -> (r: &Population)
        ensures
            *r == self.data(),
    {
        match self {
            OptimisationMethod::Genetic(m) => m.get_data(),
            OptimisationMethod::Hill(m) => m.get_data(),
            OptimisationMethod::Annealing(m) => m.get_data(),
        }
    }

    /// The history of the active strategy, for changes made from outside;
    /// keeping the strategy well formed is then the caller's part.
    pub fn get_data_mut(&mut self) -> (r: &mut Population)
        ensures
            *r == old(self).data(),
            final(self).data() == *final(r),
            *final(self) is Genetic <==> *old(self) is Genetic,
            *final(self) is Hill <==> *old(self) is Hill,
            *final(self) is Annealing <==> *old(self) is Annealing,
    {
        match self {
            OptimisationMethod::Genetic(m) => m.get_data_mut(),
            OptimisationMethod::Hill(m) => m.get_data_mut(),
            OptimisationMethod::Annealing(m) => m.get_data_mut(),
        }
    }

    /// Works out the active strategy's next generation without changing
    /// the strategy.
    pub fn prepare_next<T: FitnessTrial>(&self, rng: &mut rand::rngs::StdRng, trial: &mut T) -> (r: Result<(Vec<i64>, Vec<Creature>), SimulationError>)
        requires
            self.wf(),
        ensures
            r is Err ==> r->Err_0 == SimulationError::EvaluationFailure,
            r is Ok ==> self.step_ok(r->Ok_0.0@, models(r->Ok_0.1@)),
            self.no_trial_needed() ==> r is Ok,
    {
        match self {
            OptimisationMethod::Genetic(m) => m.prepare_next(rng, trial),
            OptimisationMethod::Hill(m) => m.prepare_next(rng, trial),
            OptimisationMethod::Annealing(m) => m.prepare_next(rng, trial),
        }
    }

    /// Commits a step prepared by `prepare_next`.
    pub fn apply_next(&mut self, scores: Vec<i64>, next: Vec<Creature>)
        requires
            old(self).wf(),
            old(self).data().gen < usize::MAX,
            old(self).step_ok(scores@, models(next@)),
        ensures
            ruled_step(*old(self), *final(self), scores@, models(next@)),
    {
        match self {
            OptimisationMethod::Genetic(m) => {
                m.apply_next(scores, next);
            },
            OptimisationMethod::Hill(m) => {
                m.apply_next(scores, next);
            },
            OptimisationMethod::Annealing(m) => {
                m.apply_next(scores, next);
            },
        }
    }

    /// Advances the active strategy by one generation by its own rule; on
    /// failure nothing changes.
    pub fn generation_single<T: FitnessTrial>(&mut self, rng: &mut rand::rngs::StdRng, trial: &mut T) -> (r: Result<(), SimulationError>)
        requires
            old(self).wf(),
            old(self).data().gen < usize::MAX,
        ensures
            r is Err ==> r->Err_0 == SimulationError::EvaluationFailure && *final(self) == *old(self),
            old(self).no_trial_needed() ==> r is Ok,
            r is Ok ==> advanced_by_rule(*old(self), *final(self)),
    {
        match self.prepare_next(rng, trial) {
            Err(e) => Err(e),
            Ok((s, next)) => {
                let ghost nx = models(next@);
                let ghost sv = s@;
                self.apply_next(s, next);
                assert(ruled_step(*old(self), *self, sv, nx));
                Ok(())
            },
        }
    }

    /// Returns creature `i` of generation `g` to its starting position;
    /// the strategy's history is otherwise unchanged.
    pub fn reset_position(&mut self, g: usize, i: usize)
        requires
            old(self).wf(),
            g <= old(self).data().gen,
            i < old(self).data().size,
        ensures
            final(self).wf(),
            *final(self) is Genetic <==> *old(self) is Genetic,
            *final(self) is Hill <==> *old(self) is Hill,
            *final(self) is Annealing <==> *old(self) is Annealing,
            final(self).data().gen == old(self).data().gen,
            final(self).data().size == old(self).data().size,
            final(self).data().history() == old(self).data().history().update(
                g as int,
                old(self).data().history()[g as int].update(i as int, CreatureModel { position: 0, ..old(self).data().history()[g as int][i as int] }),
            ),
    {
        match self {
            OptimisationMethod::Genetic(m) => {
                m.data.reset_position(g, i);
                assert(m.wf());
            },
            OptimisationMethod::Hill(m) => {
                let ghost h0 = m.data.history();
                m.data.reset_position(g, i);
                proof {
                    let h = m.data.history();
                    assert forall|k: int, j: int| m.start@ <= k < m.data.gen && 0 <= j < h[k].len() implies {
                        &&& (#[trigger] h[k][j]).scored
                        &&& h[k + 1][j].scored
                        &&& h[k + 1][j].fitness >= h[k][j].fitness
                    } by {
                        assert(h0[k][j].scored);
                        assert(h[k][j].scored == h0[k][j].scored && h[k][j].fitness == h0[k][j].fitness);
                        assert(h[k + 1][j].scored == h0[k + 1][j].scored && h[k + 1][j].fitness == h0[k + 1][j].fitness);
                    }
                    assert(m.wf());
                }
            },
            OptimisationMethod::Annealing(m) => {
                m.data.reset_position(g, i);
                assert(m.wf());
            },
        }
    }
}

} // verus!
