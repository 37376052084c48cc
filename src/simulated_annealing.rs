//! Simulated annealing: every creature tries one mutation, always kept when
//! it scores no worse and kept with a chance that shrinks with the loss and
//! with the temperature otherwise.
use vstd::prelude::*;
use crate::creature::{Creature, CreatureModel, FitnessTrial, near_genome};
use crate::population::{Population, SimulationError, advances, generation_ok, is_advance, models, scored_as, scores_for};
use crate::random::draw_below;

verus! {

/// Temperature of generation 0.
pub const TEMP_START: u64 = 1000;

/// Temperature never falls below this floor.
pub const TEMP_FLOOR: u64 = 1;

/// Chances are fixed-point numbers: `CHANCE_SCALE` stands for certainty.
pub const CHANCE_SCALE: u64 = 65536;

/// One step of the geometric cooling schedule: 95 per cent of `t`, held at
/// the floor.
pub open spec fn cooled(t: nat) -> nat {
    let c = t * 95 / 100;
    if c < TEMP_FLOOR {
        TEMP_FLOOR as nat
    } else {
        c
    }
}

/// The temperature after `gen` generations.
pub open spec fn temperature_at(gen: nat) -> nat
    decreases gen,
{
    if gen == 0 {
        TEMP_START as nat
    } else {
        cooled(temperature_at((gen - 1) as nat))
    }
}

/// `y` squared `k` times in fixed point.
pub open spec fn square_steps(y: nat, k: nat) -> nat
    decreases k,
{
    if k == 0 {
        y
    } else {
        square_steps(y * y / (CHANCE_SCALE as nat), (k - 1) as nat)
    }
}

/// The chance, out of `CHANCE_SCALE`, of accepting a loss of `gap` at
/// temperature `t`: `e^(-x)` for `x = gap / t`, computed as `(1 - x/64)^64`
/// and taken as zero once `x` reaches 16.
pub open spec fn acceptance_chance(gap: nat, t: nat) -> nat {
    if t == 0 || gap >= 16 * t {
        0
    } else {
        let x: int = gap * (CHANCE_SCALE as int) / (t as int);
        square_steps((CHANCE_SCALE as int - x / 64) as nat, 6)
    }
}

/// The annealing rule: a candidate that scores no worse is accepted;
/// a worse one is accepted when `draw` falls under the acceptance chance.
pub open spec fn anneal_accepts(parent: i64, candidate: i64, t: nat, draw: nat) -> bool {
    candidate >= parent || draw < acceptance_chance((parent - candidate) as nat, t)
}

proof fn lemma_square_steps_bounded(y: nat, k: nat)
    requires
        y <= CHANCE_SCALE,
    ensures
        square_steps(y, k) <= CHANCE_SCALE,
    decreases k,
{
    if k > 0 {
        assert(y * y <= CHANCE_SCALE * CHANCE_SCALE) by (nonlinear_arith)
            requires y <= CHANCE_SCALE;
        assert(y * y / (CHANCE_SCALE as nat) <= CHANCE_SCALE) by (nonlinear_arith)
            requires y * y <= CHANCE_SCALE * CHANCE_SCALE;
        lemma_square_steps_bounded(y * y / (CHANCE_SCALE as nat), (k - 1) as nat);
    }
}

/// The temperature stays within `[TEMP_FLOOR, TEMP_START]`, never rises
/// from one generation to the next, and falls strictly while it is above
/// the floor.
pub proof fn lemma_temperature_decay(gen: nat)
    ensures
        TEMP_FLOOR <= temperature_at(gen) <= TEMP_START,
        temperature_at(gen + 1) <= temperature_at(gen),
        temperature_at(gen) > TEMP_FLOOR ==> temperature_at(gen + 1) < temperature_at(gen),
    decreases gen,
{
    if gen > 0 {
        lemma_temperature_decay((gen - 1) as nat);
    }
    assert(temperature_at(gen + 1) == cooled(temperature_at(gen)));
}

/// One step of the cooling schedule.
pub fn cool(t: u64) -> (r: u64)
    requires
        t <= TEMP_START,
    ensures
        r == cooled(t as nat),
{
    let c = t * 95 / 100;
    if c < TEMP_FLOOR {
        TEMP_FLOOR
    } else {
        c
    }
}

/// The chance of accepting a loss of `gap` at temperature `t`, exactly as
/// `acceptance_chance` gives it; never more than certainty.
pub fn accept_chance(gap: u64, t: u64) -> (r: u64)
    ensures
        r == acceptance_chance(gap as nat, t as nat),
        r <= CHANCE_SCALE,
{
    if t == 0 || (gap as u128) >= 16 * (t as u128) {
        return 0;
    }
    let x: u128 = (gap as u128) * (CHANCE_SCALE as u128) / (t as u128);
    assert(x < 16 * CHANCE_SCALE) by (nonlinear_arith)
        requires x == (gap as int) * (CHANCE_SCALE as int) / (t as int), gap < 16 * t, t > 0;
    let mut y: u64 = CHANCE_SCALE - (x / 64) as u64;
    let ghost y0 = y as nat;
    let mut k: u64 = 0;
    while k < 6
        invariant
            k <= 6,
            y <= CHANCE_SCALE,
            square_steps(y as nat, (6 - k) as nat) == square_steps(y0, 6),
        decreases 6 - k,
    {
        assert(y * y <= CHANCE_SCALE * CHANCE_SCALE) by (nonlinear_arith)
            requires y <= CHANCE_SCALE;
        let ny = y * y / CHANCE_SCALE;
        assert(ny <= CHANCE_SCALE) by (nonlinear_arith)
            requires ny == (y as int) * (y as int) / (CHANCE_SCALE as int), y <= CHANCE_SCALE;
        assert(square_steps(y as nat, (6 - k) as nat) == square_steps(ny as nat, (6 - k - 1) as nat));
        y = ny;
        k = k + 1;
    }
    proof {
        lemma_square_steps_bounded(y0, 6);
    }
    y
}

/// Whether a candidate scoring `candidate` replaces a parent scoring
/// `parent` at temperature `t`, given a uniform `draw` from
/// `[0, CHANCE_SCALE)`.
pub fn anneal_accept(parent: i64, candidate: i64, t: u64, draw: u64) -> (r: bool)
    ensures
        r == anneal_accepts(parent, candidate, t as nat, draw as nat),
{
    if candidate >= parent {
        true
    } else {
        let gap: u64 = (parent as i128 - candidate as i128) as u64;
        draw < accept_chance(gap, t)
    }
}

/// `c` succeeds `p` under annealing at temperature `t`: `p` unchanged, or
/// a fresh scored mutation of it that scores no worse or whose loss had a
/// positive chance of acceptance.
pub open spec fn annealed(p: CreatureModel, c: CreatureModel, t: nat) -> bool {
    c == p || {
        &&& near_genome(p.genes, c.genes)
        &&& c.scored
        &&& c.position == 0
        &&& (c.fitness >= p.fitness || acceptance_chance((p.fitness - c.fitness) as nat, t) > 0)
    }
}

/// Simulated annealing over `data`, which it took over at generation
/// `start`; the temperature follows the schedule from there.
pub struct SimulatedAnnealing {
    pub data: Population,
    pub temperature: u64,
    pub start: Ghost<usize>,
}

impl SimulatedAnnealing {
    pub open spec fn wf(&self) -> bool {
        &&& self.data.wf()
        &&& self.start@ <= self.data.gen
        &&& self.temperature == temperature_at((self.data.gen - self.start@) as nat)
    }

    /// Takes over a population, at whatever generation it stands, at the
    /// starting temperature.
    pub fn new(population: Population) -> (r: SimulatedAnnealing)
        requires
            population.wf(),
        ensures
            r.wf(),
            r.data == population,
            r.temperature == TEMP_START,
            r.start@ == population.gen,
    {
        let ghost g = population.gen;
        SimulatedAnnealing { data: population, temperature: TEMP_START, start: Ghost(g) }
    }

    pub fn get_data(&self) -> (r: &Population)
        ensures
            *r == self.data,
    {
        &self.data
    }

    /// The history, for changes made from outside (such as putting a
    /// creature back at its start); keeping the strategy well formed is then
    /// the caller's part.
    pub fn get_data_mut(&mut self) -> (r: &mut Population)
        ensures
            *r == old(self).data,
            final(self).data == *final(r),
            final(self).temperature == old(self).temperature,
    {
        &mut self.data
    }

    /// `s` scores the current generation and `next` follows it by the
    /// annealing rule at the current temperature.
    pub open spec fn step_ok(&self, s: Seq<i64>, next: Seq<CreatureModel>) -> bool {
        &&& scores_for(self.data.last(), s)
        &&& generation_ok(next, self.data.size as nat)
        &&& forall|i: int| 0 <= i < next.len() ==> annealed(scored_as(self.data.last(), s)[i], #[trigger] next[i], self.temperature as nat)
    }

    /// Works out the next generation without changing the strategy: scores
    /// the current generation, then gives each creature one mutated
    /// candidate, kept by `anneal_accept` on a uniform draw. A failed trial
    /// ends the work.
    pub fn prepare_next<T: FitnessTrial>(&self, rng: &mut rand::rngs::StdRng, trial: &mut T) -> (r: Result<(Vec<i64>, Vec<Creature>), SimulationError>)
        requires
            self.wf(),
        ensures
            r is Err ==> r->Err_0 == SimulationError::EvaluationFailure,
            r is Ok ==> self.step_ok(r->Ok_0.0@, models(r->Ok_0.1@)),
    {
        let scores = match self.data.score_current(trial) {
            Ok(s) => s,
            Err(e) => return Err(e),
        };
        let ghost g0 = self.data.last();
        let ghost sc = scored_as(g0, scores@);
        let cur = &self.data.generations[self.data.gen];
        assert(cur@ == g0);
        let mut next: Vec<Creature> = Vec::new();
        let mut i: usize = 0;
        while i < cur.creatures.len()
            invariant
                self.data.wf(),
                cur@ == g0,
                sc == scored_as(g0, scores@),
                g0 == self.data.last(),
                cur.creatures@.len() == self.data.size,
                scores@.len() == g0.len(),
                i <= g0.len(),
                next@.len() == i,
                forall|k: int| 0 <= k < i ==> (#[trigger] next@[k])@.wf() && annealed(sc[k], next@[k]@, self.temperature as nat),
            decreases g0.len() - i,
        {
            let parent = &cur.creatures[i];
            assert(parent@ == g0[i as int]);
            assert(sc[i as int] == (CreatureModel { fitness: scores@[i as int], scored: true, ..g0[i as int] }));
            let cand = parent.mutated(rng);
            match trial.run_trial(&cand.genes) {
                None => return Err(SimulationError::EvaluationFailure),
                Some(f) => {
                    let draw = draw_below(rng, CHANCE_SCALE);
                    if anneal_accept(scores[i], f, self.temperature, draw) {
                        next.push(cand.with_score(f));
                    } else {
                        next.push(parent.with_score(scores[i]));
                    }
                },
            }
            i = i + 1;
        }
        proof {
            let nx = models(next@);
            assert forall|k: int| 0 <= k < nx.len() implies annealed(sc[k], #[trigger] nx[k], self.temperature as nat) && nx[k].wf() by {
                assert(nx[k] == next@[k]@);
            }
        }
        Ok((scores, next))
    }

    /// Commits a prepared step: the scores go into the current generation,
    /// `next` is appended, and the temperature cools one step.
    pub fn apply_next(&mut self, scores: Vec<i64>, next: Vec<Creature>)
        requires
            old(self).wf(),
            old(self).data.gen < usize::MAX,
            old(self).step_ok(scores@, models(next@)),
        ensures
            final(self).wf(),
            final(self).temperature == cooled(old(self).temperature as nat),
            is_advance(old(self).data, final(self).data, scores@, models(next@)),
    {
        let ghost nx = models(next@);
        proof {
            assert forall|i: int| 0 <= i < next@.len() implies (#[trigger] next@[i])@.wf() by {
                assert(nx[i] == next@[i]@);
            }
        }
        let res = self.data.commit(scores, next);
        assert(res is Ok);
        proof {
            lemma_temperature_decay((old(self).data.gen - old(self).start@) as nat);
            assert((self.data.gen - self.start@) as nat == ((old(self).data.gen - old(self).start@) as nat) + 1);
        }
        self.temperature = cool(self.temperature);
    }

    /// Advances one generation: `prepare_next`, then `apply_next`. A failed
    /// trial changes nothing.
    pub fn generation_single<T: FitnessTrial>(&mut self, rng: &mut rand::rngs::StdRng, trial: &mut T) -> (r: Result<(), SimulationError>)
        requires
            old(self).wf(),
            old(self).data.gen < usize::MAX,
        ensures
            r is Err ==> r->Err_0 == SimulationError::EvaluationFailure && *final(self) == *old(self),
            r is Ok ==> {
                &&& final(self).wf()
                &&& final(self).temperature == cooled(old(self).temperature as nat)
                &&& advances(old(self).data, final(self).data)
                &&& forall|i: int| 0 <= i < old(self).data.size ==>
                    annealed(final(self).data.history()[old(self).data.gen as int][i], #[trigger] final(self).data.last()[i], old(self).temperature as nat)
            },
    {
        match self.prepare_next(rng, trial) {
            Err(e) => Err(e),
            Ok((s, next)) => {
                let ghost nx = models(next@);
                let ghost sv = s@;
                self.apply_next(s, next);
                assert(is_advance(old(self).data, self.data, sv, nx));
                Ok(())
            },
        }
    }
}

} // verus!
