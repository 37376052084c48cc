//! Creatures: a genome, a fitness score and the transient state of a trial.
use vstd::prelude::*;
use crate::random::{draw_below, draw_between};

verus! {

/// Number of genes in every genome.
pub const GENOME_LEN: usize = 8;

/// Smallest value a gene may take.
pub const GENE_MIN: i64 = -1000;

/// Largest value a gene may take.
pub const GENE_MAX: i64 = 1000;

/// Largest change that one mutation makes to one gene.
pub const MUTATION_STEP: i64 = 50;

/// Each gene of a child mutates with probability one in `MUTATION_ODDS`.
pub const MUTATION_ODDS: u64 = 4;

/// What a creature is, as the contracts see it.
pub ghost struct CreatureModel {
    pub genes: Seq<i64>,
    pub fitness: i64,
    pub scored: bool,
    pub position: i64,
}

/// One candidate solution.
///
/// `fitness` is an integer score (higher is better) and means something only
/// once `scored` is set; `position` is the transient state of a trial.
pub struct Creature {
    pub genes: Vec<i64>,
    pub fitness: i64,
    pub scored: bool,
    pub position: i64,
}

/// The physics trial that scores a genome: `None` when the trial fails
/// (it diverges or gives no usable score).
pub trait FitnessTrial {
    fn run_trial(&mut self, genes: &Vec<i64>) -> Option<i64>;
}

pub open spec fn gene_ok(g: i64) -> bool {
    GENE_MIN <= g <= GENE_MAX
}

pub open spec fn genome_ok(genes: Seq<i64>) -> bool {
    &&& genes.len() == GENOME_LEN
    &&& forall|j: int| 0 <= j < genes.len() ==> gene_ok(#[trigger] genes[j])
}

/// `g` moved by `delta` and held inside the gene range.
pub open spec fn clamp_gene(g: int) -> i64 {
    if g < GENE_MIN {
        GENE_MIN
    } else if g > GENE_MAX {
        GENE_MAX
    } else {
        g as i64
    }
}

/// A gene after a mutation roll: it moves by `delta` when `roll` is zero.
pub open spec fn mutated_gene(g: i64, roll: u64, delta: i64) -> i64 {
    if roll == 0 {
        clamp_gene(g + delta)
    } else {
        g
    }
}

/// `b` is `a` with each gene moved by at most one mutation step.
pub open spec fn near_genome(a: Seq<i64>, b: Seq<i64>) -> bool {
    &&& a.len() == b.len()
    &&& forall|j: int|
        0 <= j < a.len() ==> -MUTATION_STEP <= #[trigger] b[j] - a[j] <= MUTATION_STEP
}

impl View for Creature {
    type V = CreatureModel;

    open spec fn view(&self) -> CreatureModel {
        CreatureModel {
            genes: self.genes@,
            fitness: self.fitness,
            scored: self.scored,
            position: self.position,
        }
    }
}

impl CreatureModel {
    pub open spec fn wf(self) -> bool {
        genome_ok(self.genes)
    }

    /// Fresh from birth: not scored, at the starting position.
    pub open spec fn is_fresh(self) -> bool {
        &&& !self.scored
        &&& self.fitness == 0
        &&& self.position == 0
    }
}

/// One gene after a mutation roll, with the exact result of `mutated_gene`.
pub fn mutate_gene(g: i64, roll: u64, delta: i64) -> (r: i64)
    requires
        gene_ok(g),
        -MUTATION_STEP <= delta <= MUTATION_STEP,
    ensures
        r == mutated_gene(g, roll, delta),
        gene_ok(r),
{
    if roll == 0 {
        let m = g + delta;
        if m < GENE_MIN {
            GENE_MIN
        } else if m > GENE_MAX {
            GENE_MAX
        } else {
            m
        }
    } else {
        g
    }
}

impl Creature {
    pub open spec fn wf(&self) -> bool {
        self@.wf()
    }

    /// A creature with a genome drawn uniformly gene by gene.
    pub fn random(rng: &mut rand::rngs::StdRng) -> (r: Creature)
        ensures
            r@.wf(),
            r@.is_fresh(),
    {
        let mut genes: Vec<i64> = Vec::new();
        let mut j: usize = 0;
        while j < GENOME_LEN
            invariant
                j <= GENOME_LEN,
                genes@.len() == j,
                forall|k: int| 0 <= k < j ==> gene_ok(#[trigger] genes@[k]),
            decreases GENOME_LEN - j,
        {
            let g = draw_between(rng, GENE_MIN, GENE_MAX);
            genes.push(g);
            j = j + 1;
        }
        Creature { genes, fitness: 0, scored: false, position: 0 }
    }

    /// A fresh creature with the given genome.
    pub fn from_genes(genes: Vec<i64>) -> (r: Creature)
        ensures
            r@.genes == genes@,
            r@.is_fresh(),
    {
        Creature { genes, fitness: 0, scored: false, position: 0 }
    }

    /// An exact copy.
    pub fn duplicate(&self) -> (r: Creature)
        ensures
            r@ == self@,
    {
        let genes = self.genes.clone();
        assert(genes@ =~= self.genes@);
        Creature { genes, fitness: self.fitness, scored: self.scored, position: self.position }
    }

    /// A copy of this creature carrying the score `fitness`.
    pub fn with_score(&self, fitness: i64) -> (r: Creature)
        ensures
            r@ == (CreatureModel { fitness, scored: true, ..self@ }),
    {
        let mut c = self.duplicate();
        c.fitness = fitness;
        c.scored = true;
        c
    }

    /// Returns the trial state to the canonical start; nothing else changes.
    pub fn reset_position(&mut self)
        ensures
            final(self)@ == (CreatureModel { position: 0, ..old(self)@ }),
    {
        self.position = 0;
    }

    /// A fresh child whose genes are this creature's genes, each mutated with
    /// probability one in `MUTATION_ODDS` by a step drawn from
    /// `[-MUTATION_STEP, MUTATION_STEP]`.
    pub fn mutated(&self, rng: &mut rand::rngs::StdRng) -> (r: Creature)
        requires
            self.wf(),
        ensures
            r.wf(),
            r@.is_fresh(),
            near_genome(self.genes@, r.genes@),
    {
        let mut genes: Vec<i64> = Vec::new();
        let mut j: usize = 0;
        while j < self.genes.len()
            invariant
                self.wf(),
                j <= self.genes@.len(),
                genes@.len() == j,
                forall|k: int| 0 <= k < j ==> gene_ok(#[trigger] genes@[k]),
                forall|k: int|
                    0 <= k < j ==> -MUTATION_STEP <= #[trigger] genes@[k] - self.genes@[k]
                        <= MUTATION_STEP,
            decreases self.genes@.len() - j,
        {
            let roll = draw_below(rng, MUTATION_ODDS);
            let delta = draw_between(rng, -MUTATION_STEP, MUTATION_STEP);
            let g = mutate_gene(self.genes[j], roll, delta);
            genes.push(g);
            j = j + 1;
        }
        Creature::from_genes(genes)
    }
}

} // verus!
