use cmp6102::creature::{mutate_gene, Creature, FitnessTrial, GENE_MAX, GENE_MIN, GENOME_LEN, MUTATION_STEP};
use cmp6102::genetic_algorithm::{crossover, tournament_pick, GeneticAlgorithm};
use cmp6102::hill_climbing::{hill_accept, HillClimbing};
use cmp6102::optimisation::OptimisationMethod;
use cmp6102::population::{Population, SimulationError};
use cmp6102::random::draw_between;
use cmp6102::simulated_annealing::{accept_chance, anneal_accept, cool, SimulatedAnnealing, CHANCE_SCALE, TEMP_FLOOR, TEMP_START};
use rand::rngs::StdRng;
use rand::SeedableRng;

struct SumTrial;

impl FitnessTrial for SumTrial {
    fn run_trial(&mut self, genes: &Vec<i64>) -> Option<i64> {
        Some(genes.iter().sum())
    }
}

/// Succeeds for a fixed number of trials, then fails.
struct FailAfter {
    left: usize,
}

impl FitnessTrial for FailAfter {
    fn run_trial(&mut self, genes: &Vec<i64>) -> Option<i64> {
        if self.left == 0 {
            None
        } else {
            self.left -= 1;
            Some(genes.iter().sum())
        }
    }
}

fn fitness_table(p: &Population) -> Vec<Vec<(i64, bool)>> {
    p.generations
        .iter()
        .map(|g| g.creatures.iter().map(|c| (c.fitness, c.scored)).collect())
        .collect()
}

fn genome_table(p: &Population) -> Vec<Vec<Vec<i64>>> {
    p.generations.iter().map(|g| g.creatures.iter().map(|c| c.genes.clone()).collect()).collect()
}

fn build(kind: usize, size: usize, seed: u64) -> (OptimisationMethod, StdRng) {
    let mut rng = StdRng::seed_from_u64(seed);
    let pop = Population::new(size, &mut rng).unwrap();
    let m = match kind {
        0 => OptimisationMethod::Genetic(GeneticAlgorithm::new(pop)),
        1 => OptimisationMethod::Hill(HillClimbing::new(pop)),
        _ => OptimisationMethod::Annealing(SimulatedAnnealing::new(pop)),
    };
    (m, rng)
}

#[test]
fn zero_population_rejected() {
    let mut rng = StdRng::seed_from_u64(3);
    assert_eq!(Population::new(0, &mut rng).err(), Some(SimulationError::InvalidConfiguration));
}

#[test]
fn new_population_is_generation_zero() {
    let mut rng = StdRng::seed_from_u64(3);
    let p = Population::new(7, &mut rng).unwrap();
    assert_eq!(p.gen, 0);
    assert_eq!(p.size, 7);
    assert_eq!(p.generations.len(), 1);
    assert_eq!(p.generations[0].creatures.len(), 7);
    for c in &p.generations[0].creatures {
        assert!(!c.scored);
        assert_eq!(c.genes.len(), GENOME_LEN);
        assert!(c.genes.iter().all(|g| GENE_MIN <= *g && *g <= GENE_MAX));
    }
}

#[test]
fn size_and_history_grow_by_one_per_advance() {
    for kind in 0..3 {
        let (mut m, mut rng) = build(kind, 5, 11);
        for n in 1..=10 {
            assert!(m.generation_single(&mut rng, &mut SumTrial).is_ok());
            let d = m.get_data();
            assert_eq!(d.gen, n);
            assert_eq!(d.generations.len(), n + 1);
            assert_eq!(d.generations[n].creatures.len(), 5);
            assert_eq!(d.generations[n - 1].creatures.len(), 5);
        }
    }
}

#[test]
fn same_seed_gives_same_run() {
    for kind in 0..3 {
        let (mut a, mut ra) = build(kind, 20, 42);
        let (mut b, mut rb) = build(kind, 20, 42);
        for _ in 0..15 {
            a.generation_single(&mut ra, &mut SumTrial).unwrap();
            b.generation_single(&mut rb, &mut SumTrial).unwrap();
        }
        assert_eq!(fitness_table(a.get_data()), fitness_table(b.get_data()));
        assert_eq!(genome_table(a.get_data()), genome_table(b.get_data()));
    }
}

#[test]
fn hill_climbing_lineages_never_lose_fitness() {
    let (mut m, mut rng) = build(1, 30, 5);
    for _ in 0..40 {
        m.generation_single(&mut rng, &mut SumTrial).unwrap();
    }
    let d = m.get_data();
    for k in 0..d.gen {
        for i in 0..d.size {
            let a = &d.generations[k].creatures[i];
            let b = &d.generations[k + 1].creatures[i];
            assert!(a.scored && b.scored);
            assert!(b.fitness >= a.fitness);
        }
    }
    let first: i64 = d.generations[0].creatures.iter().map(|c| c.fitness).sum();
    let last: i64 = d.generations[d.gen - 1].creatures.iter().map(|c| c.fitness).sum();
    assert!(last > first);
}

#[test]
fn failed_trial_leaves_history_unchanged() {
    for kind in 0..3 {
        let (mut m, mut rng) = build(kind, 6, 9);
        m.generation_single(&mut rng, &mut SumTrial).unwrap();
        let before = fitness_table(m.get_data());
        let genes_before = genome_table(m.get_data());
        let gen_before = m.get_data().gen;
        for left in [0usize, 3, 5] {
            let r = m.generation_single(&mut rng, &mut FailAfter { left });
            assert_eq!(r, Err(SimulationError::EvaluationFailure));
            assert_eq!(m.get_data().gen, gen_before);
            assert_eq!(fitness_table(m.get_data()), before);
            assert_eq!(genome_table(m.get_data()), genes_before);
        }
    }
}

#[test]
fn annealing_temperature_cools_to_floor() {
    assert_eq!(cool(1000), 950);
    assert_eq!(cool(950), 902);
    assert_eq!(cool(1), TEMP_FLOOR);
    assert_eq!(cool(10), 9);
    let (mut m, mut rng) = build(2, 3, 1);
    let mut expected = TEMP_START;
    let mut seen = vec![TEMP_START];
    for _ in 0..200 {
        m.generation_single(&mut rng, &mut SumTrial).unwrap();
        expected = cool(expected);
        seen.push(expected);
    }
    if let OptimisationMethod::Annealing(sa) = &m {
        assert_eq!(sa.temperature, expected);
    } else {
        panic!("not annealing");
    }
    assert_eq!(&seen[..6], &[1000, 950, 902, 856, 813, 772]);
    for w in seen.windows(2) {
        assert!(w[1] <= w[0]);
        assert!(w[1] >= TEMP_FLOOR);
        if w[0] > TEMP_FLOOR {
            assert!(w[1] < w[0]);
        }
    }
    assert_eq!(*seen.last().unwrap(), TEMP_FLOOR);
}

#[test]
fn acceptance_chance_values() {
    assert_eq!(accept_chance(0, 5), CHANCE_SCALE);
    assert_eq!(accept_chance(1, 1), 23917);
    assert_eq!(accept_chance(10, 10), 23917);
    assert_eq!(accept_chance(500, 1000), 39656);
    assert_eq!(accept_chance(15, 1), 0);
    assert_eq!(accept_chance(16, 1), 0);
    assert_eq!(accept_chance(3, 0), 0);
}

#[test]
fn annealing_accepts_gains_always_and_losses_by_chance() {
    assert!(anneal_accept(10, 10, 5, CHANCE_SCALE - 1));
    assert!(anneal_accept(10, 20, 1, CHANCE_SCALE - 1));
    assert!(anneal_accept(10, 9, 1, 23916));
    assert!(!anneal_accept(10, 9, 1, 23917));
    assert!(!anneal_accept(100, 0, 1, 0));
    assert!(!anneal_accept(i64::MAX, i64::MIN, 1000, 0));
}

#[test]
fn tournament_prefers_higher_score() {
    let scores = vec![5, 9, 9, -3];
    assert_eq!(tournament_pick(&scores, 0, 1, 0), 1);
    assert_eq!(tournament_pick(&scores, 1, 0, 1), 1);
    assert_eq!(tournament_pick(&scores, 1, 2, 0), 1);
    assert_eq!(tournament_pick(&scores, 1, 2, 1), 2);
    assert_eq!(tournament_pick(&scores, 3, 3, 0), 3);
}

#[test]
fn crossover_cuts_once() {
    let a = vec![1, 2, 3, 4];
    let b = vec![10, 20, 30, 40];
    assert_eq!(crossover(&a, &b, 0), vec![10, 20, 30, 40]);
    assert_eq!(crossover(&a, &b, 2), vec![1, 2, 30, 40]);
    assert_eq!(crossover(&a, &b, 4), vec![1, 2, 3, 4]);
}

#[test]
fn mutation_moves_and_clamps() {
    assert_eq!(mutate_gene(5, 1, 30), 5);
    assert_eq!(mutate_gene(5, 0, 30), 35);
    assert_eq!(mutate_gene(5, 0, -50), -45);
    assert_eq!(mutate_gene(GENE_MAX - 10, 0, MUTATION_STEP), GENE_MAX);
    assert_eq!(mutate_gene(GENE_MIN + 10, 0, -MUTATION_STEP), GENE_MIN);
}

#[test]
fn mutated_children_stay_near_their_parent() {
    let mut rng = StdRng::seed_from_u64(21);
    let parent = Creature::random(&mut rng);
    let mut changed = false;
    for _ in 0..50 {
        let child = parent.mutated(&mut rng);
        assert!(!child.scored);
        assert_eq!(child.position, 0);
        for j in 0..GENOME_LEN {
            assert!((child.genes[j] - parent.genes[j]).abs() <= MUTATION_STEP);
            assert!(GENE_MIN <= child.genes[j] && child.genes[j] <= GENE_MAX);
        }
        changed |= child.genes != parent.genes;
    }
    assert!(changed);
}

#[test]
fn draws_cover_their_range() {
    let mut rng = StdRng::seed_from_u64(8);
    assert_eq!(draw_between(&mut rng, 4, 4), 4);
    let mut seen = [false; 10];
    for _ in 0..500 {
        let v = draw_between(&mut rng, -5, 4);
        assert!((-5..=4).contains(&v));
        seen[(v + 5) as usize] = true;
    }
    assert!(seen.iter().all(|s| *s));
}

#[test]
fn genetic_children_are_fresh() {
    let (mut m, mut rng) = build(0, 10, 2);
    m.generation_single(&mut rng, &mut SumTrial).unwrap();
    let d = m.get_data();
    assert!(d.generations[0].creatures.iter().all(|c| c.scored));
    assert!(d.generations[1].creatures.iter().all(|c| !c.scored && c.position == 0));
}

#[test]
fn single_creature_population_advances() {
    for kind in 0..3 {
        let (mut m, mut rng) = build(kind, 1, 4);
        for _ in 0..5 {
            m.generation_single(&mut rng, &mut SumTrial).unwrap();
        }
        assert_eq!(m.get_data().gen, 5);
        assert_eq!(m.get_data().generations[5].creatures.len(), 1);
    }
}

#[test]
fn reset_position_touches_only_that_creature() {
    let (mut m, mut rng) = build(1, 4, 6);
    m.generation_single(&mut rng, &mut SumTrial).unwrap();
    let before = fitness_table(m.get_data());
    m.reset_position(1, 2);
    assert_eq!(m.get_data().generations[1].creatures[2].position, 0);
    assert_eq!(fitness_table(m.get_data()), before);
    let copy = m.get_data().duplicate();
    assert_eq!(fitness_table(&copy), before);
    assert_eq!(genome_table(&copy), genome_table(m.get_data()));
}

#[test]
fn history_can_be_changed_from_outside() {
    let (mut m, mut rng) = build(2, 3, 13);
    m.generation_single(&mut rng, &mut SumTrial).unwrap();
    m.get_data_mut().generations[1].creatures[0].position = 42;
    assert_eq!(m.get_data().generations[1].creatures[0].position, 42);
    m.reset_position(1, 0);
    assert_eq!(m.get_data().generations[1].creatures[0].position, 0);
    let mut c = m.get_data().generations[1].creatures[0].duplicate();
    c.position = 7;
    c.reset_position();
    assert_eq!(c.position, 0);
    assert_eq!(c.genes, m.get_data().generations[1].creatures[0].genes);
}

#[test]
fn hill_accepts_only_strict_gains() {
    assert!(hill_accept(10, 11));
    assert!(!hill_accept(10, 10));
    assert!(!hill_accept(10, 9));
}

#[test]
fn genetic_step_with_all_scored_runs_no_trial() {
    let (mut m, mut rng) = build(0, 5, 31);
    for c in m.get_data_mut().generations[0].creatures.iter_mut() {
        c.fitness = c.genes.iter().sum();
        c.scored = true;
    }
    assert_eq!(m.generation_single(&mut rng, &mut FailAfter { left: 0 }), Ok(()));
    assert_eq!(m.get_data().gen, 1);
    assert_eq!(m.get_data().generations[1].creatures.len(), 5);
}

#[test]
fn prepared_step_changes_nothing_until_applied() {
    let mut rng = StdRng::seed_from_u64(12);
    let pop = Population::new(4, &mut rng).unwrap();
    let mut hc = HillClimbing::new(pop);
    let before = fitness_table(&hc.data);
    let (s, next) = hc.prepare_next(&mut rng, &mut SumTrial).unwrap();
    assert_eq!(fitness_table(&hc.data), before);
    assert_eq!(hc.data.gen, 0);
    hc.apply_next(s.clone(), next);
    assert_eq!(hc.data.gen, 1);
    let scored: Vec<i64> = hc.data.generations[0].creatures.iter().map(|c| c.fitness).collect();
    assert_eq!(scored, s);
}
