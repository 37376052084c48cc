use cmp6102::creature::FitnessTrial;
use cmp6102::optimisation::OptimisationMethod;
use cmp6102::population::SimulationError;
use cmp6102::ui_data::{GUIState, InputEvent, MouseButton, UIData};

struct SumTrial;

impl FitnessTrial for SumTrial {
    fn run_trial(&mut self, genes: &Vec<i64>) -> Option<i64> {
        Some(genes.iter().sum())
    }
}

struct NeverTrial;

impl FitnessTrial for NeverTrial {
    fn run_trial(&mut self, _genes: &Vec<i64>) -> Option<i64> {
        None
    }
}

fn ui() -> UIData {
    UIData::new("Evolution".to_string(), 800, 600, 60, 17)
}

#[test]
fn starts_on_the_menu() {
    let u = ui();
    assert_eq!(u.title, "Evolution");
    assert_eq!((u.width, u.height, u.fps), (800, 600, 60));
    assert_eq!(u.gui_state, GUIState::Menu);
    assert_eq!(u.generation_size, 100);
    assert!(u.use_genetic_algorithm && !u.use_hill_climbing && !u.use_simulated_annealing);
    assert!(u.optmethods.is_empty());
    assert!(!u.modal_visible && u.modal_struct.is_none());
}

#[test]
fn modal_uses_default_labels() {
    let mut u = ui();
    u.modal_new("T".to_string(), "M".to_string(), None, Some("No".to_string()));
    assert!(u.modal_visible);
    let m = u.modal_struct.as_ref().unwrap();
    assert_eq!((m.title.as_str(), m.message.as_str()), ("T", "M"));
    assert_eq!(m.button_a_label, "Okay");
    assert_eq!(m.button_b_label, "No");
    u.modal_close();
    assert!(!u.modal_visible && u.modal_struct.is_none());
}

#[test]
fn events_track_buttons_and_size() {
    let mut u = ui();
    u.event(&InputEvent::Press(MouseButton::Left));
    u.event(&InputEvent::Press(MouseButton::Right));
    assert!(u.mouse_left_down && u.mouse_right_down);
    u.event(&InputEvent::Release(MouseButton::Left));
    u.event(&InputEvent::Press(MouseButton::Other));
    assert!(!u.mouse_left_down && u.mouse_right_down);
    u.event(&InputEvent::Resize(1024, 768));
    assert_eq!((u.width, u.height), (1024, 768));
}

#[test]
fn no_strategy_selected_is_refused() {
    let mut u = ui();
    u.use_genetic_algorithm = false;
    assert_eq!(u.init_tests(), Err(SimulationError::InvalidConfiguration));
    assert!(u.modal_visible);
    let m = u.modal_struct.as_ref().unwrap();
    assert_eq!(m.title, "Error");
    assert_eq!(m.message, "Please select at least one optimisation method");
    assert!(u.optmethods.is_empty());
}

#[test]
fn empty_population_is_refused() {
    let mut u = ui();
    u.generation_size = 0;
    assert_eq!(u.init_tests(), Err(SimulationError::InvalidConfiguration));
    assert!(u.optmethods.is_empty());
}

#[test]
fn run_starts_selected_strategies_in_order() {
    let mut u = ui();
    u.generation_size = 12;
    u.use_simulated_annealing = true;
    u.use_hill_climbing = true;
    assert_eq!(u.init_tests(), Ok(()));
    assert_eq!(u.gui_state, GUIState::Generations);
    assert_eq!(u.optmethods.len(), 3);
    assert!(matches!(u.optmethods[0], OptimisationMethod::Genetic(_)));
    assert!(matches!(u.optmethods[1], OptimisationMethod::Hill(_)));
    assert!(matches!(u.optmethods[2], OptimisationMethod::Annealing(_)));
    let g0: Vec<Vec<i64>> = u.optmethods[0].get_data().generations[0].creatures.iter().map(|c| c.genes.clone()).collect();
    for m in &u.optmethods {
        let g: Vec<Vec<i64>> = m.get_data().generations[0].creatures.iter().map(|c| c.genes.clone()).collect();
        assert_eq!(g, g0);
    }
    assert!(u.spectate_creature < 12);
}

#[test]
fn advancing_moves_counters() {
    let mut u = ui();
    u.generation_size = 8;
    u.use_hill_climbing = true;
    u.init_tests().unwrap();
    for n in 1..=4 {
        assert_eq!(u.generation_single(&mut SumTrial), Ok(()));
        assert_eq!(u.total_generations, n);
        assert_eq!(u.spectate_generation, n);
        assert_eq!(u.simulation_frame, 0);
        for m in &u.optmethods {
            assert_eq!(m.get_data().gen, n);
        }
    }
    assert_eq!(u.generation_single(&mut NeverTrial), Err(SimulationError::EvaluationFailure));
    assert_eq!(u.total_generations, 4);
    assert_eq!(u.spectate_generation, 4);
    u.set_creature(1, 5, 3);
    assert_eq!(u.spectate_creature, 5);
    assert_eq!(u.current_fitness, u.optmethods[1].get_data().generations[3].creatures[5].fitness);
    u.reset_optmethods();
    assert!(u.optmethods.is_empty());
    assert_eq!((u.total_generations, u.spectate_generation, u.spectate_creature), (0, 0, 0));
}

#[test]
fn spectate_index_stays_in_range() {
    let mut u = ui();
    u.generation_size = 6;
    u.init_tests().unwrap();
    for _ in 0..5 {
        u.generation_single(&mut SumTrial).unwrap();
    }
    for g in 0..=5 {
        u.spectate_generation = g;
        for _ in 0..50 {
            u.set_creature_random();
            assert!(u.spectate_creature < 6);
            let d = u.optmethods[0].get_data();
            assert_eq!(u.current_fitness, d.generations[g].creatures[u.spectate_creature].fitness);
        }
    }
}

/// Succeeds for a fixed number of trials, then fails.
struct FailAfter {
    left: usize,
}

impl FitnessTrial for FailAfter {
    fn run_trial(&mut self, genes: &Vec<i64>) -> Option<i64> {
        if self.left == 0 {
            None
        } else {
            self.left -= 1;
            Some(genes.iter().sum())
        }
    }
}

#[test]
fn failed_pass_changes_no_strategy() {
    let mut u = ui();
    u.generation_size = 4;
    u.use_hill_climbing = true;
    u.init_tests().unwrap();
    u.generation_single(&mut SumTrial).unwrap();
    let snapshot = |u: &UIData| -> Vec<Vec<Vec<(i64, bool, Vec<i64>)>>> {
        u.optmethods
            .iter()
            .map(|m| {
                m.get_data()
                    .generations
                    .iter()
                    .map(|g| g.creatures.iter().map(|c| (c.fitness, c.scored, c.genes.clone())).collect())
                    .collect()
            })
            .collect()
    };
    let before = snapshot(&u);
    // Enough trials for the genetic algorithm's scoring, not for hill climbing.
    assert_eq!(u.generation_single(&mut FailAfter { left: 6 }), Err(SimulationError::EvaluationFailure));
    assert_eq!(snapshot(&u), before);
    assert_eq!(u.total_generations, 1);
    for m in &u.optmethods {
        assert_eq!(m.get_data().gen, 1);
    }
}

#[test]
fn run_without_strategies_advances_counters() {
    let mut u = ui();
    assert_eq!(u.generation_single(&mut NeverTrial), Ok(()));
    assert_eq!(u.total_generations, 1);
    assert_eq!(u.spectate_generation, 1);
}

#[test]
fn refusal_dialog_has_default_buttons() {
    let mut u = ui();
    u.use_genetic_algorithm = false;
    let _ = u.init_tests();
    let m = u.modal_struct.as_ref().unwrap();
    assert_eq!((m.button_a_label.as_str(), m.button_b_label.as_str()), ("Okay", "Close"));
    assert_eq!(u.gui_state, GUIState::Menu);
}

#[test]
fn started_run_shows_watched_fitness() {
    let mut u = ui();
    u.generation_size = 9;
    u.init_tests().unwrap();
    let d = u.optmethods[u.spectate_method].get_data();
    assert_eq!(u.current_fitness, d.generations[0].creatures[u.spectate_creature].fitness);
}
