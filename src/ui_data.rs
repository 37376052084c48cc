//! The state behind the interface: which strategies run, how far the run has
//! gone, which creature is being watched, and the dialog on screen.
use vstd::prelude::*;
use crate::creature::{Creature, CreatureModel, FitnessTrial};
use crate::genetic_algorithm::GeneticAlgorithm;
use crate::hill_climbing::HillClimbing;
use crate::optimisation::{OptimisationMethod, advanced_by_rule, kind_of, ruled_step};
use crate::population::{Population, SimulationError, models};
use crate::random::{draw_below, seeded};
use crate::simulated_annealing::SimulatedAnnealing;

verus! {

/// Which page the interface shows.
#[derive(Debug, Clone, Copy, PartialEq, Eq, Structural)]
pub enum GUIState {
    Menu,
    Generations,
}

/// A mouse button, as far as the interface tells them apart.
#[derive(Debug, Clone, Copy, PartialEq, Eq, Structural)]
pub enum MouseButton {
    Left,
    Right,
    Other,
}

/// An input event that changes the interface state.
#[derive(Debug, Clone, Copy, PartialEq, Eq, Structural)]
pub enum InputEvent {
    Press(MouseButton),
    Release(MouseButton),
    Resize(u32, u32),
    Other,
}

/// A dialog with a title, a message and two buttons.
pub struct Modal {
    pub title: String,
    pub message: String,
    pub button_a_label: String,
    pub button_b_label: String,
}

pub struct UIData {
    pub mouse_left_down: bool,
    pub mouse_right_down: bool,
    pub width: u32,
    pub height: u32,
    pub fps: u64,
    pub title: String,
    pub gui_state: GUIState,
    pub rng: rand::rngs::StdRng,
    pub generation_size: usize,
    pub use_genetic_algorithm: bool,
    pub use_simulated_annealing: bool,
    pub use_hill_climbing: bool,
    pub total_generations: usize,
    pub spectate_method: usize,
    pub spectate_generation: usize,
    pub spectate_creature: usize,
    pub draw_simulation: bool,
    pub simulation_frame: u32,
    pub current_fitness: i64,
    pub optmethods: Vec<OptimisationMethod>,
    pub modal_visible: bool,
    pub modal_struct: Option<Modal>,
}

/// The strategies a run starts, in order, for the given selection.
pub open spec fn selected_kinds(ga: bool, hc: bool, sa: bool) -> Seq<nat> {
    (if ga { seq![0nat] } else { Seq::empty() }) + (if hc { seq![1nat] } else { Seq::empty() }) + (if sa {
        seq![2nat]
    } else {
        Seq::empty()
    })
}

/// `a` and `b` hold the same run: strategies, random source, counters,
/// selection and what is being watched.
pub open spec fn same_run(a: UIData, b: UIData) -> bool {
    &&& b.optmethods == a.optmethods
    &&& b.rng == a.rng
    &&& b.generation_size == a.generation_size
    &&& b.use_genetic_algorithm == a.use_genetic_algorithm
    &&& b.use_simulated_annealing == a.use_simulated_annealing
    &&& b.use_hill_climbing == a.use_hill_climbing
    &&& b.total_generations == a.total_generations
    &&& b.spectate_method == a.spectate_method
    &&& b.spectate_generation == a.spectate_generation
    &&& b.spectate_creature == a.spectate_creature
    &&& b.draw_simulation == a.draw_simulation
    &&& b.simulation_frame == a.simulation_frame
    &&& b.current_fitness == a.current_fitness
    &&& b.gui_state == a.gui_state
}

/// Strategies that share one history keep sharing it, and keep their
/// kinds, when the same creature is put back at its start in each.
proof fn lemma_reset_keeps_alike(before: Seq<OptimisationMethod>, after: Seq<OptimisationMethod>, h0: Seq<Seq<CreatureModel>>, g: int, i: int)
    requires
        before.len() == after.len(),
        before.len() > 0,
        forall|k: int| 0 <= k < before.len() ==> reset_in(before[k], #[trigger] after[k], g, i),
        forall|k: int| 0 <= k < before.len() ==> (#[trigger] before[k]).data().history() == h0 && before[k].data().gen == 0,
    ensures
        forall|k: int| 0 <= k < after.len() ==> {
            &&& (#[trigger] after[k]).data().gen == 0
            &&& after[k].data().history() == after[0].data().history()
        },
        after.map_values(|m: OptimisationMethod| kind_of(m)) == before.map_values(|m: OptimisationMethod| kind_of(m)),
{
    assert forall|k: int| 0 <= k < after.len() implies {
        &&& (#[trigger] after[k]).data().gen == 0
        &&& after[k].data().history() == after[0].data().history()
    } by {
        assert(reset_in(before[k], after[k], g, i));
        assert(reset_in(before[0], after[0], g, i));
    }
    assert forall|k: int| 0 <= k < after.len() implies kind_of(#[trigger] after[k]) == kind_of(before[k]) by {
        assert(reset_in(before[k], after[k], g, i));
    }
    assert(after.map_values(|m: OptimisationMethod| kind_of(m)) =~= before.map_values(|m: OptimisationMethod| kind_of(m)));
}

/// `b` is the strategy `a` with creature `i` of generation `g` back at its
/// starting position.
pub open spec fn reset_in(a: OptimisationMethod, b: OptimisationMethod, g: int, i: int) -> bool {
    &&& b.wf()
    &&& kind_of(b) == kind_of(a)
    &&& b.data().gen == a.data().gen
    &&& b.data().size == a.data().size
    &&& b.data().history() == a.data().history().update(
        g,
        a.data().history()[g].update(i, CreatureModel { position: 0, ..a.data().history()[g][i] }),
    )
}

impl UIData {
    /// Every strategy is well formed, as strong as `generation_size` and at
    /// least `total_generations` along; what is watched lies in the history.
    pub open spec fn wf(&self) -> bool {
        &&& forall|k: int| 0 <= k < self.optmethods@.len() ==> {
            &&& (#[trigger] self.optmethods@[k]).wf()
            &&& self.optmethods@[k].data().size == self.generation_size
            &&& self.total_generations <= self.optmethods@[k].data().gen
        }
        &&& self.spectate_generation <= self.total_generations
        &&& self.optmethods@.len() > 0 ==> {
            &&& self.spectate_creature < self.generation_size
            &&& self.spectate_method < self.optmethods@.len()
        }
    }

    /// The interface at start-up: the menu, a population size of 100, the
    /// genetic algorithm selected, no run, and a generator seeded by `seed`.
    pub fn new(title: String, win_w: u32, win_h: u32, frames: u64, seed: u64) -> (r: UIData)
        ensures
            r.wf(),
            r.title@ == title@,
            r.width == win_w && r.height == win_h && r.fps == frames,
            !r.mouse_left_down && !r.mouse_right_down,
            r.gui_state == GUIState::Menu,
            r.generation_size == 100,
            r.use_genetic_algorithm && !r.use_simulated_annealing && !r.use_hill_climbing,
            r.total_generations == 0,
            r.spectate_method == 0 && r.spectate_generation == 0 && r.spectate_creature == 0,
            !r.draw_simulation && r.simulation_frame == 0 && r.current_fitness == 0,
            r.optmethods@.len() == 0,
            !r.modal_visible && r.modal_struct is None,
    {
        UIData {
            mouse_left_down: false,
            mouse_right_down: false,
            width: win_w,
            height: win_h,
            fps: frames,
            title,
            gui_state: GUIState::Menu,
            rng: seeded(seed),
            generation_size: 100,
            use_genetic_algorithm: true,
            use_simulated_annealing: false,
            use_hill_climbing: false,
            total_generations: 0,
            spectate_method: 0,
            spectate_generation: 0,
            spectate_creature: 0,
            draw_simulation: false,
            simulation_frame: 0,
            current_fitness: 0,
            optmethods: Vec::new(),
            modal_visible: false,
            modal_struct: None,
        }
    }

    /// Shows a dialog; a button without a label is called "Okay" (the first)
    /// or "Close" (the second).
    pub fn modal_new(&mut self, title: String, message: String, btn_a_label: Option<String>, btn_b_label: Option<String>)
        ensures
            *final(self) == (UIData { modal_visible: true, modal_struct: final(self).modal_struct, ..*old(self) }),
            final(self).modal_struct is Some,
            final(self).modal_struct->Some_0.title@ == title@,
            final(self).modal_struct->Some_0.message@ == message@,
            final(self).modal_struct->Some_0.button_a_label@ == match btn_a_label {
                Some(l) => l@,
                None => "Okay"@,
            },
            final(self).modal_struct->Some_0.button_b_label@ == match btn_b_label {
                Some(l) => l@,
                None => "Close"@,
            },
    {
        let button_a_label = match btn_a_label {
            Some(l) => l,
            None => "Okay".to_owned(),
        };
        let button_b_label = match btn_b_label {
            Some(l) => l,
            None => "Close".to_owned(),
        };
        self.modal_struct = Some(Modal { title, message, button_a_label, button_b_label });
        self.modal_visible = true;
    }

    /// Hides the dialog.
    pub fn modal_close(&mut self)
        ensures
            *final(self) == (UIData { modal_visible: false, modal_struct: None, ..*old(self) }),
    {
        self.modal_visible = false;
        self.modal_struct = None;
    }

    /// Tracks the mouse buttons and the window size.
    pub fn event(&mut self, event: &InputEvent)
        ensures
            *final(self) == (UIData {
                mouse_left_down: match *event {
                    InputEvent::Press(MouseButton::Left) => true,
                    InputEvent::Release(MouseButton::Left) => false,
                    _ => old(self).mouse_left_down,
                },
                mouse_right_down: match *event {
                    InputEvent::Press(MouseButton::Right) => true,
                    InputEvent::Release(MouseButton::Right) => false,
                    _ => old(self).mouse_right_down,
                },
                width: match *event {
                    InputEvent::Resize(x, _) => x,
                    _ => old(self).width,
                },
                height: match *event {
                    InputEvent::Resize(_, y) => y,
                    _ => old(self).height,
                },
                ..*old(self)
            }),
    {
        match *event {
            InputEvent::Press(MouseButton::Left) => self.mouse_left_down = true,
            InputEvent::Press(MouseButton::Right) => self.mouse_right_down = true,
            InputEvent::Release(MouseButton::Left) => self.mouse_left_down = false,
            InputEvent::Release(MouseButton::Right) => self.mouse_right_down = false,
            InputEvent::Resize(x, y) => {
                self.width = x;
                self.height = y;
            },
            _ => {},
        }
    }

    /// Ends the run: no strategies, counters and the watched creature back
    /// to the start.
    pub fn reset_optmethods(&mut self)
        ensures
            final(self).wf(),
            final(self).optmethods@.len() == 0,
            *final(self) == (UIData {
                optmethods: final(self).optmethods,
                total_generations: 0,
                spectate_generation: 0,
                spectate_creature: 0,
                draw_simulation: false,
                simulation_frame: 0,
                ..*old(self)
            }),
    {
        self.optmethods.clear();
        self.total_generations = 0;
        self.spectate_generation = 0;
        self.spectate_creature = 0;
        self.draw_simulation = false;
        self.simulation_frame = 0;
    }
    /// Puts the watched creature of every strategy back at its starting
    /// position and rewinds the replay.
    pub fn reset_simulation(&mut self)
        requires
            old(self).wf(),
        ensures
            final(self).wf(),
            *final(self) == (UIData { optmethods: final(self).optmethods, simulation_frame: 0, ..*old(self) }),
            final(self).optmethods@.len() == old(self).optmethods@.len(),
            forall|k: int| 0 <= k < old(self).optmethods@.len() ==> reset_in(
                old(self).optmethods@[k],
                #[trigger] final(self).optmethods@[k],
                old(self).spectate_generation as int,
                old(self).spectate_creature as int,
            ),
    {
        let mut methods: Vec<OptimisationMethod> = Vec::new();
        std::mem::swap(&mut methods, &mut self.optmethods);
        let ghost olds = methods@;
        let n = methods.len();
        let sg = self.spectate_generation;
        let sc = self.spectate_creature;
        let mut done: Vec<OptimisationMethod> = Vec::new();
        let mut k: usize = 0;
        while k < n
            invariant
                n == olds.len(),
                k <= n,
                methods@ == olds.subrange(k as int, n as int),
                done@.len() == k,
                sg == old(self).spectate_generation,
                sc == old(self).spectate_creature,
                old(self).optmethods@ == olds,
                old(self).wf(),
                forall|j: int| 0 <= j < k ==> reset_in(olds[j], #[trigger] done@[j], sg as int, sc as int),
            decreases n - k,
        {
            let mut m = methods.remove(0);
            assert(m == olds[k as int]);
            m.reset_position(sg, sc);
            done.push(m);
            k = k + 1;
        }
        self.optmethods = done;
        self.simulation_frame = 0;
    }

    /// Watches creature `index` of generation `generation` of strategy
    /// `method`, showing its fitness.
    pub fn set_creature(&mut self, method: usize, index: usize, generation: usize)
        requires
            old(self).wf(),
            method < old(self).optmethods@.len(),
            generation <= old(self).optmethods@[method as int].data().gen,
            index < old(self).generation_size,
        ensures
            final(self).wf(),
            *final(self) == (UIData {
                optmethods: final(self).optmethods,
                simulation_frame: 0,
                spectate_creature: index,
                current_fitness: final(self).current_fitness,
                ..*old(self)
            }),
            final(self).current_fitness == old(self).optmethods@[method as int].data().history()[generation as int][index as int].fitness,
            final(self).optmethods@.len() == old(self).optmethods@.len(),
            forall|k: int| 0 <= k < old(self).optmethods@.len() ==> reset_in(
                old(self).optmethods@[k],
                #[trigger] final(self).optmethods@[k],
                old(self).spectate_generation as int,
                old(self).spectate_creature as int,
            ),
    {
        self.reset_simulation();
        let data = self.optmethods[method].get_data();
        proof {
            let m = self.optmethods@[method as int];
            assert(reset_in(old(self).optmethods@[method as int], m, old(self).spectate_generation as int, old(self).spectate_creature as int));
            assert(m.wf());
            assert(crate::population::generation_ok(data.history()[generation as int], data.size as nat));
            assert(data.history()[generation as int] == data.generations@[generation as int]@);
            assert(data.generations@[generation as int]@[index as int] == data.generations@[generation as int].creatures@[index as int]@);
        }
        self.spectate_creature = index;
        self.current_fitness = data.generations[generation].creatures[index].fitness;
    }

    /// Watches a creature drawn uniformly from the current generation of the
    /// watched strategy.
    pub fn set_creature_random(&mut self)
        requires
            old(self).wf(),
            old(self).optmethods@.len() > 0,
        ensures
            final(self).wf(),
            *final(self) == (UIData {
                optmethods: final(self).optmethods,
                rng: final(self).rng,
                simulation_frame: 0,
                spectate_creature: final(self).spectate_creature,
                current_fitness: final(self).current_fitness,
                ..*old(self)
            }),
            final(self).spectate_creature < final(self).generation_size,
            final(self).current_fitness == old(self).optmethods@[old(self).spectate_method as int].data().history()[old(self).spectate_generation as int][final(self).spectate_creature as int].fitness,
            final(self).optmethods@.len() == old(self).optmethods@.len(),
            forall|k: int| 0 <= k < old(self).optmethods@.len() ==> reset_in(
                old(self).optmethods@[k],
                #[trigger] final(self).optmethods@[k],
                old(self).spectate_generation as int,
                old(self).spectate_creature as int,
            ),
    {
        let index = draw_below(&mut self.rng, self.generation_size as u64) as usize;
        let gen = self.spectate_generation;
        let mtd = self.spectate_method;
        self.set_creature(mtd, index, gen);
    }
    /// A counter of the run, or the generation count of a strategy, can go
    /// no further.
    pub open spec fn at_limit(&self) -> bool {
        ||| self.total_generations == usize::MAX
        ||| exists|k: int| 0 <= k < self.optmethods@.len() && (#[trigger] self.optmethods@[k]).data().gen == usize::MAX
    }

    /// Advances every strategy by one generation by its own rule and moves
    /// the watched generation along. Every strategy is first prepared, then
    /// all are committed: when a trial fails no strategy changes and the
    /// counters stay where they were; only the random source has moved.
    pub fn generation_single<T: FitnessTrial>(&mut self, trial: &mut T) -> (r: Result<(), SimulationError>)
        requires
            old(self).wf(),
        ensures
            final(self).wf(),
            old(self).at_limit() ==> r == Err::<(), SimulationError>(SimulationError::InvariantViolation) && *final(self) == *old(self),
            !old(self).at_limit() ==> r is Ok || r == Err::<(), SimulationError>(SimulationError::EvaluationFailure),
            !old(self).at_limit() && (forall|k: int| 0 <= k < old(self).optmethods@.len() ==> (#[trigger] old(self).optmethods@[k]).no_trial_needed())
                ==> r is Ok,
            r is Err ==> *final(self) == (UIData { rng: final(self).rng, ..*old(self) }),
            r is Ok ==> {
                &&& *final(self) == (UIData {
                    rng: final(self).rng,
                    optmethods: final(self).optmethods,
                    total_generations: (old(self).total_generations + 1) as usize,
                    spectate_generation: (old(self).spectate_generation + 1) as usize,
                    simulation_frame: 0,
                    ..*old(self)
                })
                &&& final(self).optmethods@.len() == old(self).optmethods@.len()
                &&& forall|k: int| 0 <= k < old(self).optmethods@.len() ==>
                    advanced_by_rule(old(self).optmethods@[k], #[trigger] final(self).optmethods@[k])
            },
    {
        if self.total_generations == usize::MAX {
            return Err(SimulationError::InvariantViolation);
        }
        let mut k: usize = 0;
        while k < self.optmethods.len()
            invariant
                *self == *old(self),
                self.wf(),
                self.total_generations < usize::MAX,
                k <= self.optmethods@.len(),
                forall|j: int| 0 <= j < k ==> (#[trigger] self.optmethods@[j]).data().gen < usize::MAX,
            decreases self.optmethods@.len() - k,
        {
            if self.optmethods[k].get_data().gen == usize::MAX {
                return Err(SimulationError::InvariantViolation);
            }
            k = k + 1;
        }
        let ghost olds = self.optmethods@;
        let n = self.optmethods.len();
        assert(!old(self).at_limit());
        let mut steps: Vec<(Vec<i64>, Vec<Creature>)> = Vec::new();
        let mut k: usize = 0;
        while k < n
            invariant
                *self == (UIData { rng: self.rng, ..*old(self) }),
                old(self).wf(),
                olds == old(self).optmethods@,
                n == olds.len(),
                k <= n,
                steps@.len() == k,
                forall|j: int| 0 <= j < k ==> (#[trigger] olds[j]).step_ok(steps@[j].0@, models(steps@[j].1@)),
                !old(self).at_limit(),
            decreases n - k,
        {
            assert(olds[k as int].wf());
            let r = self.optmethods[k].prepare_next(&mut self.rng, trial);
            match r {
                Err(e) => return Err(e),
                Ok(step) => steps.push(step),
            }
            k = k + 1;
        }
        let mut methods: Vec<OptimisationMethod> = Vec::new();
        std::mem::swap(&mut methods, &mut self.optmethods);
        let ghost all_steps = steps@;
        let mut done: Vec<OptimisationMethod> = Vec::new();
        let mut k: usize = 0;
        while k < n
            invariant
                n == olds.len(),
                k <= n,
                methods@ == olds.subrange(k as int, n as int),
                steps@ == all_steps.subrange(k as int, n as int),
                all_steps.len() == n,
                done@.len() == k,
                olds == old(self).optmethods@,
                old(self).wf(),
                self.total_generations < usize::MAX,
                forall|j: int| 0 <= j < n ==> (#[trigger] olds[j]).data().gen < usize::MAX,
                forall|j: int| 0 <= j < n ==> (#[trigger] olds[j]).step_ok(all_steps[j].0@, models(all_steps[j].1@)),
                forall|j: int| 0 <= j < k ==> ruled_step(olds[j], #[trigger] done@[j], all_steps[j].0@, models(all_steps[j].1@)),
            decreases n - k,
        {
            let mut m = methods.remove(0);
            let (s, nx) = steps.remove(0);
            assert(m == olds[k as int]);
            assert(olds[k as int].wf());
            m.apply_next(s, nx);
            done.push(m);
            k = k + 1;
        }
        self.optmethods = done;
        proof {
            assert forall|j: int| 0 <= j < n implies {
                &&& (#[trigger] self.optmethods@[j]).wf()
                &&& self.optmethods@[j].data().size == self.generation_size
                &&& self.total_generations + 1 <= self.optmethods@[j].data().gen
                &&& advanced_by_rule(olds[j], self.optmethods@[j])
            } by {
                assert(olds[j].wf() && olds[j].data().size == self.generation_size);
                assert(ruled_step(olds[j], self.optmethods@[j], all_steps[j].0@, models(all_steps[j].1@)));
            }
        }
        self.spectate_generation = self.spectate_generation + 1;
        self.total_generations = self.total_generations + 1;
        self.simulation_frame = 0;
        Ok(())
    }

    /// Starts a run: one population of `generation_size` creatures, and a
    /// copy of it for each selected strategy, in the order genetic
    /// algorithm, hill climbing, simulated annealing. Any earlier run is
    /// discarded. With no strategy selected a dialog says so and nothing
    /// starts; a population of no creatures is refused as well.
    pub fn init_tests(&mut self) -> (r: Result<(), SimulationError>)
        requires
            old(self).wf(),
        ensures
            final(self).wf(),
            r is Ok <==> (old(self).use_genetic_algorithm || old(self).use_hill_climbing || old(self).use_simulated_annealing)
                && old(self).generation_size > 0,
            r is Err ==> r->Err_0 == SimulationError::InvalidConfiguration,
            !(old(self).use_genetic_algorithm || old(self).use_hill_climbing || old(self).use_simulated_annealing) ==> {
                &&& *final(self) == (UIData { modal_visible: true, modal_struct: final(self).modal_struct, ..*old(self) })
                &&& final(self).modal_struct is Some
                &&& final(self).modal_struct->Some_0.title@ == "Error"@
                &&& final(self).modal_struct->Some_0.message@ == "Please select at least one optimisation method"@
                &&& final(self).modal_struct->Some_0.button_a_label@ == "Okay"@
                &&& final(self).modal_struct->Some_0.button_b_label@ == "Close"@
            },
            (old(self).use_genetic_algorithm || old(self).use_hill_climbing || old(self).use_simulated_annealing)
                && old(self).generation_size == 0 ==> *final(self) == *old(self),
            r is Ok ==> {
                &&& *final(self) == (UIData {
                    optmethods: final(self).optmethods,
                    rng: final(self).rng,
                    gui_state: GUIState::Generations,
                    total_generations: 0,
                    spectate_method: final(self).spectate_method,
                    spectate_generation: 0,
                    spectate_creature: final(self).spectate_creature,
                    current_fitness: final(self).current_fitness,
                    draw_simulation: false,
                    simulation_frame: 0,
                    ..*old(self)
                })
                &&& final(self).optmethods@.map_values(|m: OptimisationMethod| kind_of(m)) == selected_kinds(
                    old(self).use_genetic_algorithm,
                    old(self).use_hill_climbing,
                    old(self).use_simulated_annealing,
                )
                &&& forall|k: int| 0 <= k < final(self).optmethods@.len() ==> {
                    &&& (#[trigger] final(self).optmethods@[k]).data().gen == 0
                    &&& final(self).optmethods@[k].data().history() == final(self).optmethods@[0].data().history()
                }
                &&& final(self).spectate_method == (if old(self).spectate_method < final(self).optmethods@.len() {
                    old(self).spectate_method
                } else {
                    0
                })
                &&& final(self).spectate_creature < final(self).generation_size
                &&& final(self).current_fitness == final(self).optmethods@[final(self).spectate_method as int].data().history()[0][final(self).spectate_creature as int].fitness
            },
    {
        if !self.use_genetic_algorithm && !self.use_hill_climbing && !self.use_simulated_annealing {
            self.modal_new("Error".to_owned(), "Please select at least one optimisation method".to_owned(), None, None);
            return Err(SimulationError::InvalidConfiguration);
        }
        let population = match Population::new(self.generation_size, &mut self.rng) {
            Ok(p) => p,
            Err(e) => return Err(e),
        };
        self.reset_optmethods();
        let ghost h0 = population.history();
        if self.use_genetic_algorithm {
            let p = population.duplicate();
            self.optmethods.push(OptimisationMethod::Genetic(GeneticAlgorithm::new(p)));
        }
        if self.use_hill_climbing {
            let p = population.duplicate();
            self.optmethods.push(OptimisationMethod::Hill(HillClimbing::new(p)));
        }
        if self.use_simulated_annealing {
            let p = population.duplicate();
            self.optmethods.push(OptimisationMethod::Annealing(SimulatedAnnealing::new(p)));
        }
        assert(self.optmethods@.map_values(|m: OptimisationMethod| kind_of(m)) =~= selected_kinds(
            self.use_genetic_algorithm,
            self.use_hill_climbing,
            self.use_simulated_annealing,
        ));
        if self.spectate_method >= self.optmethods.len() {
            self.spectate_method = 0;
        }
        self.gui_state = GUIState::Generations;
        let ghost before = self.optmethods@;
        let ghost sg = self.spectate_generation as int;
        let ghost sc = self.spectate_creature as int;
        assert(forall|k: int| 0 <= k < before.len() ==> (#[trigger] before[k]).data().history() == h0 && before[k].data().gen == 0);
        self.set_creature_random();
        self.draw_simulation = false;
        proof {
            lemma_reset_keeps_alike(before, self.optmethods@, h0, sg, sc);
            let sm = self.spectate_method as int;
            let c = self.spectate_creature as int;
            assert(reset_in(before[sm], self.optmethods@[sm], sg, sc));
            assert(self.optmethods@[sm].data().history()[0][c].fitness == before[sm].data().history()[0][c].fitness);
        }
        Ok(())
    }
}

} // verus!
