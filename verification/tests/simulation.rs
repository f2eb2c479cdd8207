use std::sync::atomic::{AtomicU64, Ordering};

use tag_game::{Agent, Simulation, TagAgent, TagState, TagWorld, World};

#[derive(Debug, PartialEq, Eq)]
struct SimpleWorld(&'static str);

struct SimpleAgent;

impl World<SimpleAgent, usize> for SimpleWorld {
    fn update(&mut self, _agents: &mut Vec<(SimpleAgent, usize)>) {}
}

impl Agent for SimpleAgent {
    type State = usize;
    type World = SimpleWorld;

    fn on_creation(&self, _id: usize, _state: &mut usize, _world: &SimpleWorld) {}

    fn on_update(
        &self,
        _id: usize,
        _state: &usize,
        _world: &SimpleWorld,
        _population: &[(Self, usize)],
    ) -> Option<usize> {
        None
    }
}

#[derive(Default)]
struct CountingAgent {
    on_creation_count: AtomicU64,
    on_update_count: AtomicU64,
}

impl Agent for &CountingAgent {
    type State = ();
    type World = ();

    fn on_creation(&self, _id: usize, _state: &mut (), _world: &()) {
        self.on_creation_count.fetch_add(1, Ordering::Relaxed);
    }

    fn on_update(
        &self,
        _id: usize,
        _state: &(),
        _world: &(),
        _population: &[(Self, ())],
    ) -> Option<()> {
        self.on_update_count.fetch_add(1, Ordering::SeqCst);
        None
    }
}

#[test]
fn test_world() {
    let mut simulation = Simulation::<SimpleAgent>::new(SimpleWorld("world"));

    assert_eq!(*simulation.world(), SimpleWorld("world"));

    simulation.world_mut().0 = "hello";
    assert_eq!(*simulation.world(), SimpleWorld("hello"));
}

#[test]
fn test_iteration() {
    let mut simulation = Simulation::new(SimpleWorld("world"));

    let agent_ids = (0..4)
        .map(|i| simulation.add_agent(SimpleAgent, i))
        .collect::<Vec<_>>();

    assert_eq!(simulation.agents().len(), 4);

    for id in &agent_ids {
        assert!(simulation.agents().iter().any(|(_, i)| i == id));
    }
    simulation
        .agents_mut()
        .iter_mut()
        .for_each(|(_, s)| *s *= *s);
    for state in 0..4 {
        assert!(simulation.agents().iter().any(|(_, s)| *s == state * state));
    }
}

#[test]
fn test_update() {
    let agent = &CountingAgent::default();
    let mut simulation = Simulation::new(());
    simulation.add_agent(agent, ());

    assert_eq!(agent.on_update_count.load(Ordering::SeqCst), 0);
    simulation.update();
    assert_eq!(agent.on_update_count.load(Ordering::SeqCst), 1);
}

#[test]
fn test_callback() {
    let agent = &CountingAgent::default();

    assert_eq!(agent.on_creation_count.load(Ordering::Relaxed), 0);

    let mut simulation = Simulation::new(());

    let agent_id_1 = simulation.add_agent(agent, ());
    let agent_id_2 = simulation.add_agent(agent, ());
    assert_ne!(agent_id_1, agent_id_2);

    assert_eq!(agent.on_creation_count.load(Ordering::Relaxed), 2);
}

/// An agent that copies the pre-tick state of the *other* agent in a
/// two-agent population; exposes whether the snapshot is isolated from
/// in-flight updates.
struct ObserverAgent;

impl Agent for ObserverAgent {
    type State = u64;
    type World = ();

    fn on_creation(&self, _id: usize, _state: &mut u64, _world: &()) {}

    fn on_update(
        &self,
        id: usize,
        _state: &u64,
        _world: &(),
        population: &[(Self, u64)],
    ) -> Option<u64> {
        let other = (id + 1) % population.len();
        Some(population[other].1)
    }
}

#[test]
fn test_snapshot_isolation() {
    // Each agent takes over the other's pre-tick value.  Were updates applied
    // in place, the second agent would read the first one's fresh value and
    // both would end up with it.
    let mut simulation = Simulation::new(());
    simulation.add_agent(ObserverAgent, 1);
    simulation.add_agent(ObserverAgent, 2);
    simulation.update();
    let states: Vec<u64> = simulation.agents().iter().map(|(_, s)| *s).collect();
    assert_eq!(states, vec![2, 1]);
}

#[test]
fn test_serial_matches_parallel() {
    // One worker or many: the tick contract pins the same result.
    let mut parallel = Simulation::new(());
    let mut serial = Simulation::new(());
    for s in [3u64, 1, 4, 1, 5, 9, 2, 6] {
        parallel.add_agent(ObserverAgent, s);
        serial.add_agent(ObserverAgent, s);
    }
    parallel.update();
    serial.update_serial();
    let par_states: Vec<u64> = parallel.agents().iter().map(|(_, s)| *s).collect();
    let ser_states: Vec<u64> = serial.agents().iter().map(|(_, s)| *s).collect();
    assert_eq!(par_states, ser_states);
    // Each agent took over its right-hand neighbour's pre-tick value.
    assert_eq!(par_states, vec![1, 4, 1, 5, 9, 2, 6, 3]);
}

/// A world that records the sum of all agent states at the end of each tick,
/// and an agent that increments its own state every tick.
struct SumWorld {
    sum: u64,
}

struct IncrementAgent;

impl World<IncrementAgent, u64> for SumWorld {
    fn update(&mut self, agents: &mut Vec<(IncrementAgent, u64)>) {
        self.sum = agents.iter().map(|(_, s)| *s).sum();
    }
}

impl Agent for IncrementAgent {
    type State = u64;
    type World = SumWorld;

    fn on_creation(&self, _id: usize, _state: &mut u64, _world: &SumWorld) {}

    fn on_update(
        &self,
        _id: usize,
        state: &u64,
        _world: &SumWorld,
        _population: &[(Self, u64)],
    ) -> Option<u64> {
        Some(state + 1)
    }
}

#[test]
fn test_world_sees_post_tick_states() {
    let mut simulation = Simulation::new(SumWorld { sum: 0 });
    simulation.add_agent(IncrementAgent, 10);
    simulation.add_agent(IncrementAgent, 20);
    simulation.update();
    // The world hook ran after both increments: 11 + 21, not 10 + 20.
    assert_eq!(simulation.world().sum, 32);
}

#[test]
fn test_tag_round() {
    let mut simulation = Simulation::new(TagWorld { current_it: 1 });
    for _ in 0..3 {
        simulation.add_agent(TagAgent, TagState { it: false });
    }
    simulation.update();
    // Exactly one agent reports "It": the one the world named as the tick
    // began, not the world hook's later pick.
    let flagged: Vec<usize> = simulation
        .agents()
        .iter()
        .enumerate()
        .filter(|(_, (_, s))| s.it)
        .map(|(i, _)| i)
        .collect();
    assert_eq!(flagged, vec![1]);
    // The world hook then passed "It" on to the next agent.
    assert_eq!(simulation.world().current_it, 2);
}

#[test]
fn test_remove_agent_swap() {
    let mut simulation = Simulation::new(SimpleWorld("world"));
    for i in 0..3 {
        simulation.add_agent(SimpleAgent, i);
    }
    // Swap-compaction: the last agent (state 2) moves into position 0.
    assert!(simulation.remove_agent(0));
    let states: Vec<usize> = simulation.agents().iter().map(|(_, s)| *s).collect();
    assert_eq!(states, vec![2, 1]);
    // Removing a position that holds no agent is not an error.
    assert!(!simulation.remove_agent(5));
    assert_eq!(simulation.agents().len(), 2);
}

#[test]
fn test_with_capacity() {
    let mut simulation = Simulation::with_capacity(SimpleWorld("world"), 16);
    assert_eq!(simulation.agents().len(), 0);
    simulation.add_agent(SimpleAgent, 7);
    assert_eq!(simulation.agents().len(), 1);
}
