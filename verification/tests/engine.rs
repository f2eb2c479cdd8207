use std::sync::atomic::{AtomicU64, Ordering};

use tag_game::{Behavior, Engine, IdAllocator, Registry, TagBehavior, TagEngineWorld, TagState, WorldBehavior};

/// A behavior that keeps its state and ignores every hook.
struct NoopBehavior;

impl Behavior for NoopBehavior {
    type State = u64;
    type World = ();

    fn on_creation(&self, _id: u64, _state: &mut u64, _world: &()) {}

    fn on_deletion(&self, _id: u64, _state: &mut u64, _world: &()) {}

    fn on_update(
        &self,
        _id: u64,
        state: &u64,
        _world: &(),
        _population: &Vec<(u64, u64)>,
    ) -> u64 {
        *state
    }
}

#[derive(Default)]
struct CountingBehavior {
    on_creation_count: AtomicU64,
    on_deletion_count: AtomicU64,
}

impl Behavior for &CountingBehavior {
    type State = ();
    type World = ();

    fn on_creation(&self, _id: u64, _state: &mut (), _world: &()) {
        self.on_creation_count.fetch_add(1, Ordering::Relaxed);
    }

    fn on_deletion(&self, _id: u64, _state: &mut (), _world: &()) {
        self.on_deletion_count.fetch_add(1, Ordering::Relaxed);
    }

    fn on_update(&self, _id: u64, _state: &(), _world: &(), _population: &Vec<(u64, ())>) {}
}

#[test]
fn test_engine_three_agents() {
    let mut engine = Engine::new(());
    let id_a = engine.add_agent(NoopBehavior, 10);
    let id_b = engine.add_agent(NoopBehavior, 20);
    let id_c = engine.add_agent(NoopBehavior, 30);

    assert_ne!(id_a, id_b);
    assert_ne!(id_a, id_c);
    assert_ne!(id_b, id_c);

    let entries: Vec<(u64, u64)> = engine.agents().clone();
    assert_eq!(entries, vec![(id_a, 10), (id_b, 20), (id_c, 30)]);
}

#[test]
fn test_engine_counting() {
    let behavior = &CountingBehavior::default();
    let mut engine = Engine::new(());

    let id_a = engine.add_agent(behavior, ());
    let id_b = engine.add_agent(behavior, ());
    assert_eq!(behavior.on_creation_count.load(Ordering::Relaxed), 2);

    assert!(engine.remove_agent(id_a));
    assert_eq!(behavior.on_creation_count.load(Ordering::Relaxed), 2);
    assert_eq!(behavior.on_deletion_count.load(Ordering::Relaxed), 1);

    engine.update();

    assert!(engine.remove_agent(id_b));
    assert_eq!(behavior.on_creation_count.load(Ordering::Relaxed), 2);
    assert_eq!(behavior.on_deletion_count.load(Ordering::Relaxed), 2);
}

#[test]
fn test_engine_remove_twice() {
    let behavior = &CountingBehavior::default();
    let mut engine = Engine::new(());
    let id = engine.add_agent(behavior, ());

    assert!(engine.remove_agent(id));
    assert!(!engine.remove_agent(id));
    // The deletion hook fired once, not twice.
    assert_eq!(behavior.on_deletion_count.load(Ordering::Relaxed), 1);
}

#[test]
fn test_engine_capacity_exhaustion() {
    let mut engine = Engine::with_next_id((), u64::MAX - 1);

    // The last usable id is issued normally ...
    let id = engine.try_add_agent(NoopBehavior, 1).expect("one id left");
    assert_eq!(id, u64::MAX - 1);

    // ... and the insertion after it fails, instead of wrapping to id 0.
    assert!(engine.try_add_agent(NoopBehavior, 2).is_none());
    assert_eq!(engine.len(), 1);
    assert!(!engine.contains(0));
}

#[test]
fn test_engine_get_and_contains() {
    let mut engine = Engine::new(());
    let id = engine.add_agent(NoopBehavior, 42);

    assert!(engine.contains(id));
    assert_eq!(engine.get(id), Some(&42));

    assert!(!engine.contains(id + 1));
    assert_eq!(engine.get(id + 1), None);

    engine.remove_agent(id);
    assert_eq!(engine.get(id), None);
}

/// A behavior that copies the pre-tick state of its neighbour in the
/// population snapshot.
struct NeighbourBehavior;

impl Behavior for NeighbourBehavior {
    type State = u64;
    type World = ();

    fn on_creation(&self, _id: u64, _state: &mut u64, _world: &()) {}

    fn on_deletion(&self, _id: u64, _state: &mut u64, _world: &()) {}

    fn on_update(&self, id: u64, state: &u64, _world: &(), population: &Vec<(u64, u64)>) -> u64 {
        let my_pos = population.iter().position(|(pid, _)| *pid == id);
        match my_pos {
            Some(i) => population[(i + 1) % population.len()].1,
            None => *state,
        }
    }
}

#[test]
fn test_engine_snapshot_isolation() {
    // Both agents take over the other's pre-tick value; in-place updates
    // would leave both with the first agent's new value instead.
    let mut engine = Engine::new(());
    let id_a = engine.add_agent(NeighbourBehavior, 1);
    let id_b = engine.add_agent(NeighbourBehavior, 2);
    engine.update();
    assert_eq!(engine.get(id_a), Some(&2));
    assert_eq!(engine.get(id_b), Some(&1));
}

/// A world that doubles every agent's state in its post-tick hook and counts
/// its own invocations.
struct DoublingWorld {
    ticks: u64,
}

struct StepBehavior;

impl WorldBehavior<u64> for DoublingWorld {
    fn on_update(&mut self, agents: &mut Vec<(u64, u64)>) {
        self.ticks += 1;
        for (_, s) in agents.iter_mut() {
            *s *= 2;
        }
    }
}

impl Behavior for StepBehavior {
    type State = u64;
    type World = DoublingWorld;

    fn on_creation(&self, _id: u64, _state: &mut u64, _world: &DoublingWorld) {}

    fn on_deletion(&self, _id: u64, _state: &mut u64, _world: &DoublingWorld) {}

    fn on_update(
        &self,
        _id: u64,
        state: &u64,
        _world: &DoublingWorld,
        _population: &Vec<(u64, u64)>,
    ) -> u64 {
        state + 1
    }
}

#[test]
fn test_engine_world_after_agents() {
    let mut engine = Engine::new(DoublingWorld { ticks: 0 });
    let id_a = engine.add_agent(StepBehavior, 10);
    let id_b = engine.add_agent(StepBehavior, 20);
    engine.update();
    // The world hook ran once, after both increments: (10 + 1) * 2, (20 + 1) * 2.
    assert_eq!(engine.world().ticks, 1);
    assert_eq!(engine.get(id_a), Some(&22));
    assert_eq!(engine.get(id_b), Some(&42));
}

#[test]
fn test_engine_get_mut() {
    let mut engine = Engine::new(());
    let id = engine.add_agent(NoopBehavior, 5);
    if let Some(state) = engine.get_mut(id) {
        *state = 9;
    }
    assert_eq!(engine.get(id), Some(&9));
    assert!(engine.get_mut(id + 1).is_none());
}

#[test]
fn test_engine_empty_tick() {
    // The world hook runs exactly once per tick, agents or not.
    let mut engine = Engine::<StepBehavior>::new(DoublingWorld { ticks: 0 });
    engine.update();
    engine.update();
    assert_eq!(engine.world().ticks, 2);
    assert_eq!(engine.len(), 0);
}

#[test]
fn test_engine_world_mut() {
    let mut engine = Engine::<StepBehavior>::new(DoublingWorld { ticks: 7 });
    engine.world_mut().ticks = 11;
    assert_eq!(engine.world().ticks, 11);
}

#[test]
fn test_engine_tag_round() {
    let mut engine = Engine::new(TagEngineWorld { current_it: 1 });
    for _ in 0..3 {
        engine.add_agent(TagBehavior, TagState { it: false });
    }
    engine.update();
    // Exactly one agent reports "It": the one whose stable id the world
    // named as the tick began.
    let flagged: Vec<u64> = engine
        .agents()
        .iter()
        .filter(|(_, s)| s.it)
        .map(|(id, _)| *id)
        .collect();
    assert_eq!(flagged, vec![1]);
}

#[test]
fn test_allocator_monotonic() {
    let mut allocator = IdAllocator::new();
    let a = allocator.allocate();
    let b = allocator.allocate();
    let c = allocator.allocate();
    assert_eq!((a, b, c), (0, 1, 2));
}

#[test]
fn test_allocator_exhaustion() {
    let mut allocator = IdAllocator::starting_at(u64::MAX - 1);
    assert_eq!(allocator.try_allocate(), Some(u64::MAX - 1));
    assert!(allocator.is_exhausted());
    assert_eq!(allocator.try_allocate(), None);
    assert_eq!(allocator.try_allocate(), None);
}

#[test]
fn test_registry_basic() {
    let mut registry: Registry<&'static str, u64> = Registry::new();
    registry.insert(3, "three", 30);
    registry.insert(8, "eight", 80);

    assert_eq!(registry.len(), 2);
    assert!(registry.contains(3));
    assert!(!registry.contains(5));
    assert_eq!(registry.get(8), Some(&80));
    assert_eq!(registry.index_of(8), Some(1));

    if let Some(state) = registry.get_mut(3) {
        *state = 33;
    }
    assert_eq!(registry.get(3), Some(&33));

    let removed = registry.remove(3);
    assert_eq!(removed, Some((3, "three", 33)));
    assert_eq!(registry.remove(3), None);
    assert_eq!(registry.len(), 1);
    // The surviving entry kept its id.
    assert_eq!(registry.entries().as_slice(), &[(8u64, 80u64)]);
}
