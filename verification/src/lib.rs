//! A tick-based agent simulation engine, with the game "Tag" as its built-in
//! example.
//!
//! The heart of this crate are its two simulation containers.  A
//! [`Simulation`] owns a dense population of [`Agent`]s — an agent's id is its
//! current position — together with one shared global state, its [`World`].
//! An [`Engine`] owns a sparse population of [`Behavior`]-driven agents under
//! stable 64-bit ids, allocated by an [`IdAllocator`] and stored in a
//! [`Registry`], together with a [`WorldBehavior`] world.
//!
//! Both advance by discrete ticks under the same visibility contract: every
//! agent's update hook sees its own pre-tick state, the world, and an
//! immutable snapshot of the whole pre-tick population; new states are
//! buffered and written back only after every hook ran; then the world's
//! update hook runs exactly once, over the fully updated population.  The
//! contracts of [`Simulation::update`] and [`Engine::update`] state this
//! tick-as-a-function precisely, which is what makes per-agent updates safe to
//! run in any order — or, in [`Simulation::update`], in parallel.

mod agent;
mod allocator;
mod behavior;
mod engine;
mod registry;
mod simulation;
mod tag;
mod world;

pub use agent::Agent;
pub use allocator::IdAllocator;
pub use behavior::Behavior;
pub use engine::dispatched_entries;
pub use engine::Engine;
pub use engine::engine_tick_spec;
pub use engine::EngineView;
pub use engine::has_created;
pub use engine::has_deleted;
pub use engine::lemma_created_before_use;
pub use engine::lemma_created_once;
pub use engine::lemma_engine_ids_unique;
pub use engine::lemma_engine_snapshot_isolation;
pub use engine::lemma_engine_world_sees_post_tick;
pub use engine::lemma_exhaustion_boundary;
pub use engine::lemma_next_id_fresh;
pub use engine::lemma_nothing_after_deletion;
pub use engine::lifecycle_ok;
pub use engine::LifecycleEvent;
pub use engine::updated_events;
pub use registry::entries_contain;
pub use registry::entry_index;
pub use registry::entry_state;
pub use registry::lemma_entry_index_unique;
pub use registry::lemma_ids_unique;
pub use registry::Registry;
pub use registry::RegistryView;
pub use registry::strictly_increasing_ids;
pub use simulation::dispatched;
pub use simulation::lemma_snapshot_isolation;
pub use simulation::lemma_world_sees_post_tick;
pub use simulation::Simulation;
pub use simulation::SimulationView;
pub use simulation::tick_spec;
pub use tag::lemma_engine_exactly_one_it;
pub use tag::lemma_exactly_one_it;
pub use tag::lemma_it_matches_tick_start;
pub use tag::TagAgent;
pub use tag::TagBehavior;
pub use tag::TagEngineWorld;
pub use tag::TagState;
pub use tag::TagWorld;
pub use world::World;
pub use world::WorldBehavior;
