use vstd::prelude::*;

use crate::world::WorldBehavior;

verus! {

/// The behavior of an agent kept in the map-backed [`Engine`](crate::Engine).
///
/// Unlike [`Agent`](crate::Agent), whose ids are positions, a `Behavior`-driven
/// agent has a stable 64-bit id for its whole lifetime, and a full lifecycle:
/// creation, zero or more updates, deletion.  Every state-changing hook is
/// described by a specification function, so that the engine's contracts can
/// say exactly which states a tick produces.
pub trait Behavior: Sized {
    /// The state associated with the agent.
    type State;

    /// The state of the world, provided by the engine.
    type World: WorldBehavior<Self::State>;

    /// The mathematical description of the creation hook's effect on the
    /// initial state.  The default keeps the state as passed.
    open spec fn creation_spec(&self, id: u64, state: Self::State, world: Self::World) -> Self::State {
        state
    }

    /// Called when an agent is created, with its freshly assigned id, the
    /// initial state (which the hook may adjust) and a read-only world.
    fn on_creation(&self, id: u64, state: &mut Self::State, world: &Self::World)
        ensures
            *final(state) == self.creation_spec(id, *old(state), *world),
    ;

    /// The mathematical description of the deletion hook's effect on the
    /// agent's last state.  The default keeps the state as it is.
    open spec fn deletion_spec(&self, id: u64, state: Self::State, world: Self::World) -> Self::State {
        state
    }

    /// Called when an agent is removed from the engine, before its slot is
    /// given up, with its id, its last state and a read-only world.
    fn on_deletion(&self, id: u64, state: &mut Self::State, world: &Self::World)
        ensures
            *final(state) == self.deletion_spec(id, *old(state), *world),
    ;

    /// The mathematical description of the update hook's result.  The default
    /// keeps the state as it is.
    open spec fn update_spec(
        &self,
        id: u64,
        state: Self::State,
        world: Self::World,
        population: Seq<(u64, Self::State)>,
    ) -> Self::State {
        state
    }

    /// Called once per tick for every live agent.
    ///
    /// The hook sees its own pre-tick state, the world, and a snapshot of the
    /// whole population taken at the start of the tick, as (id, state) pairs in
    /// ascending id order; the snapshot contains this agent's own pre-tick
    /// entry.  It returns the agent's state for the next tick.
    fn on_update(
        &self,
        id: u64,
        state: &Self::State,
        world: &Self::World,
        population: &Vec<(u64, Self::State)>,
    ) -> (r: Self::State)
        ensures
            r == self.update_spec(id, *state, *world, population@),
    ;
}

} // verus!
