use vstd::prelude::*;

use crate::world::World;

verus! {

/// An agent defines how to act in a [`Simulation`](crate::Simulation).
///
/// The simulation associates every agent with a per-agent state of type
/// [`Agent::State`]; that state is the only data an agent may change during a
/// tick.  The [`Agent::World`] is the global state shared, read-only, between
/// all agents of a simulation.
///
/// Every executable hook is described by a specification function, so that the
/// simulation's own contracts can say exactly which states a tick produces.
/// The identifiers handed to the hooks are positional: an agent's id is its
/// current index in the population.
pub trait Agent: Sized + Send + Sync {
    /// The local state associated with the agent.
    type State: Send + Sync;

    /// The global state, provided by the simulation.
    type World: World<Self, Self::State> + Sync;

    /// The mathematical description of the creation hook's effect on the
    /// initial state.  The default keeps the state as passed.
    open spec fn creation_spec(&self, id: int, state: Self::State, world: Self::World) -> Self::State {
        state
    }

    /// Called when the agent is added to the simulation.
    ///
    /// `id` is the unique id assigned by the simulation, and `state` the same
    /// state that was passed to the insertion call, which the hook may adjust.
    fn on_creation(&self, id: usize, state: &mut Self::State, world: &Self::World)
        ensures
            *final(state) == self.creation_spec(id as int, *old(state), *world),
    ;

    /// The mathematical description of the update hook's result.  The default
    /// declines to replace the state.
    open spec fn update_spec(
        &self,
        id: int,
        state: Self::State,
        world: Self::World,
        population: Seq<(Self, Self::State)>,
    ) -> Option<Self::State> {
        None
    }

    /// Called once per tick for every agent, in unspecified order and possibly
    /// in parallel.
    ///
    /// The hook sees its own pre-tick state, the world, and a snapshot of the
    /// whole population taken at the start of the tick (`population[id]` is
    /// this agent's own pre-tick entry).  It returns the replacement state, or
    /// `None` to keep the current one.
    fn on_update(
        &self,
        id: usize,
        state: &Self::State,
        world: &Self::World,
        population: &[(Self, Self::State)],
    ) -> (r: Option<Self::State>)
        ensures
            r == self.update_spec(id as int, *state, *world, population@),
    ;
}

} // verus!
