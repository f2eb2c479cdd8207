use vstd::prelude::*;

verus! {

/// The world holds the global state of a [`Simulation`](crate::Simulation).
///
/// It is updated once per tick, after every agent was updated, and is the only
/// party that may mutate the states of all agents at once.  `A` is the agent
/// type and `S` its per-agent state type.
pub trait World<A, S>: Sized {
    /// The mathematical description of one world update: the new world and the
    /// new population, as a function of the post-tick population.  The default
    /// leaves both unchanged.
    open spec fn update_spec(&self, agents: Seq<(A, S)>) -> (Self, Seq<(A, S)>) {
        (*self, agents)
    }

    /// The update hook, called exactly once per tick after all agents were
    /// updated.  It receives exclusive access to every (agent, state) pair; it
    /// may replace states freely but cannot change the population's size.
    fn update(&mut self, agents: &mut Vec<(A, S)>)
        ensures
            (*final(self), final(agents)@) == old(self).update_spec(old(agents)@),
            final(agents)@.len() == old(agents)@.len(),
    ;
}

impl<A, S> World<A, S> for () {
    open spec fn update_spec(&self, agents: Seq<(A, S)>) -> ((), Seq<(A, S)>) {
        ((), agents)
    }

    fn update(&mut self, agents: &mut Vec<(A, S)>) {
    }
}

/// The world contract of the map-backed [`Engine`](crate::Engine): the global
/// state shared by all [`Behavior`](crate::Behavior)-driven agents.
///
/// `S` is the per-agent state type.  The engine's population is handed to the
/// hook as (id, state) pairs; the hook may replace states but must leave every
/// id where it is, since the engine's ids are stable for an agent's lifetime.
pub trait WorldBehavior<S>: Sized {
    /// The mathematical description of one world update.  The default leaves
    /// the world and every agent unchanged.
    open spec fn update_spec(&self, agents: Seq<(u64, S)>) -> (Self, Seq<(u64, S)>) {
        (*self, agents)
    }

    /// The update hook, called exactly once per tick after all agents were
    /// updated, with exclusive access to the whole (id, state) population.
    fn on_update(&mut self, agents: &mut Vec<(u64, S)>)
        ensures
            (*final(self), final(agents)@) == old(self).update_spec(old(agents)@),
            final(agents)@.len() == old(agents)@.len(),
            forall|i: int|
                0 <= i < old(agents)@.len() ==> final(agents)@[i].0 == old(agents)@[i].0,
    ;
}

impl<S> WorldBehavior<S> for () {
    open spec fn update_spec(&self, agents: Seq<(u64, S)>) -> ((), Seq<(u64, S)>) {
        ((), agents)
    }

    fn on_update(&mut self, agents: &mut Vec<(u64, S)>) {
    }
}

} // verus!
