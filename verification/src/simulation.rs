use vstd::prelude::*;

use rayon::iter::IndexedParallelIterator;
use rayon::iter::IntoParallelRefIterator;
use rayon::iter::ParallelIterator;

use crate::agent::Agent;
use crate::world::World;

verus! {

/// The population after every agent's update hook ran, before the world's
/// hook: entry `i` keeps its agent, and carries the state that agent `i`'s
/// update hook returns for the pre-tick population `agents` — or its pre-tick
/// state, where the hook returns `None`.
pub open spec fn dispatched<A: Agent>(
    agents: Seq<(A, A::State)>,
    world: A::World,
) -> Seq<(A, A::State)> {
    Seq::new(
        agents.len(),
        |i: int|
            (
                agents[i].0,
                match agents[i].0.update_spec(i, agents[i].1, world, agents) {
                    Some(s) => s,
                    None => agents[i].1,
                },
            ),
    )
}

/// What one whole tick makes of a simulation: every agent's update applied to
/// the pre-tick population, then the world's update applied to the result.
pub open spec fn tick_spec<A: Agent>(v: SimulationView<A>) -> (A::World, Seq<(A, A::State)>) {
    v.world.update_spec(dispatched(v.agents, v.world))
}

/// Snapshot isolation law: the post-update entry of an agent is a function of
/// the pre-tick population and world alone.  Whatever another agent's hook
/// does to its own state during the same tick, and in whatever order the
/// hooks run, entry `i` is computed from pre-tick values only.
pub proof fn lemma_snapshot_isolation<A: Agent>(
    agents: Seq<(A, A::State)>,
    world: A::World,
    i: int,
)
    requires
        0 <= i < agents.len(),
    ensures
        dispatched(agents, world)[i] == (
            agents[i].0,
            match agents[i].0.update_spec(i, agents[i].1, world, agents) {
                Some(s) => s,
                None => agents[i].1,
            },
        ),
{
}

/// World mutation ordering law: a tick hands the world's update hook the
/// dispatched population — the one in which every agent's update for this
/// tick has already been applied — never the pre-tick one.
pub proof fn lemma_world_sees_post_tick<A: Agent>(v: SimulationView<A>)
    ensures
        tick_spec(v) == v.world.update_spec(dispatched(v.agents, v.world)),
{
}

/// Keeps track of all agents, their states and the global state.
///
/// This is the dense, vector-backed strategy: an agent's id is its current
/// position in the population, so ids are compact but unstable across
/// removals.  Use [`Engine`](crate::Engine) where ids must stay stable.
pub struct Simulation<A: Agent> {
    agents: Vec<(A, A::State)>,
    world: A::World,
}

/// The mathematical model of a [`Simulation`]: the population and the world.
pub struct SimulationView<A: Agent> {
    /// The population: one (agent, state) pair per agent, at its id.
    pub agents: Seq<(A, A::State)>,
    /// The shared global state.
    pub world: A::World,
}

impl<A: Agent> View for Simulation<A> {
    type V = SimulationView<A>;

    closed spec fn view(&self) -> SimulationView<A> {
        SimulationView { agents: self.agents@, world: self.world }
    }
}

/// Relies on rayon's `par_iter`, `enumerate`, `map` and `collect`: an indexed
/// parallel map calls the closure once on every element and collects the
/// results in input order; the closure only calls `Agent::on_update`.
#[verifier::external_body]
fn par_updates<A: Agent>(agents: &Vec<(A, A::State)>, world: &A::World) -> (r: Vec<
    Option<A::State>,
>)
    ensures
        r@.len() == agents@.len(),
        forall|i: int|
            0 <= i < agents@.len() ==> r@[i] == agents@[i].0.update_spec(
                i,
                agents@[i].1,
                *world,
                agents@,
            ),
{
    agents.par_iter().enumerate().map(
        |(id, (agent, state)): (usize, &(A, A::State))| agent.on_update(id, state, world, agents),
    ).collect()
}

/// Writes the buffered per-agent update results back into the population:
/// entry `i` receives `updates[i]` where that is `Some`, and stays as it was
/// where it is `None`.
fn apply_updates<A: Agent>(
    agents: &mut Vec<(A, A::State)>,
    updates: Vec<Option<A::State>>,
    Ghost(world): Ghost<A::World>,
)
    requires
        updates@.len() == old(agents)@.len(),
        forall|j: int|
            0 <= j < updates@.len() ==> updates@[j] == old(agents)@[j].0.update_spec(
                j,
                old(agents)@[j].1,
                world,
                old(agents)@,
            ),
    ensures
        final(agents)@ == dispatched(old(agents)@, world),
{
    let ghost pre = agents@;
    let ghost all = updates@;
    let mut updates = updates;
    while updates.len() > 0
        invariant
            all.len() == pre.len(),
            updates@.len() <= all.len(),
            agents@.len() == pre.len(),
            updates@ == all.subrange(0, updates@.len() as int),
            forall|j: int|
                0 <= j < all.len() ==> all[j] == pre[j].0.update_spec(j, pre[j].1, world, pre),
            forall|j: int| 0 <= j < updates@.len() ==> agents@[j] == pre[j],
            forall|j: int|
                updates@.len() <= j < pre.len() ==> agents@[j] == dispatched(pre, world)[j],
        decreases updates@.len(),
    {
        let i = updates.len() - 1;
        let upd = updates.pop().unwrap();
        match upd {
            Some(new_state) => {
                agents[i].1 = new_state;
            },
            None => {},
        }
        assert(agents@[i as int] == dispatched(pre, world)[i as int]);
    }
    proof {
        assert(agents@ =~= dispatched(pre, world));
    }
}

impl<A: Agent> Simulation<A> {
    /// Creates a simulation with the provided world.
    pub fn new(world: A::World) -> (s: Self)
        ensures
            s@.agents == Seq::<(A, A::State)>::empty(),
            s@.world == world,
    {
        Self { world, agents: Vec::new() }
    }

    /// Creates a simulation with the provided world, reserving memory for the
    /// specified number of agents.
    pub fn with_capacity(world: A::World, num_agents: usize) -> (s: Self)
        ensures
            s@.agents == Seq::<(A, A::State)>::empty(),
            s@.world == world,
    {
        Self { world, agents: Vec::with_capacity(num_agents) }
    }

    /// Returns a slice over all agents and their states, in id order.
    pub fn agents(&self) -> (r: &[(A, A::State)])
        ensures
            r@ == self@.agents,
    {
        self.agents.as_slice()
    }

    /// Returns a mutable slice over all agents and their states.
    ///
    /// Only legal between ticks; an agent's id remains its position.
    pub fn agents_mut(&mut self) -> (r: &mut [(A, A::State)])
        ensures
            r@ == old(self)@.agents,
            final(self)@.agents == final(r)@,
            final(self)@.world == old(self)@.world,
    {
        self.agents.as_mut_slice()
    }

    /// Get a shared reference to the global state.
    pub fn world(&self) -> (r: &A::World)
        ensures
            *r == self@.world,
    {
        &self.world
    }

    /// Get a unique reference to the global state.  Only legal between ticks.
    pub fn world_mut(&mut self) -> (r: &mut A::World)
        ensures
            *r == old(self)@.world,
            final(self)@.world == *final(r),
            final(self)@.agents == old(self)@.agents,
    {
        &mut self.world
    }

    /// Add a new agent with an initial state to the simulation.
    ///
    /// The agent's creation hook fires immediately, with the assigned id and a
    /// read-only view of the world.  Returns the new id: the first position
    /// past the old population, hence distinct from every live id.
    pub fn add_agent(&mut self, agent: A, state: A::State) -> (id: usize)
        ensures
            id == old(self)@.agents.len(),
            final(self)@.agents == old(self)@.agents.push(
                (agent, agent.creation_spec(id as int, state, old(self)@.world)),
            ),
            final(self)@.world == old(self)@.world,
    {
        let id = self.agents.len();
        let mut state = state;
        agent.on_creation(id, &mut state, &self.world);
        self.agents.push((agent, state));
        id
    }

    /// Removes the agent at position `id`, returning whether an agent was
    /// there.
    ///
    /// Removal is by swap-compaction: the last agent moves into position `id`.
    /// This keeps removal O(1) but silently reassigns the moved agent's
    /// positional id — ids from before a removal must not be kept.  This is a
    /// constraint of the dense strategy, not a defect; choose
    /// [`Engine`](crate::Engine) whenever stable identifiers are required.
    pub fn remove_agent(&mut self, id: usize) -> (r: bool)
        ensures
            r == (id < old(self)@.agents.len()),
            r ==> final(self)@.agents == old(self)@.agents.update(
                id as int,
                old(self)@.agents.last(),
            ).drop_last(),
            !r ==> final(self)@.agents == old(self)@.agents,
            final(self)@.world == old(self)@.world,
    {
        if id < self.agents.len() {
            let _ = self.agents.swap_remove(id);
            true
        } else {
            false
        }
    }

    /// Advances the simulation by one tick.
    ///
    /// Every agent's update hook runs on the pre-tick population — in
    /// parallel, which is sound because each hook reads only the shared
    /// snapshot and writes only its own buffered result — and afterwards the
    /// world's update hook runs exactly once on the result.
    ///
    /// A tick is never re-entrant: it exclusively borrows the simulation, so
    /// neither the population nor the world can be reached from outside, nor
    /// a second tick started, until it has run to completion.
    pub fn update(&mut self)
        ensures
            (final(self)@.world, final(self)@.agents) == tick_spec(old(self)@),
            final(self)@.agents.len() == old(self)@.agents.len(),
    {
        let ghost w0 = self.world;
        let updates = par_updates(&self.agents, &self.world);
        apply_updates(&mut self.agents, updates, Ghost(w0));
        self.world.update(&mut self.agents);
    }

    /// Advances the simulation by one tick, updating agents one after another
    /// on the current thread.
    ///
    /// The contract is the same as [`Simulation::update`]'s: because every
    /// update hook sees only the pre-tick snapshot, the two schedules produce
    /// identical simulations.
    pub fn update_serial(&mut self)
        ensures
            (final(self)@.world, final(self)@.agents) == tick_spec(old(self)@),
            final(self)@.agents.len() == old(self)@.agents.len(),
    {
        let ghost pre = self.agents@;
        let ghost w0 = self.world;
        let mut updates: Vec<Option<A::State>> = Vec::new();
        let n = self.agents.len();
        let mut i: usize = 0;
        while i < n
            invariant
                i <= n,
                n == pre.len(),
                self.agents@ == pre,
                self.world == w0,
                updates@.len() == i,
                forall|j: int|
                    0 <= j < i ==> updates@[j] == pre[j].0.update_spec(j, pre[j].1, w0, pre),
            decreases n - i,
        {
            let pair = &self.agents[i];
            let r = pair.0.on_update(i, &pair.1, &self.world, self.agents.as_slice());
            updates.push(r);
            i += 1;
        }
        apply_updates(&mut self.agents, updates, Ghost(w0));
        self.world.update(&mut self.agents);
    }
}

} // verus!
