use vstd::prelude::*;

use crate::agent::Agent;
use crate::behavior::Behavior;
use crate::engine::dispatched_entries;
use crate::simulation::dispatched;
use crate::simulation::tick_spec;
use crate::simulation::SimulationView;
use crate::world::World;
use crate::world::WorldBehavior;

verus! {

/// The per-agent state of a game of tag: whether the agent is "It".
#[derive(Clone, Copy, PartialEq, Eq, Structural, Debug)]
pub struct TagState {
    /// Whether this agent currently reports being "It".
    pub it: bool,
}

/// The global state of a game of tag.
#[derive(Clone, Copy, PartialEq, Eq, Structural, Debug)]
pub struct TagWorld {
    /// The id of the agent that is "It" for the coming tick.
    pub current_it: usize,
}

/// A tag player: on every tick it flags itself as "It" exactly when its own
/// id equals the world's `current_it` — the value from the start of the tick,
/// by snapshot isolation, never the one the world hook picks afterwards.
#[derive(Clone, Copy, PartialEq, Eq, Structural, Debug)]
pub struct TagAgent;

impl Agent for TagAgent {
    type State = TagState;

    type World = TagWorld;

    fn on_creation(&self, id: usize, state: &mut TagState, world: &TagWorld) {
    }

    open spec fn update_spec(
        &self,
        id: int,
        state: TagState,
        world: TagWorld,
        population: Seq<(TagAgent, TagState)>,
    ) -> Option<TagState> {
        Some(TagState { it: id == world.current_it })
    }

    fn on_update(
        &self,
        id: usize,
        state: &TagState,
        world: &TagWorld,
        population: &[(TagAgent, TagState)],
    ) -> (r: Option<TagState>) {
        Some(TagState { it: id == world.current_it })
    }
}

impl World<TagAgent, TagState> for TagWorld {
    open spec fn update_spec(&self, agents: Seq<(TagAgent, TagState)>) -> (
        TagWorld,
        Seq<(TagAgent, TagState)>,
    ) {
        (
            TagWorld {
                current_it: if agents.len() > 0 && self.current_it < agents.len() - 1 {
                    (self.current_it + 1) as usize
                } else {
                    0
                },
            },
            agents,
        )
    }

    fn update(&mut self, agents: &mut Vec<(TagAgent, TagState)>) {
        let n = agents.len();
        if n > 0 && self.current_it < n - 1 {
            self.current_it = self.current_it + 1;
        } else {
            self.current_it = 0;
        }
    }
}

/// The global state of a game of tag played on the stable-id
/// [`Engine`](crate::Engine): `current_it` names an engine id.
#[derive(Clone, Copy, PartialEq, Eq, Structural, Debug)]
pub struct TagEngineWorld {
    /// The id of the agent that is "It" for the coming tick.
    pub current_it: u64,
}

/// A tag player kept in the stable-id engine; like [`TagAgent`], it flags
/// itself as "It" exactly when its own id equals the world's `current_it` at
/// the start of the tick.
#[derive(Clone, Copy, PartialEq, Eq, Structural, Debug)]
pub struct TagBehavior;

impl WorldBehavior<TagState> for TagEngineWorld {
    fn on_update(&mut self, agents: &mut Vec<(u64, TagState)>) {
    }
}

impl Behavior for TagBehavior {
    type State = TagState;

    type World = TagEngineWorld;

    fn on_creation(&self, id: u64, state: &mut TagState, world: &TagEngineWorld) {
    }

    fn on_deletion(&self, id: u64, state: &mut TagState, world: &TagEngineWorld) {
    }

    open spec fn update_spec(
        &self,
        id: u64,
        state: TagState,
        world: TagEngineWorld,
        population: Seq<(u64, TagState)>,
    ) -> TagState {
        TagState { it: id == world.current_it }
    }

    fn on_update(
        &self,
        id: u64,
        state: &TagState,
        world: &TagEngineWorld,
        population: &Vec<(u64, TagState)>,
    ) -> (r: TagState) {
        TagState { it: id == world.current_it }
    }
}

/// Tag law (one "It" per tick, engine flavor): after the agent updates of a
/// tick, an agent reports "It" exactly when its stable id is the
/// `current_it` the world named as the tick began.
pub proof fn lemma_engine_exactly_one_it(
    entries: Seq<(u64, TagState)>,
    behaviors: Seq<TagBehavior>,
    world: TagEngineWorld,
    i: int,
)
    requires
        0 <= i < entries.len(),
        behaviors.len() == entries.len(),
    ensures
        dispatched_entries(entries, behaviors, world)[i].1.it <==> entries[i].0
            == world.current_it,
{
}

/// Tag law (one "It" per tick): after the agent updates of a tick, an agent
/// reports "It" exactly when its id is the `current_it` the world named as
/// the tick began — so with `current_it` in range, exactly one agent of the
/// population is flagged.
pub proof fn lemma_exactly_one_it(
    agents: Seq<(TagAgent, TagState)>,
    world: TagWorld,
    i: int,
)
    requires
        0 <= i < agents.len(),
    ensures
        dispatched(agents, world)[i].1.it <==> i == world.current_it,
{
}

/// Tag law (flags outlive the world hook): the flags a whole tick leaves
/// behind still answer to the `current_it` from the start of the tick, not to
/// the new "It" the world hook picks afterwards.
pub proof fn lemma_it_matches_tick_start(
    agents: Seq<(TagAgent, TagState)>,
    world: TagWorld,
    i: int,
)
    requires
        0 <= i < agents.len(),
    ensures
        tick_spec((SimulationView { agents, world })).1[i].1.it <==> i == world.current_it,
{
}

} // verus!
