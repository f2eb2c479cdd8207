use vstd::prelude::*;

use crate::allocator::IdAllocator;
use crate::behavior::Behavior;
use crate::registry::entries_contain;
use crate::registry::entry_index;
use crate::registry::entry_state;
use crate::registry::lemma_entry_index_unique;
use crate::registry::lemma_ids_unique;
use crate::registry::strictly_increasing_ids;
use crate::registry::Registry;
use crate::world::WorldBehavior;

verus! {

/// One hook invocation in the life of an agent, as recorded in the engine's
/// ghost trace.
pub enum LifecycleEvent {
    /// The creation hook fired for the id.
    Created(u64),
    /// The update hook fired for the id.
    Updated(u64),
    /// The deletion hook fired for the id.
    Deleted(u64),
}

impl LifecycleEvent {
    /// The id the event concerns.
    pub open spec fn id(&self) -> u64 {
        match *self {
            LifecycleEvent::Created(id) => id,
            LifecycleEvent::Updated(id) => id,
            LifecycleEvent::Deleted(id) => id,
        }
    }

    /// Whether this is a creation event.
    pub open spec fn is_created(&self) -> bool {
        self is Created
    }

    /// Whether this is an update event.
    pub open spec fn is_updated(&self) -> bool {
        self is Updated
    }

    /// Whether this is a deletion event.
    pub open spec fn is_deleted(&self) -> bool {
        self is Deleted
    }
}

/// Whether the trace holds a creation event for the id.
pub open spec fn has_created(events: Seq<LifecycleEvent>, id: u64) -> bool {
    exists|k: int| 0 <= k < events.len() && #[trigger] events[k] == LifecycleEvent::Created(id)
}

/// Whether the trace holds a deletion event for the id.
pub open spec fn has_deleted(events: Seq<LifecycleEvent>, id: u64) -> bool {
    exists|k: int| 0 <= k < events.len() && #[trigger] events[k] == LifecycleEvent::Deleted(id)
}

/// Lifecycle ordering: a well-formed trace creates an id at most once, fires
/// updates and deletions only after the creation, and fires nothing at all
/// for an id once it was deleted — deletion is final and ids are not reused.
pub open spec fn lifecycle_ok(events: Seq<LifecycleEvent>) -> bool {
    &&& (forall|k1: int, k2: int|
        0 <= k1 < k2 < events.len() && #[trigger] events[k1].is_created()
            && #[trigger] events[k2].is_created() ==> events[k1].id() != events[k2].id())
    &&& (forall|k: int|
        0 <= k < events.len() && !(#[trigger] events[k].is_created()) ==> exists|k0: int|
            0 <= k0 < k && #[trigger] events[k0] == LifecycleEvent::Created(events[k].id()))
    &&& (forall|k1: int, k2: int|
        0 <= k1 < k2 < events.len() && #[trigger] events[k1].is_deleted() ==> (
        #[trigger] events[k2]).id() != events[k1].id())
}

/// Lifecycle ordering law (creation): in a well-formed trace, an id's
/// creation event is unique — on_creation fires exactly once per agent.
pub proof fn lemma_created_once(events: Seq<LifecycleEvent>, k1: int, k2: int)
    requires
        lifecycle_ok(events),
        0 <= k1 < k2 < events.len(),
        events[k1].is_created(),
        events[k2].is_created(),
    ensures
        events[k1].id() != events[k2].id(),
{
}

/// Lifecycle ordering law (use after creation): in a well-formed trace, every
/// update or deletion of an id comes strictly after the id's creation event.
pub proof fn lemma_created_before_use(events: Seq<LifecycleEvent>, k: int)
    requires
        lifecycle_ok(events),
        0 <= k < events.len(),
        !events[k].is_created(),
    ensures
        exists|k0: int| 0 <= k0 < k && #[trigger] events[k0] == LifecycleEvent::Created(
            events[k].id(),
        ),
{
}

/// Lifecycle ordering law (deletion is final): in a well-formed trace nothing
/// follows an id's deletion event — no second deletion, no late update, and
/// no re-creation of the id.
pub proof fn lemma_nothing_after_deletion(events: Seq<LifecycleEvent>, k1: int, k2: int)
    requires
        lifecycle_ok(events),
        0 <= k1 < k2 < events.len(),
        events[k1].is_deleted(),
    ensures
        events[k2].id() != events[k1].id(),
{
}

/// Appending an event leaves every other id's creation record unchanged.
proof fn lemma_has_created_push(events: Seq<LifecycleEvent>, ev: LifecycleEvent, id: u64)
    ensures
        has_created(events.push(ev), id) == (has_created(events, id) || ev
            == LifecycleEvent::Created(id)),
{
    let s = events.push(ev);
    if has_created(events, id) {
        let k = choose|k: int|
            0 <= k < events.len() && #[trigger] events[k] == LifecycleEvent::Created(id);
        assert(s[k] == LifecycleEvent::Created(id));
    }
    if ev == LifecycleEvent::Created(id) {
        assert(s[events.len() as int] == LifecycleEvent::Created(id));
    }
    if has_created(s, id) && !(ev == LifecycleEvent::Created(id)) {
        let k = choose|k: int| 0 <= k < s.len() && #[trigger] s[k] == LifecycleEvent::Created(id);
        assert(events[k] == LifecycleEvent::Created(id));
    }
}

/// Appending an event leaves every other id's deletion record unchanged.
proof fn lemma_has_deleted_push(events: Seq<LifecycleEvent>, ev: LifecycleEvent, id: u64)
    ensures
        has_deleted(events.push(ev), id) == (has_deleted(events, id) || ev
            == LifecycleEvent::Deleted(id)),
{
    let s = events.push(ev);
    if has_deleted(events, id) {
        let k = choose|k: int|
            0 <= k < events.len() && #[trigger] events[k] == LifecycleEvent::Deleted(id);
        assert(s[k] == LifecycleEvent::Deleted(id));
    }
    if ev == LifecycleEvent::Deleted(id) {
        assert(s[events.len() as int] == LifecycleEvent::Deleted(id));
    }
    if has_deleted(s, id) && !(ev == LifecycleEvent::Deleted(id)) {
        let k = choose|k: int| 0 <= k < s.len() && #[trigger] s[k] == LifecycleEvent::Deleted(id);
        assert(events[k] == LifecycleEvent::Deleted(id));
    }
}

/// A well-formed trace stays well-formed when an event is appended for an id
/// that was created and not yet deleted — or, for a creation event, for an id
/// the trace has never seen.
proof fn lemma_lifecycle_ok_push(events: Seq<LifecycleEvent>, ev: LifecycleEvent)
    requires
        lifecycle_ok(events),
        ev.is_created() ==> forall|k: int|
            0 <= k < events.len() ==> (#[trigger] events[k]).id() != ev.id(),
        !ev.is_created() ==> has_created(events, ev.id()),
        !has_deleted(events, ev.id()),
    ensures
        lifecycle_ok(events.push(ev)),
{
    let s = events.push(ev);
    let n = events.len() as int;
    assert forall|k1: int, k2: int|
        0 <= k1 < k2 < s.len() && #[trigger] s[k1].is_created()
            && #[trigger] s[k2].is_created() implies s[k1].id() != s[k2].id() by {
        if k2 == n {
            assert(s[k1] == events[k1]);
        }
    }
    assert forall|k: int| 0 <= k < s.len() && !(#[trigger] s[k].is_created()) implies exists|
        k0: int,
    |
        0 <= k0 < k && #[trigger] s[k0] == LifecycleEvent::Created(s[k].id()) by {
        if k == n {
            let k0 = choose|k0: int|
                0 <= k0 < events.len() && #[trigger] events[k0] == LifecycleEvent::Created(
                    ev.id(),
                );
            assert(s[k0] == LifecycleEvent::Created(s[k].id()));
        } else {
            let k0 = choose|k0: int|
                0 <= k0 < k && #[trigger] events[k0] == LifecycleEvent::Created(events[k].id());
            assert(s[k0] == LifecycleEvent::Created(s[k].id()));
        }
    }
    assert forall|k1: int, k2: int|
        0 <= k1 < k2 < s.len() && #[trigger] s[k1].is_deleted() implies (#[trigger] s[k2]).id()
        != s[k1].id() by {
        if k2 == n {
            assert(s[k1] == events[k1]);
            if ev.id() == events[k1].id() {
                assert(events[k1] == LifecycleEvent::Deleted(ev.id()));
                assert(has_deleted(events, ev.id()));
            }
        }
    }
}

/// Two entry sequences with the same ids at every position contain the same
/// ids.
proof fn lemma_entries_contain_same_ids<S>(a: Seq<(u64, S)>, b: Seq<(u64, S)>, id: u64)
    requires
        a.len() == b.len(),
        forall|i: int| 0 <= i < a.len() ==> (#[trigger] a[i].0) == b[i].0,
    ensures
        entries_contain(a, id) == entries_contain(b, id),
{
    if entries_contain(a, id) {
        let i = choose|i: int| 0 <= i < a.len() && #[trigger] a[i].0 == id;
        assert(b[i].0 == id);
    }
    if entries_contain(b, id) {
        let i = choose|i: int| 0 <= i < b.len() && #[trigger] b[i].0 == id;
        assert(a[i].0 == id);
    }
}

/// Appending an entry adds its id and keeps every other id's membership.
proof fn lemma_entries_contain_push<S>(entries: Seq<(u64, S)>, e: (u64, S), id: u64)
    ensures
        entries_contain(entries.push(e), id) == (entries_contain(entries, id) || e.0 == id),
{
    let s = entries.push(e);
    if entries_contain(entries, id) {
        let i = choose|i: int| 0 <= i < entries.len() && #[trigger] entries[i].0 == id;
        assert(s[i].0 == id);
    }
    if e.0 == id {
        assert(s[entries.len() as int].0 == id);
    }
    if entries_contain(s, id) && e.0 != id {
        let i = choose|i: int| 0 <= i < s.len() && #[trigger] s[i].0 == id;
        assert(entries[i].0 == id);
    }
}

/// Removing one entry keeps every other id's membership.
proof fn lemma_entries_contain_remove<S>(entries: Seq<(u64, S)>, i: int, id: u64)
    requires
        0 <= i < entries.len(),
        entries[i].0 != id,
    ensures
        entries_contain(entries.remove(i), id) == entries_contain(entries, id),
{
    let s = entries.remove(i);
    if entries_contain(entries, id) {
        let k = choose|k: int| 0 <= k < entries.len() && #[trigger] entries[k].0 == id;
        if k < i {
            assert(s[k].0 == id);
        } else {
            assert(s[k - 1].0 == id);
        }
    }
    if entries_contain(s, id) {
        let k = choose|k: int| 0 <= k < s.len() && #[trigger] s[k].0 == id;
        if k < i {
            assert(entries[k].0 == id);
        } else {
            assert(entries[k + 1].0 == id);
        }
    }
}

/// The population after every agent's update hook ran, before the world's
/// hook: entry `i` keeps its id, and carries the state that behavior `i`'s
/// update hook returns for the pre-tick population `entries`.
pub open spec fn dispatched_entries<B: Behavior>(
    entries: Seq<(u64, B::State)>,
    behaviors: Seq<B>,
    world: B::World,
) -> Seq<(u64, B::State)> {
    Seq::new(
        entries.len(),
        |i: int|
            (entries[i].0, behaviors[i].update_spec(entries[i].0, entries[i].1, world, entries)),
    )
}

/// The update events one tick appends to the trace: one per live agent, in
/// registry order.
pub open spec fn updated_events<S>(entries: Seq<(u64, S)>) -> Seq<LifecycleEvent> {
    Seq::new(entries.len(), |i: int| LifecycleEvent::Updated(entries[i].0))
}

/// What one whole tick makes of an engine: every agent's update applied to
/// the pre-tick population, then the world's update applied to the result.
pub open spec fn engine_tick_spec<B: Behavior>(v: EngineView<B>) -> (
    B::World,
    Seq<(u64, B::State)>,
) {
    v.world.update_spec(dispatched_entries(v.agents, v.behaviors, v.world))
}

/// Snapshot isolation law for the engine: the post-update entry of an agent
/// is a function of the pre-tick population and world alone, whatever another
/// agent's hook does during the same tick and in whatever order the hooks
/// run.
pub proof fn lemma_engine_snapshot_isolation<B: Behavior>(
    entries: Seq<(u64, B::State)>,
    behaviors: Seq<B>,
    world: B::World,
    i: int,
)
    requires
        0 <= i < entries.len(),
    ensures
        dispatched_entries(entries, behaviors, world)[i] == (
            entries[i].0,
            behaviors[i].update_spec(entries[i].0, entries[i].1, world, entries),
        ),
{
}

/// World mutation ordering law for the engine: a tick hands the world's
/// update hook the dispatched population — every agent's update for this tick
/// already applied — never the pre-tick one.
pub proof fn lemma_engine_world_sees_post_tick<B: Behavior>(v: EngineView<B>)
    ensures
        engine_tick_spec(v) == v.world.update_spec(
            dispatched_entries(v.agents, v.behaviors, v.world),
        ),
{
}

/// Uniqueness law (live ids): in a well-formed engine every live agent has
/// exactly one id and every id names at most one agent.
pub proof fn lemma_engine_ids_unique<B: Behavior>(v: EngineView<B>, i: int, j: int)
    requires
        v.wf(),
        0 <= i < v.agents.len(),
        0 <= j < v.agents.len(),
        i != j,
    ensures
        v.agents[i].0 != v.agents[j].0,
{
    lemma_ids_unique(v.agents, i, j);
}

/// Uniqueness law (allocation): in a well-formed engine the next id to be
/// issued — and, ids being monotonic, every id after it — is not assigned to
/// any live agent.
pub proof fn lemma_next_id_fresh<B: Behavior>(v: EngineView<B>, id: u64)
    requires
        v.wf(),
        id >= v.next_id,
    ensures
        !v.live(id),
{
    if entries_contain(v.agents, id) {
        let i = choose|i: int| 0 <= i < v.agents.len() && #[trigger] v.agents[i].0 == id;
    }
}

/// Capacity exhaustion law: a well-formed engine whose allocator stands one
/// id short of the end can still issue exactly that id, `u64::MAX - 1`, and
/// it is fresh — while an engine whose counter has reached `u64::MAX` is
/// exhausted, so [`Engine::add_agent`]'s precondition excludes it and
/// [`Engine::try_add_agent`] refuses and changes nothing.  Nothing ever
/// wraps around: by [`lemma_next_id_fresh`] every id at or above the counter
/// is unissued, so in particular no live agent holds an id that a wrapped
/// counter would hand out anew.
pub proof fn lemma_exhaustion_boundary<B: Behavior>(v: EngineView<B>)
    requires
        v.wf(),
    ensures
        v.next_id == u64::MAX - 1 ==> !v.exhausted() && !v.live((u64::MAX - 1) as u64),
        v.next_id == u64::MAX ==> v.exhausted(),
{
    if v.next_id == u64::MAX - 1 {
        lemma_next_id_fresh(v, (u64::MAX - 1) as u64);
    }
}

/// The map-backed simulation engine: a population of [`Behavior`]-driven
/// agents under stable ids, one shared world, and a tick coordinator.
///
/// Ids come from a monotonic [`IdAllocator`] and are never reused; removal
/// truly deletes.  The ghost `events` trace records every hook invocation,
/// and the engine's well-formedness ties it to the live population: an id is
/// live exactly when it was created and not yet deleted, and the trace always
/// satisfies [`lifecycle_ok`].
pub struct Engine<B: Behavior> {
    allocator: IdAllocator,
    registry: Registry<B, B::State>,
    world: B::World,
    events: Ghost<Seq<LifecycleEvent>>,
}

/// The mathematical model of an [`Engine`].
pub struct EngineView<B: Behavior> {
    /// The (id, state) pairs of the live agents, in ascending id order.
    pub agents: Seq<(u64, B::State)>,
    /// The behavior of the agent at each position.
    pub behaviors: Seq<B>,
    /// The shared global state.
    pub world: B::World,
    /// The next id the allocator would issue.
    pub next_id: u64,
    /// Every hook invocation so far, oldest first.
    pub events: Seq<LifecycleEvent>,
}

impl<B: Behavior> EngineView<B> {
    /// Whether the identifier space is used up.
    pub open spec fn exhausted(&self) -> bool {
        self.next_id == u64::MAX
    }

    /// Whether the id names a live agent.
    pub open spec fn live(&self, id: u64) -> bool {
        entries_contain(self.agents, id)
    }

    /// Well-formedness: one behavior per entry; ids strictly increasing and
    /// all below the allocator's counter, as is every id in the trace; an id
    /// is live exactly when created and not deleted; and the trace observes
    /// the lifecycle ordering.
    pub open spec fn wf(&self) -> bool {
        &&& self.behaviors.len() == self.agents.len()
        &&& strictly_increasing_ids(self.agents)
        &&& (forall|i: int| 0 <= i < self.agents.len() ==> (#[trigger] self.agents[i].0)
            < self.next_id)
        &&& (forall|k: int| 0 <= k < self.events.len() ==> (#[trigger] self.events[k]).id()
            < self.next_id)
        &&& (forall|id: u64|
            #![trigger entries_contain(self.agents, id)]
            #![trigger has_created(self.events, id)]
            #![trigger has_deleted(self.events, id)]
            entries_contain(self.agents, id) <==> (has_created(self.events, id) && !has_deleted(
                self.events,
                id,
            )))
        &&& lifecycle_ok(self.events)
    }
}

impl<B: Behavior> View for Engine<B> {
    type V = EngineView<B>;

    closed spec fn view(&self) -> EngineView<B> {
        EngineView {
            agents: self.registry@.entries,
            behaviors: self.registry@.behaviors,
            world: self.world,
            next_id: self.allocator.next_id(),
            events: self.events@,
        }
    }
}

impl<B: Behavior> Engine<B> {
    /// Creates an engine with the provided world and no agents.
    pub fn new(world: B::World) -> (e: Self)
        ensures
            e@.wf(),
            e@.agents == Seq::<(u64, B::State)>::empty(),
            e@.behaviors == Seq::<B>::empty(),
            e@.world == world,
            e@.next_id == 0,
            e@.events == Seq::<LifecycleEvent>::empty(),
    {
        Engine {
            allocator: IdAllocator::new(),
            registry: Registry::new(),
            world,
            events: Ghost(Seq::empty()),
        }
    }

    /// Creates an empty engine whose allocator starts at `next_id`, as if the
    /// ids below it had already been spent.
    pub fn with_next_id(world: B::World, next_id: u64) -> (e: Self)
        ensures
            e@.wf(),
            e@.agents == Seq::<(u64, B::State)>::empty(),
            e@.behaviors == Seq::<B>::empty(),
            e@.world == world,
            e@.next_id == next_id,
            e@.events == Seq::<LifecycleEvent>::empty(),
    {
        Engine {
            allocator: IdAllocator::starting_at(next_id),
            registry: Registry::new(),
            world,
            events: Ghost(Seq::empty()),
        }
    }

    /// The number of live agents.
    pub fn len(&self) -> (n: usize)
        ensures
            n == self@.agents.len(),
    {
        self.registry.len()
    }

    /// The (id, state) pairs of all live agents, in ascending id order.
    pub fn agents(&self) -> (r: &Vec<(u64, B::State)>)
        ensures
            r@ == self@.agents,
    {
        self.registry.entries()
    }

    /// Whether the id names a live agent.
    pub fn contains(&self, id: u64) -> (r: bool)
        requires
            self@.wf(),
        ensures
            r == self@.live(id),
    {
        self.registry.contains(id)
    }

    /// The state of the agent under the id, if it is live.
    pub fn get(&self, id: u64) -> (r: Option<&B::State>)
        requires
            self@.wf(),
        ensures
            match r {
                Some(s) => self@.live(id) && *s == entry_state(self@.agents, id),
                None => !self@.live(id),
            },
    {
        self.registry.get(id)
    }

    /// Exclusive access to the state of the agent under the id, if it is
    /// live.  Only legal between ticks.  The entry keeps its id, so whatever
    /// the caller writes, the engine stays well-formed.
    pub fn get_mut(&mut self, id: u64) -> (r: Option<&mut B::State>)
        requires
            old(self)@.wf(),
        ensures
            match r {
                Some(s) => {
                    let i = entry_index(old(self)@.agents, id);
                    &&& old(self)@.live(id)
                    &&& *s == old(self)@.agents[i].1
                    &&& final(self)@.agents == old(self)@.agents.update(i, (id, *final(s)))
                    &&& final(self)@.behaviors == old(self)@.behaviors
                    &&& final(self)@.world == old(self)@.world
                    &&& final(self)@.next_id == old(self)@.next_id
                    &&& final(self)@.events == old(self)@.events
                    &&& final(self)@.wf()
                },
                None => !old(self)@.live(id) && final(self)@ == old(self)@,
            },
    {
        let ghost pre = self@;
        proof {
            if entries_contain(pre.agents, id) {
                let i = entry_index(pre.agents, id);
                assert(0 <= i < pre.agents.len() && pre.agents[i].0 == id);
                assert forall|v: B::State|
                    (EngineView {
                        agents: #[trigger] pre.agents.update(i, (id, v)),
                        behaviors: pre.behaviors,
                        world: pre.world,
                        next_id: pre.next_id,
                        events: pre.events,
                    }).wf() by {
                    let post = pre.agents.update(i, (id, v));
                    assert forall|k: int| 0 <= k < post.len() implies (#[trigger] post[k].0)
                        == pre.agents[k].0 by {}
                    assert forall|k1: int, k2: int|
                        0 <= k1 < k2 < post.len() implies (#[trigger] post[k1].0) < (
                    #[trigger] post[k2].0) by {
                        assert(post[k1].0 == pre.agents[k1].0);
                        assert(post[k2].0 == pre.agents[k2].0);
                    }
                    assert forall|x: u64|
                        entries_contain(post, x) <==> (has_created(pre.events, x) && !has_deleted(
                            pre.events,
                            x,
                        )) by {
                        lemma_entries_contain_same_ids(post, pre.agents, x);
                    }
                }
            }
        }
        self.registry.get_mut(id)
    }

    /// Get a shared reference to the global state.
    pub fn world(&self) -> (r: &B::World)
        ensures
            *r == self@.world,
    {
        &self.world
    }

    /// Get a unique reference to the global state.  Only legal between ticks;
    /// well-formedness does not depend on the world, so any new value is
    /// fine.
    pub fn world_mut(&mut self) -> (r: &mut B::World)
        ensures
            *r == old(self)@.world,
            final(self)@.world == *final(r),
            final(self)@.agents == old(self)@.agents,
            final(self)@.behaviors == old(self)@.behaviors,
            final(self)@.next_id == old(self)@.next_id,
            final(self)@.events == old(self)@.events,
            old(self)@.wf() ==> final(self)@.wf(),
    {
        &mut self.world
    }

    /// Add a new agent to the engine.
    ///
    /// A fresh id — distinct from every id ever issued, hence from every live
    /// id — is allocated, the behavior's creation hook fires with the initial
    /// state and a read-only world, and the adjusted state is stored under
    /// the id.
    pub fn add_agent(&mut self, behavior: B, state: B::State) -> (id: u64)
        requires
            old(self)@.wf(),
            !old(self)@.exhausted(),
        ensures
            final(self)@.wf(),
            id == old(self)@.next_id,
            !old(self)@.live(id),
            final(self)@.live(id),
            final(self)@.agents == old(self)@.agents.push(
                (id, behavior.creation_spec(id, state, old(self)@.world)),
            ),
            final(self)@.behaviors == old(self)@.behaviors.push(behavior),
            final(self)@.world == old(self)@.world,
            final(self)@.next_id == id + 1,
            final(self)@.events == old(self)@.events.push(LifecycleEvent::Created(id)),
    {
        let ghost pre = self@;
        let id = self.allocator.allocate();
        let mut state = state;
        behavior.on_creation(id, &mut state, &self.world);
        self.registry.insert(id, behavior, state);
        self.events = Ghost(self.events@.push(LifecycleEvent::Created(id)));
        proof {
            let e = self@.agents.last();
            assert(self@.agents == pre.agents.push(e));
            assert(e.0 == id);
            assert(!entries_contain(pre.agents, id)) by {
                if entries_contain(pre.agents, id) {
                    let i = choose|i: int|
                        0 <= i < pre.agents.len() && #[trigger] pre.agents[i].0 == id;
                }
            }
            let ev = LifecycleEvent::Created(id);
            assert(!has_deleted(pre.events, id)) by {
                if has_deleted(pre.events, id) {
                    let k = choose|k: int|
                        0 <= k < pre.events.len() && #[trigger] pre.events[k]
                            == LifecycleEvent::Deleted(id);
                    assert(pre.events[k].id() < pre.next_id);
                }
            }
            lemma_lifecycle_ok_push(pre.events, ev);
            assert forall|x: u64|
                entries_contain(self@.agents, x) <==> (has_created(self@.events, x)
                    && !has_deleted(self@.events, x)) by {
                lemma_entries_contain_push(pre.agents, e, x);
                lemma_has_created_push(pre.events, ev, x);
                lemma_has_deleted_push(pre.events, ev, x);
            }
            assert(strictly_increasing_ids(self@.agents)) by {
                assert(forall|k: int|
                    0 <= k < pre.agents.len() ==> #[trigger] self@.agents[k] == pre.agents[k]);
            }
            lemma_entry_index_unique(self@.agents, id, pre.agents.len() as int);
        }
        id
    }

    /// Add a new agent, or report identifier exhaustion.
    ///
    /// On exhaustion nothing happens: no hook fires, no state is stored, and
    /// in particular no id wraps around to an already-issued value.
    pub fn try_add_agent(&mut self, behavior: B, state: B::State) -> (r: Option<u64>)
        requires
            old(self)@.wf(),
        ensures
            final(self)@.wf(),
            match r {
                Some(id) => {
                    &&& !old(self)@.exhausted()
                    &&& id == old(self)@.next_id
                    &&& !old(self)@.live(id)
                    &&& final(self)@.live(id)
                    &&& final(self)@.agents == old(self)@.agents.push(
                        (id, behavior.creation_spec(id, state, old(self)@.world)),
                    )
                    &&& final(self)@.behaviors == old(self)@.behaviors.push(behavior)
                    &&& final(self)@.world == old(self)@.world
                    &&& final(self)@.next_id == id + 1
                    &&& final(self)@.events == old(self)@.events.push(LifecycleEvent::Created(id))
                },
                None => old(self)@.exhausted() && final(self)@ == old(self)@,
            },
    {
        if self.allocator.is_exhausted() {
            None
        } else {
            Some(self.add_agent(behavior, state))
        }
    }

    /// Removes the agent under the id, returning whether one was there.
    ///
    /// If the id is live, the behavior's deletion hook fires with the agent's
    /// last state and a read-only world, and the entry is gone afterwards —
    /// so removing the same id twice returns success, then failure, and the
    /// deletion hook cannot fire twice.  Removing an unknown id is not an
    /// error: it returns `false` and changes nothing.
    pub fn remove_agent(&mut self, id: u64) -> (r: bool)
        requires
            old(self)@.wf(),
        ensures
            final(self)@.wf(),
            r == old(self)@.live(id),
            r ==> {
                let i = entry_index(old(self)@.agents, id);
                &&& !final(self)@.live(id)
                &&& final(self)@.agents == old(self)@.agents.remove(i)
                &&& final(self)@.behaviors == old(self)@.behaviors.remove(i)
                &&& final(self)@.events == old(self)@.events.push(LifecycleEvent::Deleted(id))
            },
            !r ==> final(self)@ == old(self)@,
            final(self)@.world == old(self)@.world,
            final(self)@.next_id == old(self)@.next_id,
    {
        let ghost pre = self@;
        match self.registry.remove(id) {
            Some((eid, behavior, mut state)) => {
                behavior.on_deletion(eid, &mut state, &self.world);
                self.events = Ghost(self.events@.push(LifecycleEvent::Deleted(id)));
                proof {
                    let i = entry_index(pre.agents, id);
                    let ev = LifecycleEvent::Deleted(id);
                    lemma_lifecycle_ok_push(pre.events, ev);
                    assert forall|x: u64|
                        entries_contain(self@.agents, x) <==> (has_created(self@.events, x)
                            && !has_deleted(self@.events, x)) by {
                        lemma_has_created_push(pre.events, ev, x);
                        lemma_has_deleted_push(pre.events, ev, x);
                        if x != id {
                            lemma_entries_contain_remove(pre.agents, i, x);
                        }
                    }
                }
                true
            },
            None => false,
        }
    }

    /// Advances the engine by one tick.
    ///
    /// Every live agent's update hook runs on the pre-tick population — in
    /// unspecified order, since each result is a function of the shared
    /// snapshot alone — the returned states are written back, and afterwards
    /// the world's update hook runs exactly once on the result.
    ///
    /// A tick is never re-entrant: it exclusively borrows the engine, so
    /// neither the population nor the world can be reached from outside, nor
    /// a second tick started, until it has run to completion.
    pub fn update(&mut self)
        requires
            old(self)@.wf(),
        ensures
            final(self)@.wf(),
            (final(self)@.world, final(self)@.agents) == engine_tick_spec(old(self)@),
            final(self)@.behaviors == old(self)@.behaviors,
            final(self)@.next_id == old(self)@.next_id,
            final(self)@.events == old(self)@.events + updated_events(old(self)@.agents),
    {
        let ghost pre = self@.agents;
        let ghost preb = self@.behaviors;
        let ghost w0 = self@.world;
        let ghost e0 = self@.events;
        let ghost nid = self@.next_id;
        let n = self.registry.len();
        let mut new_states: Vec<B::State> = Vec::new();
        let mut i: usize = 0;
        while i < n
            invariant
                i <= n,
                n == pre.len(),
                self@.agents == pre,
                self@.behaviors == preb,
                self@.world == w0,
                self@.next_id == nid,
                self@.wf(),
                self@.events == e0 + updated_events(pre).subrange(0, i as int),
                new_states@.len() == i,
                forall|j: int|
                    0 <= j < i ==> new_states@[j] == preb[j].update_spec(
                        pre[j].0,
                        pre[j].1,
                        w0,
                        pre,
                    ),
            decreases n - i,
        {
            let ghost e_before = self@.events;
            let id = self.registry.entries()[i].0;
            let state_ref = &self.registry.entries()[i].1;
            let new_state = self.registry.behavior_at(i).on_update(
                id,
                state_ref,
                &self.world,
                self.registry.entries(),
            );
            new_states.push(new_state);
            self.events = Ghost(self.events@.push(LifecycleEvent::Updated(id)));
            proof {
                let ev = LifecycleEvent::Updated(id);
                lemma_entry_index_unique(pre, id, i as int);
                lemma_lifecycle_ok_push(e_before, ev);
                assert forall|x: u64|
                    entries_contain(self@.agents, x) <==> (has_created(self@.events, x)
                        && !has_deleted(self@.events, x)) by {
                    lemma_has_created_push(e_before, ev, x);
                    lemma_has_deleted_push(e_before, ev, x);
                }
                assert(self@.events =~= e0 + updated_events(pre).subrange(0, i + 1));
            }
            i += 1;
        }
        proof {
            assert(updated_events(pre).subrange(0, n as int) =~= updated_events(pre));
        }
        let ghost e_mid = self@.events;
        let ghost mid = dispatched_entries(pre, preb, w0);
        while new_states.len() > 0
            invariant
                n == pre.len(),
                self@.agents.len() == pre.len(),
                self@.behaviors == preb,
                self@.world == w0,
                self@.next_id == nid,
                self@.events == e_mid,
                new_states@.len() <= n,
                strictly_increasing_ids(self@.agents),
                preb.len() == pre.len(),
                mid == dispatched_entries(pre, preb, w0),
                forall|j: int|
                    0 <= j < new_states@.len() ==> new_states@[j] == preb[j].update_spec(
                        pre[j].0,
                        pre[j].1,
                        w0,
                        pre,
                    ),
                forall|j: int| 0 <= j < new_states@.len() ==> self@.agents[j] == pre[j],
                forall|j: int| new_states@.len() <= j < pre.len() ==> self@.agents[j] == mid[j],
            decreases new_states@.len(),
        {
            let k = new_states.len() - 1;
            let s = new_states.pop().unwrap();
            self.registry.set_state_at(k, s);
            assert(self@.agents[k as int] == mid[k as int]);
        }
        proof {
            assert(self@.agents =~= mid);
        }
        self.world.on_update(self.registry.entries_mut());
        proof {
            assert(strictly_increasing_ids(self@.agents)) by {
                assert(forall|j: int|
                    0 <= j < mid.len() ==> (#[trigger] self@.agents[j].0) == mid[j].0);
            }
            assert forall|x: u64|
                entries_contain(self@.agents, x) <==> (has_created(self@.events, x)
                    && !has_deleted(self@.events, x)) by {
                lemma_entries_contain_same_ids(self@.agents, mid, x);
                lemma_entries_contain_same_ids(mid, pre, x);
            }
        }
    }
}

} // verus!
