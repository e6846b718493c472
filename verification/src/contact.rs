//! The router of contacts: which rule a contact between two entities sets
//! off, and what each rule does.
//!
//! A batch is handled in two passes. The first reads the world as it stands
//! at the start of the batch and lists, in the order of the contacts, every
//! transition that some contact sets off. The second carries the list out.
//! Only the first transition listed for an entity takes place, so that no
//! entity is, say, both sent back and delivered within one batch.
use crate::effect::{counts_fit, Effect, Ledger};
use crate::entity::{spawn_position_of, Entity, EntityId, Role, Tag};
use crate::flow::{AppState, Session, SessionView};
use crate::model::{
    count_tag, distinct_ids, has_tag, lemma_slot_valid, lemma_with_role, lemma_with_role_count,
    lookup, with_role,
};
use crate::roster::{
    deliver, delivered, ledger_of, lemma_delivered, party_fits, score_of,
};
use crate::world::World;
use vstd::prelude::*;

verus! {

/// Two entities have begun to touch. The pair has no order; each side comes
/// with the place where it was at that moment.
#[derive(Clone, Copy, Debug, PartialEq)]
pub struct Contact<P> {
    pub first: EntityId,
    pub second: EntityId,
    pub first_position: P,
    pub second_position: P,
}

/// What a rule does to the entity it applies to.
#[derive(Clone, Copy, Debug, PartialEq)]
pub enum Change<P> {
    /// A collectable touched a player and joins the roster; `at` is where it
    /// was, and where it will go back to.
    Pickup { at: P },
    /// A player touched a kill wall and goes back to where it spawned.
    KillReset,
    /// A player touched a party zone and joins the party.
    PartyEntry,
}

/// One change, due to one entity.
#[derive(Clone, Copy, Debug, PartialEq)]
pub struct Transition<P> {
    pub entity: EntityId,
    pub change: Change<P>,
}

/// The pickup that a contact sets off for `subject`: it is a collectable and
/// the other side is a player.
pub open spec fn pickup_of<P>(s: Seq<Entity<P>>, subject: EntityId, at: P, other: EntityId) -> Seq<
    Transition<P>,
> {
    if has_tag(s, subject, Tag::Collectable) && has_tag(s, other, Tag::Player) {
        seq![Transition { entity: subject, change: Change::Pickup { at } }]
    } else {
        Seq::empty()
    }
}

/// The kill-reset that a contact sets off for `subject`: it is a player and
/// the other side is a kill wall.
pub open spec fn kill_reset_of<P>(s: Seq<Entity<P>>, subject: EntityId, other: EntityId) -> Seq<
    Transition<P>,
> {
    if has_tag(s, subject, Tag::Player) && has_tag(s, other, Tag::KillWall) {
        seq![Transition { entity: subject, change: Change::KillReset }]
    } else {
        Seq::empty()
    }
}

/// The party entry that a contact sets off for `subject`: it is a player and
/// the other side is a party zone.
pub open spec fn party_entry_of<P>(s: Seq<Entity<P>>, subject: EntityId, other: EntityId) -> Seq<
    Transition<P>,
> {
    if has_tag(s, subject, Tag::Player) && has_tag(s, other, Tag::PartyZone) {
        seq![Transition { entity: subject, change: Change::PartyEntry }]
    } else {
        Seq::empty()
    }
}

/// Every transition that one contact sets off, each rule tried for either
/// side: pickups first, then kill-resets, then party entries.
pub open spec fn contact_transitions<P>(s: Seq<Entity<P>>, c: Contact<P>) -> Seq<Transition<P>> {
    pickup_of(s, c.first, c.first_position, c.second) + pickup_of(
        s,
        c.second,
        c.second_position,
        c.first,
    ) + kill_reset_of(s, c.first, c.second) + kill_reset_of(s, c.second, c.first) + party_entry_of(
        s,
        c.first,
        c.second,
    ) + party_entry_of(s, c.second, c.first)
}

/// Every transition that a batch of contacts sets off in the world `s`, in the
/// order of the contacts.
pub open spec fn transitions_of<P>(s: Seq<Entity<P>>, contacts: Seq<Contact<P>>) -> Seq<
    Transition<P>,
>
    decreases contacts.len(),
{
    if contacts.len() == 0 {
        Seq::empty()
    } else {
        transitions_of(s, contacts.drop_last()) + contact_transitions(s, contacts.last())
    }
}

/// The world after the collectable `id` was picked up at `at`: it is a player
/// that spawns at `at`. Nothing changes where `id` is not a collectable.
pub open spec fn picked_up<P>(s: Seq<Entity<P>>, id: EntityId, at: P) -> Seq<Entity<P>> {
    if has_tag(s, id, Tag::Collectable) {
        with_role(s, id, Some(Role::Player { spawn_position: at }))
    } else {
        s
    }
}

/// The world after the player `id` touched a kill wall: with more than one
/// player on the roster it loses its role for good; the last player keeps it.
/// Nothing changes where `id` is not a player.
pub open spec fn benched<P>(s: Seq<Entity<P>>, id: EntityId) -> Seq<Entity<P>> {
    if has_tag(s, id, Tag::Player) && count_tag(s, Tag::Player) > 1 {
        with_role(s, id, None)
    } else {
        s
    }
}

/// Where the player `id` goes back to when it touches a kill wall; `None`
/// where `id` is not a player.
pub open spec fn respawn_point<P>(s: Seq<Entity<P>>, id: EntityId) -> Option<P> {
    match lookup(s, id) {
        Some(e) => spawn_position_of(e),
        None => None,
    }
}

/// The ledger after the player `id` touched a kill wall: see [`benched`]; the
/// player, benched or not, is put back where it spawned.
pub open spec fn kill_reset_done<P>(o: Ledger<P>, id: EntityId) -> Ledger<P> {
    match respawn_point(o.entities, id) {
        Some(at) => Ledger {
            entities: benched(o.entities, id),
            despawned: o.despawned,
            effects: o.effects.push(Effect::Respawn { entity: id, at }),
        },
        None => o,
    }
}

/// The ledger after one transition took place.
pub open spec fn step<P>(o: Ledger<P>, t: Transition<P>) -> Ledger<P> {
    match t.change {
        Change::Pickup { at } => Ledger { entities: picked_up(o.entities, t.entity, at), ..o },
        Change::KillReset => kill_reset_done(o, t.entity),
        Change::PartyEntry => delivered(o, t.entity),
    }
}

/// Whether no transition before the one at `i` is due to the same entity.
pub open spec fn first_for_entity<P>(ts: Seq<Transition<P>>, i: int) -> bool {
    forall|j: int| 0 <= j < i ==> (#[trigger] ts[j]).entity != ts[i].entity
}

/// Whether one of the first `i` transitions is due to the entity `id`.
pub open spec fn came_before<P>(ts: Seq<Transition<P>>, i: int, id: EntityId) -> bool {
    exists|j: int| 0 <= j < i && (#[trigger] ts[j]).entity == id
}

/// The ledger after the first `n` transitions of `ts` were gone through, each
/// taking place only where it is the first for its entity.
pub open spec fn applied<P>(start: Ledger<P>, ts: Seq<Transition<P>>, n: nat) -> Ledger<P>
    decreases n,
{
    if n == 0 {
        start
    } else {
        let before = applied(start, ts, (n - 1) as nat);
        if first_for_entity(ts, n - 1) {
            step(before, ts[n - 1])
        } else {
            before
        }
    }
}

/// The ledger after a batch of contacts was resolved, starting without
/// effects: the transitions are those that the contacts set off in the world
/// as it is at the start, and every one of them is gone through.
pub open spec fn resolved<P>(
    s: Seq<Entity<P>>,
    despawned: nat,
    contacts: Seq<Contact<P>>,
) -> Ledger<P> {
    let ts = transitions_of(s, contacts);
    applied(Ledger { entities: s, despawned, effects: Seq::empty() }, ts, ts.len())
}

/// What a pickup does: the world stays well formed and as large as it was,
/// the new player spawns where it was picked up, and no party animal comes or
/// goes.
pub proof fn lemma_picked_up<P>(s: Seq<Entity<P>>, id: EntityId, at: P)
    requires
        distinct_ids(s),
    ensures
        distinct_ids(picked_up(s, id, at)),
        picked_up(s, id, at).len() == s.len(),
        count_tag(picked_up(s, id, at), Tag::PartyAnimal) == count_tag(s, Tag::PartyAnimal),
        has_tag(s, id, Tag::Collectable) ==> {
            &&& respawn_point(picked_up(s, id, at), id) == Some(at)
            &&& has_tag(picked_up(s, id, at), id, Tag::Player)
            &&& !has_tag(picked_up(s, id, at), id, Tag::Collectable)
            &&& count_tag(picked_up(s, id, at), Tag::Player) == count_tag(s, Tag::Player) + 1
            &&& count_tag(picked_up(s, id, at), Tag::Collectable) + 1 == count_tag(
                s,
                Tag::Collectable,
            )
        },
        !has_tag(s, id, Tag::Collectable) ==> picked_up(s, id, at) == s,
{
    if has_tag(s, id, Tag::Collectable) {
        let role = Some(Role::Player { spawn_position: at });
        lemma_slot_valid(s, id);
        lemma_with_role(s, id, role);
        lemma_with_role_count(s, id, role, Tag::PartyAnimal);
        lemma_with_role_count(s, id, role, Tag::Player);
        lemma_with_role_count(s, id, role, Tag::Collectable);
    }
}

/// What a kill-reset does to the roster: a roster that has a player keeps
/// one. The last player keeps its role and the world is left as it was; from
/// a larger roster exactly the player that touched the wall is gone. No party
/// animal comes or goes.
pub proof fn lemma_benched<P>(s: Seq<Entity<P>>, id: EntityId)
    requires
        distinct_ids(s),
    ensures
        distinct_ids(benched(s, id)),
        benched(s, id).len() == s.len(),
        count_tag(benched(s, id), Tag::PartyAnimal) == count_tag(s, Tag::PartyAnimal),
        count_tag(benched(s, id), Tag::Collectable) == count_tag(s, Tag::Collectable),
        count_tag(s, Tag::Player) >= 1 ==> count_tag(benched(s, id), Tag::Player) >= 1,
        count_tag(s, Tag::Player) <= 1 ==> benched(s, id) == s,
        has_tag(s, id, Tag::Player) && count_tag(s, Tag::Player) > 1 ==> {
            &&& count_tag(benched(s, id), Tag::Player) + 1 == count_tag(s, Tag::Player)
            &&& lookup(benched(s, id), id) == Some(lookup(s, id)->0.with_role(None))
        },
        !has_tag(s, id, Tag::Player) ==> benched(s, id) == s,
{
    if has_tag(s, id, Tag::Player) && count_tag(s, Tag::Player) > 1 {
        lemma_slot_valid(s, id);
        lemma_with_role(s, id, None);
        lemma_with_role_count(s, id, None, Tag::PartyAnimal);
        lemma_with_role_count(s, id, None, Tag::Player);
        lemma_with_role_count(s, id, None, Tag::Collectable);
    }
}

/// What one transition keeps: the world well formed, the sum of entities and
/// removed party animals, and with it the fit of the counters. The count of
/// removed party animals and the score do not go down, and a party that is no
/// more than one above the cap stays so.
pub proof fn lemma_step<P>(o: Ledger<P>, t: Transition<P>)
    requires
        distinct_ids(o.entities),
    ensures
        distinct_ids(step(o, t).entities),
        step(o, t).entities.len() + step(o, t).despawned == o.entities.len() + o.despawned,
        step(o, t).despawned >= o.despawned,
        score_of(step(o, t).entities, step(o, t).despawned) >= score_of(o.entities, o.despawned),
        party_fits(o.entities) ==> party_fits(step(o, t).entities),
{
    match t.change {
        Change::Pickup { at } => {
            lemma_picked_up(o.entities, t.entity, at);
        },
        Change::KillReset => {
            lemma_benched(o.entities, t.entity);
        },
        Change::PartyEntry => {
            lemma_delivered(o, t.entity);
        },
    }
}

/// What going through a list of transitions keeps; see [`lemma_step`].
pub proof fn lemma_applied<P>(start: Ledger<P>, ts: Seq<Transition<P>>, n: nat)
    requires
        distinct_ids(start.entities),
        n <= ts.len(),
    ensures
        distinct_ids(applied(start, ts, n).entities),
        applied(start, ts, n).entities.len() + applied(start, ts, n).despawned
            == start.entities.len() + start.despawned,
        applied(start, ts, n).despawned >= start.despawned,
        score_of(applied(start, ts, n).entities, applied(start, ts, n).despawned) >= score_of(
            start.entities,
            start.despawned,
        ),
        party_fits(start.entities) ==> party_fits(applied(start, ts, n).entities),
    decreases n,
{
    if n > 0 {
        lemma_applied(start, ts, (n - 1) as nat);
        let before = applied(start, ts, (n - 1) as nat);
        if first_for_entity(ts, n - 1) {
            lemma_step(before, ts[n - 1]);
        }
    }
}

/// Adds to `out` the pickup that a contact sets off for `subject`.
fn list_pickup<P: Copy>(
    world: &World<P>,
    out: &mut Vec<Transition<P>>,
    subject: EntityId,
    at: P,
    other: EntityId,
)
    requires
        world.wf(),
    ensures
        final(out)@ == old(out)@ + pickup_of(world@, subject, at, other),
{
    if world.has(subject, Tag::Collectable) && world.has(other, Tag::Player) {
        out.push(Transition { entity: subject, change: Change::Pickup { at } });
    }
    proof {
        assert(out@ =~= old(out)@ + pickup_of(world@, subject, at, other));
    }
}

/// Adds to `out` the kill-reset that a contact sets off for `subject`.
fn list_kill_reset<P: Copy>(
    world: &World<P>,
    out: &mut Vec<Transition<P>>,
    subject: EntityId,
    other: EntityId,
)
    requires
        world.wf(),
    ensures
        final(out)@ == old(out)@ + kill_reset_of(world@, subject, other),
{
    if world.has(subject, Tag::Player) && world.has(other, Tag::KillWall) {
        out.push(Transition { entity: subject, change: Change::KillReset });
    }
    proof {
        assert(out@ =~= old(out)@ + kill_reset_of(world@, subject, other));
    }
}

/// Adds to `out` the party entry that a contact sets off for `subject`.
fn list_party_entry<P: Copy>(
    world: &World<P>,
    out: &mut Vec<Transition<P>>,
    subject: EntityId,
    other: EntityId,
)
    requires
        world.wf(),
    ensures
        final(out)@ == old(out)@ + party_entry_of(world@, subject, other),
{
    if world.has(subject, Tag::Player) && world.has(other, Tag::PartyZone) {
        out.push(Transition { entity: subject, change: Change::PartyEntry });
    }
    proof {
        assert(out@ =~= old(out)@ + party_entry_of(world@, subject, other));
    }
}

/// Lists every transition that a batch of contacts sets off. The world is
/// only read.
pub fn classify_contacts<P: Copy>(world: &World<P>, contacts: &Vec<Contact<P>>) -> (out: Vec<
    Transition<P>,
>)
    requires
        world.wf(),
    ensures
        out@ == transitions_of(world@, contacts@),
{
    let n: usize = contacts.len();
    let mut out: Vec<Transition<P>> = Vec::new();
    let mut i: usize = 0;
    while i < n
        invariant
            world.wf(),
            n == contacts@.len(),
            i <= n,
            out@ == transitions_of(world@, contacts@.take(i as int)),
        decreases n - i,
    {
        let c = contacts[i];
        let ghost before = out@;
        list_pickup(world, &mut out, c.first, c.first_position, c.second);
        list_pickup(world, &mut out, c.second, c.second_position, c.first);
        list_kill_reset(world, &mut out, c.first, c.second);
        list_kill_reset(world, &mut out, c.second, c.first);
        list_party_entry(world, &mut out, c.first, c.second);
        list_party_entry(world, &mut out, c.second, c.first);
        proof {
            let next = contacts@.take(i + 1);
            assert(next.drop_last() =~= contacts@.take(i as int));
            assert(next.last() == c);
            assert(out@ =~= before + contact_transitions(world@, c));
        }
        i += 1;
    }
    proof {
        assert(contacts@.take(n as int) =~= contacts@);
    }
    out
}

/// Makes the collectable `id` a player that spawns at `at`; see
/// [`picked_up`]. Returns whether `id` was a collectable.
pub fn pick_up<P: Copy>(world: &mut World<P>, id: EntityId, at: P) -> (done: bool)
    requires
        old(world).wf(),
    ensures
        final(world).wf(),
        final(world)@ == picked_up(old(world)@, id, at),
        done == has_tag(old(world)@, id, Tag::Collectable),
{
    if world.has(id, Tag::Collectable) {
        world.set_role(id, Some(Role::Player { spawn_position: at }));
        true
    } else {
        false
    }
}

/// Sends the player `id` back to where it spawned; see [`benched`] and
/// [`respawn_point`]. Returns the place to put it, `None` where `id` is not a
/// player.
pub fn kill_reset<P: Copy>(world: &mut World<P>, id: EntityId) -> (at: Option<P>)
    requires
        old(world).wf(),
    ensures
        final(world).wf(),
        final(world)@ == benched(old(world)@, id),
        at == respawn_point(old(world)@, id),
        at is Some <==> has_tag(old(world)@, id, Tag::Player),
{
    let at = match world.get(id) {
        Some(e) => e.spawn_position(),
        None => None,
    };
    if at.is_some() {
        if world.count(Tag::Player) > 1 {
            world.set_role(id, None);
        }
    }
    at
}

/// Whether `id` is among `handled`.
fn was_handled(handled: &Vec<EntityId>, id: EntityId) -> (r: bool)
    ensures
        r == handled@.contains(id),
{
    let n: usize = handled.len();
    let mut i: usize = 0;
    while i < n
        invariant
            n == handled@.len(),
            i <= n,
            forall|k: int| 0 <= k < i ==> handled@[k] != id,
        decreases n - i,
    {
        if handled[i] == id {
            return true;
        }
        i += 1;
    }
    false
}

/// Goes through a list of transitions; see [`applied`]. Returns the effects
/// for the caller to carry out, in the order in which they arose.
pub fn apply_transitions<P: Copy>(
    world: &mut World<P>,
    session: &mut Session,
    transitions: &Vec<Transition<P>>,
) -> (effects: Vec<Effect<P>>)
    requires
        old(world).wf(),
        old(session).wf(),
        old(session)@.state == AppState::InGame,
        counts_fit(old(world)@, old(session)@.despawned),
    ensures
        final(world).wf(),
        final(session).wf(),
        counts_fit(final(world)@, final(session)@.despawned),
        ledger_of(final(world)@, final(session)@, effects@) == applied(
            ledger_of(old(world)@, old(session)@, Seq::empty()),
            transitions@,
            transitions@.len(),
        ),
        final(session)@ == (SessionView {
            despawned: final(session)@.despawned,
            ..old(session)@
        }),
{
    let ghost start = ledger_of(world@, session@, Seq::<Effect<P>>::empty());
    let ghost ts = transitions@;
    let n: usize = transitions.len();
    let mut effects: Vec<Effect<P>> = Vec::new();
    let mut handled: Vec<EntityId> = Vec::new();
    let mut i: usize = 0;
    while i < n
        invariant
            ts == transitions@,
            n == ts.len(),
            i <= n,
            world.wf(),
            session.wf(),
            session@.state == AppState::InGame,
            counts_fit(world@, session@.despawned),
            session@ == (SessionView { despawned: session@.despawned, ..old(session)@ }),
            ledger_of(world@, session@, effects@) == applied(start, ts, i as nat),
            forall|j: int| 0 <= j < i ==> handled@.contains((#[trigger] ts[j]).entity),
            forall|k: int|
                0 <= k < handled@.len() ==> came_before(ts, i as int, #[trigger] handled@[k]),
        decreases n - i,
    {
        let t = transitions[i];
        let ghost before = ledger_of(world@, session@, effects@);
        let ghost handled_before = handled@;
        if was_handled(&handled, t.entity) {
            proof {
                let k = choose|k: int| 0 <= k < handled@.len() && handled@[k] == t.entity;
                assert(came_before(ts, i as int, handled@[k]));
                let j = choose|j: int| 0 <= j < i && (#[trigger] ts[j]).entity == t.entity;
                assert(ts[j].entity == ts[i as int].entity);
                assert(!first_for_entity(ts, i as int));
            }
        } else {
            proof {
                assert forall|j: int| 0 <= j < i implies (#[trigger] ts[j]).entity != ts[i
                    as int].entity by {
                    assert(handled@.contains(ts[j].entity));
                }
                assert(first_for_entity(ts, i as int));
            }
            match t.change {
                Change::Pickup { at } => {
                    proof {
                        lemma_picked_up(world@, t.entity, at);
                    }
                    pick_up(world, t.entity, at);
                },
                Change::KillReset => {
                    proof {
                        lemma_benched(world@, t.entity);
                    }
                    match kill_reset(world, t.entity) {
                        Some(at) => {
                            effects.push(Effect::Respawn { entity: t.entity, at });
                        },
                        None => {},
                    }
                },
                Change::PartyEntry => {
                    deliver(world, session, &mut effects, t.entity);
                },
            }
            handled.push(t.entity);
            proof {
                assert(ledger_of(world@, session@, effects@) == step(before, t));
                assert forall|j: int| 0 <= j < i + 1 implies handled@.contains(
                    (#[trigger] ts[j]).entity,
                ) by {
                    if j < i {
                        assert(handled_before.contains(ts[j].entity));
                        let k = choose|k: int|
                            0 <= k < handled_before.len() && handled_before[k] == ts[j].entity;
                        assert(handled@[k] == ts[j].entity);
                    } else {
                        assert(handled@[handled@.len() - 1] == ts[j].entity);
                    }
                }
                assert forall|k: int| 0 <= k < handled@.len() implies came_before(
                    ts,
                    i + 1,
                    #[trigger] handled@[k],
                ) by {
                    if k < handled_before.len() {
                        assert(came_before(ts, i as int, handled_before[k]));
                        let j = choose|j: int|
                            0 <= j < i && (#[trigger] ts[j]).entity == handled_before[k];
                        assert(ts[j].entity == handled@[k]);
                    } else {
                        assert(ts[i as int].entity == handled@[k]);
                    }
                }
            }
        }
        proof {
            if !first_for_entity(ts, i as int) {
                assert forall|k: int| 0 <= k < handled@.len() implies came_before(
                    ts,
                    i + 1,
                    #[trigger] handled@[k],
                ) by {
                    assert(came_before(ts, i as int, handled@[k]));
                    let j = choose|j: int| 0 <= j < i && (#[trigger] ts[j]).entity == handled@[k];
                    assert(ts[j].entity == handled@[k]);
                }
            }
        }
        i += 1;
    }
    effects
}

/// Resolves a batch of contacts; see [`resolved`]. Returns the effects for
/// the caller to carry out.
pub fn resolve_contacts<P: Copy>(
    world: &mut World<P>,
    session: &mut Session,
    contacts: &Vec<Contact<P>>,
) -> (effects: Vec<Effect<P>>)
    requires
        old(world).wf(),
        old(session).wf(),
        old(session)@.state == AppState::InGame,
        counts_fit(old(world)@, old(session)@.despawned),
    ensures
        final(world).wf(),
        final(session).wf(),
        counts_fit(final(world)@, final(session)@.despawned),
        ledger_of(final(world)@, final(session)@, effects@) == resolved(
            old(world)@,
            old(session)@.despawned,
            contacts@,
        ),
        final(session)@ == (SessionView {
            despawned: final(session)@.despawned,
            ..old(session)@
        }),
{
    let transitions = classify_contacts(world, contacts);
    apply_transitions(world, session, &transitions)
}

} // verus!
