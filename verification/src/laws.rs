//! What holds of every game, whatever happens in it. The laws are stated
//! over the events of [`crate::game`] and over runs of them.
use crate::contact::{
    applied, contact_transitions, kill_reset_done, kill_reset_of, lemma_benched, lemma_picked_up,
    party_entry_of, pickup_of, resolved, respawn_point, transitions_of, Change, Contact,
    Transition,
};
use crate::effect::{Effect, Ledger};
use crate::entity::{Entity, EntityId, Tag};
use crate::flow::{lemma_ticked, AppState};
use crate::game::{
    after_event, after_events, game_score, game_wf, in_game_throughout, Event, Game,
};
use crate::model::{
    contains_id, count_tag, distinct_ids, has_tag, lemma_count_member, lemma_count_none,
    lemma_count_push, lemma_distinct_push, lemma_outside_scene, lemma_slot_valid, oldest_with,
    slot_of,
};
use crate::roster::{delivered, lemma_delivered, party_fits, DISPLAY_CAP};
use crate::scene::scene_entity;
use vstd::prelude::*;

verus! {

/// No entity is ever two of collectable, player and party animal.
pub proof fn lemma_roles_exclude_each_other<P>(s: Seq<Entity<P>>, id: EntityId)
    ensures
        !(has_tag(s, id, Tag::Collectable) && has_tag(s, id, Tag::Player)),
        !(has_tag(s, id, Tag::Collectable) && has_tag(s, id, Tag::PartyAnimal)),
        !(has_tag(s, id, Tag::Player) && has_tag(s, id, Tag::PartyAnimal)),
        forall|i: int|
            0 <= i < s.len() ==> {
                let e = #[trigger] s[i];
                &&& !(e.has(Tag::Collectable) && e.has(Tag::Player))
                &&& !(e.has(Tag::Collectable) && e.has(Tag::PartyAnimal))
                &&& !(e.has(Tag::Player) && e.has(Tag::PartyAnimal))
            },
{
}

/// Every event leaves a game a game: identifiers stay distinct, and a
/// session in the main menu has nothing counted.
pub proof fn lemma_event_keeps_game<P>(g: Game<P>, e: Event<P>)
    requires
        game_wf(g),
    ensures
        game_wf(after_event(g, e)),
{
    match e {
        Event::Register { id, kind, position } => {
            match scene_entity(id, kind, position) {
                Some(entity) => {
                    if !contains_id(g.entities, entity.id) {
                        lemma_distinct_push(g.entities, entity);
                    }
                },
                None => {},
            }
        },
        Event::Tick { strays, contacts } => {
            lemma_ticked(g.entities, g.session, strays, contacts);
        },
        Event::Press => {
            lemma_outside_scene(g.entities);
        },
    }
}

/// The count of removed party animals never goes down within a session and
/// is exactly zero whenever the main menu is entered. It goes up only while
/// the game is running.
pub proof fn lemma_removed_count<P>(g: Game<P>, e: Event<P>)
    requires
        game_wf(g),
    ensures
        ({
            let h = after_event(g, e);
            let enters_menu = h.session.state == AppState::MainMenu && g.session.state
                != AppState::MainMenu;
            &&& enters_menu ==> h.session.despawned == 0
            &&& h.session.state == AppState::MainMenu ==> h.session.despawned == 0
            &&& !enters_menu ==> h.session.despawned >= g.session.despawned
            &&& g.session.state != AppState::InGame ==> h.session.despawned <= g.session.despawned
        }),
{
    lemma_event_keeps_game(g, e);
    match e {
        Event::Tick { strays, contacts } => {
            lemma_ticked(g.entities, g.session, strays, contacts);
        },
        _ => {},
    }
}

/// While the game is running, no event makes the score go down.
pub proof fn lemma_score_in_game<P>(g: Game<P>, e: Event<P>)
    requires
        game_wf(g),
        g.session.state == AppState::InGame,
    ensures
        game_score(after_event(g, e)) >= game_score(g),
        after_event(g, e).session.despawned >= g.session.despawned,
{
    match e {
        Event::Register { id, kind, position } => {
            match scene_entity(id, kind, position) {
                Some(entity) => {
                    lemma_count_push(g.entities, entity, Tag::PartyAnimal);
                },
                None => {},
            }
        },
        Event::Tick { strays, contacts } => {
            lemma_ticked(g.entities, g.session, strays, contacts);
        },
        Event::Press => {},
    }
}

/// Over a run of events throughout which the game is running, neither the
/// score nor the count of removed party animals goes down.
pub proof fn lemma_score_over_run<P>(g: Game<P>, events: Seq<Event<P>>, n: nat)
    requires
        game_wf(g),
        n <= events.len(),
        in_game_throughout(g, events, n),
    ensures
        game_wf(after_events(g, events, n)),
        game_score(after_events(g, events, n)) >= game_score(g),
        after_events(g, events, n).session.despawned >= g.session.despawned,
    decreases n,
{
    if n > 0 {
        let m = (n - 1) as nat;
        assert(in_game_throughout(g, events, m)) by {
            assert forall|k: nat| k < m implies (#[trigger] after_events(
                g,
                events,
                k,
            )).session.state == AppState::InGame by {
                assert(k < n);
            }
        }
        lemma_score_over_run(g, events, m);
        let before = after_events(g, events, m);
        assert(before.session.state == AppState::InGame);
        lemma_event_keeps_game(before, events[n - 1]);
        lemma_score_in_game(before, events[n - 1]);
    }
}

/// The party stays small: where no more party animals are seen than one above
/// the cap, no event brings more of them into sight.
pub proof fn lemma_party_stays_small<P>(g: Game<P>, e: Event<P>)
    requires
        game_wf(g),
        party_fits(g.entities),
    ensures
        party_fits(after_event(g, e).entities),
{
    match e {
        Event::Register { id, kind, position } => {
            match scene_entity(id, kind, position) {
                Some(entity) => {
                    lemma_count_push(g.entities, entity, Tag::PartyAnimal);
                },
                None => {},
            }
        },
        Event::Tick { strays, contacts } => {
            lemma_ticked(g.entities, g.session, strays, contacts);
        },
        Event::Press => {
            lemma_outside_scene(g.entities);
        },
    }
}

/// A kill wall never takes the last player: where the roster has one player
/// and that player touches a kill wall, the world stays as it is and the
/// player is only put back where it spawned. From a larger roster the player
/// is taken, and at least one player is left.
pub proof fn lemma_kill_reset_spares_last_player<P>(o: Ledger<P>, id: EntityId)
    requires
        distinct_ids(o.entities),
        has_tag(o.entities, id, Tag::Player),
    ensures
        respawn_point(o.entities, id) is Some,
        kill_reset_done(o, id).effects == o.effects.push(
            Effect::Respawn { entity: id, at: respawn_point(o.entities, id)->0 },
        ),
        kill_reset_done(o, id).despawned == o.despawned,
        count_tag(kill_reset_done(o, id).entities, Tag::Player) >= 1,
        count_tag(o.entities, Tag::Player) == 1 ==> kill_reset_done(o, id).entities == o.entities,
        count_tag(o.entities, Tag::Player) > 1 ==> {
            &&& !has_tag(kill_reset_done(o, id).entities, id, Tag::Player)
            &&& count_tag(kill_reset_done(o, id).entities, Tag::Player) + 1 == count_tag(
                o.entities,
                Tag::Player,
            )
        },
{
    lemma_slot_valid(o.entities, id);
    lemma_count_member(o.entities, slot_of(o.entities, id), Tag::Player);
    lemma_benched(o.entities, id);
}

/// Whether none of the first `n` transitions is a party entry.
pub open spec fn no_party_entry<P>(ts: Seq<Transition<P>>, n: nat) -> bool {
    forall|i: int| 0 <= i < n ==> !((#[trigger] ts[i]).change is PartyEntry)
}

/// Kill walls and pickups alone never empty the roster: going through
/// transitions none of which is a party entry, a roster that has a player
/// keeps one.
pub proof fn lemma_roster_survives_walls<P>(start: Ledger<P>, ts: Seq<Transition<P>>, n: nat)
    requires
        distinct_ids(start.entities),
        n <= ts.len(),
        no_party_entry(ts, n),
        count_tag(start.entities, Tag::Player) >= 1,
    ensures
        distinct_ids(applied(start, ts, n).entities),
        count_tag(applied(start, ts, n).entities, Tag::Player) >= 1,
        applied(start, ts, n).despawned == start.despawned,
        count_tag(applied(start, ts, n).entities, Tag::PartyAnimal) == count_tag(
            start.entities,
            Tag::PartyAnimal,
        ),
    decreases n,
{
    if n > 0 {
        let m = (n - 1) as nat;
        assert(no_party_entry(ts, m));
        lemma_roster_survives_walls(start, ts, m);
        let before = applied(start, ts, m);
        let t = ts[n - 1];
        match t.change {
            Change::Pickup { at } => {
                lemma_picked_up(before.entities, t.entity, at);
            },
            Change::KillReset => {
                lemma_benched(before.entities, t.entity);
            },
            Change::PartyEntry => {},
        }
    }
}

/// In a world without a party zone no contact sets off a party entry.
pub proof fn lemma_no_zone_no_entry<P>(s: Seq<Entity<P>>, contacts: Seq<Contact<P>>)
    requires
        count_tag(s, Tag::PartyZone) == 0,
    ensures
        no_party_entry(transitions_of(s, contacts), transitions_of(s, contacts).len()),
    decreases contacts.len(),
{
    if contacts.len() > 0 {
        lemma_no_zone_no_entry(s, contacts.drop_last());
        let c = contacts.last();
        lemma_count_none(s, Tag::PartyZone);
        assert forall|id: EntityId| !has_tag(s, id, Tag::PartyZone) by {
            if contains_id(s, id) {
                lemma_slot_valid(s, id);
            }
        }
        let head = transitions_of(s, contacts.drop_last());
        let tail = contact_transitions(s, c);
        assert(party_entry_of(s, c.first, c.second) =~= Seq::empty());
        assert(party_entry_of(s, c.second, c.first) =~= Seq::empty());
        assert forall|i: int| 0 <= i < tail.len() implies !((
        #[trigger] tail[i]).change is PartyEntry) by {
            let a = pickup_of(s, c.first, c.first_position, c.second);
            let b = pickup_of(s, c.second, c.second_position, c.first);
            let k = kill_reset_of(s, c.first, c.second);
            let l = kill_reset_of(s, c.second, c.first);
            assert(tail =~= a + b + k + l);
        }
        let all = transitions_of(s, contacts);
        assert forall|i: int| 0 <= i < all.len() implies !((
        #[trigger] all[i]).change is PartyEntry) by {
            if i < head.len() {
                assert(all[i] == head[i]);
            } else {
                assert(all[i] == tail[i - head.len()]);
            }
        }
    }
}

/// Only the leash and the party empty the roster: in a world without a party
/// zone, a roster that has a player keeps one through any batch of contacts,
/// however many of them are with kill walls.
pub proof fn lemma_contacts_without_zone_keep_roster<P>(
    s: Seq<Entity<P>>,
    despawned: nat,
    contacts: Seq<Contact<P>>,
)
    requires
        distinct_ids(s),
        count_tag(s, Tag::PartyZone) == 0,
        count_tag(s, Tag::Player) >= 1,
    ensures
        count_tag(resolved(s, despawned, contacts).entities, Tag::Player) >= 1,
        resolved(s, despawned, contacts).despawned == despawned,
{
    let ts = transitions_of(s, contacts);
    lemma_no_zone_no_entry(s, contacts);
    lemma_roster_survives_walls(
        Ledger { entities: s, despawned, effects: Seq::empty() },
        ts,
        ts.len(),
    );
}

/// A delivery above the cap makes exactly one party animal leave, the oldest,
/// counts it, and leaves as many to be seen as before; see
/// [`crate::roster::lemma_delivered`] for the full account.
pub proof fn lemma_delivery_above_cap<P>(o: Ledger<P>, id: EntityId)
    requires
        distinct_ids(o.entities),
        has_tag(o.entities, id, Tag::Player),
        count_tag(o.entities, Tag::PartyAnimal) > DISPLAY_CAP,
    ensures
        delivered(o, id).despawned == o.despawned + 1,
        delivered(o, id).entities.len() + 1 == o.entities.len(),
        count_tag(delivered(o, id).entities, Tag::PartyAnimal) == count_tag(
            o.entities,
            Tag::PartyAnimal,
        ),
        oldest_with(o.entities, Tag::PartyAnimal) is Some,
        !contains_id(
            delivered(o, id).entities,
            oldest_with(o.entities, Tag::PartyAnimal)->0,
        ),
        delivered(o, id).effects == o.effects.push(
            Effect::Despawn { entity: oldest_with(o.entities, Tag::PartyAnimal)->0 },
        ).push(Effect::Tint { entity: id }),
{
    lemma_delivered(o, id);
}

} // verus!
