//! The three states of a session and what moves it from one to the next.
use crate::contact::{lemma_applied, resolve_contacts, resolved, transitions_of, Contact};
use crate::effect::{counts_fit, Effect, Ledger};
use crate::entity::{Entity, EntityId, Tag};
use crate::game::{after_event, Event, Game};
use crate::herd::{lemma_released, release_strays, released};
use crate::model::{count_tag, distinct_ids, lemma_count_bound, outside_scene};
use crate::roster::{ledger_of, party_fits, score, score_of};
use crate::text::{banner, banner_place, banner_text, BannerPlace};
use crate::world::World;
use vstd::prelude::*;

verus! {

/// The states of a session. Exactly one is active at a time.
#[derive(Clone, Copy, PartialEq, Eq, Structural, Debug, Hash)]
pub enum AppState {
    /// Waiting for the level to be ready. Every session starts here.
    MainMenu,
    /// The herd is being led.
    InGame,
    /// No player is left; the final score is shown.
    GameOver,
}

/// What can move a session to its next state.
#[derive(Clone, Copy, PartialEq, Eq, Structural, Debug, Hash)]
pub enum Signal {
    /// The goal of the level has its colliders.
    GoalReady,
    /// No entity is a player any more.
    RosterEmpty,
    /// A key or a gamepad button went down.
    ButtonPressed,
}

/// The state that follows `state` on `signal`. The states form one cycle,
/// main menu, in game, game over and back; a signal that the current state does
/// not wait for changes nothing.
pub open spec fn next_state(state: AppState, signal: Signal) -> AppState {
    match (state, signal) {
        (AppState::MainMenu, Signal::GoalReady) => AppState::InGame,
        (AppState::InGame, Signal::RosterEmpty) => AppState::GameOver,
        (AppState::GameOver, Signal::ButtonPressed) => AppState::MainMenu,
        _ => state,
    }
}

/// Computes [`next_state`].
pub fn transition(state: AppState, signal: Signal) -> (next: AppState)
    ensures
        next == next_state(state, signal),
{
    match (state, signal) {
        (AppState::MainMenu, Signal::GoalReady) => AppState::InGame,
        (AppState::InGame, Signal::RosterEmpty) => AppState::GameOver,
        (AppState::GameOver, Signal::ButtonPressed) => AppState::MainMenu,
        _ => state,
    }
}

/// What a session holds, as plain values.
pub struct SessionView {
    pub state: AppState,
    /// Party animals removed to keep the party small; they still count.
    pub despawned: nat,
    /// The root of the loaded scene, while one is loaded.
    pub scene_root: Option<EntityId>,
    /// The root of the text shown on screen, while one is shown.
    pub ui_root: Option<EntityId>,
}

/// A session in the main menu has nothing counted yet.
pub open spec fn session_wf(v: SessionView) -> bool {
    v.state == AppState::MainMenu ==> v.despawned == 0
}

/// The state of one game session. It is handed by reference to the functions
/// that keep the roster and drive the flow, and to nothing else.
pub struct Session {
    state: AppState,
    despawned: u64,
    scene_root: Option<EntityId>,
    ui_root: Option<EntityId>,
}

impl View for Session {
    type V = SessionView;

    closed spec fn view(&self) -> SessionView {
        SessionView {
            state: self.state,
            despawned: self.despawned as nat,
            scene_root: self.scene_root,
            ui_root: self.ui_root,
        }
    }
}

impl Session {
    /// What every session satisfies.
    pub open spec fn wf(&self) -> bool {
        &&& session_wf(self@)
        &&& self@.despawned <= u64::MAX
    }

    /// A session in the main menu, with nothing counted, loaded or shown.
    pub fn new() -> (s: Session)
        ensures
            s.wf(),
            s@ == (SessionView {
                state: AppState::MainMenu,
                despawned: 0,
                scene_root: None,
                ui_root: None,
            }),
    {
        Session { state: AppState::MainMenu, despawned: 0, scene_root: None, ui_root: None }
    }

    /// The active state.
    pub fn state(&self) -> (r: AppState)
        ensures
            r == self@.state,
    {
        self.state
    }

    /// How many party animals were removed to keep the party small.
    pub fn despawned_count(&self) -> (r: u64)
        ensures
            r == self@.despawned,
    {
        self.despawned
    }

    /// The root of the loaded scene.
    pub fn scene_root(&self) -> (r: Option<EntityId>)
        ensures
            r == self@.scene_root,
    {
        self.scene_root
    }

    /// The root of the text on screen.
    pub fn ui_root(&self) -> (r: Option<EntityId>)
        ensures
            r == self@.ui_root,
    {
        self.ui_root
    }

    /// Records the root of the scene that was just loaded.
    pub fn scene_spawned(&mut self, root: EntityId)
        requires
            old(self).wf(),
        ensures
            final(self).wf(),
            final(self)@ == (SessionView { scene_root: Some(root), ..old(self)@ }),
    {
        self.scene_root = Some(root);
    }

    /// Records the root of the text that was just put on screen.
    pub fn ui_built(&mut self, root: EntityId)
        requires
            old(self).wf(),
        ensures
            final(self).wf(),
            final(self)@ == (SessionView { ui_root: Some(root), ..old(self)@ }),
    {
        self.ui_root = Some(root);
    }

    /// Takes the signal that the goal of the level is ready: the main menu
    /// gives way to the game, any other state stays. Returns whether the state
    /// changed.
    pub fn goal_ready(&mut self) -> (entered: bool)
        requires
            old(self).wf(),
        ensures
            final(self).wf(),
            final(self)@ == (SessionView {
                state: next_state(old(self)@.state, Signal::GoalReady),
                ..old(self)@
            }),
            entered == (old(self)@.state == AppState::MainMenu),
    {
        let next = transition(self.state, Signal::GoalReady);
        let entered = next != self.state;
        self.state = next;
        entered
    }

    /// Counts one party animal that was removed to keep the party small.
    pub(crate) fn credit_despawn(&mut self)
        requires
            old(self).wf(),
            old(self)@.state == AppState::InGame,
            old(self)@.despawned < u64::MAX,
        ensures
            final(self).wf(),
            final(self)@ == (SessionView { despawned: old(self)@.despawned + 1, ..old(self)@ }),
    {
        self.despawned = self.despawned + 1;
    }
}

/// Whether the game is over: it is running and no entity is a player.
pub open spec fn game_over_due<P>(s: Seq<Entity<P>>, state: AppState) -> bool {
    state == AppState::InGame && count_tag(s, Tag::Player) == 0
}

/// The session after the roster was looked at: a running game without a
/// player is over.
pub open spec fn after_check<P>(s: Seq<Entity<P>>, v: SessionView) -> SessionView {
    if game_over_due(s, v.state) {
        SessionView { state: next_state(v.state, Signal::RosterEmpty), ..v }
    } else {
        v
    }
}

/// Whether a press of a button starts a new session: only after a game.
pub open spec fn restart_due(state: AppState, pressed: bool) -> bool {
    state == AppState::GameOver && pressed
}

/// The session after a restart: back in the main menu, nothing counted, no
/// scene loaded. The text on screen stays until it is refreshed.
pub open spec fn restarted(v: SessionView) -> SessionView {
    SessionView {
        state: next_state(v.state, Signal::ButtonPressed),
        despawned: 0,
        scene_root: None,
        ui_root: v.ui_root,
    }
}

/// The ledger after one tick. While the game runs, the strays are left behind
/// and then the contacts are resolved. In the main menu and after the game a
/// tick leaves the world and the counters as they are.
pub open spec fn ticked<P>(
    s: Seq<Entity<P>>,
    v: SessionView,
    strays: Seq<EntityId>,
    contacts: Seq<Contact<P>>,
) -> Ledger<P> {
    if v.state == AppState::InGame {
        resolved(released(s, strays), v.despawned, contacts)
    } else {
        Ledger { entities: s, despawned: v.despawned, effects: Seq::empty() }
    }
}

/// The session after one tick: the count of removed party animals is that of
/// the ledger, and a game whose roster the tick has emptied is over.
pub open spec fn session_after_tick<P>(
    s: Seq<Entity<P>>,
    v: SessionView,
    strays: Seq<EntityId>,
    contacts: Seq<Contact<P>>,
) -> SessionView {
    let o = ticked(s, v, strays, contacts);
    after_check(o.entities, SessionView { despawned: o.despawned, ..v })
}

/// What a tick keeps: the world well formed, the sum of entities and removed
/// party animals, and a session in the main menu at nothing counted. The
/// count of removed party animals and the score do not go down, a party that
/// is no more than one above the cap stays so, and outside a running game the
/// world and the counters stay as they are.
pub proof fn lemma_ticked<P>(
    s: Seq<Entity<P>>,
    v: SessionView,
    strays: Seq<EntityId>,
    contacts: Seq<Contact<P>>,
)
    requires
        distinct_ids(s),
    ensures
        distinct_ids(ticked(s, v, strays, contacts).entities),
        ticked(s, v, strays, contacts).entities.len() + ticked(s, v, strays, contacts).despawned
            == s.len() + v.despawned,
        ticked(s, v, strays, contacts).despawned >= v.despawned,
        score_of(
            ticked(s, v, strays, contacts).entities,
            ticked(s, v, strays, contacts).despawned,
        ) >= score_of(s, v.despawned),
        v.state != AppState::InGame ==> ticked(s, v, strays, contacts) == (Ledger::<P> {
            entities: s,
            despawned: v.despawned,
            effects: Seq::empty(),
        }),
        session_wf(v) ==> session_wf(session_after_tick(s, v, strays, contacts)),
        party_fits(s) ==> party_fits(ticked(s, v, strays, contacts).entities),
{
    if v.state == AppState::InGame {
        lemma_released(s, strays);
        let herd = released(s, strays);
        let ts = transitions_of(herd, contacts);
        lemma_applied(
            Ledger { entities: herd, despawned: v.despawned, effects: Seq::empty() },
            ts,
            ts.len(),
        );
    }
}

/// What a restart hands to the caller.
#[derive(Clone, Copy, PartialEq, Eq, Structural, Debug, Hash)]
pub struct Restart {
    /// The root of the scene to destroy, with everything that hangs on it.
    pub scene_root: Option<EntityId>,
}

/// What a tick hands to the caller.
pub struct Tick<P> {
    /// What to do to the entities, in this order.
    pub effects: Vec<Effect<P>>,
    /// The final score, where this tick has ended the game.
    pub final_score: Option<u64>,
}

/// What a refresh of the text on screen hands to the caller.
pub struct UiRefresh {
    /// The root of the old text, to destroy.
    pub discard: Option<EntityId>,
    /// The line to show.
    pub text: String,
    /// Where to show it.
    pub place: BannerPlace,
}

/// The line that a session shows. After a game the animals brought to the
/// party are set against the possible total, and both numbers are the score.
pub open spec fn session_text<P>(s: Seq<Entity<P>>, v: SessionView) -> Seq<char> {
    banner_text(v.state, score_of(s, v.despawned), score_of(s, v.despawned))
}

impl Session {
    /// Looks at the roster: a running game in which no entity is a player is
    /// over. Returns the final score where the game has just ended.
    pub fn check_game_over<P: Copy>(&mut self, world: &World<P>) -> (final_score: Option<u64>)
        requires
            old(self).wf(),
            counts_fit(world@, old(self)@.despawned),
        ensures
            final(self).wf(),
            final(self)@ == after_check(world@, old(self)@),
            final_score == if game_over_due(world@, old(self)@.state) {
                Some(score_of(world@, old(self)@.despawned) as u64)
            } else {
                None
            },
            score_of(world@, old(self)@.despawned) <= u64::MAX,
    {
        proof {
            lemma_count_bound(world@, Tag::PartyAnimal);
        }
        match self.state {
            AppState::InGame => {
                if world.count(Tag::Player) == 0 {
                    let total = score(world, self);
                    self.state = transition(self.state, Signal::RosterEmpty);
                    Some(total)
                } else {
                    None
                }
            },
            _ => None,
        }
    }

    /// Takes a press of a key or button. After a game it starts a new
    /// session: the scene is taken out of the world, the count of removed
    /// party animals goes back to zero, and the main menu is entered. In any
    /// other state, and without a press, nothing happens and `None` is
    /// returned.
    pub fn restart<P: Copy>(&mut self, world: &mut World<P>, pressed: bool) -> (r: Option<Restart>)
        requires
            old(self).wf(),
            old(world).wf(),
        ensures
            final(self).wf(),
            final(world).wf(),
            restart_due(old(self)@.state, pressed) ==> {
                &&& final(self)@ == restarted(old(self)@)
                &&& final(self)@.state == AppState::MainMenu
                &&& final(self)@.despawned == 0
                &&& final(world)@ == outside_scene(old(world)@)
                &&& r == Some(Restart { scene_root: old(self)@.scene_root })
            },
            !restart_due(old(self)@.state, pressed) ==> {
                &&& final(self)@ == old(self)@
                &&& final(world)@ == old(world)@
                &&& r is None
            },
            pressed ==> (Game { entities: final(world)@, session: final(self)@ }) == after_event(
                Game { entities: old(world)@, session: old(self)@ },
                Event::<P>::Press,
            ),
    {
        match self.state {
            AppState::GameOver => {
                if pressed {
                    let scene_root = self.scene_root;
                    world.teardown_scene();
                    self.despawned = 0;
                    self.scene_root = None;
                    self.state = transition(self.state, Signal::ButtonPressed);
                    Some(Restart { scene_root })
                } else {
                    None
                }
            },
            _ => None,
        }
    }

    /// Prepares the text for the state that was just entered: the old text is
    /// handed out to be destroyed, and the line and its place are those of the
    /// state. The caller builds the text and reports its root with
    /// [`Session::ui_built`].
    pub fn refresh_ui<P: Copy>(&mut self, world: &World<P>) -> (r: UiRefresh)
        requires
            old(self).wf(),
            counts_fit(world@, old(self)@.despawned),
        ensures
            final(self).wf(),
            final(self)@ == (SessionView { ui_root: None, ..old(self)@ }),
            r.discard == old(self)@.ui_root,
            r.text@ == session_text(world@, old(self)@),
            r.place == if old(self)@.state == AppState::InGame {
                BannerPlace::Edge
            } else {
                BannerPlace::Center
            },
    {
        let total = score(world, self);
        let discard = self.ui_root;
        self.ui_root = None;
        UiRefresh {
            discard,
            text: banner(self.state, total, total),
            place: banner_place(self.state),
        }
    }
}

/// Plays one tick; see [`ticked`] and [`session_after_tick`]. `strays` are
/// the players that have gone too far from the herd, `contacts` the contacts
/// that began since the last tick.
pub fn advance<P: Copy>(
    world: &mut World<P>,
    session: &mut Session,
    strays: &Vec<EntityId>,
    contacts: &Vec<Contact<P>>,
) -> (tick: Tick<P>)
    requires
        old(world).wf(),
        old(session).wf(),
        counts_fit(old(world)@, old(session)@.despawned),
    ensures
        final(world).wf(),
        final(session).wf(),
        counts_fit(final(world)@, final(session)@.despawned),
        ledger_of(final(world)@, final(session)@, tick.effects@) == ticked(
            old(world)@,
            old(session)@,
            strays@,
            contacts@,
        ),
        final(session)@ == session_after_tick(old(world)@, old(session)@, strays@, contacts@),
        tick.final_score == if game_over_due(final(world)@, old(session)@.state) {
            Some(score_of(final(world)@, final(session)@.despawned) as u64)
        } else {
            None
        },
        (Game { entities: final(world)@, session: final(session)@ }) == after_event(
            Game { entities: old(world)@, session: old(session)@ },
            Event::Tick { strays: strays@, contacts: contacts@ },
        ),
{
    proof {
        lemma_ticked(world@, session@, strays@, contacts@);
    }
    match session.state() {
        AppState::InGame => {
            proof {
                lemma_released(world@, strays@);
            }
            release_strays(world, strays);
            let effects = resolve_contacts(world, session, contacts);
            let final_score = session.check_game_over(world);
            Tick { effects, final_score }
        },
        _ => Tick { effects: Vec::new(), final_score: None },
    }
}


} // verus!
