//! A game as a whole: a world, a session, and the events that happen to
//! them.
//!
//! Three things happen to a game: an entity of the scene is registered, a
//! tick is played, a button is pressed. The functions that carry them out,
//! [`crate::scene::register`], [`crate::flow::advance`] and
//! [`crate::flow::Session::restart`], are specified by [`after_event`].
use crate::contact::Contact;
use crate::entity::{Entity, EntityId};
use crate::flow::{
    next_state, restart_due, restarted, session_after_tick, session_wf, ticked, AppState,
    SessionView, Signal,
};
use crate::model::{distinct_ids, outside_scene};
use crate::roster::score_of;
use crate::scene::{registered, SceneKind};
use vstd::prelude::*;

verus! {

/// A game: the world and the session.
pub struct Game<P> {
    pub entities: Seq<Entity<P>>,
    pub session: SessionView,
}

/// What can happen to a game.
pub enum Event<P> {
    /// A named entity of the scene is registered.
    Register { id: EntityId, kind: SceneKind, position: P },
    /// A tick is played, with the players that strayed and the contacts that
    /// began.
    Tick { strays: Seq<EntityId>, contacts: Seq<Contact<P>> },
    /// A key or a button is pressed.
    Press,
}

/// What every game satisfies.
pub open spec fn game_wf<P>(g: Game<P>) -> bool {
    distinct_ids(g.entities) && session_wf(g.session)
}

/// The score of a game.
pub open spec fn game_score<P>(g: Game<P>) -> nat {
    score_of(g.entities, g.session.despawned)
}

/// The game after an event.
pub open spec fn after_event<P>(g: Game<P>, e: Event<P>) -> Game<P> {
    match e {
        Event::Register { id, kind, position } => Game {
            entities: registered(g.entities, id, kind, position),
            session: if kind == SceneKind::Goal {
                SessionView { state: next_state(g.session.state, Signal::GoalReady), ..g.session }
            } else {
                g.session
            },
        },
        Event::Tick { strays, contacts } => Game {
            entities: ticked(g.entities, g.session, strays, contacts).entities,
            session: session_after_tick(g.entities, g.session, strays, contacts),
        },
        Event::Press => if restart_due(g.session.state, true) {
            Game { entities: outside_scene(g.entities), session: restarted(g.session) }
        } else {
            g
        },
    }
}

/// The game after the first `n` of a run of events.
pub open spec fn after_events<P>(g: Game<P>, events: Seq<Event<P>>, n: nat) -> Game<P>
    decreases n,
{
    if n == 0 {
        g
    } else {
        after_event(after_events(g, events, (n - 1) as nat), events[n - 1])
    }
}

/// Whether the game is running before each of the first `n` events of a run.
pub open spec fn in_game_throughout<P>(g: Game<P>, events: Seq<Event<P>>, n: nat) -> bool {
    forall|k: nat|
        k < n ==> (#[trigger] after_events(g, events, k)).session.state == AppState::InGame
}

} // verus!
