//! Per-connection relay logic.
//!
//! One connection carries one player. The transport layer decodes each
//! inbound frame into a `ClientEvent` (or `None` when the frame does not
//! decode) and hands it here together with the connection's binding state;
//! `handle_event` applies it to the registry and says what to send back. A
//! `Reply::Advanced` marks a phase transition, so that a transport layer can
//! broadcast it to every connection bound to the same session, not only the
//! sender. On any exit of the connection's task the transport layer calls
//! `handle_disconnect` exactly once.

use vstd::prelude::*;

use crate::game::GameError;
use crate::game::GameState;
use crate::game::PhaseView;
use crate::registry::EntryView;
use crate::registry::Registry;
use crate::registry::id_idx;
use crate::registry::id_taken;
use crate::registry::live_code_taken;
use crate::registry::live_idx;
use crate::registry::registry_wf;

verus! {

/// A typed inbound client event.
#[derive(PartialEq, Debug)]
pub enum ClientEvent {
    /// Join the session holding this code.
    Join { code: u16 },
    /// Signal readiness for the current phase.
    Ready,
    /// Submit this connection's answer.
    SubmitAnswer { text: String },
    /// Acknowledge having viewed the reveal.
    Ack,
    /// Ask for the text back unchanged (debugging aid).
    Echo { msg: String },
}

/// What is sent back on the originating connection; `Advanced` is in
/// addition broadcast to the session's other connections.
#[derive(PartialEq, Debug)]
pub enum Reply {
    /// The join succeeded; the session now counts this many players.
    Joined { players_num: usize },
    /// The signal was counted and the phase advanced to this state.
    Advanced { state: GameState },
    /// The signal was counted; the phase did not change.
    Accepted,
    /// The echoed text.
    Echoed { msg: String },
    /// The event was refused; nothing changed.
    Rejected { error: GameError },
}

/// One connection's binding: the identifier of the session it joined, if
/// any.
#[derive(Clone, Copy, Debug)]
pub struct ConnectionState {
    pub session: Option<u128>,
}

impl ConnectionState {
    /// A connection that has not joined a session yet.
    pub fn new() -> (r: ConnectionState)
        ensures
            r.session is None,
    {
        ConnectionState { session: None }
    }
}

/// Applies one decoded inbound event (`None` for a frame that did not
/// decode) to the registry and the connection's binding, and returns the
/// reply owed to the sender. Every rejected event leaves every session
/// unchanged.
pub fn handle_event(reg: &mut Registry, conn: &mut ConnectionState, msg: Option<ClientEvent>) -> (r:
    Reply)
    requires
        registry_wf(old(reg)@),
    ensures
        registry_wf(final(reg)@),
        !(msg matches Some(ClientEvent::Join { .. })) ==> *final(conn) == *old(conn),
        msg is None ==> *final(reg) == *old(reg) && r == (Reply::Rejected {
            error: GameError::MalformedMessage,
        }),
        msg matches Some(ClientEvent::Echo { msg: m }) ==> *final(reg) == *old(reg) && r == (
        Reply::Echoed { msg: m }),
        msg matches Some(ClientEvent::Join { code }) ==> ({
            if !live_code_taken(old(reg)@, code) {
                &&& *final(reg) == *old(reg)
                &&& *final(conn) == *old(conn)
                &&& r == (Reply::Rejected { error: GameError::NotFound })
            } else {
                let i = live_idx(old(reg)@, code);
                let g = old(reg)@[i].game;
                if g.join_accepted() {
                    &&& final(reg)@ == old(reg)@.update(
                        i,
                        EntryView { id: old(reg)@[i].id, game: g.join_step() },
                    )
                    &&& final(conn).session == Some(old(reg)@[i].id)
                    &&& r matches Reply::Joined { players_num } && players_num
                        == g.join_step().players_num
                } else {
                    &&& final(reg)@ == old(reg)@
                    &&& *final(conn) == *old(conn)
                    &&& r == (Reply::Rejected { error: GameError::InvalidTransition })
                }
            }
        }),
        msg matches Some(ClientEvent::Ready) ==> signal_outcome_ok(
            old(reg)@,
            final(reg)@,
            old(conn).session,
            r,
            SignalKind::Ready,
        ),
        msg matches Some(ClientEvent::SubmitAnswer { text }) ==> signal_outcome_ok(
            old(reg)@,
            final(reg)@,
            old(conn).session,
            r,
            SignalKind::Answer { text: text@ },
        ),
        msg matches Some(ClientEvent::Ack) ==> signal_outcome_ok(
            old(reg)@,
            final(reg)@,
            old(conn).session,
            r,
            SignalKind::Ack,
        ),
{
    match msg {
        None => Reply::Rejected { error: GameError::MalformedMessage },
        Some(ClientEvent::Echo { msg: m }) => Reply::Echoed { msg: m },
        Some(ClientEvent::Join { code }) => {
            match reg.join_by_code(code) {
                Ok((id, players_num)) => {
                    conn.session = Some(id);
                    Reply::Joined { players_num }
                },
                Err(error) => Reply::Rejected { error },
            }
        },
        Some(ClientEvent::Ready) => {
            match conn.session {
                None => Reply::Rejected { error: GameError::InvalidTransition },
                Some(id) => match reg.ready_by_id(id) {
                    Ok((true, state)) => Reply::Advanced { state },
                    Ok((false, _)) => Reply::Accepted,
                    Err(error) => Reply::Rejected { error },
                },
            }
        },
        Some(ClientEvent::SubmitAnswer { text }) => {
            match conn.session {
                None => Reply::Rejected { error: GameError::InvalidTransition },
                Some(id) => match reg.answer_by_id(id, text) {
                    Ok((true, state)) => Reply::Advanced { state },
                    Ok((false, _)) => Reply::Accepted,
                    Err(error) => Reply::Rejected { error },
                },
            }
        },
        Some(ClientEvent::Ack) => {
            match conn.session {
                None => Reply::Rejected { error: GameError::InvalidTransition },
                Some(id) => match reg.ack_by_id(id) {
                    Ok((true, state)) => Reply::Advanced { state },
                    Ok((false, _)) => Reply::Accepted,
                    Err(error) => Reply::Rejected { error },
                },
            }
        },
    }
}

/// The three phase signals a bound connection can send.
pub enum SignalKind {
    Ready,
    Answer { text: Seq<char> },
    Ack,
}

/// Whether the signal is accepted in this phase.
pub open spec fn signal_allowed(g: crate::game::GameView, k: SignalKind) -> bool {
    match k {
        SignalKind::Ready => g.ready_allowed(),
        SignalKind::Answer { .. } => g.answer_allowed(),
        SignalKind::Ack => g.ack_allowed(),
    }
}

/// The session after the signal.
pub open spec fn signal_step(g: crate::game::GameView, k: SignalKind) -> crate::game::GameView {
    match k {
        SignalKind::Ready => g.ready_step(),
        SignalKind::Answer { text } => g.answer_step(text),
        SignalKind::Ack => g.ack_step(),
    }
}

/// Whether this signal is the one that advances the phase.
pub open spec fn signal_advances(g: crate::game::GameView, k: SignalKind) -> bool {
    match k {
        SignalKind::Ready => g.phase == (PhaseView::Starting { pending: 1 }),
        SignalKind::Answer { .. } => g.phase == (PhaseView::Guessing { pending: 1 }),
        SignalKind::Ack => g.phase == (PhaseView::Answers { pending: 1 }),
    }
}

/// The contract of a phase signal sent over a connection: an unbound
/// connection or an unknown session rejects it; a phase that does not
/// expect it rejects it and changes nothing; otherwise the signal is
/// counted, and the reply reports a phase transition exactly when this
/// signal was the one that completed the countdown.
pub open spec fn signal_outcome_ok(
    before: Seq<EntryView>,
    after: Seq<EntryView>,
    session: Option<u128>,
    r: Reply,
    k: SignalKind,
) -> bool {
    match session {
        None => after == before && r == (Reply::Rejected { error: GameError::InvalidTransition }),
        Some(id) => {
            if !id_taken(before, id) {
                after == before && r == (Reply::Rejected { error: GameError::NotFound })
            } else {
                let i = id_idx(before, id);
                let g = before[i].game;
                if signal_allowed(g, k) {
                    &&& after == before.update(i, EntryView { id: id, game: signal_step(g, k) })
                    &&& if signal_advances(g, k) {
                        r matches Reply::Advanced { state } && state@ == signal_step(g, k).phase
                    } else {
                        r == Reply::Accepted
                    }
                } else {
                    after == before && r == (Reply::Rejected {
                        error: GameError::InvalidTransition,
                    })
                }
            }
        },
    }
}

/// The connection's task has ended: its binding is cleared and, when it was
/// bound to a session still present, that session's connection slot is
/// released. Nothing else changes.
pub fn handle_disconnect(reg: &mut Registry, conn: &mut ConnectionState)
    requires
        registry_wf(old(reg)@),
    ensures
        registry_wf(final(reg)@),
        final(conn).session is None,
        match old(conn).session {
            None => *final(reg) == *old(reg),
            Some(id) => {
                if !id_taken(old(reg)@, id) {
                    *final(reg) == *old(reg)
                } else {
                    let i = id_idx(old(reg)@, id);
                    final(reg)@ == old(reg)@.update(
                        i,
                        EntryView { id: id, game: old(reg)@[i].game.disconnect_step() },
                    )
                }
            },
        },
{
    match conn.session {
        None => {},
        Some(id) => {
            reg.disconnect_by_id(id);
        },
    }
    conn.session = None;
}

} // verus!
