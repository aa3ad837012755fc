//! Laws of the session state machine.
//!
//! The lemmas here state, over the model in [`crate::game`], the global
//! guarantees of a session: the phase never regresses, the player count is
//! exactly the number of accepted joins, the countdown in the starting phase
//! is the player count less the accepted readiness signals, the countdown
//! crosses zero under exactly one signal, and the answers never outnumber
//! the players. Because all mutation of one session is serialized, every
//! concurrent history of a session is one of the event sequences quantified
//! over here.

use vstd::prelude::*;

use crate::game::GameView;
use crate::game::PhaseView;
use crate::game::phase_rank;

verus! {

/// One session-directed event, abstracted from the connection that sent it.
pub enum GameEvent {
    Join,
    Ready,
    Answer { text: Seq<char> },
    Ack,
    Disconnect,
}

/// Whether the session's phase accepts the event.
pub open spec fn event_allowed(g: GameView, e: GameEvent) -> bool {
    match e {
        GameEvent::Join => g.joinable(),
        GameEvent::Ready => g.ready_allowed(),
        GameEvent::Answer { .. } => g.answer_allowed(),
        GameEvent::Ack => g.ack_allowed(),
        GameEvent::Disconnect => true,
    }
}

/// The session after one event; a rejected event changes nothing.
pub open spec fn event_step(g: GameView, e: GameEvent) -> GameView {
    match e {
        GameEvent::Join => g.join_step(),
        GameEvent::Ready => g.ready_step(),
        GameEvent::Answer { text } => g.answer_step(text),
        GameEvent::Ack => g.ack_step(),
        GameEvent::Disconnect => g.disconnect_step(),
    }
}

/// The session after a sequence of events, applied in order.
pub open spec fn apply_events(g: GameView, evs: Seq<GameEvent>) -> GameView
    decreases evs.len(),
{
    if evs.len() == 0 {
        g
    } else {
        apply_events(event_step(g, evs.first()), evs.drop_first())
    }
}

/// How many of the events are joins accepted in the phase they arrive in.
pub open spec fn accepted_joins(g: GameView, evs: Seq<GameEvent>) -> nat
    decreases evs.len(),
{
    if evs.len() == 0 {
        0
    } else {
        (if evs.first() is Join && event_allowed(g, evs.first()) {
            1 as nat
        } else {
            0 as nat
        }) + accepted_joins(event_step(g, evs.first()), evs.drop_first())
    }
}

/// How many of the events are readiness signals accepted in the phase they
/// arrive in.
pub open spec fn accepted_readies(g: GameView, evs: Seq<GameEvent>) -> nat
    decreases evs.len(),
{
    if evs.len() == 0 {
        0
    } else {
        (if evs.first() is Ready && event_allowed(g, evs.first()) {
            1 as nat
        } else {
            0 as nat
        }) + accepted_readies(event_step(g, evs.first()), evs.drop_first())
    }
}

/// Every event preserves session well-formedness.
pub proof fn lemma_wf_preserved(g: GameView, e: GameEvent)
    requires
        g.wf(),
    ensures
        event_step(g, e).wf(),
{
}

/// The phase never regresses: no single event moves a session backward in
/// the fixed life cycle.
pub proof fn lemma_phase_monotonic(g: GameView, e: GameEvent)
    ensures
        phase_rank(event_step(g, e).phase) >= phase_rank(g.phase),
{
}

/// The phase never regresses under any sequence of events.
pub proof fn lemma_phase_monotonic_events(g: GameView, evs: Seq<GameEvent>)
    ensures
        phase_rank(apply_events(g, evs).phase) >= phase_rank(g.phase),
    decreases evs.len(),
{
    if evs.len() > 0 {
        lemma_phase_monotonic(g, evs.first());
        lemma_phase_monotonic_events(event_step(g, evs.first()), evs.drop_first());
    }
}

/// The counting invariant carried through any event sequence: taking
/// `joins` and `readies` as the accepted joins and readiness signals so far
/// (counted from the session's creation), the player count equals the
/// accepted joins, and in the starting phase the countdown equals the
/// player count less the accepted readiness signals.
pub open spec fn counting_inv(g: GameView, joins: nat, readies: nat) -> bool {
    &&& g.players_num == joins
    &&& (g.phase is WaitingToStart ==> joins == 0 && readies == 0)
    &&& (g.phase matches PhaseView::Starting { pending } ==> pending + readies == joins)
}

/// One event keeps the counting invariant, with the counters advanced by
/// whether the event was an accepted join or readiness signal.
pub proof fn lemma_counting_inv_step(g: GameView, e: GameEvent, joins: nat, readies: nat)
    requires
        g.wf(),
        counting_inv(g, joins, readies),
    ensures
        counting_inv(
            event_step(g, e),
            joins + (if e is Join && event_allowed(g, e) {
                1 as nat
            } else {
                0 as nat
            }),
            readies + (if e is Ready && event_allowed(g, e) {
                1 as nat
            } else {
                0 as nat
            }),
        ),
{
}

/// For any sequence of events applied to a session satisfying the counting
/// invariant, the result still satisfies it with the counters advanced by
/// the accepted joins and readiness signals in the sequence.
pub proof fn lemma_counting_inv_events(g: GameView, evs: Seq<GameEvent>, joins: nat, readies: nat)
    requires
        g.wf(),
        counting_inv(g, joins, readies),
    ensures
        apply_events(g, evs).wf(),
        counting_inv(
            apply_events(g, evs),
            joins + accepted_joins(g, evs),
            readies + accepted_readies(g, evs),
        ),
    decreases evs.len(),
{
    if evs.len() > 0 {
        let e = evs.first();
        lemma_wf_preserved(g, e);
        lemma_counting_inv_step(g, e, joins, readies);
        lemma_counting_inv_events(
            event_step(g, e),
            evs.drop_first(),
            joins + (if e is Join && event_allowed(g, e) {
                1 as nat
            } else {
                0 as nat
            }),
            readies + (if e is Ready && event_allowed(g, e) {
                1 as nat
            } else {
                0 as nat
            }),
        );
    }
}

/// From creation, after any sequence of events, the player count equals the
/// number of accepted joins, and in the starting phase the countdown equals
/// the player count less the number of accepted readiness signals.
pub proof fn lemma_counters_count_events(code: u16, evs: Seq<GameEvent>)
    ensures
        ({
            let h = apply_events(GameView::init(code), evs);
            &&& h.wf()
            &&& h.players_num == accepted_joins(GameView::init(code), evs)
            &&& (h.phase matches PhaseView::Starting { pending } ==> pending == h.players_num
                - accepted_readies(GameView::init(code), evs))
        }),
{
    let g = GameView::init(code);
    assert(g.wf());
    lemma_counting_inv_events(g, evs, 0, 0);
}

/// A sequence of this many readiness signals.
pub open spec fn ready_events(k: nat) -> Seq<GameEvent> {
    Seq::new(k, |i: int| GameEvent::Ready)
}

/// Readiness signals are rejected outside the starting phase and change
/// nothing, however many arrive.
pub proof fn lemma_readies_rejected(g: GameView, k: nat)
    requires
        !(g.phase is Starting),
    ensures
        apply_events(g, ready_events(k)) == g,
    decreases k,
{
    if k > 0 {
        assert(ready_events(k).first() == GameEvent::Ready);
        assert(event_step(g, GameEvent::Ready) == g);
        assert(ready_events(k).drop_first() =~= ready_events((k - 1) as nat));
        lemma_readies_rejected(g, (k - 1) as nat);
    }
}

/// Exactly one readiness signal observes the zero-crossing: with the
/// countdown at `p`, fewer than `p` signals leave the session starting with
/// the countdown reduced by their number, and `p` or more signals put it in
/// the guessing phase — the `p`-th signal advances it, and every later
/// signal is rejected, so no second advance out of the starting phase can
/// happen. The countdown never passes below zero on the way.
pub proof fn lemma_ready_zero_crossing(g: GameView, p: nat, k: nat)
    requires
        g.wf(),
        g.phase == (PhaseView::Starting { pending: p }),
    ensures
        ({
            let h = apply_events(g, ready_events(k));
            &&& h.players_num == g.players_num
            &&& (k < p ==> h.phase == (PhaseView::Starting { pending: (p - k) as nat }))
            &&& (k >= p ==> h.phase == (PhaseView::Guessing { pending: g.players_num }))
        }),
    decreases k,
{
    if k > 0 {
        assert(ready_events(k).first() == GameEvent::Ready);
        assert(ready_events(k).drop_first() =~= ready_events((k - 1) as nat));
        let g1 = event_step(g, GameEvent::Ready);
        if p == 1 {
            assert(g1.phase == (PhaseView::Guessing { pending: g.players_num }));
            lemma_readies_rejected(g1, (k - 1) as nat);
        } else {
            lemma_wf_preserved(g, GameEvent::Ready);
            lemma_ready_zero_crossing(g1, (p - 1) as nat, (k - 1) as nat);
        }
    }
}

/// In every well-formed session the countdown of a counting phase is at
/// least one: no sequence of signals can drive it below zero, because the
/// signal that takes it to zero advances the phase in the same step.
pub proof fn lemma_pending_positive(g: GameView)
    requires
        g.wf(),
    ensures
        g.phase matches PhaseView::Starting { pending } ==> pending >= 1,
        g.phase matches PhaseView::Guessing { pending } ==> pending >= 1,
        g.phase matches PhaseView::Answers { pending } ==> pending >= 1,
{
}

/// A sequence of this many acknowledgments.
pub open spec fn ack_events(k: nat) -> Seq<GameEvent> {
    Seq::new(k, |i: int| GameEvent::Ack)
}

/// Acknowledgments are rejected outside the reveal phase and change
/// nothing, however many arrive.
pub proof fn lemma_acks_rejected(g: GameView, k: nat)
    requires
        !(g.phase is Answers),
    ensures
        apply_events(g, ack_events(k)) == g,
    decreases k,
{
    if k > 0 {
        assert(ack_events(k).first() == GameEvent::Ack);
        assert(event_step(g, GameEvent::Ack) == g);
        assert(ack_events(k).drop_first() =~= ack_events((k - 1) as nat));
        lemma_acks_rejected(g, (k - 1) as nat);
    }
}

/// Exactly one acknowledgment observes the zero-crossing: with the
/// countdown at `p`, fewer than `p` acknowledgments leave the session in
/// the reveal with the countdown reduced by their number, and `p` or more
/// finish it — the `p`-th finishes it, and every later one is rejected.
pub proof fn lemma_ack_zero_crossing(g: GameView, p: nat, k: nat)
    requires
        g.wf(),
        g.phase == (PhaseView::Answers { pending: p }),
    ensures
        ({
            let h = apply_events(g, ack_events(k));
            &&& (k < p ==> h.phase == (PhaseView::Answers { pending: (p - k) as nat }))
            &&& (k >= p ==> h.phase is Finished)
        }),
    decreases k,
{
    if k > 0 {
        assert(ack_events(k).first() == GameEvent::Ack);
        assert(ack_events(k).drop_first() =~= ack_events((k - 1) as nat));
        let g1 = event_step(g, GameEvent::Ack);
        if p == 1 {
            assert(g1.phase is Finished);
            lemma_acks_rejected(g1, (k - 1) as nat);
        } else {
            lemma_wf_preserved(g, GameEvent::Ack);
            lemma_ack_zero_crossing(g1, (p - 1) as nat, (k - 1) as nat);
        }
    }
}

/// A sequence of answer submissions with the given texts.
pub open spec fn answer_events(texts: Seq<Seq<char>>) -> Seq<GameEvent> {
    Seq::new(texts.len(), |i: int| GameEvent::Answer { text: texts[i] })
}

/// Answer submissions are rejected outside the guessing phase and change
/// nothing, however many arrive.
pub proof fn lemma_answers_rejected(g: GameView, texts: Seq<Seq<char>>)
    requires
        !(g.phase is Guessing),
    ensures
        apply_events(g, answer_events(texts)) == g,
    decreases texts.len(),
{
    if texts.len() > 0 {
        assert(answer_events(texts).first() == (GameEvent::Answer { text: texts[0] }));
        assert(event_step(g, GameEvent::Answer { text: texts[0] }) == g);
        assert(answer_events(texts).drop_first() =~= answer_events(texts.drop_first()));
        lemma_answers_rejected(g, texts.drop_first());
    }
}

/// Exactly one answer submission observes the zero-crossing: with the
/// countdown at `p`, fewer than `p` submissions leave the session guessing
/// with the countdown reduced by their number and exactly those answers
/// appended, and `p` or more leave every player's answer collected and the
/// phase past guessing — the `p`-th submission advances it, and every later
/// one is rejected and appends nothing.
pub proof fn lemma_answer_zero_crossing(g: GameView, p: nat, texts: Seq<Seq<char>>)
    requires
        g.wf(),
        g.phase == (PhaseView::Guessing { pending: p }),
    ensures
        ({
            let h = apply_events(g, answer_events(texts));
            &&& h.players_num == g.players_num
            &&& (texts.len() < p ==> h.phase == (PhaseView::Guessing {
                pending: (p - texts.len()) as nat,
            }) && h.answers == g.answers + texts)
            &&& (texts.len() >= p ==> h.answers.len() == g.players_num && !h.answer_allowed()
                && phase_rank(h.phase) >= phase_rank(PhaseView::Answers { pending: 1 }))
        }),
    decreases texts.len(),
{
    if texts.len() == 0 {
        assert(g.answers + texts =~= g.answers);
    } else {
        let t0 = texts[0];
        assert(answer_events(texts).first() == (GameEvent::Answer { text: t0 }));
        assert(answer_events(texts).drop_first() =~= answer_events(texts.drop_first()));
        let g1 = event_step(g, GameEvent::Answer { text: t0 });
        lemma_wf_preserved(g, GameEvent::Answer { text: t0 });
        if p == 1 {
            assert(g1.answers.len() == g.players_num);
            assert(!(g1.phase is Guessing));
            lemma_answers_rejected(g1, texts.drop_first());
        } else {
            lemma_answer_zero_crossing(g1, (p - 1) as nat, texts.drop_first());
            if texts.len() < p {
                assert(g1.answers + texts.drop_first() =~= g.answers + texts);
            }
        }
    }
}

/// The answers never outnumber the players, and once every player has
/// answered no further submission is accepted.
pub proof fn lemma_answers_bounded(g: GameView)
    requires
        g.wf(),
    ensures
        g.answers.len() <= g.players_num,
        g.answers.len() >= g.players_num ==> !g.answer_allowed(),
{
}

} // verus!
