//! The session registry.
//!
//! A `Registry` maps process-unique identifiers to sessions and enforces the
//! central invariant of session creation: no two live sessions share a join
//! code. Structural mutation (insert, remove) and per-session mutation both
//! go through the methods below; a caller that shares the registry across
//! tasks serializes them behind its own exclusion mechanism.

use vstd::prelude::*;

use crate::game::Game;
use crate::game::GameError;
use crate::game::GameState;
use crate::game::GameView;
use crate::game::PhaseView;

verus! {

/// The response to a session creation: the code players join with.
#[derive(Clone, Copy, PartialEq, Eq, Structural, Debug)]
pub struct CreateGameResponse {
    pub code: u16,
}

/// The smallest and largest join codes: every code has four digits.
pub const MIN_CODE: u16 = 1000;

pub const MAX_CODE: u16 = 9999;

/// How many times creation retries a colliding code or identifier before it
/// reports the code space exhausted.
pub const CREATE_ATTEMPTS: usize = 100;

/// One registry entry: a session and its process-unique identifier.
pub struct Entry {
    pub id: u128,
    pub game: Game,
}

/// The model of a registry entry.
#[verifier::ext_equal]
pub struct EntryView {
    pub id: u128,
    pub game: GameView,
}

/// Whether some live session in `s` already holds `code`.
pub open spec fn live_code_taken(s: Seq<EntryView>, code: u16) -> bool {
    exists|i: int| 0 <= i < s.len() && (#[trigger] s[i]).game.live() && s[i].game.code == code
}

/// Whether some session in `s` already holds the identifier `id`.
pub open spec fn id_taken(s: Seq<EntryView>, id: u128) -> bool {
    exists|i: int| 0 <= i < s.len() && (#[trigger] s[i]).id == id
}

/// The index of the live session holding `code`; meaningful only while
/// `live_code_taken` holds, and unique then by registry well-formedness.
pub open spec fn live_idx(s: Seq<EntryView>, code: u16) -> int {
    choose|i: int| 0 <= i < s.len() && (#[trigger] s[i]).game.live() && s[i].game.code == code
}

/// The index of the session holding `id`; meaningful only while `id_taken`
/// holds, and unique then by registry well-formedness.
pub open spec fn id_idx(s: Seq<EntryView>, id: u128) -> int {
    choose|i: int| 0 <= i < s.len() && (#[trigger] s[i]).id == id
}

/// Registry well-formedness: every session is well formed, identifiers are
/// unique, and no two live sessions share a code.
pub open spec fn registry_wf(s: Seq<EntryView>) -> bool {
    &&& forall|i: int| 0 <= i < s.len() ==> (#[trigger] s[i]).game.wf()
    &&& forall|i: int, j: int|
        0 <= i < s.len() && 0 <= j < s.len() && i != j ==> (#[trigger] s[i]).id != (
        #[trigger] s[j]).id
    &&& forall|i: int, j: int|
        0 <= i < s.len() && 0 <= j < s.len() && i != j && (#[trigger] s[i]).game.live() && (
        #[trigger] s[j]).game.live() ==> s[i].game.code != s[j].game.code
}

/// The registry of live sessions.
pub struct Registry {
    pub entries: Vec<Entry>,
}

impl View for Registry {
    type V = Seq<EntryView>;

    open spec fn view(&self) -> Seq<EntryView> {
        Seq::new(self.entries@.len(), |i: int| EntryView {
            id: self.entries@[i].id,
            game: self.entries@[i].game@,
        })
    }
}

/// Relies on `rand::random_range` over a closed integer range: the sampled
/// value lies in the range. The range must be non-empty, since the call
/// panics on an empty one.
#[verifier::external_body]
fn random_code(lo: u16, hi: u16) -> (r: u16)
    requires
        lo <= hi,
    ensures
        lo <= r <= hi,
{
    rand::random_range(lo..=hi)
}

/// Relies on `uuid::Uuid::new_v4` for a freshly drawn identifier. Nothing is
/// assumed of the value — it is random — so the registry checks it against
/// the identifiers already in use itself.
#[verifier::external_body]
fn fresh_session_id() -> (r: u128) {
    uuid::Uuid::new_v4().as_u128()
}

/// No two live sessions ever hold the same code: in a well-formed registry
/// — and every registry operation keeps the registry well formed — two
/// distinct entries that are both live have distinct codes. Together with
/// `create`, whose contract refuses any code a live session already holds,
/// this rules out two concurrently created sessions sharing a code while
/// both are live, since creations are serialized behind the registry's
/// exclusion mechanism.
pub proof fn lemma_live_codes_distinct(s: Seq<EntryView>, i: int, j: int)
    requires
        registry_wf(s),
        0 <= i < s.len(),
        0 <= j < s.len(),
        i != j,
        s[i].game.live(),
        s[j].game.live(),
    ensures
        s[i].game.code != s[j].game.code,
{
}

/// Replacing one session by a well-formed successor that keeps its code and
/// does not come back to life keeps the registry well formed.
proof fn lemma_wf_update(s: Seq<EntryView>, i: int, g: GameView)
    requires
        registry_wf(s),
        0 <= i < s.len(),
        g.wf(),
        g.code == s[i].game.code,
        g.live() ==> s[i].game.live(),
    ensures
        registry_wf(s.update(i, EntryView { id: s[i].id, game: g })),
{
    let t = s.update(i, EntryView { id: s[i].id, game: g });
    assert forall|a: int, b: int|
        0 <= a < t.len() && 0 <= b < t.len() && a != b implies (#[trigger] t[a]).id != (
    #[trigger] t[b]).id by {
        assert(s[a].id != s[b].id);
    }
    assert forall|a: int, b: int|
        0 <= a < t.len() && 0 <= b < t.len() && a != b && (#[trigger] t[a]).game.live() && (
        #[trigger] t[b]).game.live() implies t[a].game.code != t[b].game.code by {
        assert(s[a].game.live() && s[b].game.live());
    }
}

impl Registry {
    /// An empty registry.
    pub fn new() -> (r: Registry)
        ensures
            r@ =~= Seq::<EntryView>::empty(),
            registry_wf(r@),
    {
        Registry { entries: Vec::new() }
    }

    /// Inserts a fresh session under the given identifier and code. The
    /// insertion succeeds exactly when the code has four digits, no live
    /// session already holds it, and no session holds the identifier; a
    /// refused insertion leaves the registry unchanged.
    pub fn insert_with_code(&mut self, id: u128, code: u16) -> (r: Result<(), GameError>)
        requires
            registry_wf(old(self)@),
        ensures
            registry_wf(final(self)@),
            r is Ok <==> MIN_CODE <= code <= MAX_CODE && !live_code_taken(old(self)@, code)
                && !id_taken(old(self)@, id),
            r is Ok ==> final(self)@ == old(self)@.push(
                EntryView { id: id, game: GameView::init(code) },
            ),
            r is Err ==> *final(self) == *old(self) && r == Err::<(), GameError>(
                GameError::CreationError,
            ),
    {
        if !(MIN_CODE <= code && code <= MAX_CODE) {
            return Err(GameError::CreationError);
        }
        let mut i: usize = 0;
        while i < self.entries.len()
            invariant
                i <= self.entries.len(),
                *self == *old(self),
                registry_wf(self@),
                forall|j: int|
                    0 <= j < i ==> !((#[trigger] self@[j]).game.live() && self@[j].game.code
                        == code),
                forall|j: int| 0 <= j < i ==> (#[trigger] self@[j]).id != id,
            decreases self.entries.len() - i,
        {
            let live = match self.entries[i].game.state {
                crate::game::GameState::Finished => false,
                _ => true,
            };
            if live && self.entries[i].game.code == code {
                proof {
                    let wi = i as int;
                    assert(self@[wi].game.live() && self@[wi].game.code == code);
                    assert(live_code_taken(self@, code));
                }
                return Err(GameError::CreationError);
            }
            if self.entries[i].id == id {
                proof {
                    let wi = i as int;
                    assert(self@[wi].id == id);
                    assert(id_taken(self@, id));
                }
                return Err(GameError::CreationError);
            }
            i = i + 1;
        }
        let entry = Entry { id: id, game: Game::new(code) };
        self.entries.push(entry);
        proof {
            let s = old(self)@;
            let t = self@;
            assert(t =~= s.push(EntryView { id: id, game: GameView::init(code) }));
            assert forall|a: int, b: int|
                0 <= a < t.len() && 0 <= b < t.len() && a != b implies (#[trigger] t[a]).id != (
            #[trigger] t[b]).id by {
                if a < s.len() && b < s.len() {
                } else if a == s.len() {
                    assert(t[b] == s[b]);
                } else {
                    assert(t[a] == s[a]);
                }
            }
            assert(registry_wf(t));
        }
        Ok(())
    }

    /// Creates a new session: draws a fresh identifier and a random
    /// four-digit code, retrying a bounded number of times until neither
    /// collides, and inserts the session in its initial phase. Reports
    /// `CreationError` — with the registry unchanged — only when no free
    /// code was found within the bound; since a draw can collide only with
    /// an existing entry, creation on an empty registry always succeeds.
    pub fn create(&mut self) -> (r: Result<CreateGameResponse, GameError>)
        requires
            registry_wf(old(self)@),
        ensures
            registry_wf(final(self)@),
            r matches Ok(resp) ==> {
                &&& MIN_CODE <= resp.code <= MAX_CODE
                &&& !live_code_taken(old(self)@, resp.code)
                &&& final(self)@.len() == old(self)@.len() + 1
                &&& final(self)@.subrange(0, old(self)@.len() as int) == old(self)@
                &&& final(self)@.last().game == GameView::init(resp.code)
                &&& !id_taken(old(self)@, final(self)@.last().id)
            },
            r is Err ==> old(self)@.len() > 0,
            r is Err ==> *final(self) == *old(self) && r == Err::<CreateGameResponse, GameError>(
                GameError::CreationError,
            ),
    {
        let mut attempt: usize = 0;
        while attempt < CREATE_ATTEMPTS
            invariant
                registry_wf(self@),
                *self == *old(self),
                old(self)@.len() == 0 ==> attempt == 0,
            decreases CREATE_ATTEMPTS - attempt,
        {
            let id = fresh_session_id();
            let code = random_code(MIN_CODE, MAX_CODE);
            match self.insert_with_code(id, code) {
                Ok(()) => {
                    proof {
                        let s = old(self)@;
                        let t = self@;
                        assert(t.subrange(0, s.len() as int) =~= s);
                    }
                    return Ok(CreateGameResponse { code });
                },
                Err(_) => {
                    proof {
                        // A collision needs an entry to collide with, so
                        // only a non-empty registry reaches this arm.
                        if self@.len() == 0 {
                            assert(!live_code_taken(self@, code));
                            assert(!id_taken(self@, id));
                            assert(false);
                        }
                    }
                },
            }
            attempt = attempt + 1;
        }
        Err(GameError::CreationError)
    }

    /// Finds the live session holding `code`. By the registry invariant at
    /// most one exists; `None` means no live session holds the code.
    pub fn find_live_by_code(&self, code: u16) -> (r: Option<usize>)
        requires
            registry_wf(self@),
        ensures
            r matches Some(i) ==> i < self@.len() && self@[i as int].game.live()
                && self@[i as int].game.code == code && i == live_idx(self@, code),
            r is None ==> !live_code_taken(self@, code),
    {
        let mut i: usize = 0;
        while i < self.entries.len()
            invariant
                i <= self.entries.len(),
                registry_wf(self@),
                forall|j: int|
                    0 <= j < i ==> !((#[trigger] self@[j]).game.live() && self@[j].game.code
                        == code),
            decreases self.entries.len() - i,
        {
            let live = match self.entries[i].game.state {
                crate::game::GameState::Finished => false,
                _ => true,
            };
            if live && self.entries[i].game.code == code {
                proof {
                    let wi = i as int;
                    assert(self@[wi].game.live() && self@[wi].game.code == code);
                    assert(live_code_taken(self@, code));
                    let k = live_idx(self@, code);
                    assert(0 <= k < self@.len() && self@[k].game.live() && self@[k].game.code
                        == code);
                    if k != wi {
                        assert(self@[k].game.code != self@[wi].game.code);
                    }
                }
                return Some(i);
            }
            i = i + 1;
        }
        None
    }

    /// Finds the session holding the identifier `id`. By the registry
    /// invariant at most one exists; `None` means the identifier is unknown.
    pub fn find_by_id(&self, id: u128) -> (r: Option<usize>)
        requires
            registry_wf(self@),
        ensures
            r matches Some(i) ==> i < self@.len() && self@[i as int].id == id && i == id_idx(
                self@,
                id,
            ),
            r is None ==> !id_taken(self@, id),
    {
        let mut i: usize = 0;
        while i < self.entries.len()
            invariant
                i <= self.entries.len(),
                registry_wf(self@),
                forall|j: int| 0 <= j < i ==> (#[trigger] self@[j]).id != id,
            decreases self.entries.len() - i,
        {
            if self.entries[i].id == id {
                proof {
                    let wi = i as int;
                    assert(self@[wi].id == id);
                    assert(id_taken(self@, id));
                    let k = id_idx(self@, id);
                    assert(0 <= k < self@.len() && self@[k].id == id);
                    if k != wi {
                        assert(self@[k].id != self@[wi].id);
                    }
                }
                return Some(i);
            }
            i = i + 1;
        }
        None
    }

    /// A player joins the live session holding `code`: reports `NotFound`
    /// when no live session holds it, `InvalidTransition` when that session
    /// no longer accepts joins, and otherwise applies the join and returns
    /// the session's identifier with the new player count. A failed join
    /// changes nothing.
    pub fn join_by_code(&mut self, code: u16) -> (r: Result<(u128, usize), GameError>)
        requires
            registry_wf(old(self)@),
        ensures
            registry_wf(final(self)@),
            !live_code_taken(old(self)@, code) ==> *final(self) == *old(self) && r == Err::<
                (u128, usize),
                GameError,
            >(GameError::NotFound),
            live_code_taken(old(self)@, code) ==> ({
                let i = live_idx(old(self)@, code);
                let g = old(self)@[i].game;
                if g.join_accepted() {
                    &&& r matches Ok(v) && v.0 == old(self)@[i].id && v.1
                        == g.join_step().players_num
                    &&& final(self)@ == old(self)@.update(
                        i,
                        EntryView { id: old(self)@[i].id, game: g.join_step() },
                    )
                } else {
                    &&& r == Err::<(u128, usize), GameError>(GameError::InvalidTransition)
                    &&& final(self)@ == old(self)@
                }
            }),
    {
        let idx = match self.find_live_by_code(code) {
            None => {
                return Err(GameError::NotFound);
            },
            Some(i) => i,
        };
        let e = &mut self.entries[idx];
        let id = e.id;
        match e.game.join() {
            Ok(()) => {
                let n = e.game.players_num;
                proof {
                    let i = idx as int;
                    let g = old(self)@[i].game;
                    assert(self@ =~= old(self)@.update(
                        i,
                        EntryView { id: old(self)@[i].id, game: g.join_step() },
                    ));
                    lemma_wf_update(old(self)@, i, g.join_step());
                }
                Ok((id, n))
            },
            Err(err) => {
                proof {
                    assert(self@ =~= old(self)@);
                }
                Err(err)
            },
        }
    }

    /// A readiness signal for the session holding `id`: reports `NotFound`
    /// for an unknown identifier, `InvalidTransition` when the session is
    /// not in its starting phase, and otherwise applies the signal and
    /// returns whether this signal advanced the phase, with the state after
    /// the signal. A rejected signal changes nothing.
    pub fn ready_by_id(&mut self, id: u128) -> (r: Result<(bool, GameState), GameError>)
        requires
            registry_wf(old(self)@),
        ensures
            registry_wf(final(self)@),
            !id_taken(old(self)@, id) ==> *final(self) == *old(self) && r == Err::<
                (bool, GameState),
                GameError,
            >(GameError::NotFound),
            id_taken(old(self)@, id) ==> ({
                let i = id_idx(old(self)@, id);
                let g = old(self)@[i].game;
                if g.ready_allowed() {
                    &&& r matches Ok(v) && v.0 == (g.phase == (PhaseView::Starting { pending: 1 }))
                        && v.1@ == g.ready_step().phase
                    &&& final(self)@ == old(self)@.update(
                        i,
                        EntryView { id: id, game: g.ready_step() },
                    )
                } else {
                    &&& r == Err::<(bool, GameState), GameError>(GameError::InvalidTransition)
                    &&& final(self)@ == old(self)@
                }
            }),
    {
        let idx = match self.find_by_id(id) {
            None => {
                return Err(GameError::NotFound);
            },
            Some(i) => i,
        };
        let e = &mut self.entries[idx];
        match e.game.ready() {
            Ok(advanced) => {
                let state = e.game.state;
                proof {
                    let i = idx as int;
                    let g = old(self)@[i].game;
                    assert(self@ =~= old(self)@.update(i, EntryView { id: id, game: g.ready_step() }));
                    lemma_wf_update(old(self)@, i, g.ready_step());
                }
                Ok((advanced, state))
            },
            Err(err) => {
                proof {
                    assert(self@ =~= old(self)@);
                }
                Err(err)
            },
        }
    }

    /// An answer submission for the session holding `id`: reports `NotFound`
    /// for an unknown identifier, `InvalidTransition` when the session is
    /// not collecting answers, and otherwise appends the answer and returns
    /// whether it was the last one owed, with the state after the
    /// submission. A rejected submission changes nothing.
    pub fn answer_by_id(&mut self, id: u128, text: String) -> (r: Result<
        (bool, GameState),
        GameError,
    >)
        requires
            registry_wf(old(self)@),
        ensures
            registry_wf(final(self)@),
            !id_taken(old(self)@, id) ==> *final(self) == *old(self) && r == Err::<
                (bool, GameState),
                GameError,
            >(GameError::NotFound),
            id_taken(old(self)@, id) ==> ({
                let i = id_idx(old(self)@, id);
                let g = old(self)@[i].game;
                if g.answer_allowed() {
                    &&& r matches Ok(v) && v.0 == (g.phase == (PhaseView::Guessing { pending: 1 }))
                        && v.1@ == g.answer_step(text@).phase
                    &&& final(self)@ == old(self)@.update(
                        i,
                        EntryView { id: id, game: g.answer_step(text@) },
                    )
                } else {
                    &&& r == Err::<(bool, GameState), GameError>(GameError::InvalidTransition)
                    &&& final(self)@ == old(self)@
                }
            }),
    {
        let idx = match self.find_by_id(id) {
            None => {
                return Err(GameError::NotFound);
            },
            Some(i) => i,
        };
        let e = &mut self.entries[idx];
        match e.game.submit_answer(text) {
            Ok(advanced) => {
                let state = e.game.state;
                proof {
                    let i = idx as int;
                    let g = old(self)@[i].game;
                    assert(self@ =~= old(self)@.update(
                        i,
                        EntryView { id: id, game: g.answer_step(text@) },
                    ));
                    lemma_wf_update(old(self)@, i, g.answer_step(text@));
                }
                Ok((advanced, state))
            },
            Err(err) => {
                proof {
                    assert(self@ =~= old(self)@);
                }
                Err(err)
            },
        }
    }

    /// An acknowledgment of the reveal for the session holding `id`:
    /// reports `NotFound` for an unknown identifier, `InvalidTransition`
    /// when the session is not showing answers, and otherwise applies the
    /// acknowledgment and returns whether it finished the session, with the
    /// state after it. A rejected acknowledgment changes nothing.
    pub fn ack_by_id(&mut self, id: u128) -> (r: Result<(bool, GameState), GameError>)
        requires
            registry_wf(old(self)@),
        ensures
            registry_wf(final(self)@),
            !id_taken(old(self)@, id) ==> *final(self) == *old(self) && r == Err::<
                (bool, GameState),
                GameError,
            >(GameError::NotFound),
            id_taken(old(self)@, id) ==> ({
                let i = id_idx(old(self)@, id);
                let g = old(self)@[i].game;
                if g.ack_allowed() {
                    &&& r matches Ok(v) && v.0 == (g.phase == (PhaseView::Answers { pending: 1 }))
                        && v.1@ == g.ack_step().phase
                    &&& final(self)@ == old(self)@.update(
                        i,
                        EntryView { id: id, game: g.ack_step() },
                    )
                } else {
                    &&& r == Err::<(bool, GameState), GameError>(GameError::InvalidTransition)
                    &&& final(self)@ == old(self)@
                }
            }),
    {
        let idx = match self.find_by_id(id) {
            None => {
                return Err(GameError::NotFound);
            },
            Some(i) => i,
        };
        let e = &mut self.entries[idx];
        match e.game.ack() {
            Ok(advanced) => {
                let state = e.game.state;
                proof {
                    let i = idx as int;
                    let g = old(self)@[i].game;
                    assert(self@ =~= old(self)@.update(i, EntryView { id: id, game: g.ack_step() }));
                    lemma_wf_update(old(self)@, i, g.ack_step());
                }
                Ok((advanced, state))
            },
            Err(err) => {
                proof {
                    assert(self@ =~= old(self)@);
                }
                Err(err)
            },
        }
    }

    /// A connection bound to the session holding `id` detaches: one
    /// connection slot of that session is released and nothing else changes.
    /// Unknown identifiers are ignored, so a detach can never fail.
    pub fn disconnect_by_id(&mut self, id: u128)
        requires
            registry_wf(old(self)@),
        ensures
            registry_wf(final(self)@),
            !id_taken(old(self)@, id) ==> *final(self) == *old(self),
            id_taken(old(self)@, id) ==> ({
                let i = id_idx(old(self)@, id);
                final(self)@ == old(self)@.update(
                    i,
                    EntryView { id: id, game: old(self)@[i].game.disconnect_step() },
                )
            }),
    {
        let idx = match self.find_by_id(id) {
            None => {
                return ;
            },
            Some(i) => i,
        };
        let e = &mut self.entries[idx];
        e.game.disconnect();
        proof {
            let i = idx as int;
            let g = old(self)@[i].game;
            assert(self@ =~= old(self)@.update(
                i,
                EntryView { id: id, game: g.disconnect_step() },
            ));
            lemma_wf_update(old(self)@, i, g.disconnect_step());
        }
    }

    /// Removes the session holding `id`; a no-op when the identifier is
    /// unknown, so removal is idempotent.
    pub fn remove(&mut self, id: u128)
        requires
            registry_wf(old(self)@),
        ensures
            registry_wf(final(self)@),
            !id_taken(old(self)@, id) ==> *final(self) == *old(self),
            id_taken(old(self)@, id) ==> final(self)@ == old(self)@.remove(id_idx(old(self)@, id)),
    {
        let idx = match self.find_by_id(id) {
            None => {
                return ;
            },
            Some(i) => i,
        };
        self.entries.remove(idx);
        proof {
            let i = idx as int;
            let s = old(self)@;
            let t = self@;
            assert(t =~= s.remove(i));
            assert forall|a: int| 0 <= a < t.len() implies (#[trigger] t[a]).game.wf() by {
                if a < i {
                    assert(t[a] == s[a]);
                } else {
                    assert(t[a] == s[a + 1]);
                }
            }
            assert forall|a: int, b: int|
                0 <= a < t.len() && 0 <= b < t.len() && a != b implies (#[trigger] t[a]).id != (
            #[trigger] t[b]).id by {
                let a2 = if a < i { a } else { a + 1 };
                let b2 = if b < i { b } else { b + 1 };
                assert(t[a] == s[a2] && t[b] == s[b2]);
                assert(s[a2].id != s[b2].id);
            }
            assert forall|a: int, b: int|
                0 <= a < t.len() && 0 <= b < t.len() && a != b && (#[trigger] t[a]).game.live() && (
                #[trigger] t[b]).game.live() implies t[a].game.code != t[b].game.code by {
                let a2 = if a < i { a } else { a + 1 };
                let b2 = if b < i { b } else { b + 1 };
                assert(t[a] == s[a2] && t[b] == s[b2]);
                assert(s[a2].game.code != s[b2].game.code);
            }
        }
    }

    /// A point-in-time copy of every session's observable state.
    pub fn list_snapshot(&self) -> (r: Vec<Game>)
        ensures
            r@.len() == self@.len(),
            forall|i: int| 0 <= i < self@.len() ==> (#[trigger] r@[i])@ == self@[i].game,
    {
        let mut out: Vec<Game> = Vec::new();
        let mut i: usize = 0;
        while i < self.entries.len()
            invariant
                i <= self.entries.len(),
                out@.len() == i,
                forall|j: int| 0 <= j < i ==> (#[trigger] out@[j])@ == self@[j].game,
            decreases self.entries.len() - i,
        {
            out.push(self.entries[i].game.snapshot());
            i = i + 1;
        }
        out
    }
}

} // verus!
