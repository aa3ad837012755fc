//! The per-session state machine.
//!
//! A `Game` owns one session's state: its join `code`, the number of players
//! who joined, the current phase with its countdown, the answers collected
//! during the guessing phase, and the number of live connections. All
//! mutation goes through the transition methods below; their contracts are
//! stated over `GameView`, the mathematical model of a session.

use vstd::prelude::*;

verus! {

/// Errors a session operation can report.
///
/// `CreationError`: a new session could not be allocated (code space
/// exhausted). `NotFound`: no live session has the given code or id.
/// `InvalidTransition`: an event arrived in a phase that does not accept it;
/// the session is left unchanged. `MalformedMessage`: an inbound frame could
/// not be decoded into a client event.
#[derive(Clone, Copy, PartialEq, Eq, Structural, Debug)]
pub enum GameError {
    CreationError,
    NotFound,
    InvalidTransition,
    MalformedMessage,
}

/// The phase of a session, with the countdown of participants still expected
/// to act before the phase can advance.
#[derive(Clone, Copy, PartialEq, Eq, Structural, Debug)]
pub enum GameState {
    /// Before the first player joins.
    WaitingToStart,
    /// Players join and signal readiness; the field counts players who have
    /// not yet signalled it.
    Starting(usize),
    /// Players submit one answer each; the field counts answers still owed.
    Guessing(usize),
    /// Answers are shown; the field counts acknowledgments still owed.
    Answers(usize),
    /// Terminal: the phase never changes again.
    Finished,
}

/// The model of a phase: the same variants with unbounded countdowns.
pub enum PhaseView {
    WaitingToStart,
    Starting { pending: nat },
    Guessing { pending: nat },
    Answers { pending: nat },
    Finished,
}

impl View for GameState {
    type V = PhaseView;

    open spec fn view(&self) -> PhaseView {
        match *self {
            GameState::WaitingToStart => PhaseView::WaitingToStart,
            GameState::Starting(p) => PhaseView::Starting { pending: p as nat },
            GameState::Guessing(p) => PhaseView::Guessing { pending: p as nat },
            GameState::Answers(p) => PhaseView::Answers { pending: p as nat },
            GameState::Finished => PhaseView::Finished,
        }
    }
}

/// The view of a sequence of answers: each answer as its character sequence.
pub open spec fn texts_view(v: Seq<String>) -> Seq<Seq<char>> {
    Seq::new(v.len(), |i: int| v[i]@)
}

/// The mathematical model of a session.
#[verifier::ext_equal]
pub struct GameView {
    pub code: u16,
    pub players_num: nat,
    pub phase: PhaseView,
    pub answers: Seq<Seq<char>>,
    pub connections: nat,
}

/// The win condition: every collected answer is the same word.
pub open spec fn all_answers_equal(s: Seq<Seq<char>>) -> bool {
    forall|i: int, j: int| 0 <= i < s.len() && 0 <= j < s.len() ==> s[i] == s[j]
}

/// Rank of a phase in the fixed life cycle; transitions never decrease it.
pub open spec fn phase_rank(p: PhaseView) -> int {
    match p {
        PhaseView::WaitingToStart => 0,
        PhaseView::Starting { .. } => 1,
        PhaseView::Guessing { .. } => 2,
        PhaseView::Answers { .. } => 3,
        PhaseView::Finished => 4,
    }
}

impl GameView {
    /// The state of a session just created with the given code.
    pub open spec fn init(code: u16) -> GameView {
        GameView {
            code: code,
            players_num: 0,
            phase: PhaseView::WaitingToStart,
            answers: Seq::empty(),
            connections: 0,
        }
    }

    /// Well-formedness: the countdown of each counting phase is positive and
    /// tied to the player count, and the answers never outnumber the players.
    pub open spec fn wf(self) -> bool {
        match self.phase {
            PhaseView::WaitingToStart => self.players_num == 0 && self.answers.len() == 0,
            PhaseView::Starting { pending } => 1 <= pending <= self.players_num
                && self.answers.len() == 0,
            PhaseView::Guessing { pending } => 1 <= pending
                && self.answers.len() + pending == self.players_num,
            PhaseView::Answers { pending } => 1 <= pending <= self.players_num
                && self.answers.len() == self.players_num,
            PhaseView::Finished => self.answers.len() <= self.players_num,
        }
    }

    /// A session still counts for code uniqueness while it is not finished.
    pub open spec fn live(self) -> bool {
        !(self.phase is Finished)
    }

    /// Joining is allowed only before the guessing phase begins.
    pub open spec fn joinable(self) -> bool {
        self.phase is WaitingToStart || self.phase is Starting
    }

    /// A join: the first one starts the countdown; later ones raise both the
    /// player count and the countdown. Disallowed joins change nothing.
    pub open spec fn join_step(self) -> GameView {
        match self.phase {
            PhaseView::WaitingToStart => GameView {
                players_num: 1,
                phase: PhaseView::Starting { pending: 1 },
                connections: self.connections + 1,
                ..self
            },
            PhaseView::Starting { pending } => GameView {
                players_num: self.players_num + 1,
                phase: PhaseView::Starting { pending: pending + 1 },
                connections: self.connections + 1,
                ..self
            },
            _ => self,
        }
    }

    pub open spec fn ready_allowed(self) -> bool {
        self.phase is Starting
    }

    /// A readiness signal: the countdown drops; at zero the session moves to
    /// guessing with the countdown reset to the player count.
    pub open spec fn ready_step(self) -> GameView {
        match self.phase {
            PhaseView::Starting { pending } => if pending == 1 {
                GameView { phase: PhaseView::Guessing { pending: self.players_num }, ..self }
            } else {
                GameView { phase: PhaseView::Starting { pending: (pending - 1) as nat }, ..self }
            },
            _ => self,
        }
    }

    pub open spec fn answer_allowed(self) -> bool {
        self.phase is Guessing
    }

    /// An answer submission: the answer is appended and the countdown drops.
    /// When the last answer arrives, the session moves to the reveal, or
    /// straight to finished when every answer is the same word.
    pub open spec fn answer_step(self, text: Seq<char>) -> GameView {
        match self.phase {
            PhaseView::Guessing { pending } => {
                let answers = self.answers.push(text);
                if pending == 1 {
                    if all_answers_equal(answers) {
                        GameView { phase: PhaseView::Finished, answers: answers, ..self }
                    } else {
                        GameView {
                            phase: PhaseView::Answers { pending: self.players_num },
                            answers: answers,
                            ..self
                        }
                    }
                } else {
                    GameView {
                        phase: PhaseView::Guessing { pending: (pending - 1) as nat },
                        answers: answers,
                        ..self
                    }
                }
            },
            _ => self,
        }
    }

    pub open spec fn ack_allowed(self) -> bool {
        self.phase is Answers
    }

    /// An acknowledgment of the reveal: the countdown drops; at zero the
    /// session finishes.
    pub open spec fn ack_step(self) -> GameView {
        match self.phase {
            PhaseView::Answers { pending } => if pending == 1 {
                GameView { phase: PhaseView::Finished, ..self }
            } else {
                GameView { phase: PhaseView::Answers { pending: (pending - 1) as nat }, ..self }
            },
            _ => self,
        }
    }

    /// A disconnect releases one connection slot and touches nothing else:
    /// the player count and the countdown are kept, so a session waits for
    /// the departed player rather than advancing without them (the documented
    /// disconnect policy; the session stays open to a re-join while it is
    /// still joinable).
    pub open spec fn disconnect_step(self) -> GameView {
        if self.connections >= 1 {
            GameView { connections: (self.connections - 1) as nat, ..self }
        } else {
            self
        }
    }

    /// Whether a join is accepted by the executable machine: the phase must
    /// admit it and the counters must not be saturated (a session whose
    /// counters reached the machine limit is closed to further joins).
    pub open spec fn join_accepted(self) -> bool {
        self.joinable() && self.players_num < usize::MAX && self.connections < usize::MAX
    }
}

/// One session's concrete state.
pub struct Game {
    pub code: u16,
    pub players_num: usize,
    pub state: GameState,
    pub answers: Vec<String>,
    pub connections: usize,
}

impl View for Game {
    type V = GameView;

    open spec fn view(&self) -> GameView {
        GameView {
            code: self.code,
            players_num: self.players_num as nat,
            phase: self.state@,
            answers: texts_view(self.answers@),
            connections: self.connections as nat,
        }
    }
}

impl Game {
    /// A fresh session in the waiting phase with the given code and zero
    /// counters.
    pub fn new(code: u16) -> (g: Game)
        ensures
            g@ == GameView::init(code),
            g@.wf(),
    {
        let g = Game {
            code: code,
            players_num: 0,
            state: GameState::WaitingToStart,
            answers: Vec::new(),
            connections: 0,
        };
        proof {
            assert(g@ =~= GameView::init(code));
        }
        g
    }

    /// A player joins: accepted only while the session is waiting or
    /// starting; a rejected join changes nothing.
    pub fn join(&mut self) -> (r: Result<(), GameError>)
        requires
            old(self)@.wf(),
        ensures
            final(self)@.wf(),
            r is Ok <==> old(self)@.join_accepted(),
            r is Ok ==> final(self)@ == old(self)@.join_step(),
            r is Err ==> *final(self) == *old(self) && r == Err::<(), GameError>(
                GameError::InvalidTransition,
            ),
    {
        match self.state {
            GameState::WaitingToStart => {
                if self.players_num < usize::MAX && self.connections < usize::MAX {
                    self.players_num = 1;
                    self.connections = self.connections + 1;
                    self.state = GameState::Starting(1);
                    proof {
                        assert(self@ =~= old(self)@.join_step());
                    }
                    Ok(())
                } else {
                    Err(GameError::InvalidTransition)
                }
            },
            GameState::Starting(p) => {
                if self.players_num < usize::MAX && self.connections < usize::MAX {
                    self.players_num = self.players_num + 1;
                    self.connections = self.connections + 1;
                    self.state = GameState::Starting(p + 1);
                    proof {
                        assert(self@ =~= old(self)@.join_step());
                    }
                    Ok(())
                } else {
                    Err(GameError::InvalidTransition)
                }
            },
            _ => Err(GameError::InvalidTransition),
        }
    }

    /// A readiness signal. `Ok(true)` reports that this signal was the one
    /// that advanced the phase; a signal in any other phase is rejected and
    /// changes nothing.
    pub fn ready(&mut self) -> (r: Result<bool, GameError>)
        requires
            old(self)@.wf(),
        ensures
            final(self)@.wf(),
            r is Ok <==> old(self)@.ready_allowed(),
            r is Ok ==> final(self)@ == old(self)@.ready_step(),
            r is Ok ==> r == Ok::<bool, GameError>(
                old(self)@.phase == (PhaseView::Starting { pending: 1 }),
            ),
            r is Err ==> *final(self) == *old(self) && r == Err::<bool, GameError>(
                GameError::InvalidTransition,
            ),
    {
        match self.state {
            GameState::Starting(p) => {
                if p == 1 {
                    // Pre-size the answer list to the player count, so the
                    // guessing phase appends without reallocating.
                    self.answers.reserve(self.players_num);
                    self.state = GameState::Guessing(self.players_num);
                    proof {
                        assert(self@ =~= old(self)@.ready_step());
                    }
                    Ok(true)
                } else {
                    self.state = GameState::Starting(p - 1);
                    proof {
                        assert(self@ =~= old(self)@.ready_step());
                    }
                    Ok(false)
                }
            },
            _ => Err(GameError::InvalidTransition),
        }
    }

    /// An answer submission. `Ok(true)` reports that this was the last
    /// answer owed, so the phase advanced (straight to finished when all
    /// answers are the same word). A submission in any other phase — in
    /// particular once every player has answered — is rejected and changes
    /// nothing.
    pub fn submit_answer(&mut self, text: String) -> (r: Result<bool, GameError>)
        requires
            old(self)@.wf(),
        ensures
            final(self)@.wf(),
            r is Ok <==> old(self)@.answer_allowed(),
            r is Ok ==> final(self)@ == old(self)@.answer_step(text@),
            r is Ok ==> r == Ok::<bool, GameError>(
                old(self)@.phase == (PhaseView::Guessing { pending: 1 }),
            ),
            r is Err ==> *final(self) == *old(self) && r == Err::<bool, GameError>(
                GameError::InvalidTransition,
            ),
    {
        match self.state {
            GameState::Guessing(p) => {
                self.answers.push(text);
                proof {
                    assert(texts_view(self.answers@) =~= old(self)@.answers.push(text@));
                }
                if p == 1 {
                    if all_equal(&self.answers) {
                        self.state = GameState::Finished;
                    } else {
                        self.state = GameState::Answers(self.players_num);
                    }
                    proof {
                        assert(self@ =~= old(self)@.answer_step(text@));
                    }
                    Ok(true)
                } else {
                    self.state = GameState::Guessing(p - 1);
                    proof {
                        assert(self@ =~= old(self)@.answer_step(text@));
                    }
                    Ok(false)
                }
            },
            _ => Err(GameError::InvalidTransition),
        }
    }

    /// An acknowledgment of the reveal. `Ok(true)` reports that this was the
    /// last acknowledgment owed, so the session finished; in any other phase
    /// the signal is rejected and changes nothing.
    pub fn ack(&mut self) -> (r: Result<bool, GameError>)
        requires
            old(self)@.wf(),
        ensures
            final(self)@.wf(),
            r is Ok <==> old(self)@.ack_allowed(),
            r is Ok ==> final(self)@ == old(self)@.ack_step(),
            r is Ok ==> r == Ok::<bool, GameError>(
                old(self)@.phase == (PhaseView::Answers { pending: 1 }),
            ),
            r is Err ==> *final(self) == *old(self) && r == Err::<bool, GameError>(
                GameError::InvalidTransition,
            ),
    {
        match self.state {
            GameState::Answers(p) => {
                if p == 1 {
                    self.state = GameState::Finished;
                } else {
                    self.state = GameState::Answers(p - 1);
                }
                proof {
                    assert(self@ =~= old(self)@.ack_step());
                }
                Ok(p == 1)
            },
            _ => Err(GameError::InvalidTransition),
        }
    }

    /// A connection detaches: one connection slot is released and nothing
    /// else changes. With no slot held the call is a no-op.
    pub fn disconnect(&mut self)
        requires
            old(self)@.wf(),
        ensures
            final(self)@.wf(),
            final(self)@ == old(self)@.disconnect_step(),
    {
        if self.connections >= 1 {
            self.connections = self.connections - 1;
        }
        proof {
            assert(self@ =~= old(self)@.disconnect_step());
        }
    }

    /// A point-in-time copy of this session's observable state.
    pub fn snapshot(&self) -> (g: Game)
        ensures
            g@ == self@,
    {
        let g = Game {
            code: self.code,
            players_num: self.players_num,
            state: self.state,
            answers: self.answers.clone(),
            connections: self.connections,
        };
        proof {
            assert forall|i: int| 0 <= i < self.answers@.len() implies g.answers@[i]@
                == self.answers@[i]@ by {
                assert(cloned::<String>(self.answers@[i], g.answers@[i]));
            }
            assert(texts_view(g.answers@) =~= texts_view(self.answers@));
            assert(g@ =~= self@);
        }
        g
    }
}

/// Whether every answer in the list is the same word.
fn all_equal(v: &Vec<String>) -> (r: bool)
    ensures
        r == all_answers_equal(texts_view(v@)),
{
    let mut i: usize = 1;
    while i < v.len()
        invariant
            1 <= i,
            forall|j: int| 0 <= j < i && j < v@.len() ==> #[trigger] v@[j]@ == v@[0]@,
        decreases v@.len() - i,
    {
        if !(v[i] == v[0]) {
            proof {
                assert(texts_view(v@)[i as int] != texts_view(v@)[0]);
            }
            return false;
        }
        i = i + 1;
    }
    proof {
        assert forall|a: int, b: int|
            0 <= a < v@.len() && 0 <= b < v@.len() implies texts_view(v@)[a] == texts_view(
            v@,
        )[b] by {
            assert(v@[a]@ == v@[0]@);
            assert(v@[b]@ == v@[0]@);
        }
    }
    true
}

} // verus!
