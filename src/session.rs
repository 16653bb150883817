//! The per-game turn loop as a state machine. The caller pulls events, asks
//! the engine, submits moves and mutates its board; the session decides
//! whose turn it is, which reported token is new, and which legal move it
//! names. Its ply count is the number of half-moves applied to the board.
use vstd::prelude::*;

use crate::client::{GameEvent, Player};
use crate::moves::{move_tokens, move_tokens_of, resolve, resolve_of, string_views, token_count};
use crate::text::{chars_of, same_text};
use crate::uci::{parse_uci, parse_uci_of, UciMove};

verus! {

#[derive(Clone, Copy, Debug, PartialEq, Eq, Structural)]
pub enum Side {
    White,
    Black,
}

#[derive(Clone, Copy, Debug, PartialEq, Eq, Structural)]
pub enum Phase {
    AwaitingColorAssignment,
    InPlay,
    Finished,
}

/// Why a session cannot go on.
#[derive(Clone, Copy, Debug, PartialEq, Eq, Structural)]
pub enum SessionError {
    /// The first record of the game is not its full state.
    NotFullState,
    /// The full state lacks the game's id.
    MissingGameId,
    /// The full state lacks a player's identity.
    MissingParticipant,
    /// The bot is neither of the two players.
    NotAParticipant,
    /// A reported history holds fewer half-moves than an earlier report.
    HistoryShrank,
    /// The engine gave no move although legal moves exist.
    NoEngineMove,
    /// A reported token names no half-move.
    UnreadableMove,
    /// A reported half-move is none of the legal moves.
    IllegalReportedMove,
}

/// What the caller does next.
#[derive(Clone, Copy, Debug, PartialEq, Eq, Structural)]
pub enum Turn {
    /// The side to move has no legal move: the game is over.
    Finished,
    /// Ask the engine for a move, apply it and submit it.
    BotToMove,
    /// Pull events until a new opponent move is reported.
    OpponentToMove,
}

/// The side to move after `plies` half-moves.
pub open spec fn side_after(plies: nat) -> Side {
    if plies % 2 == 0 {
        Side::White
    } else {
        Side::Black
    }
}

pub open spec fn is_player(p: Option<Player>, bot: Seq<char>) -> bool {
    match p {
        Some(q) => q.id@ == bot,
        None => false,
    }
}

/// The bot's side as the game's first record gives it.
pub open spec fn assignment_of(bot: Seq<char>, first: GameEvent) -> Result<Side, SessionError> {
    if first.event_type@ != "gameFull"@ {
        Err(SessionError::NotFullState)
    } else if first.id is None {
        Err(SessionError::MissingGameId)
    } else if first.white is None || first.black is None {
        Err(SessionError::MissingParticipant)
    } else if is_player(first.white, bot) {
        Ok(Side::White)
    } else if is_player(first.black, bot) {
        Ok(Side::Black)
    } else {
        Err(SessionError::NotAParticipant)
    }
}

/// The first token of a reported history that is not yet applied after
/// `plies` half-moves.
pub open spec fn next_token_of(plies: nat, history: Seq<Seq<char>>) -> Option<Seq<char>> {
    if history.len() > plies {
        Some(history[plies as int])
    } else {
        None
    }
}

/// The first of a list of tokens, if any.
pub open spec fn first_of(tokens: Seq<Seq<char>>) -> Option<Seq<char>> {
    if tokens.len() > 0 {
        Some(tokens[0])
    } else {
        None
    }
}

/// The characters of an observation.
pub open spec fn observation_view(r: Result<Option<String>, SessionError>) -> Result<
    Option<Seq<char>>,
    SessionError,
> {
    match r {
        Ok(Some(t)) => Ok(Some(t@)),
        Ok(None) => Ok(None),
        Err(e) => Err(e),
    }
}

/// The first legal move equal to `m`, if any.
pub open spec fn first_match(m: UciMove, legal: Seq<UciMove>, i: int) -> bool {
    0 <= i < legal.len() && legal[i] == m && forall|j: int| 0 <= j < i ==> legal[j] != m
}

pub struct GameSession {
    phase: Phase,
    bot_side: Side,
    plies: usize,
    history: Vec<String>,
}

impl GameSession {
    pub closed spec fn phase_spec(&self) -> Phase {
        self.phase
    }

    pub closed spec fn bot_side_spec(&self) -> Side {
        self.bot_side
    }

    pub closed spec fn plies_spec(&self) -> nat {
        self.plies as nat
    }

    /// The tokens of the longest history reported so far.
    pub closed spec fn history_spec(&self) -> Seq<Seq<char>> {
        string_views(self.history@)
    }

    /// A session in play knows its side; the side to move follows from the
    /// ply count.
    pub open spec fn to_move(&self) -> Side {
        side_after(self.plies_spec())
    }

    pub open spec fn bot_to_move(&self) -> bool {
        self.to_move() == self.bot_side_spec()
    }

    pub fn new() -> (r: Self)
        ensures
            r.phase_spec() == Phase::AwaitingColorAssignment,
            r.plies_spec() == 0,
            r.history_spec() == Seq::<Seq<char>>::empty(),
    {
        let history: Vec<String> = Vec::new();
        proof {
            assert(string_views(history@) =~= Seq::<Seq<char>>::empty());
        }
        GameSession { phase: Phase::AwaitingColorAssignment, bot_side: Side::White, plies: 0, history }
    }

    pub fn phase(&self) -> (r: Phase)
        ensures
            r == self.phase_spec(),
    {
        self.phase
    }

    pub fn bot_side(&self) -> (r: Side)
        ensures
            r == self.bot_side_spec(),
    {
        self.bot_side
    }

    pub fn plies(&self) -> (r: usize)
        ensures
            r == self.plies_spec(),
    {
        self.plies
    }

    pub fn side_to_move(&self) -> (r: Side)
        ensures
            r == self.to_move(),
    {
        if self.plies % 2 == 0 {
            Side::White
        } else {
            Side::Black
        }
    }

    /// Takes the bot's side from the game's first record. On success the
    /// session is in play; on failure it is unchanged and cannot proceed.
    pub fn assign_color(&mut self, bot_id: &str, first: &GameEvent) -> (r: Result<Side, SessionError>)
        requires
            old(self).phase_spec() == Phase::AwaitingColorAssignment,
        ensures
            r == assignment_of(bot_id@, *first),
            r is Ok ==> {
                &&& final(self).phase_spec() == Phase::InPlay
                &&& final(self).bot_side_spec() == r->Ok_0
                &&& final(self).plies_spec() == old(self).plies_spec()
                &&& final(self).history_spec() == old(self).history_spec()
            },
            r is Err ==> *final(self) == *old(self),
    {
        if !same_text(first.event_type.as_str(), "gameFull") {
            return Err(SessionError::NotFullState);
        }
        if first.id.is_none() {
            return Err(SessionError::MissingGameId);
        }
        let (white, black) = match (&first.white, &first.black) {
            (Some(w), Some(b)) => (w, b),
            _ => return Err(SessionError::MissingParticipant),
        };
        let side = if same_text(white.id.as_str(), bot_id) {
            Side::White
        } else if same_text(black.id.as_str(), bot_id) {
            Side::Black
        } else {
            return Err(SessionError::NotAParticipant);
        };
        self.bot_side = side;
        self.phase = Phase::InPlay;
        Ok(side)
    }

    /// Decides the next step from the number of legal moves of the side to
    /// move. With none the session is finished and pulls nothing more.
    pub fn next_turn(&mut self, legal_move_count: usize) -> (r: Turn)
        requires
            old(self).phase_spec() == Phase::InPlay,
        ensures
            final(self).plies_spec() == old(self).plies_spec(),
            final(self).bot_side_spec() == old(self).bot_side_spec(),
            final(self).history_spec() == old(self).history_spec(),
            legal_move_count == 0 ==> r == Turn::Finished && final(self).phase_spec()
                == Phase::Finished,
            legal_move_count > 0 ==> *final(self) == *old(self) && r == (if old(
                self,
            ).bot_to_move() {
                Turn::BotToMove
            } else {
                Turn::OpponentToMove
            }),
    {
        if legal_move_count == 0 {
            self.phase = Phase::Finished;
            Turn::Finished
        } else if self.side_to_move() == self.bot_side {
            Turn::BotToMove
        } else {
            Turn::OpponentToMove
        }
    }

    /// Records the engine's move on the bot's turn; the caller applies it to
    /// its board and submits it. No move is a consistency error.
    pub fn record_bot_move(&mut self, engine_move: Option<UciMove>) -> (r: Result<
        UciMove,
        SessionError,
    >)
        requires
            old(self).phase_spec() == Phase::InPlay,
            old(self).bot_to_move(),
            old(self).plies_spec() < usize::MAX,
        ensures
            engine_move is None ==> r == Err::<UciMove, SessionError>(SessionError::NoEngineMove)
                && *final(self) == *old(self),
            engine_move is Some ==> {
                &&& r == Ok::<UciMove, SessionError>(engine_move->Some_0)
                &&& final(self).plies_spec() == old(self).plies_spec() + 1
                &&& final(self).phase_spec() == old(self).phase_spec()
                &&& final(self).bot_side_spec() == old(self).bot_side_spec()
                &&& final(self).history_spec() == old(self).history_spec()
                &&& !final(self).bot_to_move()
            },
    {
        match engine_move {
            Some(m) => {
                self.plies = self.plies + 1;
                Ok(m)
            },
            None => Err(SessionError::NoEngineMove),
        }
    }

    /// The first token of the longest reported history that is not yet
    /// applied. A report that brought several new tokens hands them out here
    /// one at a time, without a new record.
    pub fn pending_token(&self) -> (r: Option<String>)
        ensures
            match (r, next_token_of(self.plies_spec(), self.history_spec())) {
                (Some(t), Some(u)) => t@ == u,
                (None, None) => true,
                _ => false,
            },
    {
        if self.history.len() > self.plies {
            Some(self.history[self.plies].clone())
        } else {
            None
        }
    }

    /// Reads a game record. A history shorter than an earlier report is a
    /// consistency error and changes nothing. Otherwise the history is
    /// recorded and the first of its tokens beyond the applied plies, as
    /// `resolve` gives them, is returned: nothing for a stale report that
    /// holds no more tokens than were applied. A record without a history
    /// changes nothing and returns the first token still pending.
    pub fn observe(&mut self, event: &GameEvent) -> (r: Result<Option<String>, SessionError>)
        ensures
            final(self).plies_spec() == old(self).plies_spec(),
            final(self).phase_spec() == old(self).phase_spec(),
            final(self).bot_side_spec() == old(self).bot_side_spec(),
            match event.moves {
                None => *final(self) == *old(self) && observation_view(r) == Ok::<
                    Option<Seq<char>>,
                    SessionError,
                >(next_token_of(old(self).plies_spec(), old(self).history_spec())),
                Some(h) => if token_count(h@) < old(self).history_spec().len() {
                    r == Err::<Option<String>, SessionError>(SessionError::HistoryShrank)
                        && *final(self) == *old(self)
                } else {
                    &&& final(self).history_spec() == move_tokens_of(h@)
                    &&& observation_view(r) == Ok::<Option<Seq<char>>, SessionError>(
                        first_of(resolve_of(old(self).plies_spec(), h@)),
                    )
                },
            },
    {
        match &event.moves {
            None => Ok(self.pending_token()),
            Some(h) => {
                let tokens = move_tokens(h.as_str());
                proof {
                    assert(string_views(tokens@).len() == tokens@.len());
                    assert(string_views(self.history@).len() == self.history@.len());
                }
                if tokens.len() < self.history.len() {
                    return Err(SessionError::HistoryShrank);
                }
                let fresh = resolve(self.plies, h.as_str());
                self.history = tokens;
                proof {
                    assert(string_views(fresh@).len() == fresh@.len());
                }
                if fresh.len() > 0 {
                    let t = fresh[0].clone();
                    proof {
                        assert(string_views(fresh@)[0] == fresh@[0]@);
                    }
                    Ok(Some(t))
                } else {
                    Ok(None)
                }
            },
        }
    }

    /// Matches an opponent's token against the legal moves of the board.
    /// On success the index of the first equal legal move is returned, for
    /// the caller to apply, and one more ply is counted; otherwise the
    /// session is unchanged.
    pub fn apply_opponent_token(&mut self, token: &str, legal: &Vec<UciMove>) -> (r: Result<
        usize,
        SessionError,
    >)
        requires
            old(self).phase_spec() == Phase::InPlay,
            !old(self).bot_to_move(),
            old(self).plies_spec() < usize::MAX,
        ensures
            parse_uci_of(token@) is None ==> r == Err::<usize, SessionError>(
                SessionError::UnreadableMove,
            ),
            parse_uci_of(token@) is Some && !legal@.contains(parse_uci_of(token@)->Some_0) ==> r
                == Err::<usize, SessionError>(SessionError::IllegalReportedMove),
            parse_uci_of(token@) is Some && legal@.contains(parse_uci_of(token@)->Some_0) ==> r is Ok,
            r is Err ==> *final(self) == *old(self),
            r is Ok ==> {
                &&& parse_uci_of(token@) is Some
                &&& first_match(parse_uci_of(token@)->Some_0, legal@, r->Ok_0 as int)
                &&& final(self).plies_spec() == old(self).plies_spec() + 1
                &&& final(self).phase_spec() == old(self).phase_spec()
                &&& final(self).bot_side_spec() == old(self).bot_side_spec()
                &&& final(self).history_spec() == old(self).history_spec()
                &&& final(self).bot_to_move()
            },
    {
        let chars = chars_of(token);
        let m = match parse_uci(&chars) {
            Some(m) => m,
            None => return Err(SessionError::UnreadableMove),
        };
        let mut i: usize = 0;
        while i < legal.len()
            invariant
                i <= legal@.len(),
                forall|j: int| 0 <= j < i ==> legal@[j] != m,
                *self == *old(self),
                old(self).plies_spec() < usize::MAX,
                !old(self).bot_to_move(),
                parse_uci_of(token@) == Some(m),
            decreases legal@.len() - i,
        {
            if legal[i] == m {
                proof {
                    assert(legal@[i as int] == m);
                    assert(first_match(m, legal@, i as int));
                }
                self.plies = self.plies + 1;
                proof {
                    let p = old(self).plies_spec();
                    if p % 2 == 0 {
                        assert(side_after(p) == Side::White);
                        assert(side_after(p + 1) == Side::Black);
                    } else {
                        assert(side_after(p) == Side::Black);
                        assert(side_after(p + 1) == Side::White);
                    }
                }
                return Ok(i);
            }
            i += 1;
        }
        proof {
            assert(!legal@.contains(m));
        }
        Err(SessionError::IllegalReportedMove)
    }
}

} // verus!
