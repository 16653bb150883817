//! The account credential and the records that the server's streams carry.
use vstd::prelude::*;

use crate::text::same_text;

verus! {

/// The bot account's access token, shared read-only by every stream and
/// request.
#[derive(Clone)]
pub struct LichessClient {
    access_token: String,
}

impl LichessClient {
    pub closed spec fn token(&self) -> Seq<char> {
        self.access_token@
    }

    pub fn new(access_token: String) -> (r: Self)
        ensures
            r.token() == access_token@,
    {
        LichessClient { access_token }
    }

    pub fn access_token(&self) -> (r: &String)
        ensures
            r@ == self.token(),
    {
        &self.access_token
    }
}

/// A record of the account stream: a challenge offer or a game start.
#[derive(Clone, Debug)]
pub struct LichessEvent {
    pub event_type: String,
    pub challenge: Option<Challenge>,
    pub game: Option<Game>,
}

#[derive(Clone, Debug)]
pub struct Challenge {
    pub id: String,
    pub variant: Variant,
    pub rated: bool,
    pub speed: String,
}

#[derive(Clone, Debug)]
pub struct Game {
    pub id: String,
}

#[derive(Clone, Debug)]
pub struct Variant {
    pub key: String,
}

#[derive(Clone, Debug)]
pub struct LichessProfile {
    pub id: String,
}

/// A record of a game stream: the full state at the start, then updates.
/// Clock and draw fields are carried along unread.
#[derive(Clone, Debug)]
pub struct GameEvent {
    pub event_type: String,
    pub id: Option<String>,
    pub white: Option<Player>,
    pub black: Option<Player>,
    pub moves: Option<String>,
    pub wtime: Option<i32>,
    pub btime: Option<i32>,
    pub winc: Option<i32>,
    pub binc: Option<i32>,
    pub wdraw: Option<bool>,
    pub bdraw: Option<bool>,
    pub status: Option<String>,
}

#[derive(Clone, Debug)]
pub struct Player {
    pub id: String,
    pub name: String,
    pub rating: i32,
}

#[derive(Clone, Debug)]
pub enum LichessError {
    RequestError(String),
    ParseError(String),
}

/// Challenges are accepted only for the standard variant and unrated.
pub open spec fn accepts_spec(c: Challenge) -> bool {
    c.variant.key@ == "standard"@ && !c.rated
}

/// What the account-level dispatcher does with one record.
#[derive(Clone, Debug)]
pub enum AccountAction {
    /// Accept the challenge with this id.
    Accept(String),
    /// Decline by doing nothing.
    Ignore,
    /// Open a session for the game with this id.
    StartGame(String),
}

/// The dispatcher's decision for a record of the account stream.
pub open spec fn dispatch_spec(e: LichessEvent) -> AccountAction {
    if e.event_type@ == "challenge"@ {
        match e.challenge {
            Some(c) => if accepts_spec(c) {
                AccountAction::Accept(c.id)
            } else {
                AccountAction::Ignore
            },
            None => AccountAction::Ignore,
        }
    } else if e.event_type@ == "gameStart"@ {
        match e.game {
            Some(g) => AccountAction::StartGame(g.id),
            None => AccountAction::Ignore,
        }
    } else {
        AccountAction::Ignore
    }
}

/// Whether a challenge is to be accepted.
pub fn accepts_challenge(challenge: &Challenge) -> (r: bool)
    ensures
        r == accepts_spec(*challenge),
{
    same_text(challenge.variant.key.as_str(), "standard") && !challenge.rated
}

/// Routes a record of the account stream.
pub fn dispatch(event: &LichessEvent) -> (r: AccountAction)
    ensures
        r == dispatch_spec(*event),
{
    if same_text(event.event_type.as_str(), "challenge") {
        match &event.challenge {
            Some(c) => if accepts_challenge(c) {
                AccountAction::Accept(c.id.clone())
            } else {
                AccountAction::Ignore
            },
            None => AccountAction::Ignore,
        }
    } else if same_text(event.event_type.as_str(), "gameStart") {
        match &event.game {
            Some(g) => AccountAction::StartGame(g.id.clone()),
            None => AccountAction::Ignore,
        }
    } else {
        AccountAction::Ignore
    }
}

} // verus!
