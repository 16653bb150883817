use lichess_bot::client::{
    accepts_challenge, dispatch, AccountAction, Challenge, Game, LichessClient, LichessEvent,
    Variant,
};

fn challenge(key: &str, rated: bool) -> Challenge {
    Challenge {
        id: "c1".to_string(),
        variant: Variant { key: key.to_string() },
        rated,
        speed: "blitz".to_string(),
    }
}

#[test]
fn client_keeps_token() {
    let c = LichessClient::new("SECRET-REDACTED".to_string());
    assert_eq!(c.access_token(), "SECRET-REDACTED");
}

#[test]
fn only_unrated_standard_challenges_are_accepted() {
    assert!(accepts_challenge(&challenge("standard", false)));
    assert!(!accepts_challenge(&challenge("standard", true)));
    assert!(!accepts_challenge(&challenge("chess960", false)));
}

#[test]
fn dispatch_routes_records() {
    let e = LichessEvent {
        event_type: "challenge".to_string(),
        challenge: Some(challenge("standard", false)),
        game: None,
    };
    assert!(matches!(dispatch(&e), AccountAction::Accept(id) if id == "c1"));
    let e = LichessEvent {
        event_type: "challenge".to_string(),
        challenge: Some(challenge("standard", true)),
        game: None,
    };
    assert!(matches!(dispatch(&e), AccountAction::Ignore));
    let e = LichessEvent {
        event_type: "gameStart".to_string(),
        challenge: None,
        game: Some(Game { id: "g7".to_string() }),
    };
    assert!(matches!(dispatch(&e), AccountAction::StartGame(id) if id == "g7"));
    let e = LichessEvent { event_type: "gameFinish".to_string(), challenge: None, game: None };
    assert!(matches!(dispatch(&e), AccountAction::Ignore));
}
