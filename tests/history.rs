use lichess_bot::moves::{move_tokens, resolve};
use lichess_bot::uci::{parse_uci, Promotion, UciMove};

fn chars(s: &str) -> Vec<char> {
    s.chars().collect()
}

#[test]
fn tokens_of_empty_history() {
    assert!(move_tokens("").is_empty());
}

#[test]
fn tokens_split_on_single_spaces() {
    assert_eq!(move_tokens("e2e4 e7e5 g1f3"), vec!["e2e4", "e7e5", "g1f3"]);
    assert_eq!(move_tokens("e2e4  e7e5"), vec!["e2e4", "", "e7e5"]);
}

#[test]
fn resolve_returns_trailing_tokens() {
    assert_eq!(resolve(1, "e2e4 e7e5 g1f3"), vec!["e7e5", "g1f3"]);
    assert_eq!(resolve(0, "e2e4 e7e5"), vec!["e2e4", "e7e5"]);
}

#[test]
fn resolve_count_matches_new_tokens() {
    let h = "d2d4 d7d5 c2c4 e7e6";
    for k in 0..=4usize {
        let r = resolve(k, h);
        assert_eq!(r.len(), 4 - k);
        assert_eq!(r, move_tokens(h)[k..].to_vec());
    }
}

#[test]
fn resolve_stale_report_is_empty() {
    assert!(resolve(2, "e2e4 e7e5").is_empty());
    assert!(resolve(5, "e2e4 e7e5").is_empty());
    assert!(resolve(0, "").is_empty());
}

#[test]
fn resolve_again_after_applying_is_empty() {
    let h = "e2e4 e7e5 g1f3";
    let first = resolve(1, h);
    assert_eq!(first.len(), 2);
    assert!(resolve(1 + first.len(), h).is_empty());
    assert_eq!(resolve(1, h), first);
}

#[test]
fn parse_plain_move() {
    assert_eq!(parse_uci(&chars("e2e4")), Some(UciMove { from: 12, to: 28, promotion: None }));
    assert_eq!(parse_uci(&chars("a1h8")), Some(UciMove { from: 0, to: 63, promotion: None }));
}

#[test]
fn parse_promotion_move() {
    assert_eq!(
        parse_uci(&chars("e7e8q")),
        Some(UciMove { from: 52, to: 60, promotion: Some(Promotion::Queen) })
    );
    assert_eq!(
        parse_uci(&chars("b2a1n")),
        Some(UciMove { from: 9, to: 0, promotion: Some(Promotion::Knight) })
    );
}

#[test]
fn parse_rejects_malformed_tokens() {
    assert_eq!(parse_uci(&chars("")), None);
    assert_eq!(parse_uci(&chars("e9e4")), None);
    assert_eq!(parse_uci(&chars("i2e4")), None);
    assert_eq!(parse_uci(&chars("e7e8k")), None);
    assert_eq!(parse_uci(&chars("e2e4e5")), None);
}
