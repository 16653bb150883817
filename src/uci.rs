//! Half-moves in coordinate form (`e2e4`, `e7e8q`): source square,
//! destination square and an optional promotion piece.
use vstd::prelude::*;

verus! {

#[derive(Clone, Copy, Debug, PartialEq, Eq, Structural)]
pub enum Promotion {
    Knight,
    Bishop,
    Rook,
    Queen,
}

/// A half-move. Squares are numbered 0..64, rank by rank from a1:
/// `a1` is 0, `h1` is 7, `a2` is 8, `h8` is 63.
#[derive(Clone, Copy, Debug, PartialEq, Eq, Structural)]
pub struct UciMove {
    pub from: u8,
    pub to: u8,
    pub promotion: Option<Promotion>,
}

/// The square named by a file letter and a rank digit.
pub open spec fn square_of(file: char, rank: char) -> Option<u8> {
    if 'a' as u32 <= file as u32 <= 'h' as u32 && '1' as u32 <= rank as u32 <= '8' as u32 {
        Some(((rank as u32 - '1' as u32) * 8 + (file as u32 - 'a' as u32)) as u8)
    } else {
        None
    }
}

/// The promotion piece named by a lower-case letter.
pub open spec fn promotion_of(c: char) -> Option<Promotion> {
    if c == 'n' {
        Some(Promotion::Knight)
    } else if c == 'b' {
        Some(Promotion::Bishop)
    } else if c == 'r' {
        Some(Promotion::Rook)
    } else if c == 'q' {
        Some(Promotion::Queen)
    } else {
        None
    }
}

/// The half-move a token names: two squares, then at most one promotion
/// letter; anything else names none.
pub open spec fn parse_uci_of(t: Seq<char>) -> Option<UciMove> {
    if t.len() != 4 && t.len() != 5 {
        None
    } else {
        match (square_of(t[0], t[1]), square_of(t[2], t[3])) {
            (Some(from), Some(to)) => if t.len() == 4 {
                Some(UciMove { from, to, promotion: None })
            } else {
                match promotion_of(t[4]) {
                    Some(p) => Some(UciMove { from, to, promotion: Some(p) }),
                    None => None,
                }
            },
            _ => None,
        }
    }
}

fn parse_square(file: char, rank: char) -> (r: Option<u8>)
    ensures
        r == square_of(file, rank),
{
    let f = file as u32;
    let k = rank as u32;
    if 'a' as u32 <= f && f <= 'h' as u32 && '1' as u32 <= k && k <= '8' as u32 {
        Some(((k - '1' as u32) * 8 + (f - 'a' as u32)) as u8)
    } else {
        None
    }
}

fn parse_promotion(c: char) -> (r: Option<Promotion>)
    ensures
        r == promotion_of(c),
{
    if c == 'n' {
        Some(Promotion::Knight)
    } else if c == 'b' {
        Some(Promotion::Bishop)
    } else if c == 'r' {
        Some(Promotion::Rook)
    } else if c == 'q' {
        Some(Promotion::Queen)
    } else {
        None
    }
}

/// Reads a coordinate-form token; `None` when it names no half-move. The
/// grammar is strict: two squares and at most one lower-case promotion
/// letter, so a longer token names nothing.
pub fn parse_uci(token: &Vec<char>) -> (r: Option<UciMove>)
    ensures
        r == parse_uci_of(token@),
{
    let n = token.len();
    if n != 4 && n != 5 {
        return None;
    }
    let from = parse_square(token[0], token[1]);
    let to = parse_square(token[2], token[3]);
    match (from, to) {
        (Some(from), Some(to)) => {
            if n == 4 {
                Some(UciMove { from, to, promotion: None })
            } else {
                match parse_promotion(token[4]) {
                    Some(p) => Some(UciMove { from, to, promotion: Some(p) }),
                    None => None,
                }
            }
        },
        _ => None,
    }
}

} // verus!
