//! Move histories: the space-separated list of half-move tokens that the
//! server reports, and the extraction of the tokens not yet applied locally.
use vstd::prelude::*;

use crate::text::{chars_of, string_of};

verus! {

/// The pieces of `s` between single spaces, from the left. There is always
/// at least one piece; two adjacent spaces give an empty piece.
pub open spec fn split_spaces(s: Seq<char>) -> Seq<Seq<char>>
    decreases s.len(),
{
    if s.len() == 0 {
        seq![Seq::<char>::empty()]
    } else {
        let rest = split_spaces(s.drop_last());
        if s.last() == ' ' {
            rest.push(Seq::<char>::empty())
        } else {
            rest.update(rest.len() - 1, rest.last().push(s.last()))
        }
    }
}

/// The half-move tokens of a history: none for an empty history, otherwise
/// the pieces between single spaces.
pub open spec fn move_tokens_of(history: Seq<char>) -> Seq<Seq<char>> {
    if history.len() == 0 {
        Seq::empty()
    } else {
        split_spaces(history)
    }
}

/// The number of half-moves in a history.
pub open spec fn token_count(history: Seq<char>) -> nat {
    move_tokens_of(history).len()
}

/// The tokens of `history` beyond the first `known` ones, in order; nothing
/// when the history holds no more than `known` tokens.
pub open spec fn resolve_of(known: nat, history: Seq<char>) -> Seq<Seq<char>> {
    let t = move_tokens_of(history);
    if t.len() <= known {
        Seq::empty()
    } else {
        t.subrange(known as int, t.len() as int)
    }
}

/// The character sequences of a list of strings.
pub open spec fn string_views(v: Seq<String>) -> Seq<Seq<char>> {
    v.map_values(|t: String| t@)
}

pub proof fn lemma_split_spaces_nonempty(s: Seq<char>)
    ensures
        split_spaces(s).len() >= 1,
    decreases s.len(),
{
    if s.len() > 0 {
        lemma_split_spaces_nonempty(s.drop_last());
    }
}

/// Splits a move history into its half-move tokens.
pub fn move_tokens(history: &str) -> (r: Vec<String>)
    ensures
        string_views(r@) == move_tokens_of(history@),
{
    let chars = chars_of(history);
    let n = chars.len();
    let mut tokens: Vec<String> = Vec::new();
    if n == 0 {
        proof {
            assert(string_views(tokens@) =~= move_tokens_of(history@));
        }
        return tokens;
    }
    let mut cur: Vec<char> = Vec::new();
    let mut i: usize = 0;
    proof {
        assert(chars@.subrange(0, 0) =~= Seq::<char>::empty());
        assert(string_views(tokens@).push(cur@) =~= seq![Seq::<char>::empty()]);
    }
    while i < n
        invariant
            n == chars@.len(),
            chars@ == history@,
            i <= n,
            string_views(tokens@).push(cur@) == split_spaces(chars@.subrange(0, i as int)),
        decreases n - i,
    {
        let c = chars[i];
        proof {
            let p = chars@.subrange(0, i + 1);
            assert(p.drop_last() =~= chars@.subrange(0, i as int));
            assert(p.last() == c);
            lemma_split_spaces_nonempty(p.drop_last());
        }
        if c == ' ' {
            let t = string_of(&cur);
            proof {
                assert(string_views(tokens@.push(t)) =~= string_views(tokens@).push(cur@));
            }
            tokens.push(t);
            cur = Vec::new();
            proof {
                assert(string_views(tokens@).push(cur@) =~= split_spaces(
                    chars@.subrange(0, i + 1),
                ));
            }
        } else {
            let ghost before = string_views(tokens@).push(cur@);
            cur.push(c);
            proof {
                assert(string_views(tokens@).push(cur@) =~= before.update(
                    before.len() - 1,
                    before.last().push(c),
                ));
            }
        }
        i += 1;
    }
    let t = string_of(&cur);
    proof {
        assert(chars@.subrange(0, n as int) =~= history@);
        assert(string_views(tokens@.push(t)) =~= string_views(tokens@).push(cur@));
    }
    tokens.push(t);
    tokens
}

/// The tokens of `move_history` beyond the first `known_ply_count`, in order.
/// A history with no more than `known_ply_count` tokens gives none.
pub fn resolve(known_ply_count: usize, move_history: &str) -> (r: Vec<String>)
    ensures
        string_views(r@) == resolve_of(known_ply_count as nat, move_history@),
        known_ply_count <= token_count(move_history@) ==> {
            &&& r@.len() == token_count(move_history@) - known_ply_count
            &&& string_views(r@) == move_tokens_of(move_history@).subrange(
                known_ply_count as int,
                token_count(move_history@) as int,
            )
        },
{
    let mut tokens = move_tokens(move_history);
    let ghost all = string_views(tokens@);
    if tokens.len() <= known_ply_count {
        let r: Vec<String> = Vec::new();
        proof {
            assert(string_views(r@) =~= resolve_of(known_ply_count as nat, move_history@));
            if known_ply_count <= token_count(move_history@) {
                assert(all.subrange(known_ply_count as int, all.len() as int) =~= Seq::<
                    Seq<char>,
                >::empty());
            }
        }
        r
    } else {
        let r = tokens.split_off(known_ply_count);
        proof {
            assert(string_views(r@) =~= all.subrange(known_ply_count as int, all.len() as int));
        }
        r
    }
}

/// Once the tokens that `resolve` returns are applied, the known count equals
/// the history's token count, and resolving the same history again yields
/// nothing.
pub proof fn lemma_resolve_idempotent(known: nat, history: Seq<char>)
    requires
        known <= token_count(history),
    ensures
        known + resolve_of(known, history).len() == token_count(history),
        resolve_of(known + resolve_of(known, history).len(), history) == Seq::<
            Seq<char>,
        >::empty(),
{
}

} // verus!
