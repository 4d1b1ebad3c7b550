use crate::text::{chars_of, text_of, trim, trimmed};
use vstd::prelude::*;

verus! {

/// Whether the separator `OR` stands at the very front of `s`.
pub open spec fn starts_with_or(s: Seq<char>) -> bool {
    s.len() >= 2 && s[0] == 'O' && s[1] == 'R'
}

/// The pieces of `s` between the occurrences of `OR`, read from the left;
/// an occurrence never overlaps the one before it. There is always at least
/// one piece, and a piece may be empty.
pub open spec fn pieces(s: Seq<char>) -> Seq<Seq<char>>
    decreases s.len(),
{
    if s.len() == 0 {
        seq![Seq::<char>::empty()]
    } else if starts_with_or(s) {
        seq![Seq::<char>::empty()] + pieces(s.skip(2))
    } else {
        let rest = pieces(s.drop_first());
        seq![seq![s[0]] + rest[0]] + rest.drop_first()
    }
}

/// The license identifiers that the expression `s` names: its pieces, each
/// without the white space around it. Nothing is looked up or merged.
pub open spec fn license_ids(s: Seq<char>) -> Seq<Seq<char>> {
    Seq::new(pieces(s).len(), |i: int| trimmed(pieces(s)[i]))
}

/// An expression always has a first piece.
pub proof fn lemma_pieces_nonempty(s: Seq<char>)
    ensures
        pieces(s).len() >= 1,
    decreases s.len(),
{
    if s.len() == 0 {
    } else if starts_with_or(s) {
        lemma_pieces_nonempty(s.skip(2));
    } else {
        lemma_pieces_nonempty(s.drop_first());
    }
}

/// The expression that has `parts` as its pieces: the parts, with `OR` between each two.
pub open spec fn rejoined(parts: Seq<Seq<char>>) -> Seq<char>
    decreases parts.len(),
{
    if parts.len() == 0 {
        Seq::empty()
    } else if parts.len() == 1 {
        parts[0]
    } else {
        parts[0] + seq!['O', 'R'] + rejoined(parts.drop_first())
    }
}

/// Whether `OR` stands somewhere in `s`.
pub open spec fn holds_or(s: Seq<char>) -> bool {
    exists|i: int| 0 <= i && i + 1 < s.len() && #[trigger] s[i] == 'O' && s[i + 1] == 'R'
}

/// A first piece that is not empty begins as the expression does.
pub proof fn lemma_first_piece_begins_the_expression(s: Seq<char>)
    requires
        pieces(s)[0].len() > 0,
    ensures
        s.len() > 0,
        pieces(s)[0][0] == s[0],
{
    if s.len() > 0 && !starts_with_or(s) {
        lemma_pieces_nonempty(s.drop_first());
    }
}

/// The pieces of an expression, put together again with `OR` between
/// them, are the expression.
pub proof fn lemma_pieces_rejoin(s: Seq<char>)
    ensures
        rejoined(pieces(s)) == s,
    decreases s.len(),
{
    if s.len() == 0 {
    } else if starts_with_or(s) {
        let tail = pieces(s.skip(2));
        lemma_pieces_nonempty(s.skip(2));
        lemma_pieces_rejoin(s.skip(2));
        assert(pieces(s).drop_first() == tail);
        assert(Seq::<char>::empty() + seq!['O', 'R'] + s.skip(2) == s);
    } else {
        let rest = pieces(s.drop_first());
        lemma_pieces_nonempty(s.drop_first());
        lemma_pieces_rejoin(s.drop_first());
        assert(seq![s[0]] + s.drop_first() == s);
        if rest.len() >= 2 {
            assert(pieces(s).drop_first() == rest.drop_first());
            assert((seq![s[0]] + rest[0]) + seq!['O', 'R'] + rejoined(rest.drop_first()) == seq![
                s[0],
            ] + (rest[0] + seq!['O', 'R'] + rejoined(rest.drop_first())));
        }
    }
}

/// No piece of an expression holds an `OR`.
pub proof fn lemma_pieces_hold_no_or(s: Seq<char>, k: int)
    requires
        0 <= k < pieces(s).len(),
    ensures
        !holds_or(pieces(s)[k]),
    decreases s.len(),
{
    if s.len() == 0 {
    } else if starts_with_or(s) {
        if k > 0 {
            lemma_pieces_hold_no_or(s.skip(2), k - 1);
        }
    } else {
        let rest = pieces(s.drop_first());
        lemma_pieces_nonempty(s.drop_first());
        if k > 0 {
            lemma_pieces_hold_no_or(s.drop_first(), k);
            assert(pieces(s)[k] == rest[k]);
        } else {
            lemma_pieces_hold_no_or(s.drop_first(), 0);
            let first = seq![s[0]] + rest[0];
            assert forall|i: int| 0 <= i && i + 1 < first.len() implies !(#[trigger] first[i]
                == 'O' && first[i + 1] == 'R') by {
                if i == 0 {
                    lemma_first_piece_begins_the_expression(s.drop_first());
                    assert(first[1] == rest[0][0]);
                    assert(s.drop_first()[0] == s[1]);
                } else {
                    assert(first[i] == rest[0][i - 1]);
                    assert(first[i + 1] == rest[0][i]);
                }
            }
        }
    }
}

/// What has been read of an expression so far: the pieces that are closed,
/// the piece being read, and the pieces of what is still to read.
pub open spec fn joined(done: Seq<Seq<char>>, current: Seq<char>, tail: Seq<Seq<char>>) -> Seq<
    Seq<char>,
> {
    done + seq![current + tail[0]] + tail.drop_first()
}

/// Splits `s` at each `OR`.
pub fn split_on_or(s: &Vec<char>) -> (r: Vec<Vec<char>>)
    ensures
        r.deep_view() == pieces(s@),
{
    let n: usize = s.len();
    let mut done: Vec<Vec<char>> = Vec::new();
    let mut current: Vec<char> = Vec::new();
    let mut i: usize = 0;
    proof {
        lemma_pieces_nonempty(s@);
        assert(s@.skip(0) == s@);
        assert(joined(done.deep_view(), current@, pieces(s@)) == pieces(s@));
    }
    while i < n
        invariant
            n == s.len(),
            i <= n,
            pieces(s@) == joined(done.deep_view(), current@, pieces(s@.skip(i as int))),
        decreases n - i,
    {
        let ghost here = s@.skip(i as int);
        let ghost before = done.deep_view();
        if s[i] == 'O' && i + 1 < n && s[i + 1] == 'R' {
            proof {
                assert(starts_with_or(here));
                assert(here.skip(2) == s@.skip(i + 2));
                let tail = pieces(s@.skip(i + 2));
                lemma_pieces_nonempty(s@.skip(i + 2));
                assert(pieces(here) == seq![Seq::<char>::empty()] + tail);
                assert(current@ + pieces(here)[0] == current@);
                assert(pieces(here).drop_first() == tail);
                assert(before.push(current@) + seq![Seq::<char>::empty() + tail[0]]
                    + tail.drop_first() == before + seq![current@] + tail);
            }
            let ghost closed = current@;
            done.push(current);
            current = Vec::new();
            i += 2;
            proof {
                assert(done.deep_view() =~~= before.push(closed));
            }
        } else {
            proof {
                assert(here[0] == s@[i as int]);
                if i + 1 < n {
                    assert(here[1] == s@[i + 1]);
                }
                assert(!starts_with_or(here));
                assert(here.drop_first() == s@.skip(i + 1));
                let rest = pieces(s@.skip(i + 1));
                lemma_pieces_nonempty(s@.skip(i + 1));
                assert(pieces(here) == seq![seq![here[0]] + rest[0]] + rest.drop_first());
                assert(current@ + pieces(here)[0] == current@.push(s@[i as int]) + rest[0]);
                assert(pieces(here).drop_first() == rest.drop_first());
            }
            current.push(s[i]);
            i += 1;
        }
    }
    proof {
        assert(s@.skip(n as int) == Seq::<char>::empty());
        let before = done.deep_view();
        assert(current@ + Seq::<char>::empty() == current@);
        assert(pieces(s@) == before.push(current@));
    }
    let ghost before = done.deep_view();
    let ghost closed = current@;
    done.push(current);
    proof {
        assert(done.deep_view() =~~= before.push(closed));
    }
    done
}

/// The license identifiers named by `expression`.
pub fn parse_license(expression: &str) -> (r: Vec<String>)
    ensures
        r.deep_view() == license_ids(expression@),
{
    let parts = split_on_or(&chars_of(expression));
    let mut out: Vec<String> = Vec::new();
    let mut i: usize = 0;
    while i < parts.len()
        invariant
            i <= parts.len(),
            parts.deep_view() == pieces(expression@),
            out@.len() == i,
            forall|k: int| 0 <= k < i ==> (#[trigger] out@[k])@ == trimmed(pieces(expression@)[k]),
        decreases parts.len() - i,
    {
        proof {
            assert(parts.deep_view()[i as int] == parts@[i as int]@);
        }
        let id = text_of(&trim(&parts[i]));
        out.push(id);
        i += 1;
    }
    proof {
        assert(parts.deep_view().len() == parts@.len());
        assert(out.deep_view() == license_ids(expression@));
    }
    out
}

} // verus!
