//! Where the text of a SQL statement is code, and where it is quoted or a
//! comment.

use vstd::prelude::*;

use crate::text::{
    chars_occur_at, chars_of, find_chars, first_at, lemma_first_at, lemma_first_at_none,
    lemma_found_at, occurs_at,
};

verus! {

/// Just behind the first `mark` at or after `from`; the end of the text where
/// there is none.
pub open spec fn behind(s: Seq<char>, mark: Seq<char>, from: int) -> int {
    match first_at(s, mark, from) {
        Some(i) => i + mark.len(),
        None => s.len() as int,
    }
}

/// The character that closes a literal with the opening delimiter `open`.
pub open spec fn closing(open: char) -> char {
    match open {
        '(' => ')',
        '[' => ']',
        '{' => '}',
        '<' => '>',
        c => c,
    }
}

/// A literal with a delimiter of its own begins at position `p`: `q'[..]'`.
pub open spec fn delimited_at(s: Seq<char>, p: int) -> bool {
    &&& 0 <= p && p + 2 < s.len()
    &&& s[p] == 'q' || s[p] == 'Q'
    &&& s[p + 1] == '\''
}

/// The position that follows a piece of the statement that begins at `p`: a
/// string literal, a quoted name, a comment, or else one character of code. A
/// quote that is doubled inside a literal ends one literal and begins another.
pub open spec fn piece_end(s: Seq<char>, p: int) -> int {
    if occurs_at(s, "'"@, p) {
        behind(s, "'"@, p + 1)
    } else if occurs_at(s, "\""@, p) {
        behind(s, "\""@, p + 1)
    } else if occurs_at(s, "--"@, p) {
        behind(s, "\n"@, p + 2)
    } else if occurs_at(s, "/*"@, p) {
        behind(s, "*/"@, p + 2)
    } else if delimited_at(s, p) {
        behind(s, seq![closing(s[p + 2]), '\''], p + 3)
    } else {
        p + 1
    }
}

/// A piece has a length, and ends within the statement.
pub proof fn lemma_piece_end(s: Seq<char>, p: int)
    requires
        0 <= p < s.len(),
    ensures
        p < piece_end(s, p) <= s.len(),
{
    lemma_found_at(s, "'"@, p + 1);
    lemma_found_at(s, "\""@, p + 1);
    lemma_found_at(s, "\n"@, p + 2);
    lemma_found_at(s, "*/"@, p + 2);
    lemma_found_at(s, seq![closing(s[p + 2]), '\''], p + 3);
}

/// Going piece by piece from position `p`, one comes to position `i`.
pub open spec fn reached(s: Seq<char>, p: int, i: int) -> bool
    decreases s.len() - p,
{
    proof {
        if 0 <= p < s.len() {
            lemma_piece_end(s, p);
        }
    }
    if 0 <= p < i && p < s.len() {
        reached(s, piece_end(s, p), i)
    } else {
        p == i
    }
}

/// A piece of the statement begins at position `i`: what stands there is
/// neither inside quotes nor inside a comment.
pub open spec fn piece_at(s: Seq<char>, i: int) -> bool {
    reached(s, 0, i)
}

fn find_behind(s: &Vec<char>, mark: &Vec<char>, from: usize) -> (r: usize)
    requires
        from <= s@.len(),
    ensures
        r == behind(s@, mark@, from as int),
        from <= r <= s@.len(),
{
    match find_chars(s, mark, from) {
        Some(i) => {
            proof {
                lemma_first_at(s@, mark@, from as int, i as int);
            }
            let n: usize = s.len();
            assert(i + mark@.len() <= n);
            i + mark.len()
        },
        None => {
            proof {
                lemma_first_at_none(s@, mark@, from as int);
            }
            s.len()
        },
    }
}

/// Find the position that follows the piece of the statement that begins at `p`.
pub fn find_piece_end(s: &Vec<char>, p: usize) -> (r: usize)
    requires
        p < s@.len(),
    ensures
        r == piece_end(s@, p as int),
        p < r <= s@.len(),
{
    proof {
        reveal_strlit("--");
        reveal_strlit("/*");
        lemma_piece_end(s@, p as int);
    }
    let n: usize = s.len();
    let quote = chars_of("'");
    let name_quote = chars_of("\"");
    if chars_occur_at(s, &quote, p) {
        find_behind(s, &quote, p + 1)
    } else if chars_occur_at(s, &name_quote, p) {
        find_behind(s, &name_quote, p + 1)
    } else if chars_occur_at(s, &chars_of("--"), p) {
        find_behind(s, &chars_of("\n"), p + 2)
    } else if chars_occur_at(s, &chars_of("/*"), p) {
        find_behind(s, &chars_of("*/"), p + 2)
    } else if (s[p] == 'q' || s[p] == 'Q') && n - p > 2 && s[p + 1] == '\'' {
        let close = match s[p + 2] {
            '(' => ')',
            '[' => ']',
            '{' => '}',
            '<' => '>',
            c => c,
        };
        let mark = vec![close, '\''];
        assert(mark@ =~= seq![closing(s@[p + 2]), '\'']);
        find_behind(s, &mark, p + 3)
    } else {
        p + 1
    }
}

/// Where one comes to `p`, one comes to the same later positions as from `p`.
pub proof fn lemma_reached_through(s: Seq<char>, from: int, p: int, i: int)
    requires
        0 <= from,
        reached(s, from, p),
        p <= i,
    ensures
        reached(s, from, i) == reached(s, p, i),
    decreases s.len() - from,
{
    if from < p && from < s.len() {
        lemma_piece_end(s, from);
        lemma_reached_through(s, piece_end(s, from), p, i);
    }
}

/// No piece begins inside another: what stands in a string literal, in a quoted
/// name or in a comment, behind its first character, is not code.
pub proof fn lemma_pieces_do_not_overlap(s: Seq<char>, p: int, i: int)
    requires
        piece_at(s, p),
        0 <= p < s.len(),
        p < i < piece_end(s, p),
    ensures
        !piece_at(s, i),
{
    lemma_reached_through(s, 0, p, i);
    assert(!reached(s, piece_end(s, p), i));
}

/// Behind each piece begins the next.
pub proof fn lemma_next_piece(s: Seq<char>, p: int)
    requires
        piece_at(s, p),
        0 <= p < s.len(),
    ensures
        piece_at(s, piece_end(s, p)),
{
    lemma_piece_end(s, p);
    lemma_reached_through(s, 0, p, piece_end(s, p));
    assert(reached(s, piece_end(s, p), piece_end(s, p)));
}

} // verus!
