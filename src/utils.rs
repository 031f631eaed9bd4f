//! Helpers over a text that any extractor can use.
use vstd::prelude::*;
use vstd::string::StringSliceAdditionalSpecFns;
use crate::lines::{advance_newlines, line_of, tally, tally_lines, CommentStyle};
use crate::scan::{
    bounded_at, bounded_at_exec, is_word, is_word_byte, lemma_run_end_bounds, run_end, run_end_exec, ByteClass,
};
use crate::text::{text_from, text_of};

verus! {

/// Counts the lines of a text: (total, code, comment), where a comment line
/// starts with `//`, `#` or `--` after its indentation, and blank lines are
/// neither code nor comment.
pub fn count_lines(content: &str) -> (r: (usize, usize, usize))
    ensures
        r.0 == tally(content.spec_bytes(), CommentStyle::Mixed).total,
        r.1 == tally(content.spec_bytes(), CommentStyle::Mixed).code,
        r.2 == tally(content.spec_bytes(), CommentStyle::Mixed).comment,
        r.0 >= r.1 + r.2,
{
    let (total, code, comment, _) = tally_lines(content.as_bytes(), CommentStyle::Mixed);
    (total, code, comment)
}

/// Start of the identifier run that ends at `p`.
pub open spec fn word_start(t: Seq<u8>, p: int) -> int
    decreases p,
{
    if p <= 0 || p > t.len() || !is_word(t[p - 1]) {
        p
    } else {
        word_start(t, p - 1)
    }
}

proof fn lemma_word_start(t: Seq<u8>, p: int)
    requires
        0 <= p <= t.len(),
    ensures
        0 <= word_start(t, p) <= p,
        forall|j: int| word_start(t, p) <= j < p ==> is_word(#[trigger] t[j]),
    decreases p,
{
    if p > 0 && is_word(t[p - 1]) {
        lemma_word_start(t, p - 1);
    }
}

/// The identifier around byte `p`: the identifier bytes that reach back from
/// `p` and forward from it. None when `p` is past the end or touches no
/// identifier byte.
pub open spec fn identifier_around(t: Seq<u8>, p: int) -> Option<Seq<u8>> {
    if p < 0 || p >= t.len() {
        None
    } else {
        let s = word_start(t, p);
        let e = run_end(t, p as nat, ByteClass::Word) as int;
        if s < e {
            Some(t.subrange(s, e))
        } else {
            None
        }
    }
}

/// The identifier at a byte position of a text.
pub fn extract_identifier_at_position(content: &str, position: usize) -> (r: Option<String>)
    ensures
        match identifier_around(content.spec_bytes(), position as int) {
            Some(b) => r is Some && r->0@ == text_of(b),
            None => r is None,
        },
{
    let t = content.as_bytes();
    if position >= t.len() {
        return None;
    }
    proof {
        lemma_word_start(t@, position as int);
        lemma_run_end_bounds(t@, position as nat, ByteClass::Word);
    }
    let mut s = position;
    while s > 0 && is_word_byte(t[s - 1])
        invariant
            s <= position < t@.len(),
            word_start(t@, s as int) == word_start(t@, position as int),
        decreases s,
    {
        s = s - 1;
    }
    let e = run_end_exec(t, position, ByteClass::Word);
    if s < e {
        let piece = vstd::slice::slice_subrange(t, s, e);
        Some(text_from(piece))
    } else {
        None
    }
}

/// Every word-bounded occurrence `[start, end)` of `k` at or after `i`; the
/// scan resumes past the end of each occurrence it accepts, so none overlap.
pub open spec fn boundaries_from(t: Seq<u8>, k: Seq<u8>, i: nat) -> Seq<(nat, nat)>
    decreases t.len() - i,
{
    if k.len() == 0 || i + k.len() > t.len() {
        seq![]
    } else if bounded_at(t, k, i as int) {
        seq![(i, i + k.len())] + boundaries_from(t, k, i + k.len())
    } else {
        boundaries_from(t, k, i + 1)
    }
}

pub open spec fn pair_view(v: Seq<(usize, usize)>) -> Seq<(nat, nat)> {
    v.map_values(|p: (usize, usize)| (p.0 as nat, p.1 as nat))
}

/// Every word-bounded occurrence of `pattern` in `content`, as byte ranges,
/// none overlapping.
pub fn find_pattern_boundaries(content: &str, pattern: &str) -> (r: Vec<(usize, usize)>)
    ensures
        pair_view(r@) == boundaries_from(content.spec_bytes(), pattern.spec_bytes(), 0),
{
    let t = content.as_bytes();
    let k = pattern.as_bytes();
    let mut out: Vec<(usize, usize)> = Vec::new();
    if k.len() == 0 {
        return out;
    }
    let mut i: usize = 0;
    while i <= t.len() && k.len() <= t.len() - i
        invariant
            k@.len() > 0,
            i <= t@.len() + 1,
            t@.len() == t.len(),
            pair_view(out@) + boundaries_from(t@, k@, i as nat) == boundaries_from(t@, k@, 0),
        decreases t@.len() + 1 - i,
    {
        if bounded_at_exec(t, k, i) {
            let ghost before = out@;
            out.push((i, i + k.len()));
            proof {
                assert(pair_view(out@) =~= pair_view(before).push((i as nat, (i + k@.len()) as nat)));
            }
            i = i + k.len();
        } else {
            i = i + 1;
        }
    }
    proof {
        assert(boundaries_from(t@, k@, i as nat) =~= seq![]);
    }
    out
}

/// The 1-based line that byte `position` stands on; 1 for a position past
/// the end.
pub fn calculate_line_number(content: &str, position: usize) -> (r: usize)
    ensures
        position < content.spec_bytes().len() ==> r == line_of(content.spec_bytes(), position as int),
        position >= content.spec_bytes().len() ==> r == 1,
{
    let t = content.as_bytes();
    if position >= t.len() {
        return 1;
    }
    advance_newlines(t, 0, position, 0) + 1
}

/// Skips white space from `*pos`, then takes the identifier there (possibly
/// empty) and leaves `*pos` after it.
pub fn extract_next_word(content: &str, pos: &mut usize) -> (r: String)
    requires
        *old(pos) <= content.spec_bytes().len(),
    ensures
        ({
            let t = content.spec_bytes();
            let s = run_end(t, *old(pos) as nat, ByteClass::Space);
            &&& *final(pos) == run_end(t, s, ByteClass::Word)
            &&& r@ == text_of(t.subrange(s as int, *final(pos) as int))
        }),
{
    let t = content.as_bytes();
    let s = run_end_exec(t, *pos, ByteClass::Space);
    let e = run_end_exec(t, s, ByteClass::Word);
    proof {
        lemma_run_end_bounds(t@, s as nat, ByteClass::Word);
    }
    let piece = vstd::slice::slice_subrange(t, s, e);
    *pos = e;
    text_from(piece)
}

/// Index of the first `b` at or after `i`, or the length of `t`.
pub open spec fn find_byte_from(t: Seq<u8>, i: nat, b: u8) -> nat
    decreases t.len() - i,
{
    if i >= t.len() || t[i as int] == b {
        i
    } else {
        find_byte_from(t, i + 1, b)
    }
}

/// Moves `*pos` forward to the next `target` byte, or to the end.
pub fn skip_until(content: &str, pos: &mut usize, target: u8)
    ensures
        *final(pos) == find_byte_from(content.spec_bytes(), *old(pos) as nat, target),
{
    let t = content.as_bytes();
    while *pos < t.len() && t[*pos] != target
        invariant
            t@ == content.spec_bytes(),
            find_byte_from(t@, *pos as nat, target) == find_byte_from(t@, *old(pos) as nat, target),
        decreases t@.len() - *pos,
    {
        *pos = *pos + 1;
    }
}

/// Where a string literal whose body starts at `i` ends: just after its
/// closing `quote`, where a backslash escapes the byte after it; the end of
/// the text when it is not closed.
pub open spec fn string_end(t: Seq<u8>, i: nat, quote: u8) -> nat
    decreases t.len() - i,
{
    if i >= t.len() {
        i
    } else if t[i as int] == 92 && i + 1 < t.len() {
        string_end(t, i + 2, quote)
    } else if t[i as int] == quote {
        i + 1
    } else {
        string_end(t, i + 1, quote)
    }
}

/// When `*pos` is at an opening `quote`, moves it past the string literal
/// that starts there; else leaves it.
pub fn skip_string_literal(content: &str, pos: &mut usize, quote: u8)
    ensures
        ({
            let t = content.spec_bytes();
            if *old(pos) < t.len() && t[*old(pos) as int] == quote {
                *final(pos) == string_end(t, (*old(pos) + 1) as nat, quote)
            } else {
                *final(pos) == *old(pos)
            }
        }),
{
    let t = content.as_bytes();
    if *pos >= t.len() || t[*pos] != quote {
        return;
    }
    *pos = *pos + 1;
    while *pos < t.len()
        invariant
            t@ == content.spec_bytes(),
            *old(pos) < t@.len(),
            t@[*old(pos) as int] == quote,
            *pos <= t@.len(),
            string_end(t@, *pos as nat, quote) == string_end(t@, (*old(pos) + 1) as nat, quote),
        decreases t@.len() - *pos,
    {
        let b = t[*pos];
        if b == 92 && *pos + 1 < t.len() {
            *pos = *pos + 2;
        } else if b == quote {
            *pos = *pos + 1;
            return;
        } else {
            *pos = *pos + 1;
        }
    }
}

} // verus!
