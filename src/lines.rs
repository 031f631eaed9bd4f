//! Line statistics: how many lines a text has, and how many of them are
//! code, comment or empty, under a set of comment markers.
use vstd::prelude::*;
use vstd::string::StringSliceAdditionalSpecFns;
use crate::scan::{is_space, is_space_byte, occurs_at, occurs_at_exec};

verus! {

/// Index of the first line feed at or after `i`, or the length of `t`.
pub open spec fn line_end(t: Seq<u8>, i: nat) -> nat
    decreases t.len() - i,
{
    if i >= t.len() {
        t.len()
    } else if t[i as int] == 10 {
        i
    } else {
        line_end(t, i + 1)
    }
}

/// Length in bytes of the white-space character (as `char::is_whitespace`
/// counts it) that starts at `i`, or 0: ASCII tab, line feed, vertical tab,
/// form feed, carriage return and space, and U+0085, U+00A0, U+1680,
/// U+2000 to U+200A, U+2028, U+2029, U+202F, U+205F and U+3000.
pub open spec fn space_len(t: Seq<u8>, i: int) -> nat {
    if i < 0 || i >= t.len() {
        0
    } else if is_space(t[i]) {
        1
    } else if i + 1 < t.len() && t[i] == 0xC2 && (t[i + 1] == 0x85 || t[i + 1] == 0xA0) {
        2
    } else if i + 2 < t.len() && ((t[i] == 0xE1 && t[i + 1] == 0x9A && t[i + 2] == 0x80) || (t[i]
        == 0xE2 && t[i + 1] == 0x80 && ((0x80 <= t[i + 2] && t[i + 2] <= 0x8A) || t[i + 2] == 0xA8
        || t[i + 2] == 0xA9 || t[i + 2] == 0xAF)) || (t[i] == 0xE2 && t[i + 1] == 0x81 && t[i + 2]
        == 0x9F) || (t[i] == 0xE3 && t[i + 1] == 0x80 && t[i + 2] == 0x80)) {
        3
    } else {
        0
    }
}

fn space_len_exec(t: &[u8], i: usize) -> (r: usize)
    ensures
        r == space_len(t@, i as int),
{
    let n = t.len();
    if i >= n {
        return 0;
    }
    assert(t@.len() == n);
    let b = t[i];
    if is_space_byte(b) {
        1
    } else if n - i > 1 && b == 0xC2 && (t[i + 1] == 0x85 || t[i + 1] == 0xA0) {
        2
    } else if n - i > 2 && ((b == 0xE1 && t[i + 1] == 0x9A && t[i + 2] == 0x80) || (b == 0xE2
        && t[i + 1] == 0x80 && ((0x80 <= t[i + 2] && t[i + 2] <= 0x8A) || t[i + 2] == 0xA8 || t[i
        + 2] == 0xA9 || t[i + 2] == 0xAF)) || (b == 0xE2 && t[i + 1] == 0x81 && t[i + 2] == 0x9F)
        || (b == 0xE3 && t[i + 1] == 0x80 && t[i + 2] == 0x80)) {
        3
    } else {
        0
    }
}

/// Start of the first character in `[i, e)` that is not white space, or `e`.
pub open spec fn first_nonspace(t: Seq<u8>, i: nat, e: nat) -> nat
    decreases e - i,
{
    if i >= e || i >= t.len() {
        e
    } else {
        let w = space_len(t, i as int);
        if w > 0 && i + w <= e {
            first_nonspace(t, i + w, e)
        } else {
            i
        }
    }
}

/// The comment markers a language's line counter recognises.
#[derive(Clone, Copy, Debug, PartialEq, Eq, Structural)]
pub enum CommentStyle {
    /// `//` and `/*`, and `*` at the start of a line inside a block comment.
    Slash,
    /// `#`.
    Hash,
    /// `//`, `#` and `--`.
    Mixed,
}

pub open spec fn markers(style: CommentStyle) -> Seq<Seq<u8>> {
    match style {
        CommentStyle::Slash => seq!["//".spec_bytes(), "/*".spec_bytes(), "*".spec_bytes()],
        CommentStyle::Hash => seq!["#".spec_bytes()],
        CommentStyle::Mixed => seq!["//".spec_bytes(), "#".spec_bytes(), "--".spec_bytes()],
    }
}

/// A comment marker of `style` starts at `f` and ends by `e`.
pub open spec fn marked_at(t: Seq<u8>, style: CommentStyle, f: nat, e: nat) -> bool {
    exists|j: int|
        0 <= j < markers(style).len() && occurs_at(t, #[trigger] markers(style)[j], f as int)
            && f + markers(style)[j].len() <= e
}

/// How a line `[i, e)` is counted.
pub enum LineKind {
    Empty,
    Comment,
    Code,
}

pub open spec fn line_kind(t: Seq<u8>, style: CommentStyle, i: nat, e: nat) -> LineKind {
    let f = first_nonspace(t, i, e);
    if f >= e {
        LineKind::Empty
    } else if marked_at(t, style, f, e) {
        LineKind::Comment
    } else {
        LineKind::Code
    }
}

/// Counts of lines, code lines, comment lines and empty lines.
pub struct Tally {
    pub total: nat,
    pub code: nat,
    pub comment: nat,
    pub empty: nat,
}

/// The tally of the lines that start at or after `i`. A line runs up to its
/// line feed; the text after the last line feed is a line when it is not empty.
pub open spec fn tally_from(t: Seq<u8>, style: CommentStyle, i: nat) -> Tally
    decreases t.len() - i,
{
    if i >= t.len() {
        Tally { total: 0, code: 0, comment: 0, empty: 0 }
    } else {
        let e = line_end(t, i);
        let rest = if e < i || e >= t.len() {
            Tally { total: 0, code: 0, comment: 0, empty: 0 }
        } else {
            tally_from(t, style, e + 1)
        };
        {
            match line_kind(t, style, i, e) {
                LineKind::Empty => Tally { total: rest.total + 1, empty: rest.empty + 1, ..rest },
                LineKind::Comment => Tally {
                    total: rest.total + 1,
                    comment: rest.comment + 1,
                    ..rest
                },
                LineKind::Code => Tally { total: rest.total + 1, code: rest.code + 1, ..rest },
            }
        }
    }
}

pub open spec fn tally(t: Seq<u8>, style: CommentStyle) -> Tally {
    tally_from(t, style, 0)
}

pub proof fn lemma_line_end_bounds(t: Seq<u8>, i: nat)
    ensures
        i <= t.len() ==> i <= line_end(t, i) <= t.len(),
        line_end(t, i) < t.len() ==> t[line_end(t, i) as int] == 10,
    decreases t.len() - i,
{
    if i < t.len() && t[i as int] != 10 {
        lemma_line_end_bounds(t, i + 1);
    }
}

/// Every line is exactly one of code, comment or empty, and there are no
/// more lines than bytes.
pub proof fn lemma_tally_sums(t: Seq<u8>, style: CommentStyle, i: nat)
    ensures
        tally_from(t, style, i).total == tally_from(t, style, i).code + tally_from(
            t,
            style,
            i,
        ).comment + tally_from(t, style, i).empty,
        i <= t.len() ==> tally_from(t, style, i).total <= t.len() - i,
    decreases t.len() - i,
{
    if i < t.len() {
        lemma_line_end_bounds(t, i);
        let e = line_end(t, i);
        if e < t.len() {
            lemma_tally_sums(t, style, e + 1);
        }
    }
}

fn line_end_exec(t: &[u8], i: usize) -> (r: usize)
    requires
        i <= t@.len(),
    ensures
        r == line_end(t@, i as nat),
{
    let mut j = i;
    while j < t.len() && t[j] != 10
        invariant
            i <= j <= t@.len(),
            line_end(t@, j as nat) == line_end(t@, i as nat),
        decreases t@.len() - j,
    {
        j = j + 1;
    }
    j
}

fn first_nonspace_exec(t: &[u8], i: usize, e: usize) -> (r: usize)
    requires
        i <= e <= t@.len(),
    ensures
        r == first_nonspace(t@, i as nat, e as nat),
{
    let mut j = i;
    while j < e
        invariant
            i <= j <= e,
            e <= t@.len(),
            first_nonspace(t@, j as nat, e as nat) == first_nonspace(t@, i as nat, e as nat),
        decreases e - j,
    {
        let w = space_len_exec(t, j);
        if w > 0 && w <= e - j {
            j = j + w;
        } else {
            return j;
        }
    }
    j
}

fn marker_fits(t: &[u8], m: &[u8], f: usize, e: usize) -> (r: bool)
    requires
        e <= t@.len(),
    ensures
        r == (occurs_at(t@, m@, f as int) && f + m@.len() <= e),
{
    occurs_at_exec(t, m, f) && m.len() <= e && f <= e - m.len()
}

fn marked_at_exec(t: &[u8], style: CommentStyle, f: usize, e: usize) -> (r: bool)
    requires
        e <= t@.len(),
    ensures
        r == marked_at(t@, style, f as nat, e as nat),
{
    let ghost ms = markers(style);
    match style {
        CommentStyle::Slash => {
            let a = marker_fits(t, "//".as_bytes(), f, e);
            let b = marker_fits(t, "/*".as_bytes(), f, e);
            let c = marker_fits(t, "*".as_bytes(), f, e);
            assert(a ==> occurs_at(t@, ms[0], f as int) && f + ms[0].len() <= e);
            assert(b ==> occurs_at(t@, ms[1], f as int) && f + ms[1].len() <= e);
            assert(c ==> occurs_at(t@, ms[2], f as int) && f + ms[2].len() <= e);
            a || b || c
        },
        CommentStyle::Hash => {
            let a = marker_fits(t, "#".as_bytes(), f, e);
            assert(a ==> occurs_at(t@, ms[0], f as int) && f + ms[0].len() <= e);
            a
        },
        CommentStyle::Mixed => {
            let a = marker_fits(t, "//".as_bytes(), f, e);
            let b = marker_fits(t, "#".as_bytes(), f, e);
            let c = marker_fits(t, "--".as_bytes(), f, e);
            assert(a ==> occurs_at(t@, ms[0], f as int) && f + ms[0].len() <= e);
            assert(b ==> occurs_at(t@, ms[1], f as int) && f + ms[1].len() <= e);
            assert(c ==> occurs_at(t@, ms[2], f as int) && f + ms[2].len() <= e);
            a || b || c
        },
    }
}

/// Line counts of a text: (total, code, comment, empty).
pub fn tally_lines(t: &[u8], style: CommentStyle) -> (r: (usize, usize, usize, usize))
    ensures
        r.0 == tally(t@, style).total,
        r.1 == tally(t@, style).code,
        r.2 == tally(t@, style).comment,
        r.3 == tally(t@, style).empty,
        r.0 == r.1 + r.2 + r.3,
        r.0 <= t@.len(),
{
    proof {
        lemma_tally_sums(t@, style, 0);
    }
    let mut i: usize = 0;
    let mut total: usize = 0;
    let mut code: usize = 0;
    let mut comment: usize = 0;
    let mut empty: usize = 0;
    while i < t.len()
        invariant
            i <= t@.len(),
            total == code + comment + empty,
            total + tally_from(t@, style, i as nat).total == tally(t@, style).total,
            code + tally_from(t@, style, i as nat).code == tally(t@, style).code,
            comment + tally_from(t@, style, i as nat).comment == tally(t@, style).comment,
            empty + tally_from(t@, style, i as nat).empty == tally(t@, style).empty,
            tally(t@, style).total <= t@.len(),
        decreases t@.len() - i,
    {
        proof {
            lemma_line_end_bounds(t@, i as nat);
            lemma_tally_sums(t@, style, i as nat);
        }
        let e = line_end_exec(t, i);
        let f = first_nonspace_exec(t, i, e);
        proof {
            if e < t@.len() {
                lemma_tally_sums(t@, style, (e + 1) as nat);
            }
        }
        if f >= e {
            empty = empty + 1;
        } else if marked_at_exec(t, style, f, e) {
            comment = comment + 1;
        } else {
            code = code + 1;
        }
        total = total + 1;
        i = if e < t.len() {
            e + 1
        } else {
            t.len()
        };
    }
    (total, code, comment, empty)
}

/// Number of line feeds among the first `p` bytes of `t`.
pub open spec fn newlines_before(t: Seq<u8>, p: int) -> nat
    decreases p,
{
    if p <= 0 {
        0
    } else {
        newlines_before(t, p - 1) + if t[p - 1] == 10 {
            1nat
        } else {
            0nat
        }
    }
}

/// The 1-based number of the line that holds byte `p`.
pub open spec fn line_of(t: Seq<u8>, p: int) -> nat {
    newlines_before(t, p) + 1
}

pub proof fn lemma_newlines_bound(t: Seq<u8>, p: int)
    requires
        0 <= p <= t.len(),
    ensures
        newlines_before(t, p) <= p,
    decreases p,
{
    if p > 0 {
        lemma_newlines_bound(t, p - 1);
    }
}

/// Moves a line counter forward: given the line-feed count before `from`,
/// returns the count before `to`.
pub fn advance_newlines(t: &[u8], from: usize, to: usize, count: usize) -> (r: usize)
    requires
        from <= to <= t@.len(),
        count == newlines_before(t@, from as int),
    ensures
        r == newlines_before(t@, to as int),
        r <= to,
{
    proof {
        lemma_newlines_bound(t@, from as int);
    }
    let mut p = from;
    let mut n = count;
    while p < to
        invariant
            from <= p <= to,
            to <= t@.len(),
            n == newlines_before(t@, p as int),
            n <= p,
        decreases to - p,
    {
        if t[p] == 10 {
            n = n + 1;
        }
        p = p + 1;
    }
    n
}

} // verus!
