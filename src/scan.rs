//! Byte-level scanning primitives shared by every language extractor.
//!
//! The scanners walk the text with a forward cursor. Each one is
//! specified by a recursive spec function over the byte sequence, and the
//! executable loop is proved to compute exactly that function.
use vstd::prelude::*;
use vstd::string::StringSliceAdditionalSpecFns;

verus! {

/// Texts up to this many bytes can be analysed; it keeps every count and
/// line number in range.
pub const MAX_CONTENT_LEN: usize = 0x7FFF_FFFF;

/// A byte that can be part of an identifier: an ASCII letter, digit or
/// underscore, or any byte of a non-ASCII character (so letters such as `é`
/// belong to identifiers).
pub open spec fn is_word(b: u8) -> bool {
    (97 <= b && b <= 122) || (65 <= b && b <= 90) || (48 <= b && b <= 57) || b == 95 || b >= 128
}

/// ASCII white space: space, tab, line feed, vertical tab, form feed, carriage return.
pub open spec fn is_space(b: u8) -> bool {
    b == 32 || (9 <= b && b <= 13)
}

pub fn is_word_byte(b: u8) -> (r: bool)
    ensures
        r == is_word(b),
{
    (97 <= b && b <= 122) || (65 <= b && b <= 90) || (48 <= b && b <= 57) || b == 95 || b >= 128
}

pub fn is_space_byte(b: u8) -> (r: bool)
    ensures
        r == is_space(b),
{
    b == 32 || (9 <= b && b <= 13)
}

/// `k` occurs in `t` starting at index `i`.
pub open spec fn occurs_at(t: Seq<u8>, k: Seq<u8>, i: int) -> bool {
    0 <= i && i + k.len() <= t.len() && t.subrange(i, i + k.len()) == k
}

/// `k` occurs in `t` at `i`, and the bytes directly before and after the
/// occurrence are absent or not identifier bytes.
pub open spec fn bounded_at(t: Seq<u8>, k: Seq<u8>, i: int) -> bool {
    &&& occurs_at(t, k, i)
    &&& (i == 0 || !is_word(t[i - 1]))
    &&& (i + k.len() == t.len() || !is_word(t[i + k.len()]))
}

pub fn occurs_at_exec(t: &[u8], k: &[u8], i: usize) -> (r: bool)
    ensures
        r == occurs_at(t@, k@, i as int),
{
    if i > t.len() || k.len() > t.len() - i {
        return false;
    }
    let mut j: usize = 0;
    while j < k.len()
        invariant
            i + k@.len() <= t@.len(),
            t@.len() == t.len(),
            j <= k@.len(),
            forall|m: int| 0 <= m < j ==> t@[i + m] == k@[m],
        decreases k@.len() - j,
    {
        if t[i + j] != k[j] {
            assert(t@.subrange(i as int, i + k@.len())[j as int] != k@[j as int]);
            return false;
        }
        j = j + 1;
    }
    assert(t@.subrange(i as int, i + k@.len()) =~= k@);
    true
}

pub fn bounded_at_exec(t: &[u8], k: &[u8], i: usize) -> (r: bool)
    ensures
        r == bounded_at(t@, k@, i as int),
{
    if !occurs_at_exec(t, k, i) {
        return false;
    }
    let before_ok = i == 0 || !is_word_byte(t[i - 1]);
    let end = i + k.len();
    let after_ok = end == t.len() || !is_word_byte(t[end]);
    before_ok && after_ok
}

/// Number of word-bounded occurrences of `k` in `t` from `i` on, where the
/// scan moves past the end of each occurrence it counts, so that no byte
/// belongs to two counted occurrences.
pub open spec fn keyword_count_from(t: Seq<u8>, k: Seq<u8>, i: nat) -> nat
    decreases t.len() - i,
{
    if k.len() == 0 || i + k.len() > t.len() {
        0
    } else if bounded_at(t, k, i as int) {
        1 + keyword_count_from(t, k, i + k.len())
    } else {
        keyword_count_from(t, k, i + 1)
    }
}

/// Number of word-bounded, non-overlapping occurrences of `k` in `t`.
pub open spec fn keyword_count(t: Seq<u8>, k: Seq<u8>) -> nat {
    keyword_count_from(t, k, 0)
}

pub proof fn lemma_keyword_count_bound(t: Seq<u8>, k: Seq<u8>, i: nat)
    requires
        i <= t.len(),
    ensures
        keyword_count_from(t, k, i) <= t.len() - i,
    decreases t.len() - i,
{
    if k.len() == 0 || i + k.len() > t.len() {
    } else if bounded_at(t, k, i as int) {
        lemma_keyword_count_bound(t, k, i + k.len());
    } else {
        lemma_keyword_count_bound(t, k, i + 1);
    }
}

/// Counts the word-bounded, non-overlapping occurrences of `k` in `t`.
pub fn count_keyword(t: &[u8], k: &[u8]) -> (r: usize)
    ensures
        r == keyword_count(t@, k@),
        r <= t@.len(),
{
    proof {
        lemma_keyword_count_bound(t@, k@, 0);
    }
    if k.len() == 0 {
        return 0;
    }
    let mut i: usize = 0;
    let mut n: usize = 0;
    while i <= t.len() && k.len() <= t.len() - i
        invariant
            k@.len() > 0,
            i <= t@.len() + k@.len(),
            n + keyword_count_from(t@, k@, i as nat) == keyword_count(t@, k@),
            keyword_count(t@, k@) <= t@.len(),
        decreases t@.len() + k@.len() - i,
    {
        if bounded_at_exec(t, k, i) {
            n = n + 1;
            i = i + k.len();
        } else {
            i = i + 1;
        }
    }
    n
}

/// Brace depth after one more byte: `{` opens, `}` closes, never below zero.
pub open spec fn depth_step(d: nat, b: u8) -> nat {
    if b == 123 {
        d + 1
    } else if b == 125 {
        if d > 0 {
            (d - 1) as nat
        } else {
            0
        }
    } else {
        d
    }
}

/// Brace depth after the first `n` bytes of `t`.
pub open spec fn depth_after(t: Seq<u8>, n: int) -> nat
    decreases n,
{
    if n <= 0 {
        0
    } else {
        depth_step(depth_after(t, n - 1), t[n - 1])
    }
}

/// Largest brace depth reached within the first `n` bytes of `t`.
pub open spec fn max_depth_upto(t: Seq<u8>, n: int) -> nat
    decreases n,
{
    if n <= 0 {
        0
    } else {
        let m = max_depth_upto(t, n - 1);
        let d = depth_after(t, n);
        if d > m {
            d
        } else {
            m
        }
    }
}

/// Largest brace depth reached over the whole text.
pub open spec fn max_nesting(t: Seq<u8>) -> nat {
    max_depth_upto(t, t.len() as int)
}

proof fn lemma_depth_bound(t: Seq<u8>, n: int)
    requires
        0 <= n <= t.len(),
    ensures
        depth_after(t, n) <= n,
        max_depth_upto(t, n) <= n,
    decreases n,
{
    if n > 0 {
        lemma_depth_bound(t, n - 1);
    }
}

/// Maximum brace nesting depth, by one left-to-right pass.
pub fn nesting_depth(t: &[u8]) -> (r: usize)
    ensures
        r == max_nesting(t@),
        r <= t@.len(),
{
    let mut i: usize = 0;
    let mut depth: usize = 0;
    let mut best: usize = 0;
    while i < t.len()
        invariant
            i <= t@.len(),
            depth == depth_after(t@, i as int),
            best == max_depth_upto(t@, i as int),
        decreases t@.len() - i,
    {
        proof {
            lemma_depth_bound(t@, i as int);
        }
        let b = t[i];
        if b == 123 {
            depth = depth + 1;
        } else if b == 125 {
            if depth > 0 {
                depth = depth - 1;
            }
        }
        if depth > best {
            best = depth;
        }
        i = i + 1;
    }
    proof {
        lemma_depth_bound(t@, t@.len() as int);
    }
    best
}

} // verus!

verus! {

/// Byte classes that the anchor scanner skips over or collects.
#[derive(Clone, Copy, Debug, PartialEq, Eq, Structural)]
pub enum ByteClass {
    Space,
    Word,
    /// White space and the bytes that open a path: `(`, `"`, `'`, `<`.
    Opener,
    /// Printable ASCII that is not a quote, bracket, brace, `;` or `,`.
    PathChar,
    /// Anything but `)`.
    NotCloseParen,
}

pub open spec fn in_class(c: ByteClass, b: u8) -> bool {
    match c {
        ByteClass::Space => is_space(b),
        ByteClass::Word => is_word(b),
        ByteClass::Opener => is_space(b) || b == 40 || b == 34 || b == 39 || b == 60,
        ByteClass::PathChar => 33 <= b && b <= 126 && b != 34 && b != 39 && b != 60 && b != 62
            && b != 40 && b != 41 && b != 59 && b != 44 && b != 123 && b != 125,
        ByteClass::NotCloseParen => b != 41,
    }
}

fn in_class_exec(c: ByteClass, b: u8) -> (r: bool)
    ensures
        r == in_class(c, b),
{
    match c {
        ByteClass::Space => is_space_byte(b),
        ByteClass::Word => is_word_byte(b),
        ByteClass::Opener => is_space_byte(b) || b == 40 || b == 34 || b == 39 || b == 60,
        ByteClass::PathChar => 33 <= b && b <= 126 && b != 34 && b != 39 && b != 60 && b != 62
            && b != 40 && b != 41 && b != 59 && b != 44 && b != 123 && b != 125,
        ByteClass::NotCloseParen => b != 41,
    }
}

/// End of the run of bytes of class `c` that starts at `i`.
pub open spec fn run_end(t: Seq<u8>, i: nat, c: ByteClass) -> nat
    decreases t.len() - i,
{
    if i >= t.len() {
        i
    } else if in_class(c, t[i as int]) {
        run_end(t, i + 1, c)
    } else {
        i
    }
}

pub proof fn lemma_run_end_bounds(t: Seq<u8>, i: nat, c: ByteClass)
    ensures
        i <= run_end(t, i, c),
        i <= t.len() ==> run_end(t, i, c) <= t.len(),
        forall|j: int| i <= j < run_end(t, i, c) ==> in_class(c, #[trigger] t[j]),
    decreases t.len() - i,
{
    if i < t.len() && in_class(c, t[i as int]) {
        lemma_run_end_bounds(t, i + 1, c);
    }
}

pub fn run_end_exec(t: &[u8], i: usize, c: ByteClass) -> (r: usize)
    requires
        i <= t@.len(),
    ensures
        r == run_end(t@, i as nat, c),
        i <= r <= t@.len(),
{
    let mut j = i;
    while j < t.len() && in_class_exec(c, t[j])
        invariant
            i <= j <= t@.len(),
            run_end(t@, j as nat, c) == run_end(t@, i as nat, c),
        decreases t@.len() - j,
    {
        j = j + 1;
    }
    j
}

/// What follows an anchor keyword.
#[derive(Clone, Copy, Debug, PartialEq, Eq, Structural)]
pub enum Anchor {
    /// White space, then an identifier: `class Foo`, `fn bar`.
    Decl,
    /// As `Decl`, where a parenthesised receiver may stand before the
    /// identifier: `func (s *Server) Start`.
    Receiver,
    /// Optional white space and opening quotes or brackets, then a path:
    /// `#include <stdio.h>`, `use std::fmt;`, `from 'react'`.
    Path,
}

/// Where the collected part of an anchor at `i` begins.
pub open spec fn span_start(t: Seq<u8>, k: Seq<u8>, a: Anchor, i: nat) -> nat {
    let p = i + k.len();
    if a == Anchor::Path {
        run_end(t, p, ByteClass::Opener)
    } else {
        let b = run_end(t, p, ByteClass::Space);
        if a == Anchor::Receiver && b < t.len() && t[b as int] == 40 {
            let c = run_end(t, b, ByteClass::NotCloseParen);
            if c < t.len() {
                run_end(t, c + 1, ByteClass::Space)
            } else {
                t.len()
            }
        } else {
            b
        }
    }
}

/// The span `[start, end)` that an anchor at `i` collects, if there is one.
pub open spec fn span_at(t: Seq<u8>, k: Seq<u8>, a: Anchor, i: nat) -> Option<(nat, nat)> {
    let p = i + k.len();
    if k.len() > 0 && bounded_at(t, k, i as int) && (a == Anchor::Path || run_end(
        t,
        p,
        ByteClass::Space,
    ) > p) {
        let s = span_start(t, k, a, i);
        let e = run_end(
            t,
            s,
            if a == Anchor::Path {
                ByteClass::PathChar
            } else {
                ByteClass::Word
            },
        );
        if s < e {
            Some((s, e))
        } else {
            None
        }
    } else {
        None
    }
}

/// The spans collected by the anchors of `k` from `i` on. The scan moves past
/// the end of each collected span.
pub open spec fn spans_from(t: Seq<u8>, k: Seq<u8>, a: Anchor, i: nat) -> Seq<(nat, nat)>
    decreases t.len() - i,
{
    if i >= t.len() {
        seq![]
    } else {
        match span_at(t, k, a, i) {
            Some(sp) => if i < sp.1 && sp.1 <= t.len() {
                seq![sp] + spans_from(t, k, a, sp.1)
            } else {
                seq![]
            },
            None => spans_from(t, k, a, i + 1),
        }
    }
}

pub open spec fn spans(t: Seq<u8>, k: Seq<u8>, a: Anchor) -> Seq<(nat, nat)> {
    spans_from(t, k, a, 0)
}

pub proof fn lemma_span_at_bounds(t: Seq<u8>, k: Seq<u8>, a: Anchor, i: nat)
    requires
        span_at(t, k, a, i) is Some,
    ensures
        ({
            let sp = span_at(t, k, a, i)->0;
            &&& i + k.len() <= sp.0 < sp.1 <= t.len()
            &&& a != Anchor::Path ==> forall|j: int| sp.0 <= j < sp.1 ==> is_word(#[trigger] t[j])
        }),
{
    let p = i + k.len();
    lemma_run_end_bounds(t, p, ByteClass::Opener);
    lemma_run_end_bounds(t, p, ByteClass::Space);
    let b = run_end(t, p, ByteClass::Space);
    lemma_run_end_bounds(t, b, ByteClass::NotCloseParen);
    let c = run_end(t, b, ByteClass::NotCloseParen);
    lemma_run_end_bounds(t, c + 1, ByteClass::Space);
    let s = span_start(t, k, a, i);
    lemma_run_end_bounds(t, s, ByteClass::PathChar);
    lemma_run_end_bounds(t, s, ByteClass::Word);
}

fn span_at_exec(t: &[u8], k: &[u8], a: Anchor, i: usize) -> (r: Option<(usize, usize)>)
    requires
        i < t@.len(),
    ensures
        match r {
            Some(sp) => span_at(t@, k@, a, i as nat) == Some((sp.0 as nat, sp.1 as nat)),
            None => span_at(t@, k@, a, i as nat) is None,
        },
{
    if k.len() == 0 || !bounded_at_exec(t, k, i) {
        return None;
    }
    assert(t@.len() == t.len());
    let p = i + k.len();
    let b = run_end_exec(t, p, ByteClass::Space);
    if a != Anchor::Path && b == p {
        return None;
    }
    let s = if a == Anchor::Path {
        run_end_exec(t, p, ByteClass::Opener)
    } else if a == Anchor::Receiver && b < t.len() && t[b] == 40 {
        let c = run_end_exec(t, b, ByteClass::NotCloseParen);
        if c < t.len() {
            run_end_exec(t, c + 1, ByteClass::Space)
        } else {
            t.len()
        }
    } else {
        b
    };
    let cls = if a == Anchor::Path {
        ByteClass::PathChar
    } else {
        ByteClass::Word
    };
    let e = run_end_exec(t, s, cls);
    if s < e {
        Some((s, e))
    } else {
        None
    }
}

/// Index of the first `{` or `;` at or after `i`, or the length of `t`.
pub open spec fn body_open(t: Seq<u8>, i: nat) -> nat
    decreases t.len() - i,
{
    if i >= t.len() {
        i
    } else if t[i as int] == 123 || t[i as int] == 59 {
        i
    } else {
        body_open(t, i + 1)
    }
}

/// Index of the `}` that brings the brace depth `d` down to zero, scanning
/// from `i`; the length of `t` when the braces never close.
pub open spec fn body_close(t: Seq<u8>, i: nat, d: nat) -> nat
    decreases t.len() - i,
{
    if i >= t.len() {
        i
    } else if t[i as int] == 123 {
        body_close(t, i + 1, d + 1)
    } else if t[i as int] == 125 {
        if d <= 1 {
            i
        } else {
            body_close(t, i + 1, (d - 1) as nat)
        }
    } else {
        body_close(t, i + 1, d)
    }
}

/// Where the declaration whose name ends at `e` ends: the brace that closes
/// its body, when a `{` comes before any `;` and is closed; else `e`.
pub open spec fn body_end(t: Seq<u8>, e: nat) -> nat {
    let o = body_open(t, e);
    if o < t.len() && t[o as int] == 123 {
        let c = body_close(t, o + 1, 1);
        if c < t.len() {
            c
        } else {
            e
        }
    } else {
        e
    }
}

proof fn lemma_body_open_bounds(t: Seq<u8>, i: nat)
    requires
        i <= t.len(),
    ensures
        i <= body_open(t, i) <= t.len(),
    decreases t.len() - i,
{
    if i < t.len() && t[i as int] != 123 && t[i as int] != 59 {
        lemma_body_open_bounds(t, i + 1);
    }
}

proof fn lemma_body_close_bounds(t: Seq<u8>, i: nat, d: nat)
    requires
        i <= t.len(),
    ensures
        i <= body_close(t, i, d) <= t.len(),
    decreases t.len() - i,
{
    if i < t.len() {
        if t[i as int] == 123 {
            lemma_body_close_bounds(t, i + 1, d + 1);
        } else if t[i as int] == 125 {
            if d > 1 {
                lemma_body_close_bounds(t, i + 1, (d - 1) as nat);
            }
        } else {
            lemma_body_close_bounds(t, i + 1, d);
        }
    }
}

/// Where the declaration whose name ends at `e` ends.
pub fn body_end_exec(t: &[u8], e: usize) -> (r: usize)
    requires
        e <= t@.len(),
    ensures
        r == body_end(t@, e as nat),
        e <= r <= t@.len(),
{
    proof {
        lemma_body_open_bounds(t@, e as nat);
    }
    let mut o = e;
    while o < t.len() && t[o] != 123 && t[o] != 59
        invariant
            e <= o <= t@.len(),
            body_open(t@, o as nat) == body_open(t@, e as nat),
        decreases t@.len() - o,
    {
        o = o + 1;
    }
    if o >= t.len() || t[o] != 123 {
        return e;
    }
    let mut i = o + 1;
    let mut d: usize = 1;
    proof {
        lemma_body_close_bounds(t@, i as nat, 1);
    }
    while i < t.len()
        invariant
            e <= o < i <= t@.len(),
            body_open(t@, e as nat) == o,
            t@[o as int] == 123,
            1 <= d <= i,
            body_close(t@, i as nat, d as nat) == body_close(t@, (o + 1) as nat, 1),
        decreases t@.len() - i,
    {
        let b = t[i];
        if b == 123 {
            d = d + 1;
        } else if b == 125 {
            if d <= 1 {
                return i;
            }
            d = d - 1;
        }
        i = i + 1;
    }
    e
}

/// A collected span `[start, end)`, the 1-based line on which it starts, and
/// the line on which its declaration ends.
pub struct Found {
    pub start: usize,
    pub end: usize,
    pub line: usize,
    /// The line on which the declaration ends (see `body_end`).
    pub last_line: usize,
}

pub open spec fn found_spans(v: Seq<Found>) -> Seq<(nat, nat)> {
    v.map_values(|f: Found| (f.start as nat, f.end as nat))
}

/// Collects the spans of every anchor of `k` in `t`, in text order, each with
/// its line number, in one forward pass.
pub fn find_spans(t: &[u8], k: &[u8], a: Anchor) -> (r: Vec<Found>)
    requires
        t@.len() <= MAX_CONTENT_LEN,
    ensures
        found_spans(r@) == spans(t@, k@, a),
        forall|j: int|
            0 <= j < r@.len() ==> (#[trigger] r@[j]).line == crate::lines::line_of(
                t@,
                r@[j].start as int,
            ) && r@[j].last_line == crate::lines::line_of(t@, body_end(t@, r@[j].end as nat) as int),
        forall|j: int|
            #![trigger r@[j]]
            0 <= j < r@.len() ==> r@[j].start < r@[j].end <= t@.len(),
        a != Anchor::Path ==> forall|j: int|
            #![trigger r@[j]]
            0 <= j < r@.len() ==> forall|m: int| r@[j].start <= m < r@[j].end ==> is_word(t@[m]),
{
    let mut out: Vec<Found> = Vec::new();
    let mut i: usize = 0;
    let mut lc: usize = 0;
    let mut nl: usize = 0;
    while i < t.len()
        invariant
            i <= t@.len(),
            t@.len() <= MAX_CONTENT_LEN,
            lc <= i,
            nl == crate::lines::newlines_before(t@, lc as int),
            found_spans(out@) + spans_from(t@, k@, a, i as nat) == spans(t@, k@, a),
            forall|j: int|
                0 <= j < out@.len() ==> (#[trigger] out@[j]).line == crate::lines::line_of(
                    t@,
                    out@[j].start as int,
                ) && out@[j].last_line == crate::lines::line_of(
                    t@,
                    body_end(t@, out@[j].end as nat) as int,
                ),
            forall|j: int|
                #![trigger out@[j]]
                0 <= j < out@.len() ==> out@[j].start < out@[j].end <= t@.len(),
            a != Anchor::Path ==> forall|j: int|
                #![trigger out@[j]]
                0 <= j < out@.len() ==> forall|m: int|
                    out@[j].start <= m < out@[j].end ==> is_word(t@[m]),
        decreases t@.len() - i,
    {
        match span_at_exec(t, k, a, i) {
            Some(sp) => {
                proof {
                    lemma_span_at_bounds(t@, k@, a, i as nat);
                }
                let (s, e) = sp;
                nl = crate::lines::advance_newlines(t, lc, s, nl);
                lc = s;
                let c = body_end_exec(t, e);
                let last = crate::lines::advance_newlines(t, s, c, nl);
                let ghost before = out@;
                out.push(Found { start: s, end: e, line: nl + 1, last_line: last + 1 });
                proof {
                    assert(found_spans(out@) =~= found_spans(before) + seq![(s as nat, e as nat)]);
                }
                i = e;
            },
            None => {
                i = i + 1;
            },
        }
    }
    out
}

/// Words that stand before a parenthesis and a brace without naming a
/// function: control statements, a few operators, and `function` itself
/// (an anonymous function).
pub open spec fn is_control_word(w: Seq<u8>) -> bool {
    ||| w == "if".spec_bytes()
    ||| w == "for".spec_bytes()
    ||| w == "foreach".spec_bytes()
    ||| w == "while".spec_bytes()
    ||| w == "switch".spec_bytes()
    ||| w == "catch".spec_bytes()
    ||| w == "return".spec_bytes()
    ||| w == "sizeof".spec_bytes()
    ||| w == "using".spec_bytes()
    ||| w == "lock".spec_bytes()
    ||| w == "fixed".spec_bytes()
    ||| w == "base".spec_bytes()
    ||| w == "this".spec_bytes()
    ||| w == "function".spec_bytes()
}

fn is_control_word_exec(w: &[u8]) -> (r: bool)
    ensures
        r == is_control_word(w@),
{
    crate::text::bytes_eq(w, "if".as_bytes()) || crate::text::bytes_eq(w, "for".as_bytes())
        || crate::text::bytes_eq(w, "foreach".as_bytes()) || crate::text::bytes_eq(
        w,
        "while".as_bytes(),
    ) || crate::text::bytes_eq(w, "switch".as_bytes()) || crate::text::bytes_eq(
        w,
        "catch".as_bytes(),
    ) || crate::text::bytes_eq(w, "return".as_bytes()) || crate::text::bytes_eq(
        w,
        "sizeof".as_bytes(),
    ) || crate::text::bytes_eq(w, "using".as_bytes()) || crate::text::bytes_eq(w, "lock".as_bytes())
        || crate::text::bytes_eq(w, "fixed".as_bytes()) || crate::text::bytes_eq(
        w,
        "base".as_bytes(),
    ) || crate::text::bytes_eq(w, "this".as_bytes()) || crate::text::bytes_eq(w, "function".as_bytes())
}

/// A function definition whose name starts at `i`: an identifier that does
/// not start with a digit and has no identifier byte before it, then a
/// parenthesised list, then an opening brace, with white space allowed
/// between them; control words do not count.
pub open spec fn definition_at(t: Seq<u8>, i: nat) -> Option<(nat, nat)> {
    if i < t.len() && is_word(t[i as int]) && !(48 <= t[i as int] && t[i as int] <= 57) && (i == 0
        || !is_word(t[i - 1])) {
        let e = run_end(t, i, ByteClass::Word);
        let p = run_end(t, e, ByteClass::Space);
        if p < t.len() && t[p as int] == 40 {
            let c = run_end(t, p, ByteClass::NotCloseParen);
            if c < t.len() {
                let q = run_end(t, c + 1, ByteClass::Space);
                if q < t.len() && t[q as int] == 123 && !is_control_word(t.subrange(i as int, e as int)) {
                    Some((i, e))
                } else {
                    None
                }
            } else {
                None
            }
        } else {
            None
        }
    } else {
        None
    }
}

/// The names of the function definitions from `i` on; the scan moves past
/// each name it collects.
pub open spec fn definitions_from(t: Seq<u8>, i: nat) -> Seq<(nat, nat)>
    decreases t.len() - i,
{
    if i >= t.len() {
        seq![]
    } else {
        match definition_at(t, i) {
            Some(sp) => if i < sp.1 && sp.1 <= t.len() {
                seq![sp] + definitions_from(t, sp.1)
            } else {
                seq![]
            },
            None => definitions_from(t, i + 1),
        }
    }
}

pub open spec fn definitions(t: Seq<u8>) -> Seq<(nat, nat)> {
    definitions_from(t, 0)
}

proof fn lemma_definition_at_bounds(t: Seq<u8>, i: nat)
    requires
        definition_at(t, i) is Some,
    ensures
        ({
            let sp = definition_at(t, i)->0;
            &&& sp.0 == i
            &&& i < sp.1 <= t.len()
            &&& forall|j: int| sp.0 <= j < sp.1 ==> is_word(#[trigger] t[j])
        }),
{
    lemma_run_end_bounds(t, i, ByteClass::Word);
}

fn definition_at_exec(t: &[u8], i: usize) -> (r: Option<(usize, usize)>)
    requires
        i < t@.len(),
    ensures
        match r {
            Some(sp) => definition_at(t@, i as nat) == Some((sp.0 as nat, sp.1 as nat)),
            None => definition_at(t@, i as nat) is None,
        },
{
    let b = t[i];
    if !is_word_byte(b) || (48 <= b && b <= 57) || (i > 0 && is_word_byte(t[i - 1])) {
        return None;
    }
    let e = run_end_exec(t, i, ByteClass::Word);
    let p = run_end_exec(t, e, ByteClass::Space);
    if p >= t.len() || t[p] != 40 {
        return None;
    }
    let c = run_end_exec(t, p, ByteClass::NotCloseParen);
    if c >= t.len() {
        return None;
    }
    let q = run_end_exec(t, c + 1, ByteClass::Space);
    if q >= t.len() || t[q] != 123 {
        return None;
    }
    if is_control_word_exec(vstd::slice::slice_subrange(t, i, e)) {
        return None;
    }
    Some((i, e))
}

/// Collects the names of all function definitions in `t`, in text order,
/// each with its line number, in one forward pass.
pub fn find_definitions(t: &[u8]) -> (r: Vec<Found>)
    requires
        t@.len() <= MAX_CONTENT_LEN,
    ensures
        found_spans(r@) == definitions(t@),
        forall|j: int|
            0 <= j < r@.len() ==> (#[trigger] r@[j]).line == crate::lines::line_of(
                t@,
                r@[j].start as int,
            ) && r@[j].last_line == crate::lines::line_of(t@, body_end(t@, r@[j].end as nat) as int),
        forall|j: int|
            #![trigger r@[j]]
            0 <= j < r@.len() ==> r@[j].start < r@[j].end <= t@.len(),
{
    let mut out: Vec<Found> = Vec::new();
    let mut i: usize = 0;
    let mut lc: usize = 0;
    let mut nl: usize = 0;
    while i < t.len()
        invariant
            i <= t@.len(),
            t@.len() <= MAX_CONTENT_LEN,
            lc <= i,
            nl == crate::lines::newlines_before(t@, lc as int),
            found_spans(out@) + definitions_from(t@, i as nat) == definitions(t@),
            forall|j: int|
                0 <= j < out@.len() ==> (#[trigger] out@[j]).line == crate::lines::line_of(
                    t@,
                    out@[j].start as int,
                ) && out@[j].last_line == crate::lines::line_of(
                    t@,
                    body_end(t@, out@[j].end as nat) as int,
                ),
            forall|j: int|
                #![trigger out@[j]]
                0 <= j < out@.len() ==> out@[j].start < out@[j].end <= t@.len(),
        decreases t@.len() - i,
    {
        match definition_at_exec(t, i) {
            Some(sp) => {
                proof {
                    lemma_definition_at_bounds(t@, i as nat);
                }
                let (s, e) = sp;
                nl = crate::lines::advance_newlines(t, lc, s, nl);
                lc = s;
                let c = body_end_exec(t, e);
                let last = crate::lines::advance_newlines(t, s, c, nl);
                let ghost before = out@;
                out.push(Found { start: s, end: e, line: nl + 1, last_line: last + 1 });
                proof {
                    assert(found_spans(out@) =~= found_spans(before) + seq![(s as nat, e as nat)]);
                }
                i = e;
            },
            None => {
                i = i + 1;
            },
        }
    }
    out
}

/// Access words that may stand before a base name.
pub open spec fn is_access_word(w: Seq<u8>) -> bool {
    ||| w == "public".spec_bytes()
    ||| w == "private".spec_bytes()
    ||| w == "protected".spec_bytes()
    ||| w == "virtual".spec_bytes()
}

fn is_access_word_exec(w: &[u8]) -> (r: bool)
    ensures
        r == is_access_word(w@),
{
    crate::text::bytes_eq(w, "public".as_bytes()) || crate::text::bytes_eq(w, "private".as_bytes())
        || crate::text::bytes_eq(w, "protected".as_bytes()) || crate::text::bytes_eq(
        w,
        "virtual".as_bytes(),
    )
}

/// How a language writes the bases of a type after its name.
#[derive(Clone, Copy, Debug, PartialEq, Eq, Structural)]
pub enum BaseSyntax {
    /// `class Foo : public Bar`
    Colon,
    /// `class Foo(Bar):`
    Paren,
    /// `class Foo extends Bar`
    Extends,
}

/// Where the base list after a type name ending at `e` begins: past white
/// space and the opener that `syntax` uses.
pub open spec fn base_list_start(t: Seq<u8>, e: nat, syntax: BaseSyntax) -> Option<nat> {
    let p = run_end(t, e, ByteClass::Space);
    match syntax {
        BaseSyntax::Colon => if p < t.len() && t[p as int] == 58 {
            Some(p + 1)
        } else {
            None
        },
        BaseSyntax::Paren => if p < t.len() && t[p as int] == 40 {
            Some(p + 1)
        } else {
            None
        },
        BaseSyntax::Extends => if bounded_at(t, "extends".spec_bytes(), p as int) {
            Some(p + "extends".spec_bytes().len())
        } else {
            None
        },
    }
}

/// The span of the first base named after a type name ending at `e`: the
/// first identifier of its base list, past one access word.
pub open spec fn parent_span(t: Seq<u8>, e: nat, syntax: BaseSyntax) -> Option<(nat, nat)> {
    match base_list_start(t, e, syntax) {
        None => None,
        Some(q) => {
            let a = run_end(t, q, ByteClass::Space);
            let w = run_end(t, a, ByteClass::Word);
            let b = if is_access_word(t.subrange(a as int, w as int)) {
                run_end(t, w, ByteClass::Space)
            } else {
                a
            };
            let c = run_end(t, b, ByteClass::Word);
            if b < c {
                Some((b, c))
            } else {
                None
            }
        },
    }
}

proof fn lemma_parent_span_bounds(t: Seq<u8>, e: nat, syntax: BaseSyntax)
    requires
        e <= t.len(),
        parent_span(t, e, syntax) is Some,
    ensures
        ({
            let sp = parent_span(t, e, syntax)->0;
            &&& sp.0 < sp.1 <= t.len()
            &&& forall|j: int| sp.0 <= j < sp.1 ==> is_word(#[trigger] t[j])
        }),
{
    let p = run_end(t, e, ByteClass::Space);
    lemma_run_end_bounds(t, e, ByteClass::Space);
    let q = base_list_start(t, e, syntax)->0;
    assert(q <= t.len());
    lemma_run_end_bounds(t, q, ByteClass::Space);
    let a = run_end(t, q, ByteClass::Space);
    lemma_run_end_bounds(t, a, ByteClass::Word);
    let w = run_end(t, a, ByteClass::Word);
    lemma_run_end_bounds(t, w, ByteClass::Space);
    let sp = parent_span(t, e, syntax)->0;
    let b = sp.0;
    lemma_run_end_bounds(t, b, ByteClass::Word);
}

pub fn parent_span_exec(t: &[u8], e: usize, syntax: BaseSyntax) -> (r: Option<(usize, usize)>)
    requires
        e <= t@.len(),
    ensures
        match r {
            Some(sp) => parent_span(t@, e as nat, syntax) == Some((sp.0 as nat, sp.1 as nat)) && sp.0
                < sp.1 <= t@.len() && forall|j: int| sp.0 <= j < sp.1 ==> is_word(#[trigger] t@[j]),
            None => parent_span(t@, e as nat, syntax) is None,
        },
{
    let p = run_end_exec(t, e, ByteClass::Space);
    let ext = "extends".as_bytes();
    assert(t@.len() == t.len());
    let q = match syntax {
        BaseSyntax::Colon => if p < t.len() && t[p] == 58 {
            p + 1
        } else {
            return None;
        },
        BaseSyntax::Paren => if p < t.len() && t[p] == 40 {
            p + 1
        } else {
            return None;
        },
        BaseSyntax::Extends => if bounded_at_exec(t, ext, p) {
            p + ext.len()
        } else {
            return None;
        },
    };
    let a = run_end_exec(t, q, ByteClass::Space);
    let w = run_end_exec(t, a, ByteClass::Word);
    let b = if is_access_word_exec(vstd::slice::slice_subrange(t, a, w)) {
        run_end_exec(t, w, ByteClass::Space)
    } else {
        a
    };
    let c = run_end_exec(t, b, ByteClass::Word);
    if b < c {
        proof {
            lemma_parent_span_bounds(t@, e as nat, syntax);
        }
        Some((b, c))
    } else {
        None
    }
}

/// Where the parameters of an arrow function start, after `name =` and an
/// optional `async`, when the name ends at `e`.
pub open spec fn arrow_params_start(t: Seq<u8>, e: nat) -> Option<nat> {
    let p = run_end(t, e, ByteClass::Space);
    if p < t.len() && t[p as int] == 61 && !(p + 1 < t.len() && (t[p + 1 as int] == 61 || t[p + 1 as int] == 62)) {
        let q = run_end(t, p + 1, ByteClass::Space);
        if bounded_at(t, "async".spec_bytes(), q as int) {
            Some(run_end(t, q + "async".spec_bytes().len(), ByteClass::Space))
        } else {
            Some(q)
        }
    } else {
        None
    }
}

/// Where the parameters that start at `q` end: after a parenthesised list,
/// or after a single identifier; None when neither stands there.
pub open spec fn arrow_params_end(t: Seq<u8>, q: nat) -> Option<nat> {
    if q < t.len() && t[q as int] == 40 {
        let c = run_end(t, q, ByteClass::NotCloseParen);
        if c < t.len() {
            Some(c + 1)
        } else {
            None
        }
    } else {
        let w = run_end(t, q, ByteClass::Word);
        if q < w {
            Some(w)
        } else {
            None
        }
    }
}

/// An arrow function whose name starts at `i`: an identifier that does not
/// start with a digit and has no identifier byte before it, then `=`, an
/// optional `async`, parameters, and `=>`, with white space allowed between.
pub open spec fn arrow_at(t: Seq<u8>, i: nat) -> Option<(nat, nat)> {
    if i < t.len() && is_word(t[i as int]) && !(48 <= t[i as int] && t[i as int] <= 57) && (i == 0
        || !is_word(t[i - 1])) {
        let e = run_end(t, i, ByteClass::Word);
        match arrow_params_start(t, e) {
            None => None,
            Some(q) => match arrow_params_end(t, q) {
                None => None,
                Some(r) => if occurs_at(t, "=>".spec_bytes(), run_end(t, r, ByteClass::Space) as int) {
                    Some((i, e))
                } else {
                    None
                },
            },
        }
    } else {
        None
    }
}

/// The names of the arrow functions from `i` on; the scan moves past each
/// name it collects.
pub open spec fn arrows_from(t: Seq<u8>, i: nat) -> Seq<(nat, nat)>
    decreases t.len() - i,
{
    if i >= t.len() {
        seq![]
    } else {
        match arrow_at(t, i) {
            Some(sp) => if i < sp.1 && sp.1 <= t.len() {
                seq![sp] + arrows_from(t, sp.1)
            } else {
                seq![]
            },
            None => arrows_from(t, i + 1),
        }
    }
}

pub open spec fn arrows(t: Seq<u8>) -> Seq<(nat, nat)> {
    arrows_from(t, 0)
}

fn arrow_at_exec(t: &[u8], i: usize) -> (r: Option<(usize, usize)>)
    requires
        i < t@.len(),
    ensures
        match r {
            Some(sp) => arrow_at(t@, i as nat) == Some((sp.0 as nat, sp.1 as nat)) && sp.0 == i && i
                < sp.1 <= t@.len() && forall|j: int| sp.0 <= j < sp.1 ==> is_word(#[trigger] t@[j]),
            None => arrow_at(t@, i as nat) is None,
        },
{
    assert(t@.len() == t.len());
    let b = t[i];
    if !is_word_byte(b) || (48 <= b && b <= 57) || (i > 0 && is_word_byte(t[i - 1])) {
        return None;
    }
    let e = run_end_exec(t, i, ByteClass::Word);
    proof {
        lemma_run_end_bounds(t@, i as nat, ByteClass::Word);
    }
    let p = run_end_exec(t, e, ByteClass::Space);
    if p >= t.len() || t[p] != 61 || (p + 1 < t.len() && (t[p + 1] == 61 || t[p + 1] == 62)) {
        return None;
    }
    let q0 = run_end_exec(t, p + 1, ByteClass::Space);
    let word = "async".as_bytes();
    let q = if bounded_at_exec(t, word, q0) {
        run_end_exec(t, q0 + word.len(), ByteClass::Space)
    } else {
        q0
    };
    let r = if q < t.len() && t[q] == 40 {
        let c = run_end_exec(t, q, ByteClass::NotCloseParen);
        if c >= t.len() {
            return None;
        }
        c + 1
    } else {
        let w = run_end_exec(t, q, ByteClass::Word);
        if q >= w {
            return None;
        }
        w
    };
    let u = run_end_exec(t, r, ByteClass::Space);
    if occurs_at_exec(t, "=>".as_bytes(), u) {
        Some((i, e))
    } else {
        None
    }
}

/// Collects the names of all arrow functions in `t`, in text order, each
/// with its lines, in one forward pass.
pub fn find_arrows(t: &[u8]) -> (r: Vec<Found>)
    requires
        t@.len() <= MAX_CONTENT_LEN,
    ensures
        found_spans(r@) == arrows(t@),
        forall|j: int|
            0 <= j < r@.len() ==> (#[trigger] r@[j]).line == crate::lines::line_of(
                t@,
                r@[j].start as int,
            ) && r@[j].last_line == crate::lines::line_of(t@, body_end(t@, r@[j].end as nat) as int),
        forall|j: int|
            #![trigger r@[j]]
            0 <= j < r@.len() ==> r@[j].start < r@[j].end <= t@.len(),
{
    let mut out: Vec<Found> = Vec::new();
    let mut i: usize = 0;
    let mut lc: usize = 0;
    let mut nl: usize = 0;
    while i < t.len()
        invariant
            i <= t@.len(),
            t@.len() <= MAX_CONTENT_LEN,
            lc <= i,
            nl == crate::lines::newlines_before(t@, lc as int),
            found_spans(out@) + arrows_from(t@, i as nat) == arrows(t@),
            forall|j: int|
                0 <= j < out@.len() ==> (#[trigger] out@[j]).line == crate::lines::line_of(
                    t@,
                    out@[j].start as int,
                ) && out@[j].last_line == crate::lines::line_of(
                    t@,
                    body_end(t@, out@[j].end as nat) as int,
                ),
            forall|j: int|
                #![trigger out@[j]]
                0 <= j < out@.len() ==> out@[j].start < out@[j].end <= t@.len(),
        decreases t@.len() - i,
    {
        match arrow_at_exec(t, i) {
            Some(sp) => {
                let (s, e) = sp;
                nl = crate::lines::advance_newlines(t, lc, s, nl);
                lc = s;
                let c = body_end_exec(t, e);
                let last = crate::lines::advance_newlines(t, s, c, nl);
                let ghost before = out@;
                out.push(Found { start: s, end: e, line: nl + 1, last_line: last + 1 });
                proof {
                    assert(found_spans(out@) =~= found_spans(before) + seq![(s as nat, e as nat)]);
                }
                i = e;
            },
            None => {
                i = i + 1;
            },
        }
    }
    out
}

} // verus!
