//! The extraction algorithm shared by every language: line statistics,
//! weighted keyword complexity, brace nesting, and anchored declarations and
//! imports, all driven by a language's rule tables.
use vstd::prelude::*;
use vstd::string::StringSliceAdditionalSpecFns;
use crate::analyzers::last_index;
use crate::lines::{line_of, tally, tally_lines, CommentStyle};
use crate::scan::{
    bounded_at, bounded_at_exec, count_keyword, definitions, find_definitions, parent_span, parent_span_exec, body_end, arrows, find_arrows,
    BaseSyntax, find_spans, keyword_count, max_nesting, nesting_depth, spans,
    Anchor, Found,
};
use crate::text::{text_from, text_of};
use crate::types::{
    AnalysisResult, ClassInfo, ComplexityInfo, ExportInfo, FileInfo, FunctionCall, FunctionInfo, ImportInfo,
    ImportType, Language, Statistics,
};

verus! {

pub use crate::scan::MAX_CONTENT_LEN;

/// Largest number of entries in a keyword table.
pub const MAX_TABLE_LEN: usize = 64;

/// What one keyword entry adds: its count, or half of it (rounded down).
pub open spec fn entry_weight(t: Seq<u8>, e: (Seq<u8>, bool)) -> nat {
    if e.1 {
        keyword_count(t, e.0) / 2
    } else {
        keyword_count(t, e.0)
    }
}

/// The weighted sum of keyword counts over a table.
pub open spec fn table_score(t: Seq<u8>, table: Seq<(Seq<u8>, bool)>) -> nat
    decreases table.len(),
{
    if table.len() == 0 {
        0
    } else {
        table_score(t, table.drop_last()) + entry_weight(t, table.last())
    }
}

pub open spec fn table_view(v: Seq<(&[u8], bool)>) -> Seq<(Seq<u8>, bool)> {
    v.map_values(|e: (&[u8], bool)| (e.0@, e.1))
}

pub open spec fn anchors_view(v: Seq<(&[u8], Anchor)>) -> Seq<(Seq<u8>, Anchor)> {
    v.map_values(|e: (&[u8], Anchor)| (e.0@, e.1))
}

/// The cyclomatic complexity of `t` under a keyword table: 1 plus the
/// weighted keyword counts.
pub open spec fn cyclomatic(t: Seq<u8>, table: Seq<(Seq<u8>, bool)>) -> nat {
    1 + table_score(t, table)
}

/// Weighted keyword score of a text.
pub fn score_table(t: &[u8], table: &Vec<(&[u8], bool)>) -> (r: u64)
    requires
        t@.len() <= MAX_CONTENT_LEN,
        table@.len() <= MAX_TABLE_LEN,
    ensures
        r == table_score(t@, table_view(table@)),
        r <= MAX_TABLE_LEN * 0x1_0000_0000,
{
    let mut sum: u64 = 0;
    let mut i: usize = 0;
    while i < table.len()
        invariant
            i <= table@.len(),
            table@.len() <= MAX_TABLE_LEN,
            t@.len() <= MAX_CONTENT_LEN,
            sum == table_score(t@, table_view(table@).subrange(0, i as int)),
            sum <= i * 0x1_0000_0000,
        decreases table@.len() - i,
    {
        let (k, half) = table[i];
        let c = count_keyword(t, k);
        let w = if half {
            c / 2
        } else {
            c
        };
        proof {
            let tv = table_view(table@);
            assert(tv.subrange(0, i + 1).drop_last() =~= tv.subrange(0, i as int));
            assert(tv.subrange(0, i + 1).last() == (k@, half));
        }
        sum = sum + w as u64;
        i = i + 1;
    }
    proof {
        assert(table_view(table@).subrange(0, table@.len() as int) =~= table_view(table@));
    }
    sum
}

/// Start of the line that holds byte `s`.
pub open spec fn line_start(t: Seq<u8>, s: int) -> int {
    last_index(t, 10, s) + 1
}

/// The word `w` stands, word-bounded, on the line of byte `s`, before it.
pub open spec fn word_before(t: Seq<u8>, s: int, w: Seq<u8>) -> bool {
    exists|j: int| line_start(t, s) <= j && j + w.len() <= s && #[trigger] bounded_at(t, w, j)
}

/// What declaration keyword introduced a type.
#[derive(Clone, Copy, Debug, PartialEq, Eq, Structural)]
pub enum DeclKind {
    Plain,
    Struct,
    Interface,
    Enum,
    Trait,
}

pub open spec fn decl_kind(k: Seq<u8>) -> DeclKind {
    if k == "struct".spec_bytes() {
        DeclKind::Struct
    } else if k == "interface".spec_bytes() {
        DeclKind::Interface
    } else if k == "enum".spec_bytes() {
        DeclKind::Enum
    } else if k == "trait".spec_bytes() {
        DeclKind::Trait
    } else {
        DeclKind::Plain
    }
}

/// What the text around a collected name says of its declaration.
#[derive(Clone, Copy, Debug, PartialEq, Eq, Structural)]
pub struct Marks {
    /// `async` stands before the name on its line.
    pub is_async: bool,
    /// `static` stands before the name on its line.
    pub is_static: bool,
    /// `virtual` stands before the name on its line.
    pub is_virtual: bool,
    /// The name (an import path) directly follows a `<`.
    pub system_header: bool,
    /// The keyword that introduced the name.
    pub kind: DeclKind,
}

/// The marks of a name found at `sp` by the anchor keyword `k`.
pub open spec fn marks_at(t: Seq<u8>, k: Seq<u8>, sp: (nat, nat)) -> Marks {
    Marks {
        is_async: word_before(t, sp.0 as int, "async".spec_bytes()),
        is_static: word_before(t, sp.0 as int, "static".spec_bytes()),
        is_virtual: word_before(t, sp.0 as int, "virtual".spec_bytes()),
        system_header: sp.0 > 0 && t[sp.0 - 1] == 60,
        kind: decl_kind(k),
    }
}

fn line_start_exec(t: &[u8], s: usize) -> (r: usize)
    requires
        s <= t@.len(),
    ensures
        r as int == line_start(t@, s as int),
        r <= s,
{
    proof {
        crate::analyzers::lemma_last_index_range(t@, 10, s as int);
    }
    let mut n = s;
    while n > 0
        invariant
            n <= s <= t@.len(),
            last_index(t@, 10, n as int) == last_index(t@, 10, s as int),
        decreases n,
    {
        if t[n - 1] == 10 {
            return n;
        }
        n = n - 1;
    }
    0
}

proof fn lemma_ascii_literal_len(lit: &str)
    requires
        vstd::utf8::is_ascii_chars(lit@),
    ensures
        lit.spec_bytes().len() == lit@.len(),
{
    vstd::utf8::is_ascii_chars_encode_utf8(lit@);
}

fn word_before_exec(t: &[u8], s: usize, word: &[u8]) -> (r: bool)
    requires
        s <= t@.len(),
        word@.len() > 0,
    ensures
        r == word_before(t@, s as int, word@),
{
    let mut j = line_start_exec(t, s);
    while j < s
        invariant
            line_start(t@, s as int) <= j <= s,
            s <= t@.len(),
            word@.len() > 0,
            forall|x: int|
                line_start(t@, s as int) <= x < j ==> !(x + word@.len() <= s && #[trigger] bounded_at(
                    t@,
                    word@,
                    x,
                )),
        decreases s - j,
    {
        if word.len() <= s - j && bounded_at_exec(t, word, j) {
            return true;
        }
        j = j + 1;
    }
    proof {
        assert forall|x: int|
            line_start(t@, s as int) <= x && x + word@.len() <= s implies !#[trigger] bounded_at(
            t@,
            word@,
            x,
        ) by {
            if x >= j {
                assert(word@.len() == word.len());
            }
        }
    }
    false
}

fn decl_kind_exec(k: &[u8]) -> (r: DeclKind)
    ensures
        r == decl_kind(k@),
{
    if crate::text::bytes_eq(k, "struct".as_bytes()) {
        DeclKind::Struct
    } else if crate::text::bytes_eq(k, "interface".as_bytes()) {
        DeclKind::Interface
    } else if crate::text::bytes_eq(k, "enum".as_bytes()) {
        DeclKind::Enum
    } else if crate::text::bytes_eq(k, "trait".as_bytes()) {
        DeclKind::Trait
    } else {
        DeclKind::Plain
    }
}

fn marks_exec(t: &[u8], k: &[u8], s: usize, e: usize) -> (r: Marks)
    requires
        s <= e <= t@.len(),
    ensures
        r == marks_at(t@, k@, (s as nat, e as nat)),
{
    proof {
        reveal_strlit("async");
        reveal_strlit("static");
        reveal_strlit("virtual");
        lemma_ascii_literal_len("async");
        lemma_ascii_literal_len("static");
        lemma_ascii_literal_len("virtual");
    }
    Marks {
        is_async: word_before_exec(t, s, "async".as_bytes()),
        is_static: word_before_exec(t, s, "static".as_bytes()),
        is_virtual: word_before_exec(t, s, "virtual".as_bytes()),
        system_header: s > 0 && t[s - 1] == 60,
        kind: decl_kind_exec(k),
    }
}

/// The tags of a type record.
pub open spec fn type_tags(m: Marks) -> Seq<Seq<char>> {
    match m.kind {
        DeclKind::Struct => seq!["is_struct"@],
        DeclKind::Interface => seq!["is_interface"@],
        DeclKind::Enum => seq!["is_enum"@],
        DeclKind::Trait => seq!["is_trait"@],
        DeclKind::Plain => seq![],
    }
}

/// The tags of a function record.
pub open spec fn function_tags(m: Marks) -> Seq<Seq<char>> {
    (if m.is_static {
        seq!["is_static"@]
    } else {
        seq![]
    }) + (if m.is_virtual {
        seq!["is_virtual"@]
    } else {
        seq![]
    })
}

/// The tags of an import record.
pub open spec fn import_tags(m: Marks) -> Seq<Seq<char>> {
    if m.system_header {
        seq!["is_system_header"@]
    } else {
        seq![]
    }
}

fn type_tags_exec(m: Marks) -> (r: Vec<String>)
    ensures
        texts_view(r@) == type_tags(m),
{
    let mut v: Vec<String> = Vec::new();
    match m.kind {
        DeclKind::Struct => v.push("is_struct".to_owned()),
        DeclKind::Interface => v.push("is_interface".to_owned()),
        DeclKind::Enum => v.push("is_enum".to_owned()),
        DeclKind::Trait => v.push("is_trait".to_owned()),
        DeclKind::Plain => {},
    }
    assert(texts_view(v@) =~= type_tags(m));
    v
}

fn function_tags_exec(m: Marks) -> (r: Vec<String>)
    ensures
        texts_view(r@) == function_tags(m),
{
    let mut v: Vec<String> = Vec::new();
    if m.is_static {
        v.push("is_static".to_owned());
    }
    if m.is_virtual {
        v.push("is_virtual".to_owned());
    }
    assert(texts_view(v@) =~= function_tags(m));
    v
}

fn import_tags_exec(m: Marks) -> (r: Vec<String>)
    ensures
        texts_view(r@) == import_tags(m),
{
    let mut v: Vec<String> = Vec::new();
    if m.system_header {
        v.push("is_system_header".to_owned());
    }
    assert(texts_view(v@) =~= import_tags(m));
    v
}

/// A name collected by the keyword `k`, with the line it stands on, its
/// marks, and the line on which its declaration ends.
pub open spec fn found_view(t: Seq<u8>, k: Seq<u8>, sp: (nat, nat)) -> (Seq<char>, nat, Marks, nat) {
    (
        text_of(t.subrange(sp.0 as int, sp.1 as int)),
        line_of(t, sp.0 as int),
        marks_at(t, k, sp),
        line_of(t, body_end(t, sp.1) as int),
    )
}

/// Type entries: name, first line, last line where the language closes
/// bodies with braces (else the first line again), and tags.
pub open spec fn type_entries(s: Seq<(Seq<char>, nat, Marks, nat)>, braces: bool) -> Seq<
    (Seq<char>, nat, nat, Seq<Seq<char>>),
> {
    s.map_values(
        |x: (Seq<char>, nat, Marks, nat)|
            (
                x.0,
                x.1,
                if braces {
                    x.3
                } else {
                    x.1
                },
                type_tags(x.2),
            ),
    )
}

/// Function entries: name, first line, `async` mark, last line as for
/// types, whether they are arrow functions, and tags.
pub open spec fn function_entries(
    s: Seq<(Seq<char>, nat, Marks, nat)>,
    braces: bool,
    arrow: bool,
) -> Seq<(Seq<char>, nat, bool, nat, bool, Seq<Seq<char>>)> {
    s.map_values(
        |x: (Seq<char>, nat, Marks, nat)|
            (
                x.0,
                x.1,
                x.2.is_async,
                if braces {
                    x.3
                } else {
                    x.1
                },
                arrow,
                function_tags(x.2),
            ),
    )
}

/// The names, with lines and marks, of the arrow functions in a text.
pub open spec fn arrow_names(t: Seq<u8>) -> Seq<(Seq<char>, nat, Marks, nat)> {
    arrows(t).map_values(|sp: (nat, nat)| found_view(t, "".spec_bytes(), sp))
}

/// Import entries: path, line and tags.
pub open spec fn import_entries(s: Seq<(Seq<char>, nat, Marks, nat)>) -> Seq<
    (Seq<char>, nat, Seq<Seq<char>>),
> {
    s.map_values(|x: (Seq<char>, nat, Marks, nat)| (x.0, x.1, import_tags(x.2)))
}

/// The names, with lines, that one anchor collects.
pub open spec fn anchor_names(t: Seq<u8>, k: Seq<u8>, a: Anchor) -> Seq<(Seq<char>, nat, Marks, nat)> {
    spans(t, k, a).map_values(|sp: (nat, nat)| found_view(t, k, sp))
}

/// The names, with lines, that a table of anchors collects: those of the
/// first anchor, then those of the second, and so on.
pub open spec fn anchored_names(t: Seq<u8>, anchors: Seq<(Seq<u8>, Anchor)>) -> Seq<
    (Seq<char>, nat, Marks, nat),
>
    decreases anchors.len(),
{
    if anchors.len() == 0 {
        seq![]
    } else {
        anchored_names(t, anchors.drop_last()) + anchor_names(
            t,
            anchors.last().0,
            anchors.last().1,
        )
    }
}

pub open spec fn names_view(v: Seq<(String, usize, Marks, usize)>) -> Seq<(Seq<char>, nat, Marks, nat)> {
    v.map_values(|p: (String, usize, Marks, usize)| (p.0@, p.1 as nat, p.2, p.3 as nat))
}

/// The names, with lines, of the function definitions in a text.
pub open spec fn definition_names(t: Seq<u8>) -> Seq<(Seq<char>, nat, Marks, nat)> {
    definitions(t).map_values(|sp: (nat, nat)| found_view(t, "".spec_bytes(), sp))
}

fn names_of_found(t: &[u8], k: &[u8], found: Vec<Found>, Ghost(sp): Ghost<Seq<(nat, nat)>>) -> (r: Vec<(String, usize, Marks, usize)>)
    requires
        crate::scan::found_spans(found@) == sp,
        forall|m: int|
            0 <= m < found@.len() ==> (#[trigger] found@[m]).line == line_of(t@, found@[m].start as int)
                && found@[m].last_line == line_of(t@, body_end(t@, found@[m].end as nat) as int),
        forall|m: int|
            #![trigger found@[m]]
            0 <= m < found@.len() ==> found@[m].start < found@[m].end <= t@.len(),
    ensures
        names_view(r@) == sp.map_values(|s: (nat, nat)| found_view(t@, k@, s)),
{
    let ghost want = sp.map_values(|s: (nat, nat)| found_view(t@, k@, s));
    let mut out: Vec<(String, usize, Marks, usize)> = Vec::new();
    let mut j: usize = 0;
    while j < found.len()
        invariant
            j <= found@.len(),
            crate::scan::found_spans(found@) == sp,
            want == sp.map_values(|s: (nat, nat)| found_view(t@, k@, s)),
            forall|m: int|
                0 <= m < found@.len() ==> (#[trigger] found@[m]).line == line_of(
                    t@,
                    found@[m].start as int,
                ) && found@[m].last_line == line_of(t@, body_end(t@, found@[m].end as nat) as int),
            forall|m: int|
                #![trigger found@[m]]
                0 <= m < found@.len() ==> found@[m].start < found@[m].end <= t@.len(),
            names_view(out@) == want.subrange(0, j as int),
        decreases found@.len() - j,
    {
        let f: &Found = &found[j];
        let piece = vstd::slice::slice_subrange(t, f.start, f.end);
        proof {
            assert(crate::scan::found_spans(found@)[j as int] == (f.start as nat, f.end as nat));
        }
        let name = text_from(piece);
        let marked = marks_exec(t, k, f.start, f.end);
        let ghost before = out@;
        out.push((name, f.line, marked, f.last_line));
        proof {
            assert(names_view(out@) =~= names_view(before).push(
                (name@, f.line as nat, marked, f.last_line as nat),
            ));
            assert(want.subrange(0, j + 1) =~= want.subrange(0, j as int).push(want[j as int]));
        }
        j = j + 1;
    }
    proof {
        assert(want.subrange(0, found@.len() as int) =~= want);
    }
    out
}

fn names_for_anchor(t: &[u8], k: &[u8], a: Anchor) -> (r: Vec<(String, usize, Marks, usize)>)
    requires
        t@.len() <= MAX_CONTENT_LEN,
    ensures
        names_view(r@) == anchor_names(t@, k@, a),
{
    let found = find_spans(t, k, a);
    names_of_found(t, k, found, Ghost(spans(t@, k@, a)))
}

/// Collects the names of every anchor of a table, anchor by anchor.
pub fn collect_names(t: &[u8], anchors: &Vec<(&[u8], Anchor)>) -> (r: Vec<(String, usize, Marks, usize)>)
    requires
        t@.len() <= MAX_CONTENT_LEN,
    ensures
        names_view(r@) == anchored_names(t@, anchors_view(anchors@)),
{
    let mut out: Vec<(String, usize, Marks, usize)> = Vec::new();
    let mut i: usize = 0;
    while i < anchors.len()
        invariant
            i <= anchors@.len(),
            t@.len() <= MAX_CONTENT_LEN,
            names_view(out@) == anchored_names(t@, anchors_view(anchors@).subrange(0, i as int)),
        decreases anchors@.len() - i,
    {
        let (k, a) = anchors[i];
        let mut found = names_for_anchor(t, k, a);
        let ghost before = out@;
        let ghost more = found@;
        out.append(&mut found);
        proof {
            let av = anchors_view(anchors@);
            assert(av.subrange(0, i + 1).drop_last() =~= av.subrange(0, i as int));
            assert(av.subrange(0, i + 1).last() == (k@, a));
            assert(names_view(out@) =~= names_view(before) + names_view(more));
        }
        i = i + 1;
    }
    proof {
        assert(anchors_view(anchors@).subrange(0, anchors@.len() as int) =~= anchors_view(
            anchors@,
        ));
    }
    out
}

/// The name of the first base after a type name ending at `e`, or empty.
pub open spec fn parent_name(t: Seq<u8>, e: nat, syntax: BaseSyntax) -> Seq<char> {
    match parent_span(t, e, syntax) {
        Some(sp) => text_of(t.subrange(sp.0 as int, sp.1 as int)),
        None => seq![],
    }
}

/// The base names of the types one anchor collects.
pub open spec fn anchor_parents(t: Seq<u8>, k: Seq<u8>, a: Anchor, syntax: BaseSyntax) -> Seq<
    Seq<char>,
> {
    spans(t, k, a).map_values(|sp: (nat, nat)| parent_name(t, sp.1, syntax))
}

/// The base names of the types a table of anchors collects, in the order of
/// `anchored_names`.
pub open spec fn anchored_parents(
    t: Seq<u8>,
    anchors: Seq<(Seq<u8>, Anchor)>,
    syntax: BaseSyntax,
) -> Seq<Seq<char>>
    decreases anchors.len(),
{
    if anchors.len() == 0 {
        seq![]
    } else {
        anchored_parents(t, anchors.drop_last(), syntax) + anchor_parents(
            t,
            anchors.last().0,
            anchors.last().1,
            syntax,
        )
    }
}

pub proof fn lemma_parents_match_names(t: Seq<u8>, anchors: Seq<(Seq<u8>, Anchor)>, syntax: BaseSyntax)
    ensures
        anchored_parents(t, anchors, syntax).len() == anchored_names(t, anchors).len(),
    decreases anchors.len(),
{
    if anchors.len() > 0 {
        lemma_parents_match_names(t, anchors.drop_last(), syntax);
    }
}

/// The base names the rules give the types of `t`: found ones where the
/// rules look for them, else empty ones.
pub open spec fn parents_of(t: Seq<u8>, rules: RulesView) -> Seq<Seq<char>> {
    if let Some(syntax) = rules.bases {
        anchored_parents(t, rules.types, syntax)
    } else {
        Seq::new(anchored_names(t, rules.types).len(), |i: int| Seq::<char>::empty())
    }
}

pub open spec fn texts_view(v: Seq<String>) -> Seq<Seq<char>> {
    v.map_values(|s: String| s@)
}

fn parent_name_exec(t: &[u8], e: usize, syntax: BaseSyntax) -> (r: String)
    requires
        e <= t@.len(),
    ensures
        r@ == parent_name(t@, e as nat, syntax),
{
    match parent_span_exec(t, e, syntax) {
        Some(sp) => {
            let piece = vstd::slice::slice_subrange(t, sp.0, sp.1);
            text_from(piece)
        },
        None => String::new(),
    }
}

fn parents_for_anchor(t: &[u8], k: &[u8], a: Anchor, syntax: BaseSyntax) -> (r: Vec<String>)
    requires
        t@.len() <= MAX_CONTENT_LEN,
    ensures
        texts_view(r@) == anchor_parents(t@, k@, a, syntax),
{
    let found = find_spans(t, k, a);
    let ghost want = anchor_parents(t@, k@, a, syntax);
    let mut out: Vec<String> = Vec::new();
    let mut j: usize = 0;
    while j < found.len()
        invariant
            j <= found@.len(),
            crate::scan::found_spans(found@) == spans(t@, k@, a),
            want == anchor_parents(t@, k@, a, syntax),
            forall|m: int|
                #![trigger found@[m]]
                0 <= m < found@.len() ==> found@[m].start < found@[m].end <= t@.len(),
            texts_view(out@) == want.subrange(0, j as int),
        decreases found@.len() - j,
    {
        let e = found[j].end;
        proof {
            assert(crate::scan::found_spans(found@)[j as int].1 == e as nat);
        }
        let name = parent_name_exec(t, e, syntax);
        let ghost before = out@;
        out.push(name);
        proof {
            assert(texts_view(out@) =~= texts_view(before).push(name@));
            assert(want.subrange(0, j + 1) =~= want.subrange(0, j as int).push(want[j as int]));
        }
        j = j + 1;
    }
    proof {
        assert(want.subrange(0, found@.len() as int) =~= want);
    }
    out
}

/// Collects the base names of the types of every anchor of a table.
fn collect_parents(t: &[u8], anchors: &Vec<(&[u8], Anchor)>, syntax: BaseSyntax) -> (r: Vec<String>)
    requires
        t@.len() <= MAX_CONTENT_LEN,
    ensures
        texts_view(r@) == anchored_parents(t@, anchors_view(anchors@), syntax),
{
    let mut out: Vec<String> = Vec::new();
    let mut i: usize = 0;
    while i < anchors.len()
        invariant
            i <= anchors@.len(),
            t@.len() <= MAX_CONTENT_LEN,
            texts_view(out@) == anchored_parents(
                t@,
                anchors_view(anchors@).subrange(0, i as int),
                syntax,
            ),
        decreases anchors@.len() - i,
    {
        let (k, a) = anchors[i];
        let mut found = parents_for_anchor(t, k, a, syntax);
        let ghost before = out@;
        let ghost more = found@;
        out.append(&mut found);
        proof {
            let av = anchors_view(anchors@);
            assert(av.subrange(0, i + 1).drop_last() =~= av.subrange(0, i as int));
            assert(av.subrange(0, i + 1).last() == (k@, a));
            assert(texts_view(out@) =~= texts_view(before) + texts_view(more));
        }
        i = i + 1;
    }
    proof {
        assert(anchors_view(anchors@).subrange(0, anchors@.len() as int) =~= anchors_view(
            anchors@,
        ));
    }
    out
}

fn empty_texts(n: usize) -> (r: Vec<String>)
    ensures
        texts_view(r@) == Seq::new(n as nat, |i: int| Seq::<char>::empty()),
{
    let mut out: Vec<String> = Vec::new();
    while out.len() < n
        invariant
            out@.len() <= n,
            forall|j: int| 0 <= j < out@.len() ==> (#[trigger] out@[j])@ == Seq::<char>::empty(),
        decreases n - out@.len(),
    {
        out.push(String::new());
    }
    assert(texts_view(out@) =~= Seq::new(n as nat, |i: int| Seq::<char>::empty()));
    out
}

/// A class record as the shared algorithm makes it: with no members or
/// methods.
pub open spec fn plain_class(c: ClassInfo) -> bool {
    &&& c.methods@.len() == 0
    &&& c.properties@.len() == 0
    &&& c.member_variables@.len() == 0
}

/// A function record as the shared algorithm makes it: with no parameters,
/// of base complexity.
pub open spec fn plain_function(f: FunctionInfo) -> bool {
    &&& f.parameters@.len() == 0
    &&& f.complexity.wf()
    &&& f.complexity.cyclomatic_complexity == 1
    &&& f.complexity.max_nesting_depth == 0
    &&& f.complexity.cognitive_complexity == 0
}

/// An import record as the shared algorithm makes it: no names, no alias.
pub open spec fn plain_import(i: ImportInfo) -> bool {
    &&& i.imported_names@.len() == 0
    &&& i.alias@.len() == 0
}

pub open spec fn class_view(v: Seq<ClassInfo>) -> Seq<(Seq<char>, nat, nat, Seq<Seq<char>>)> {
    v.map_values(
        |c: ClassInfo| (c.name@, c.start_line as nat, c.end_line as nat, texts_view(c.tags@)),
    )
}

pub open spec fn function_view(v: Seq<FunctionInfo>) -> Seq<
    (Seq<char>, nat, bool, nat, bool, Seq<Seq<char>>),
> {
    v.map_values(
        |f: FunctionInfo|
            (
                f.name@,
                f.start_line as nat,
                f.is_async,
                f.end_line as nat,
                f.is_arrow_function,
                texts_view(f.tags@),
            ),
    )
}

pub open spec fn import_view(v: Seq<ImportInfo>) -> Seq<(Seq<char>, nat, Seq<Seq<char>>)> {
    v.map_values(|i: ImportInfo| (i.path@, i.line_number as nat, texts_view(i.tags@)))
}

fn to_classes(names: Vec<(String, usize, Marks, usize)>, parents: Vec<String>, braces: bool) -> (r:
    Vec<ClassInfo>)
    requires
        names@.len() == parents@.len(),
    ensures
        class_view(r@) == type_entries(names_view(names@), braces),
        r@.map_values(|c: ClassInfo| c.parent_class@) == texts_view(parents@),
        forall|j: int| 0 <= j < r@.len() ==> plain_class(#[trigger] r@[j]),
{
    let mut out: Vec<ClassInfo> = Vec::new();
    let mut i: usize = 0;
    let mut rest = names;
    let mut bases = parents;
    let ghost all = rest@;
    let ghost all_bases = bases@;
    assert(all.len() <= usize::MAX) by {
        assert(rest@.len() == rest.len());
    }
    while rest.len() > 0
        invariant
            i + rest@.len() == all.len(),
            all.len() == all_bases.len(),
            all.len() <= usize::MAX,
            rest@ == all.subrange(i as int, all.len() as int),
            bases@ == all_bases.subrange(i as int, all.len() as int),
            class_view(out@) == type_entries(names_view(all.subrange(0, i as int)), braces),
            out@.map_values(|c: ClassInfo| c.parent_class@) == texts_view(all_bases.subrange(0, i as int)),
            forall|j: int| 0 <= j < out@.len() ==> plain_class(#[trigger] out@[j]),
        decreases rest@.len(),
    {
        let (name, line, marks, last) = rest.remove(0);
        let base = bases.remove(0);
        let mut c = ClassInfo::new(name);
        c.start_line = line;
        c.end_line = if braces {
            last
        } else {
            line
        };
        c.parent_class = base;
        c.tags = type_tags_exec(marks);
        let ghost before = out@;
        out.push(c);
        proof {
            assert(class_view(out@) =~= class_view(before).push(
                (c.name@, line as nat, c.end_line as nat, type_tags(marks)),
            ));
            assert(out@.map_values(|c: ClassInfo| c.parent_class@) =~= before.map_values(
                |c: ClassInfo| c.parent_class@,
            ).push(c.parent_class@));
            assert(texts_view(all_bases.subrange(0, i + 1)) =~= texts_view(
                all_bases.subrange(0, i as int),
            ).push(all_bases[i as int]@));
            assert(type_entries(names_view(all.subrange(0, i + 1)), braces) =~= type_entries(
                names_view(all.subrange(0, i as int)),
                braces,
            ).push(
                (
                    all[i as int].0@,
                    all[i as int].1 as nat,
                    if braces {
                        all[i as int].3 as nat
                    } else {
                        all[i as int].1 as nat
                    },
                    type_tags(all[i as int].2),
                ),
            ));
        }
        i = i + 1;
    }
    proof {
        assert(all.subrange(0, all.len() as int) =~= all);
        assert(all_bases.subrange(0, all.len() as int) =~= all_bases);
    }
    out
}

fn to_functions(names: Vec<(String, usize, Marks, usize)>, braces: bool, arrow: bool) -> (r: Vec<
    FunctionInfo,
>)
    ensures
        function_view(r@) == function_entries(names_view(names@), braces, arrow),
        forall|j: int| 0 <= j < r@.len() ==> plain_function(#[trigger] r@[j]),
{
    let mut out: Vec<FunctionInfo> = Vec::new();
    let mut i: usize = 0;
    let mut rest = names;
    let ghost all = rest@;
    assert(all.len() <= usize::MAX) by {
        assert(rest@.len() == rest.len());
    }
    while rest.len() > 0
        invariant
            i + rest@.len() == all.len(),
            all.len() <= usize::MAX,
            rest@ == all.subrange(i as int, all.len() as int),
            function_view(out@) == function_entries(
                names_view(all.subrange(0, i as int)),
                braces,
                arrow,
            ),
            forall|j: int| 0 <= j < out@.len() ==> plain_function(#[trigger] out@[j]),
        decreases rest@.len(),
    {
        let (name, line, marked, last) = rest.remove(0);
        let mut f = FunctionInfo::new(name);
        f.start_line = line;
        f.end_line = if braces {
            last
        } else {
            line
        };
        f.is_async = marked.is_async;
        f.is_arrow_function = arrow;
        f.tags = function_tags_exec(marked);
        let ghost before = out@;
        out.push(f);
        proof {
            assert(function_view(out@) =~= function_view(before).push(
                (
                    f.name@,
                    line as nat,
                    marked.is_async,
                    f.end_line as nat,
                    arrow,
                    function_tags(marked),
                ),
            ));
            assert(function_entries(names_view(all.subrange(0, i + 1)), braces, arrow) =~= function_entries(
                names_view(all.subrange(0, i as int)),
                braces,
                arrow,
            ).push(
                (
                    all[i as int].0@,
                    all[i as int].1 as nat,
                    all[i as int].2.is_async,
                    if braces {
                        all[i as int].3 as nat
                    } else {
                        all[i as int].1 as nat
                    },
                    arrow,
                    function_tags(all[i as int].2),
                ),
            ));
        }
        i = i + 1;
    }
    proof {
        assert(all.subrange(0, all.len() as int) =~= all);
    }
    out
}

fn to_imports(names: Vec<(String, usize, Marks, usize)>, kind: ImportType) -> (r: Vec<ImportInfo>)
    ensures
        import_view(r@) == import_entries(names_view(names@)),
        forall|j: int| 0 <= j < r@.len() ==> (#[trigger] r@[j]).import_type == kind,
        forall|j: int| 0 <= j < r@.len() ==> plain_import(#[trigger] r@[j]),
{
    let mut out: Vec<ImportInfo> = Vec::new();
    let mut i: usize = 0;
    let mut rest = names;
    let ghost all = rest@;
    assert(all.len() <= usize::MAX) by {
        assert(rest@.len() == rest.len());
    }
    while rest.len() > 0
        invariant
            i + rest@.len() == all.len(),
            all.len() <= usize::MAX,
            rest@ == all.subrange(i as int, all.len() as int),
            import_view(out@) == import_entries(names_view(all.subrange(0, i as int))),
            forall|j: int| 0 <= j < out@.len() ==> (#[trigger] out@[j]).import_type == kind,
            forall|j: int| 0 <= j < out@.len() ==> plain_import(#[trigger] out@[j]),
        decreases rest@.len(),
    {
        let (path, line, marks, _) = rest.remove(0);
        let imp = ImportInfo {
            import_type: kind,
            path,
            imported_names: Vec::new(),
            alias: String::new(),
            line_number: line,
            tags: import_tags_exec(marks),
        };
        let ghost before = out@;
        out.push(imp);
        proof {
            assert(import_view(out@) =~= import_view(before).push(
                (imp.path@, line as nat, import_tags(marks)),
            ));
            assert(import_entries(names_view(all.subrange(0, i + 1))) =~= import_entries(
                names_view(all.subrange(0, i as int)),
            ).push((all[i as int].0@, all[i as int].1 as nat, import_tags(all[i as int].2))));
        }
        i = i + 1;
    }
    proof {
        assert(all.subrange(0, all.len() as int) =~= all);
    }
    out
}

/// The tables that adapt the shared algorithm to one language.
pub struct Rules {
    pub language: Language,
    pub comments: CommentStyle,
    /// Branching keywords; `true` marks an entry counted at half weight.
    pub branches: Vec<(&'static [u8], bool)>,
    pub type_anchors: Vec<(&'static [u8], Anchor)>,
    pub function_anchors: Vec<(&'static [u8], Anchor)>,
    pub import_anchors: Vec<(&'static [u8], Anchor)>,
    pub import_kind: ImportType,
    /// Whether function definitions without a keyword (`int main() {`) are
    /// collected after the function anchors.
    pub definitions: bool,
    /// How the language writes a type's bases, where their first one is
    /// collected.
    pub bases: Option<BaseSyntax>,
    /// Whether bodies are closed by braces, which gives records a last line.
    pub braces: bool,
    /// Whether arrow functions (`name = (args) =>`) are collected, after the
    /// other functions.
    pub arrows: bool,
}

impl Rules {
    pub open spec fn wf(&self) -> bool {
        self.branches@.len() <= MAX_TABLE_LEN
    }
}

/// The rule tables as byte sequences.
pub struct RulesView {
    pub language: Language,
    pub comments: CommentStyle,
    pub branches: Seq<(Seq<u8>, bool)>,
    pub types: Seq<(Seq<u8>, Anchor)>,
    pub functions: Seq<(Seq<u8>, Anchor)>,
    pub imports: Seq<(Seq<u8>, Anchor)>,
    pub import_kind: ImportType,
    pub definitions: bool,
    pub bases: Option<BaseSyntax>,
    pub braces: bool,
    pub arrows: bool,
}

impl View for Rules {
    type V = RulesView;

    open spec fn view(&self) -> RulesView {
        RulesView {
            language: self.language,
            comments: self.comments,
            branches: table_view(self.branches@),
            types: anchors_view(self.type_anchors@),
            functions: anchors_view(self.function_anchors@),
            imports: anchors_view(self.import_anchors@),
            import_kind: self.import_kind,
            definitions: self.definitions,
            bases: self.bases,
            braces: self.braces,
            arrows: self.arrows,
        }
    }
}

/// The function names, with lines, that the rules collect: those of the
/// function anchors, then the keyword-less definitions where the rules ask
/// for them.
pub open spec fn function_names(t: Seq<u8>, rules: RulesView) -> Seq<(Seq<char>, nat, Marks, nat)> {
    anchored_names(t, rules.functions) + if rules.definitions {
        definition_names(t)
    } else {
        seq![]
    }
}

/// The result of analysing `t` under `rules`: every record and count that the
/// shared algorithm computes, stated field by field.
#[verifier::opaque]
pub open spec fn analyzed_as(r: AnalysisResult, rules: RulesView, t: Seq<u8>, filename: Seq<char>) -> bool {
    let lines = tally(t, rules.comments);
    &&& r.wf()
    &&& r.language == rules.language
    &&& r.file_info.name@ == filename
    &&& r.file_info.size_bytes == t.len()
    &&& r.file_info.total_lines == lines.total
    &&& r.file_info.code_lines == lines.code
    &&& r.file_info.comment_lines == lines.comment
    &&& r.file_info.empty_lines == lines.empty
    &&& class_view(r.classes@) == type_entries(anchored_names(t, rules.types), rules.braces)
    &&& r.classes@.map_values(|c: ClassInfo| c.parent_class@) == parents_of(t, rules)
    &&& function_view(r.functions@) == function_entries(function_names(t, rules), rules.braces, false)
        + function_entries(
        if rules.arrows {
            arrow_names(t)
        } else {
            seq![]
        },
        rules.braces,
        true,
    )
    &&& import_view(r.imports@) == import_entries(anchored_names(t, rules.imports))
    &&& forall|j: int| 0 <= j < r.imports@.len() ==> (#[trigger] r.imports@[j]).import_type == rules.import_kind
    &&& forall|j: int| 0 <= j < r.classes@.len() ==> plain_class(#[trigger] r.classes@[j])
    &&& forall|j: int| 0 <= j < r.functions@.len() ==> plain_function(#[trigger] r.functions@[j])
    &&& forall|j: int| 0 <= j < r.imports@.len() ==> plain_import(#[trigger] r.imports@[j])
    &&& r.exports@.len() == 0
    &&& r.function_calls@.len() == 0
    &&& r.commented_lines@.len() == 0
    &&& r.complexity.cyclomatic_complexity == cyclomatic(t, rules.branches)
    &&& r.complexity.max_nesting_depth == max_nesting(t)
}

/// The complexity of `t` under a language's rules: the cyclomatic complexity
/// from the weighted keyword table, the nesting depth from the braces.
pub fn complexity_with(rules: &Rules, t: &[u8]) -> (r: ComplexityInfo)
    requires
        rules.wf(),
        t@.len() <= MAX_CONTENT_LEN,
    ensures
        r.wf(),
        r.cyclomatic_complexity == cyclomatic(t@, rules@.branches),
        r.max_nesting_depth == max_nesting(t@),
{
    let score = score_table(t, &rules.branches);
    let depth = nesting_depth(t);
    ComplexityInfo::measured(1 + score, depth as u64)
}

/// Analyses a text under a language's rules. Never fails: text without any
/// anchor gives empty collections, with correct line counts.
pub fn analyze_with(rules: &Rules, content: &str, filename: &str) -> (r: AnalysisResult)
    requires
        rules.wf(),
        content.spec_bytes().len() <= MAX_CONTENT_LEN,
    ensures
        analyzed_as(r, rules@, content.spec_bytes(), filename@),
{
    let t = content.as_bytes();
    let (total, code, comment, empty) = tally_lines(t, rules.comments);
    let file_info = FileInfo {
        name: filename.to_owned(),
        size_bytes: t.len() as u64,
        total_lines: total,
        code_lines: code,
        comment_lines: comment,
        empty_lines: empty,
    };
    let complexity = complexity_with(rules, t);
    let type_names = collect_names(t, &rules.type_anchors);
    let parents = match rules.bases {
        Some(syntax) => {
            proof {
                lemma_parents_match_names(t@, rules@.types, syntax);
            }
            collect_parents(t, &rules.type_anchors, syntax)
        },
        None => empty_texts(type_names.len()),
    };
    proof {
        assert(type_names@.len() == names_view(type_names@).len());
        assert(parents@.len() == texts_view(parents@).len());
    }
    let classes = to_classes(type_names, parents, rules.braces);
    let mut function_list = collect_names(t, &rules.function_anchors);
    if rules.definitions {
        let found = find_definitions(t);
        let mut defined = names_of_found(t, "".as_bytes(), found, Ghost(definitions(t@)));
        let ghost first = function_list@;
        let ghost second = defined@;
        function_list.append(&mut defined);
        proof {
            assert(names_view(function_list@) =~= names_view(first) + names_view(second));
        }
    } else {
        proof {
            assert(names_view(function_list@) =~= names_view(function_list@) + seq![]);
        }
    }
    let mut functions = to_functions(function_list, rules.braces, false);
    if rules.arrows {
        let found = find_arrows(t);
        let arrow_list = names_of_found(t, "".as_bytes(), found, Ghost(arrows(t@)));
        let mut more = to_functions(arrow_list, rules.braces, true);
        let ghost first = functions@;
        let ghost second = more@;
        functions.append(&mut more);
        proof {
            assert(function_view(functions@) =~= function_view(first) + function_view(second));
        }
    } else {
        proof {
            assert(function_entries(seq![], rules.braces, true) =~= seq![]);
            assert(function_view(functions@) =~= function_view(functions@) + seq![]);
        }
    }
    let imports = to_imports(collect_names(t, &rules.import_anchors), rules.import_kind);
    let mut result = AnalysisResult {
        file_info,
        language: rules.language,
        classes,
        functions,
        imports,
        exports: Vec::new(),
        function_calls: Vec::new(),
        complexity,
        commented_lines: Vec::new(),
        statistics: Statistics {
            total_classes: 0,
            total_functions: 0,
            total_imports: 0,
            total_exports: 0,
            unique_calls: 0,
            total_calls: 0,
            commented_lines_count: 0,
        },
    };
    result.update_statistics();
    proof {
        reveal(analyzed_as);
    }
    result
}

/// Every analysed file's lines add up: each is exactly one of code, comment
/// or empty.
pub proof fn lemma_line_counts_add_up(r: AnalysisResult, rules: RulesView, t: Seq<u8>, filename: Seq<char>)
    requires
        analyzed_as(r, rules, t, filename),
    ensures
        r.file_info.total_lines == r.file_info.code_lines + r.file_info.comment_lines
            + r.file_info.empty_lines,
{
    reveal(analyzed_as);
}

/// Every analysis result has a cyclomatic complexity of at least 1, rated by
/// the fixed bands.
pub proof fn lemma_complexity_at_least_one(r: AnalysisResult, rules: RulesView, t: Seq<u8>, filename: Seq<char>)
    requires
        analyzed_as(r, rules, t, filename),
    ensures
        r.complexity.cyclomatic_complexity >= 1,
        r.complexity.rating == crate::types::rating_for(r.complexity.cyclomatic_complexity as int),
{
    reveal(analyzed_as);
}

/// Analysing the same text twice with the same extractor gives the same
/// result, field by field and record by record.
pub proof fn lemma_analysis_deterministic(
    r1: AnalysisResult,
    r2: AnalysisResult,
    rules: RulesView,
    t: Seq<u8>,
    filename: Seq<char>,
)
    requires
        analyzed_as(r1, rules, t, filename),
        analyzed_as(r2, rules, t, filename),
    ensures
        r1.language == r2.language,
        r1.file_info.name@ == r2.file_info.name@,
        r1.file_info.size_bytes == r2.file_info.size_bytes,
        r1.file_info.total_lines == r2.file_info.total_lines,
        r1.file_info.code_lines == r2.file_info.code_lines,
        r1.file_info.comment_lines == r2.file_info.comment_lines,
        r1.file_info.empty_lines == r2.file_info.empty_lines,
        r1.statistics == r2.statistics,
        r1.complexity.cyclomatic_complexity == r2.complexity.cyclomatic_complexity,
        r1.complexity.max_nesting_depth == r2.complexity.max_nesting_depth,
        r1.complexity.rating == r2.complexity.rating,
        r1.complexity.rating_emoji@ == r2.complexity.rating_emoji@,
        class_view(r1.classes@) == class_view(r2.classes@),
        r1.classes@.map_values(|c: ClassInfo| c.parent_class@) == r2.classes@.map_values(
            |c: ClassInfo| c.parent_class@,
        ),
        function_view(r1.functions@) == function_view(r2.functions@),
        import_view(r1.imports@) == import_view(r2.imports@),
        forall|j: int|
            0 <= j < r1.classes@.len() ==> plain_class(#[trigger] r1.classes@[j]) && plain_class(
                r2.classes@[j],
            ),
        forall|j: int|
            0 <= j < r1.functions@.len() ==> plain_function(#[trigger] r1.functions@[j])
                && plain_function(r2.functions@[j]),
        forall|j: int|
            0 <= j < r1.imports@.len() ==> plain_import(#[trigger] r1.imports@[j]) && plain_import(
                r2.imports@[j],
            ) && r1.imports@[j].import_type == r2.imports@[j].import_type,
        r1.exports@.len() == 0 && r2.exports@.len() == 0,
        r1.function_calls@.len() == 0 && r2.function_calls@.len() == 0,
        r1.commented_lines@.len() == 0 && r2.commented_lines@.len() == 0,
{
    reveal(analyzed_as);
    assert(r1.classes@.len() == class_view(r1.classes@).len());
    assert(r1.functions@.len() == function_view(r1.functions@).len());
    assert(r1.imports@.len() == import_view(r1.imports@).len());
}

/// Records collected by one pass over a text.
pub struct ExtractedConstructs {
    pub functions: Vec<FunctionInfo>,
    pub classes: Vec<ClassInfo>,
    pub imports: Vec<ImportInfo>,
    pub exports: Vec<ExportInfo>,
    pub calls: Vec<FunctionCall>,
}

impl ExtractedConstructs {
    pub fn new() -> (r: ExtractedConstructs)
        ensures
            r.functions@.len() == 0,
            r.classes@.len() == 0,
            r.imports@.len() == 0,
            r.exports@.len() == 0,
            r.calls@.len() == 0,
    {
        ExtractedConstructs {
            functions: Vec::new(),
            classes: Vec::new(),
            imports: Vec::new(),
            exports: Vec::new(),
            calls: Vec::new(),
        }
    }

    /// Appends the records of `other` after those of `self`, kind by kind.
    pub fn merge(&mut self, other: ExtractedConstructs)
        ensures
            final(self).functions@ == old(self).functions@ + other.functions@,
            final(self).classes@ == old(self).classes@ + other.classes@,
            final(self).imports@ == old(self).imports@ + other.imports@,
            final(self).exports@ == old(self).exports@ + other.exports@,
            final(self).calls@ == old(self).calls@ + other.calls@,
    {
        let mut other = other;
        self.functions.append(&mut other.functions);
        self.classes.append(&mut other.classes);
        self.imports.append(&mut other.imports);
        self.exports.append(&mut other.exports);
        self.calls.append(&mut other.calls);
    }

    /// No records of any kind.
    pub fn is_empty(&self) -> (r: bool)
        ensures
            r == (self.functions@.len() == 0 && self.classes@.len() == 0 && self.imports@.len() == 0
                && self.exports@.len() == 0 && self.calls@.len() == 0),
    {
        self.functions.len() == 0 && self.classes.len() == 0 && self.imports.len() == 0
            && self.exports.len() == 0 && self.calls.len() == 0
    }

    /// At least one function or class.
    pub fn has_meaningful_content(&self) -> (r: bool)
        ensures
            r == (self.functions@.len() > 0 || self.classes@.len() > 0),
    {
        self.functions.len() > 0 || self.classes.len() > 0
    }
}

} // verus!
