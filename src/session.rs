//! Analysis sessions: discovery filters, the queries a session answers from
//! its cached results, and the commands that reach them.
use vstd::prelude::*;
use vstd::string::StringSliceAdditionalSpecFns;
use vstd::utf8::encode_utf8;
use crate::analyzers::{extension_start, last_index, name_end};
use crate::directory::DirectoryAnalysis;
use crate::text::{
    ascii_lower, bytes_eq, contains, contains_bytes, lower_bytes,
};
use crate::universal::{lower_of, lowercase};
use crate::types::{AnalysisResult, ComplexityRating, Statistics};

verus! {

/// What a scan looks at.
pub struct AnalysisConfig {
    /// Extensions, with their dot, of the files a scan analyses.
    pub included_extensions: Vec<String>,
    /// A path that contains any of these is skipped.
    pub excluded_patterns: Vec<String>,
    pub include_test_files: bool,
    pub enable_parallel_processing: bool,
    pub verbose_output: bool,
    /// Size of the worker pool of a parallel scan.
    pub worker_count: usize,
}

/// The extensions a default scan analyses.
pub open spec fn default_extensions() -> Seq<Seq<char>> {
    seq![
        ".js"@,
        ".jsx"@,
        ".mjs"@,
        ".ts"@,
        ".tsx"@,
        ".cpp"@,
        ".cc"@,
        ".cxx"@,
        ".hpp"@,
        ".hxx"@,
        ".hh"@,
        ".h++"@,
        ".c"@,
        ".h"@,
        ".py"@,
        ".pyw"@,
        ".cs"@,
        ".go"@,
        ".rs"@,
    ]
}

/// The path substrings a default scan skips.
pub open spec fn default_exclusions() -> Seq<Seq<char>> {
    seq!["node_modules"@, "/.git/"@, "/target/"@, "/dist/"@, "/build/"@]
}

impl Default for AnalysisConfig {
    fn default() -> (r: AnalysisConfig)
        ensures
            strings_view(r.included_extensions@) == default_extensions(),
            strings_view(r.excluded_patterns@) == default_exclusions(),
            !r.include_test_files,
            r.enable_parallel_processing,
            !r.verbose_output,
            r.worker_count == 4,
    {
        let r = AnalysisConfig {
            included_extensions: vec![
                ".js".to_owned(),
                ".jsx".to_owned(),
                ".mjs".to_owned(),
                ".ts".to_owned(),
                ".tsx".to_owned(),
                ".cpp".to_owned(),
                ".cc".to_owned(),
                ".cxx".to_owned(),
                ".hpp".to_owned(),
                ".hxx".to_owned(),
                ".hh".to_owned(),
                ".h++".to_owned(),
                ".c".to_owned(),
                ".h".to_owned(),
                ".py".to_owned(),
                ".pyw".to_owned(),
                ".cs".to_owned(),
                ".go".to_owned(),
                ".rs".to_owned(),
            ],
            excluded_patterns: vec![
                "node_modules".to_owned(),
                "/.git/".to_owned(),
                "/target/".to_owned(),
                "/dist/".to_owned(),
                "/build/".to_owned(),
            ],
            include_test_files: false,
            enable_parallel_processing: true,
            verbose_output: false,
            worker_count: 4,
        };
        assert(strings_view(r.included_extensions@) =~= default_extensions());
        assert(strings_view(r.excluded_patterns@) =~= default_exclusions());
        r
    }
}

pub open spec fn utf8_all(v: Seq<String>) -> Seq<Seq<u8>> {
    v.map_values(|s: String| encode_utf8(s@))
}

/// Some pattern occurs in the path.
pub open spec fn excluded_by(patterns: Seq<Seq<u8>>, p: Seq<u8>) -> bool {
    exists|j: int| 0 <= j < patterns.len() && contains(p, #[trigger] patterns[j])
}

/// The last component of a path.
pub open spec fn file_name_of(p: Seq<u8>) -> Seq<u8> {
    p.subrange(last_index(p, 47, p.len() as int) + 1, p.len() as int)
}

/// The test-file heuristic, on the ASCII lower-case path: the file name
/// holds "test" or "spec", or the path holds a `__tests__`, `test`, `tests`,
/// `spec` or `specs` directory.
pub open spec fn is_test_path(p: Seq<u8>) -> bool {
    let l = ascii_lower(p);
    let name = file_name_of(l);
    ||| contains(name, "test".spec_bytes())
    ||| contains(name, "spec".spec_bytes())
    ||| contains(l, "__tests__".spec_bytes())
    ||| contains(l, "/test/".spec_bytes())
    ||| contains(l, "/tests/".spec_bytes())
    ||| contains(l, "/spec/".spec_bytes())
    ||| contains(l, "/specs/".spec_bytes())
}

/// The path's extension, dot included, is one of `exts`.
pub open spec fn has_extension_in(exts: Seq<Seq<u8>>, p: Seq<u8>) -> bool {
    match extension_start(p) {
        Some(s) => exists|j: int|
            0 <= j < exts.len() && #[trigger] exts[j] == p.subrange(s - 1, name_end(p)),
        None => false,
    }
}

impl AnalysisConfig {
    /// A scan under this configuration analyses the file at `p`.
    pub open spec fn wants(&self, p: Seq<u8>) -> bool {
        &&& has_extension_in(utf8_all(self.included_extensions@), p)
        &&& !excluded_by(utf8_all(self.excluded_patterns@), p)
        &&& (self.include_test_files || !is_test_path(p))
    }
}

/// The paths a configuration wants, in order.
pub open spec fn selected(cfg: AnalysisConfig, paths: Seq<String>) -> Seq<Seq<char>>
    decreases paths.len(),
{
    if paths.len() == 0 {
        seq![]
    } else {
        let rest = selected(cfg, paths.drop_last());
        if cfg.wants(encode_utf8(paths.last()@)) {
            rest.push(paths.last()@)
        } else {
            rest
        }
    }
}

pub open spec fn strings_view(v: Seq<String>) -> Seq<Seq<char>> {
    v.map_values(|s: String| s@)
}

/// Where the last component of a path begins: after its last `/`.
pub(crate) fn file_name_start(p: &[u8]) -> (r: usize)
    ensures
        r as int == last_index(p@, 47, p@.len() as int) + 1,
        r <= p@.len(),
{
    proof {
        crate::analyzers::lemma_last_index_range(p@, 47, p@.len() as int);
    }
    let mut n = p.len();
    while n > 0
        invariant
            n <= p@.len(),
            last_index(p@, 47, n as int) == last_index(p@, 47, p@.len() as int),
        decreases n,
    {
        if p[n - 1] == 47 {
            return n;
        }
        n = n - 1;
    }
    0
}

fn contains_lit(s: &[u8], lit: &str) -> (r: bool)
    ensures
        r == contains(s@, lit.spec_bytes()),
{
    contains_bytes(s, lit.as_bytes())
}

/// The test-file heuristic on a path.
pub fn is_test_file(path: &str) -> (r: bool)
    ensures
        r == is_test_path(path.spec_bytes()),
{
    let lowered = lower_bytes(path.as_bytes());
    let l = lowered.as_slice();
    let start = file_name_start(l);
    let name = vstd::slice::slice_subrange(l, start, l.len());
    contains_lit(name, "test") || contains_lit(name, "spec") || contains_lit(l, "__tests__")
        || contains_lit(l, "/test/") || contains_lit(l, "/tests/") || contains_lit(l, "/spec/")
        || contains_lit(l, "/specs/")
}

impl AnalysisConfig {
    /// The path contains one of the excluded patterns.
    pub fn should_exclude_path(&self, path: &str) -> (r: bool)
        ensures
            r == excluded_by(utf8_all(self.excluded_patterns@), path.spec_bytes()),
    {
        let p = path.as_bytes();
        let mut j: usize = 0;
        while j < self.excluded_patterns.len()
            invariant
                j <= self.excluded_patterns@.len(),
                p@ == path.spec_bytes(),
                forall|m: int|
                    0 <= m < j ==> !contains(
                        path.spec_bytes(),
                        #[trigger] utf8_all(self.excluded_patterns@)[m],
                    ),
            decreases self.excluded_patterns@.len() - j,
        {
            let pat = self.excluded_patterns[j].as_str();
            let pb = pat.as_bytes();
            assert(pb@ == utf8_all(self.excluded_patterns@)[j as int]);
            if contains_bytes(p, pb) {
                return true;
            }
            j = j + 1;
        }
        false
    }

    /// The path's extension, with its dot, is an included one.
    pub fn has_included_extension(&self, path: &str) -> (r: bool)
        ensures
            r == has_extension_in(utf8_all(self.included_extensions@), path.spec_bytes()),
    {
        let p = path.as_bytes();
        let (start, stop) = match crate::analyzers::extension_start_exec(p) {
            Some(se) => se,
            None => {
                return false;
            },
        };
        let dotted = vstd::slice::slice_subrange(p, start - 1, stop);
        let mut j: usize = 0;
        while j < self.included_extensions.len()
            invariant
                j <= self.included_extensions@.len(),
                p@ == path.spec_bytes(),
                extension_start(p@) == Some(start as int),
                stop as int == name_end(p@),
                dotted@ == p@.subrange(start - 1, stop as int),
                forall|m: int|
                    0 <= m < j ==> #[trigger] utf8_all(self.included_extensions@)[m] != dotted@,
            decreases self.included_extensions@.len() - j,
        {
            let ext = self.included_extensions[j].as_str();
            let eb = ext.as_bytes();
            assert(eb@ == utf8_all(self.included_extensions@)[j as int]);
            if bytes_eq(eb, dotted) {
                return true;
            }
            j = j + 1;
        }
        false
    }

    /// A scan under this configuration analyses the file at `path`.
    pub fn wants_path(&self, path: &str) -> (r: bool)
        ensures
            r == self.wants(path.spec_bytes()),
    {
        self.has_included_extension(path) && !self.should_exclude_path(path) && (
        self.include_test_files || !is_test_file(path))
    }

    /// The paths among `paths` that a scan analyses, in their order.
    pub fn select_files(&self, paths: &Vec<String>) -> (r: Vec<String>)
        ensures
            strings_view(r@) == selected(*self, paths@),
    {
        let mut out: Vec<String> = Vec::new();
        let mut i: usize = 0;
        while i < paths.len()
            invariant
                i <= paths@.len(),
                strings_view(out@) == selected(*self, paths@.subrange(0, i as int)),
            decreases paths@.len() - i,
        {
            let p = &paths[i];
            proof {
                assert(paths@.subrange(0, i + 1).drop_last() =~= paths@.subrange(0, i as int));
                assert(paths@.subrange(0, i + 1).last() == *p);
            }
            if self.wants_path(p.as_str()) {
                let ghost before = out@;
                out.push(p.clone());
                proof {
                    assert(strings_view(out@) =~= strings_view(before).push(p@));
                }
            }
            i = i + 1;
        }
        proof {
            assert(paths@.subrange(0, paths@.len() as int) =~= paths@);
        }
        out
    }
}

/// What kind of declaration a symbol is.
#[derive(Clone, Copy, Debug, PartialEq, Eq, Structural)]
pub enum SymbolKind {
    Type,
    Function,
}

/// A type or function of an analysed file.
#[derive(Clone, Debug)]
pub struct SymbolEntry {
    pub file: String,
    pub name: String,
    pub kind: SymbolKind,
    pub line: usize,
    /// For a function, the type whose lines hold it (so it is one of that
    /// type's methods); empty otherwise.
    pub container: String,
}

pub open spec fn symbol_view(e: SymbolEntry) -> (Seq<char>, Seq<char>, SymbolKind, nat, Seq<char>) {
    (e.file@, e.name@, e.kind, e.line as nat, e.container@)
}

pub open spec fn symbols_view(v: Seq<SymbolEntry>) -> Seq<(Seq<char>, Seq<char>, SymbolKind, nat, Seq<char>)> {
    v.map_values(|e: SymbolEntry| symbol_view(e))
}

/// The types of one file, as symbols.
pub open spec fn type_symbols(r: AnalysisResult) -> Seq<(Seq<char>, Seq<char>, SymbolKind, nat, Seq<char>)> {
    r.classes@.map_values(
        |c: crate::types::ClassInfo|
            (r.file_info.name@, c.name@, SymbolKind::Type, c.start_line as nat, Seq::empty()),
    )
}

/// The name of the last type among `classes` whose lines hold `line`, or
/// empty.
pub open spec fn container_of(classes: Seq<crate::types::ClassInfo>, line: nat) -> Seq<char>
    decreases classes.len(),
{
    if classes.len() == 0 {
        Seq::empty()
    } else if classes.last().start_line <= line <= classes.last().end_line {
        classes.last().name@
    } else {
        container_of(classes.drop_last(), line)
    }
}

fn container_exec(classes: &Vec<crate::types::ClassInfo>, line: usize) -> (r: String)
    ensures
        r@ == container_of(classes@, line as nat),
{
    let mut n = classes.len();
    assert(classes@.subrange(0, n as int) =~= classes@);
    while n > 0
        invariant
            n <= classes@.len(),
            container_of(classes@.subrange(0, n as int), line as nat) == container_of(
                classes@,
                line as nat,
            ),
        decreases n,
    {
        let c = &classes[n - 1];
        proof {
            assert(classes@.subrange(0, n as int).last() == *c);
            assert(classes@.subrange(0, n as int).drop_last() =~= classes@.subrange(0, n - 1));
        }
        if c.start_line <= line && line <= c.end_line {
            return c.name.clone();
        }
        n = n - 1;
    }
    String::new()
}

/// The functions of one file, as symbols.
pub open spec fn function_symbols(r: AnalysisResult) -> Seq<(Seq<char>, Seq<char>, SymbolKind, nat, Seq<char>)> {
    r.functions@.map_values(
        |f: crate::types::FunctionInfo|
            (
                r.file_info.name@,
                f.name@,
                SymbolKind::Function,
                f.start_line as nat,
                container_of(r.classes@, f.start_line as nat),
            ),
    )
}

/// The symbols of one file: its types, then its functions.
pub open spec fn file_symbols(r: AnalysisResult) -> Seq<(Seq<char>, Seq<char>, SymbolKind, nat, Seq<char>)> {
    type_symbols(r) + function_symbols(r)
}

/// The symbols of all files, file by file.
pub open spec fn all_symbols(files: Seq<AnalysisResult>) -> Seq<
    (Seq<char>, Seq<char>, SymbolKind, nat, Seq<char>),
>
    decreases files.len(),
{
    if files.len() == 0 {
        seq![]
    } else {
        all_symbols(files.drop_last()) + file_symbols(files.last())
    }
}

/// The symbols whose lower-case name contains the lower-case `term`, in
/// order.
pub open spec fn matching(
    s: Seq<(Seq<char>, Seq<char>, SymbolKind, nat, Seq<char>)>,
    term: Seq<char>,
) -> Seq<(Seq<char>, Seq<char>, SymbolKind, nat, Seq<char>)>
    decreases s.len(),
{
    if s.len() == 0 {
        seq![]
    } else {
        let rest = matching(s.drop_last(), term);
        if contains(encode_utf8(lower_of(s.last().1)), encode_utf8(lower_of(term))) {
            rest.push(s.last())
        } else {
            rest
        }
    }
}

/// The complexity of one analysed file.
#[derive(Clone, Debug)]
pub struct FileComplexity {
    pub file: String,
    pub cyclomatic_complexity: u64,
    pub max_nesting_depth: u64,
    pub rating: ComplexityRating,
}

fn push_file_symbols(r: &AnalysisResult, out: &mut Vec<SymbolEntry>)
    ensures
        symbols_view(final(out)@) == symbols_view(old(out)@) + file_symbols(*r),
{
    let ghost start = symbols_view(out@);
    let mut j: usize = 0;
    while j < r.classes.len()
        invariant
            j <= r.classes@.len(),
            symbols_view(out@) == start + type_symbols(*r).subrange(0, j as int),
        decreases r.classes@.len() - j,
    {
        let c = &r.classes[j];
        let ghost before = out@;
        out.push(SymbolEntry {
            file: r.file_info.name.clone(),
            name: c.name.clone(),
            kind: SymbolKind::Type,
            line: c.start_line,
            container: String::new(),
        });
        proof {
            let ts = type_symbols(*r);
            assert(symbols_view(out@) =~= symbols_view(before).push(ts[j as int]));
            assert(ts.subrange(0, j + 1) =~= ts.subrange(0, j as int).push(ts[j as int]));
        }
        j = j + 1;
    }
    assert(type_symbols(*r).subrange(0, r.classes@.len() as int) =~= type_symbols(*r));
    let mut k: usize = 0;
    while k < r.functions.len()
        invariant
            k <= r.functions@.len(),
            symbols_view(out@) == start + type_symbols(*r) + function_symbols(*r).subrange(0, k as int),
        decreases r.functions@.len() - k,
    {
        let f = &r.functions[k];
        let ghost before = out@;
        out.push(SymbolEntry {
            file: r.file_info.name.clone(),
            name: f.name.clone(),
            kind: SymbolKind::Function,
            line: f.start_line,
            container: container_exec(&r.classes, f.start_line),
        });
        proof {
            let fs = function_symbols(*r);
            assert(symbols_view(out@) =~= symbols_view(before).push(fs[k as int]));
            assert(fs.subrange(0, k + 1) =~= fs.subrange(0, k as int).push(fs[k as int]));
        }
        k = k + 1;
    }
    proof {
        assert(function_symbols(*r).subrange(0, r.functions@.len() as int) =~= function_symbols(*r));
        assert(start + type_symbols(*r) + function_symbols(*r) =~= start + file_symbols(*r));
    }
}

/// A session's configuration and the results it holds.
pub struct AnalysisSession {
    pub config: AnalysisConfig,
    pub analysis: DirectoryAnalysis,
}

impl AnalysisSession {
    /// A session with the default configuration and no results.
    pub fn new() -> (r: AnalysisSession)
        ensures
            r.analysis.wf(),
            r.analysis.files@.len() == 0,
            strings_view(r.config.included_extensions@) == default_extensions(),
            strings_view(r.config.excluded_patterns@) == default_exclusions(),
            !r.config.include_test_files,
            r.config.enable_parallel_processing,
            !r.config.verbose_output,
            r.config.worker_count == 4,
    {
        AnalysisSession::with_config(AnalysisConfig::default())
    }

    pub fn with_config(config: AnalysisConfig) -> (r: AnalysisSession)
        ensures
            r.config == config,
            r.analysis.wf(),
            r.analysis.files@.len() == 0,
    {
        AnalysisSession { config, analysis: DirectoryAnalysis::new(String::new()) }
    }

    /// Replaces the results the session holds.
    pub fn set_analysis(&mut self, analysis: DirectoryAnalysis)
        ensures
            final(self).analysis == analysis,
            final(self).config == old(self).config,
    {
        self.analysis = analysis;
    }

    /// The summary statistics of the session's results.
    pub fn get_stats(&self) -> (r: Statistics)
        ensures
            r == self.analysis.summary,
    {
        self.analysis.summary
    }

    /// The complexity of each analysed file, in order.
    pub fn get_complexity(&self) -> (r: Vec<FileComplexity>)
        ensures
            r@.len() == self.analysis.files@.len(),
            forall|i: int|
                #![trigger r@[i]]
                0 <= i < r@.len() ==> {
                    let f = self.analysis.files@[i];
                    &&& r@[i].file@ == f.file_info.name@
                    &&& r@[i].cyclomatic_complexity == f.complexity.cyclomatic_complexity
                    &&& r@[i].max_nesting_depth == f.complexity.max_nesting_depth
                    &&& r@[i].rating == f.complexity.rating
                },
    {
        let files = &self.analysis.files;
        let mut out: Vec<FileComplexity> = Vec::new();
        let mut i: usize = 0;
        while i < files.len()
            invariant
                i <= files@.len(),
                files@ == self.analysis.files@,
                out@.len() == i,
                forall|m: int|
                    #![trigger out@[m]]
                    0 <= m < i ==> {
                        let f = files@[m];
                        &&& out@[m].file@ == f.file_info.name@
                        &&& out@[m].cyclomatic_complexity == f.complexity.cyclomatic_complexity
                        &&& out@[m].max_nesting_depth == f.complexity.max_nesting_depth
                        &&& out@[m].rating == f.complexity.rating
                    },
            decreases files@.len() - i,
        {
            let f = &files[i];
            out.push(FileComplexity {
                file: f.file_info.name.clone(),
                cyclomatic_complexity: f.complexity.cyclomatic_complexity,
                max_nesting_depth: f.complexity.max_nesting_depth,
                rating: f.complexity.rating,
            });
            i = i + 1;
        }
        out
    }

    /// Every type and function of the session's files, file by file; a
    /// function names the type that holds it, if any.
    pub fn get_structure(&self) -> (r: Vec<SymbolEntry>)
        ensures
            symbols_view(r@) == all_symbols(self.analysis.files@),
    {
        let files = &self.analysis.files;
        let mut out: Vec<SymbolEntry> = Vec::new();
        let mut i: usize = 0;
        while i < files.len()
            invariant
                i <= files@.len(),
                files@ == self.analysis.files@,
                symbols_view(out@) == all_symbols(files@.subrange(0, i as int)),
            decreases files@.len() - i,
        {
            push_file_symbols(&files[i], &mut out);
            proof {
                assert(files@.subrange(0, i + 1).drop_last() =~= files@.subrange(0, i as int));
            }
            i = i + 1;
        }
        proof {
            assert(files@.subrange(0, files@.len() as int) =~= files@);
        }
        out
    }

    /// The types and functions whose name contains `term`, ignoring case as
    /// `str::to_lowercase` folds it.
    pub fn find_symbols(&self, term: &str) -> (r: Vec<SymbolEntry>)
        ensures
            symbols_view(r@) == matching(all_symbols(self.analysis.files@), term@),
    {
        let all = self.get_structure();
        let lowered_term = lowercase(term);
        let t = lowered_term.as_str().as_bytes();
        let mut out: Vec<SymbolEntry> = Vec::new();
        let mut i: usize = 0;
        while i < all.len()
            invariant
                i <= all@.len(),
                t@ == encode_utf8(lower_of(term@)),
                symbols_view(out@) == matching(symbols_view(all@.subrange(0, i as int)), term@),
            decreases all@.len() - i,
        {
            let e = &all[i];
            proof {
                assert(symbols_view(all@.subrange(0, i + 1)).drop_last() =~= symbols_view(
                    all@.subrange(0, i as int),
                ));
                assert(symbols_view(all@.subrange(0, i + 1)).last() == symbol_view(*e));
            }
            let lowered = lowercase(e.name.as_str());
            if contains_bytes(lowered.as_str().as_bytes(), t) {
                let ghost before = out@;
                out.push(e.clone_entry());
                proof {
                    assert(symbols_view(out@) =~= symbols_view(before).push(symbol_view(*e)));
                }
            }
            i = i + 1;
        }
        proof {
            assert(all@.subrange(0, all@.len() as int) =~= all@);
        }
        out
    }
}

impl AnalysisSession {
    /// The names of the files that lie on an import cycle, in file order.
    pub fn find_include_cycles(&self) -> (r: Vec<String>)
        ensures
            strings_view(r@) == crate::cycles::cycle_files(
                self.analysis.files@,
                self.analysis.files@.len() as int,
            ),
    {
        let r = crate::cycles::include_cycles(&self.analysis.files);
        assert(strings_view(r@) =~= r@.map_values(|s: String| s@));
        r
    }
}

impl SymbolEntry {
    /// A copy of the entry.
    pub fn clone_entry(&self) -> (r: SymbolEntry)
        ensures
            symbol_view(r) == symbol_view(*self),
    {
        SymbolEntry {
            file: self.file.clone(),
            name: self.name.clone(),
            kind: self.kind,
            line: self.line,
            container: self.container.clone(),
        }
    }
}

/// The commands a session answers.
#[derive(Clone, Copy, Debug, PartialEq, Eq, Structural)]
pub enum Command {
    Stats,
    Complexity,
    Structure,
    Find,
    IncludeCycles,
}

/// The command a name stands for.
pub open spec fn command_named(c: Seq<u8>) -> Option<Command> {
    if c == "stats".spec_bytes() {
        Some(Command::Stats)
    } else if c == "complexity".spec_bytes() {
        Some(Command::Complexity)
    } else if c == "structure".spec_bytes() {
        Some(Command::Structure)
    } else if c == "find".spec_bytes() {
        Some(Command::Find)
    } else if c == "include-cycles".spec_bytes() {
        Some(Command::IncludeCycles)
    } else {
        None
    }
}

pub fn parse_command(name: &str) -> (r: Option<Command>)
    ensures
        r == command_named(name.spec_bytes()),
{
    let c = name.as_bytes();
    if bytes_eq(c, "stats".as_bytes()) {
        Some(Command::Stats)
    } else if bytes_eq(c, "complexity".as_bytes()) {
        Some(Command::Complexity)
    } else if bytes_eq(c, "structure".as_bytes()) {
        Some(Command::Structure)
    } else if bytes_eq(c, "find".as_bytes()) {
        Some(Command::Find)
    } else if bytes_eq(c, "include-cycles".as_bytes()) {
        Some(Command::IncludeCycles)
    } else {
        None
    }
}

/// What a command answers.
pub enum CommandOutput {
    Stats(Statistics),
    Complexity(Vec<FileComplexity>),
    Structure(Vec<SymbolEntry>),
    Found(Vec<SymbolEntry>),
    IncludeCycles(Vec<String>),
}

#[derive(Clone, Copy, Debug, PartialEq, Eq, Structural)]
pub enum CommandError {
    /// The command name is not one of the session commands.
    UnknownCommand,
    /// No session has the given id.
    SessionNotFound,
    /// A session with the given id exists already.
    DuplicateSession,
}

/// The search term of a `find` command: its first argument, or empty.
pub open spec fn find_term(args: Seq<String>) -> Seq<char> {
    if args.len() > 0 {
        args[0]@
    } else {
        Seq::empty()
    }
}

/// What a command named `c`, with arguments `args`, answers from a session.
pub open spec fn answers(
    session: AnalysisSession,
    c: Seq<u8>,
    args: Seq<String>,
    r: Result<CommandOutput, CommandError>,
) -> bool {
    let files = session.analysis.files@;
    match command_named(c) {
        None => r == Err::<CommandOutput, CommandError>(CommandError::UnknownCommand),
        Some(Command::Stats) => (r matches Ok(CommandOutput::Stats(s)) && s == session.analysis.summary),
        Some(Command::Complexity) => (r matches Ok(CommandOutput::Complexity(v)) && v@.len()
            == files.len() && forall|i: int|
            #![trigger v@[i]]
            0 <= i < v@.len() ==> {
                &&& v@[i].file@ == files[i].file_info.name@
                &&& v@[i].cyclomatic_complexity == files[i].complexity.cyclomatic_complexity
                &&& v@[i].max_nesting_depth == files[i].complexity.max_nesting_depth
                &&& v@[i].rating == files[i].complexity.rating
            }),
        Some(Command::Structure) => (r matches Ok(CommandOutput::Structure(v)) && symbols_view(v@)
            == all_symbols(files)),
        Some(Command::Find) => (r matches Ok(CommandOutput::Found(v)) && symbols_view(v@) == matching(
            all_symbols(files),
            find_term(args),
        )),
        Some(Command::IncludeCycles) => (r matches Ok(CommandOutput::IncludeCycles(v)) && strings_view(
            v@,
        ) == crate::cycles::cycle_files(files, files.len() as int)),
    }
}

/// Runs session commands against a session's cached results.
pub struct CommandProcessor {}

impl CommandProcessor {
    pub fn new() -> CommandProcessor {
        CommandProcessor {}
    }

    /// Runs the command named `command`. Unknown names fail with
    /// `UnknownCommand`; every known command succeeds.
    pub fn process_command(&self, session: &AnalysisSession, command: &str, args: &Vec<String>) -> (r:
        Result<CommandOutput, CommandError>)
        ensures
            answers(*session, command.spec_bytes(), args@, r),
    {
        match parse_command(command) {
            Some(Command::Stats) => Ok(self.handle_stats_command(session)),
            Some(Command::Complexity) => Ok(self.handle_complexity_command(session)),
            Some(Command::Structure) => Ok(self.handle_structure_command(session)),
            Some(Command::Find) => Ok(self.handle_find_command(session, args)),
            Some(Command::IncludeCycles) => Ok(CommandOutput::IncludeCycles(session.find_include_cycles())),
            None => Err(CommandError::UnknownCommand),
        }
    }

    fn handle_stats_command(&self, session: &AnalysisSession) -> (r: CommandOutput)
        ensures
            r matches CommandOutput::Stats(s) && s == session.analysis.summary,
    {
        CommandOutput::Stats(session.get_stats())
    }

    fn handle_complexity_command(&self, session: &AnalysisSession) -> (r: CommandOutput)
        ensures
            r matches CommandOutput::Complexity(v) && v@.len() == session.analysis.files@.len()
                && forall|i: int|
                #![trigger v@[i]]
                0 <= i < v@.len() ==> {
                    let f = session.analysis.files@[i];
                    &&& v@[i].file@ == f.file_info.name@
                    &&& v@[i].cyclomatic_complexity == f.complexity.cyclomatic_complexity
                    &&& v@[i].max_nesting_depth == f.complexity.max_nesting_depth
                    &&& v@[i].rating == f.complexity.rating
                },
    {
        CommandOutput::Complexity(session.get_complexity())
    }

    fn handle_structure_command(&self, session: &AnalysisSession) -> (r: CommandOutput)
        ensures
            r matches CommandOutput::Structure(v) && symbols_view(v@) == all_symbols(
                session.analysis.files@,
            ),
    {
        CommandOutput::Structure(session.get_structure())
    }

    fn handle_find_command(&self, session: &AnalysisSession, args: &Vec<String>) -> (r: CommandOutput)
        ensures
            r matches CommandOutput::Found(v) && symbols_view(v@) == matching(
                all_symbols(session.analysis.files@),
                find_term(args@),
            ),
    {
        if args.len() > 0 {
            CommandOutput::Found(session.find_symbols(args[0].as_str()))
        } else {
            proof {
                reveal_strlit("");
            }
            let found = session.find_symbols("");
            assert(""@ =~= find_term(args@));
            CommandOutput::Found(found)
        }
    }
}

} // verus!
