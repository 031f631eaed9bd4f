//! The per-language extractors, the closed set of them, and the factory that
//! picks one by language or extension.
use vstd::prelude::*;
use vstd::string::StringSliceAdditionalSpecFns;
use crate::extract::{analyze_with, analyzed_as, complexity_with, cyclomatic, RulesView, MAX_CONTENT_LEN};
use crate::rules::{
    cpp_rules, cpp_rules_exec, csharp_rules, csharp_rules_exec, go_rules, go_rules_exec, javascript_rules,
    javascript_rules_exec, python_rules, python_rules_exec, rust_rules, rust_rules_exec,
};
use crate::scan::max_nesting;
use crate::text::ascii_lower;
use crate::types::{language_name, resolve_extension, strip_dot, AnalysisResult, ComplexityInfo, Language};

verus! {

/// The capability every extractor offers: its language, its extensions, and a
/// best-effort analysis of a text that never fails.
pub trait LanguageAnalyzer {
    /// The rule tables the extractor analyses with.
    spec fn rules(&self) -> RulesView;

    fn get_language(&self) -> (r: Language)
        ensures
            r == self.rules().language,
    ;

    fn get_language_name(&self) -> (r: &'static str)
        ensures
            r@ == language_name(self.rules().language),
    ;

    /// The extensions, without their dot, of the files the extractor is for.
    spec fn extensions(&self) -> Seq<Seq<char>>;

    fn get_supported_extensions(&self) -> (r: Vec<&'static str>)
        ensures
            r@.map_values(|e: &str| e@) == self.extensions(),
    ;

    fn calculate_complexity(&self, content: &str) -> (r: ComplexityInfo)
        requires
            content.spec_bytes().len() <= MAX_CONTENT_LEN,
        ensures
            r.wf(),
            r.cyclomatic_complexity == cyclomatic(content.spec_bytes(), self.rules().branches),
            r.max_nesting_depth == max_nesting(content.spec_bytes()),
    ;

    fn analyze(&self, content: &str, filename: &str) -> (r: AnalysisResult)
        requires
            content.spec_bytes().len() <= MAX_CONTENT_LEN,
        ensures
            analyzed_as(r, self.rules(), content.spec_bytes(), filename@),
    ;
}


/// Extractor for C/C++.
pub struct CppAnalyzer {
    pub language: Language,
}

impl CppAnalyzer {
    pub fn new() -> (r: CppAnalyzer)
        ensures
            r.language == Language::Cpp,
    {
        CppAnalyzer { language: Language::Cpp }
    }

    pub fn c() -> (r: CppAnalyzer)
        ensures
            r.language == Language::C,
    {
        CppAnalyzer { language: Language::C }
    }
}

impl LanguageAnalyzer for CppAnalyzer {
    open spec fn rules(&self) -> RulesView {
        cpp_rules(self.language)
    }

    open spec fn extensions(&self) -> Seq<Seq<char>> {
        if self.language == Language::C {
            seq!["c"@, "h"@]
        } else {
            seq!["cpp"@, "cc"@, "cxx"@, "hpp"@, "hxx"@, "hh"@, "h++"@]
        }
    }

    fn get_language(&self) -> (r: Language) {
        self.language
    }

    fn get_language_name(&self) -> (r: &'static str) {
        self.get_language().name()
    }

    fn get_supported_extensions(&self) -> (r: Vec<&'static str>) {
        let r = if self.language == Language::C {
            vec!["c", "h"]
        } else {
            vec!["cpp", "cc", "cxx", "hpp", "hxx", "hh", "h++"]
        };
        assert(r@.map_values(|e: &str| e@) =~= self.extensions());
        r
    }

    fn calculate_complexity(&self, content: &str) -> (r: ComplexityInfo) {
        complexity_with(&cpp_rules_exec(self.language), content.as_bytes())
    }

    fn analyze(&self, content: &str, filename: &str) -> (r: AnalysisResult) {
        analyze_with(&cpp_rules_exec(self.language), content, filename)
    }
}

/// Extractor for C#.
pub struct CSharpAnalyzer {}

impl CSharpAnalyzer {
    pub fn new() -> (r: CSharpAnalyzer) {
        CSharpAnalyzer {}
    }
}

impl LanguageAnalyzer for CSharpAnalyzer {
    open spec fn rules(&self) -> RulesView {
        csharp_rules(Language::CSharp)
    }

    open spec fn extensions(&self) -> Seq<Seq<char>> {
        seq!["cs"@]
    }

    fn get_language(&self) -> (r: Language) {
        Language::CSharp
    }

    fn get_language_name(&self) -> (r: &'static str) {
        self.get_language().name()
    }

    fn get_supported_extensions(&self) -> (r: Vec<&'static str>) {
        let r = vec!["cs"];
        assert(r@.map_values(|e: &str| e@) =~= self.extensions());
        r
    }

    fn calculate_complexity(&self, content: &str) -> (r: ComplexityInfo) {
        complexity_with(&csharp_rules_exec(Language::CSharp), content.as_bytes())
    }

    fn analyze(&self, content: &str, filename: &str) -> (r: AnalysisResult) {
        analyze_with(&csharp_rules_exec(Language::CSharp), content, filename)
    }
}

/// Extractor for Go.
pub struct GoAnalyzer {}

impl GoAnalyzer {
    pub fn new() -> (r: GoAnalyzer) {
        GoAnalyzer {}
    }
}

impl LanguageAnalyzer for GoAnalyzer {
    open spec fn rules(&self) -> RulesView {
        go_rules(Language::Go)
    }

    open spec fn extensions(&self) -> Seq<Seq<char>> {
        seq!["go"@]
    }

    fn get_language(&self) -> (r: Language) {
        Language::Go
    }

    fn get_language_name(&self) -> (r: &'static str) {
        self.get_language().name()
    }

    fn get_supported_extensions(&self) -> (r: Vec<&'static str>) {
        let r = vec!["go"];
        assert(r@.map_values(|e: &str| e@) =~= self.extensions());
        r
    }

    fn calculate_complexity(&self, content: &str) -> (r: ComplexityInfo) {
        complexity_with(&go_rules_exec(Language::Go), content.as_bytes())
    }

    fn analyze(&self, content: &str, filename: &str) -> (r: AnalysisResult) {
        analyze_with(&go_rules_exec(Language::Go), content, filename)
    }
}

/// Extractor for JavaScript and TypeScript.
pub struct JavaScriptAnalyzer {
    pub language: Language,
}

impl JavaScriptAnalyzer {
    pub fn new() -> (r: JavaScriptAnalyzer)
        ensures
            r.language == Language::JavaScript,
    {
        JavaScriptAnalyzer { language: Language::JavaScript }
    }

    pub fn typescript() -> (r: JavaScriptAnalyzer)
        ensures
            r.language == Language::TypeScript,
    {
        JavaScriptAnalyzer { language: Language::TypeScript }
    }
}

impl LanguageAnalyzer for JavaScriptAnalyzer {
    open spec fn rules(&self) -> RulesView {
        javascript_rules(self.language)
    }

    open spec fn extensions(&self) -> Seq<Seq<char>> {
        if self.language == Language::TypeScript {
            seq!["ts"@, "tsx"@]
        } else {
            seq!["js"@, "jsx"@, "mjs"@]
        }
    }

    fn get_language(&self) -> (r: Language) {
        self.language
    }

    fn get_language_name(&self) -> (r: &'static str) {
        self.get_language().name()
    }

    fn get_supported_extensions(&self) -> (r: Vec<&'static str>) {
        let r = if self.language == Language::TypeScript {
            vec!["ts", "tsx"]
        } else {
            vec!["js", "jsx", "mjs"]
        };
        assert(r@.map_values(|e: &str| e@) =~= self.extensions());
        r
    }

    fn calculate_complexity(&self, content: &str) -> (r: ComplexityInfo) {
        complexity_with(&javascript_rules_exec(self.language), content.as_bytes())
    }

    fn analyze(&self, content: &str, filename: &str) -> (r: AnalysisResult) {
        analyze_with(&javascript_rules_exec(self.language), content, filename)
    }
}

/// Extractor for Python.
pub struct PythonAnalyzer {}

impl PythonAnalyzer {
    pub fn new() -> (r: PythonAnalyzer) {
        PythonAnalyzer {}
    }
}

impl LanguageAnalyzer for PythonAnalyzer {
    open spec fn rules(&self) -> RulesView {
        python_rules(Language::Python)
    }

    open spec fn extensions(&self) -> Seq<Seq<char>> {
        seq!["py"@, "pyw"@]
    }

    fn get_language(&self) -> (r: Language) {
        Language::Python
    }

    fn get_language_name(&self) -> (r: &'static str) {
        self.get_language().name()
    }

    fn get_supported_extensions(&self) -> (r: Vec<&'static str>) {
        let r = vec!["py", "pyw"];
        assert(r@.map_values(|e: &str| e@) =~= self.extensions());
        r
    }

    fn calculate_complexity(&self, content: &str) -> (r: ComplexityInfo) {
        complexity_with(&python_rules_exec(Language::Python), content.as_bytes())
    }

    fn analyze(&self, content: &str, filename: &str) -> (r: AnalysisResult) {
        analyze_with(&python_rules_exec(Language::Python), content, filename)
    }
}

/// Extractor for Rust.
pub struct RustAnalyzer {}

impl RustAnalyzer {
    pub fn new() -> (r: RustAnalyzer) {
        RustAnalyzer {}
    }
}

impl LanguageAnalyzer for RustAnalyzer {
    open spec fn rules(&self) -> RulesView {
        rust_rules(Language::Rust)
    }

    open spec fn extensions(&self) -> Seq<Seq<char>> {
        seq!["rs"@]
    }

    fn get_language(&self) -> (r: Language) {
        Language::Rust
    }

    fn get_language_name(&self) -> (r: &'static str) {
        self.get_language().name()
    }

    fn get_supported_extensions(&self) -> (r: Vec<&'static str>) {
        let r = vec!["rs"];
        assert(r@.map_values(|e: &str| e@) =~= self.extensions());
        r
    }

    fn calculate_complexity(&self, content: &str) -> (r: ComplexityInfo) {
        complexity_with(&rust_rules_exec(Language::Rust), content.as_bytes())
    }

    fn analyze(&self, content: &str, filename: &str) -> (r: AnalysisResult) {
        analyze_with(&rust_rules_exec(Language::Rust), content, filename)
    }
}

/// One extractor of each kind, selected by language.
pub enum Analyzer {
    JavaScript(JavaScriptAnalyzer),
    Python(PythonAnalyzer),
    Cpp(CppAnalyzer),
    CSharp(CSharpAnalyzer),
    Go(GoAnalyzer),
    Rust(RustAnalyzer),
}

impl LanguageAnalyzer for Analyzer {
    open spec fn extensions(&self) -> Seq<Seq<char>> {
        match self {
            Analyzer::JavaScript(a) => a.extensions(),
            Analyzer::Python(a) => a.extensions(),
            Analyzer::Cpp(a) => a.extensions(),
            Analyzer::CSharp(a) => a.extensions(),
            Analyzer::Go(a) => a.extensions(),
            Analyzer::Rust(a) => a.extensions(),
        }
    }

    open spec fn rules(&self) -> RulesView {
        match self {
            Analyzer::JavaScript(a) => a.rules(),
            Analyzer::Python(a) => a.rules(),
            Analyzer::Cpp(a) => a.rules(),
            Analyzer::CSharp(a) => a.rules(),
            Analyzer::Go(a) => a.rules(),
            Analyzer::Rust(a) => a.rules(),
        }
    }

    fn get_language(&self) -> (r: Language) {
        match self {
            Analyzer::JavaScript(a) => a.get_language(),
            Analyzer::Python(a) => a.get_language(),
            Analyzer::Cpp(a) => a.get_language(),
            Analyzer::CSharp(a) => a.get_language(),
            Analyzer::Go(a) => a.get_language(),
            Analyzer::Rust(a) => a.get_language(),
        }
    }

    fn get_language_name(&self) -> (r: &'static str) {
        match self {
            Analyzer::JavaScript(a) => a.get_language_name(),
            Analyzer::Python(a) => a.get_language_name(),
            Analyzer::Cpp(a) => a.get_language_name(),
            Analyzer::CSharp(a) => a.get_language_name(),
            Analyzer::Go(a) => a.get_language_name(),
            Analyzer::Rust(a) => a.get_language_name(),
        }
    }

    fn get_supported_extensions(&self) -> (r: Vec<&'static str>) {
        match self {
            Analyzer::JavaScript(a) => a.get_supported_extensions(),
            Analyzer::Python(a) => a.get_supported_extensions(),
            Analyzer::Cpp(a) => a.get_supported_extensions(),
            Analyzer::CSharp(a) => a.get_supported_extensions(),
            Analyzer::Go(a) => a.get_supported_extensions(),
            Analyzer::Rust(a) => a.get_supported_extensions(),
        }
    }

    fn calculate_complexity(&self, content: &str) -> (r: ComplexityInfo) {
        match self {
            Analyzer::JavaScript(a) => a.calculate_complexity(content),
            Analyzer::Python(a) => a.calculate_complexity(content),
            Analyzer::Cpp(a) => a.calculate_complexity(content),
            Analyzer::CSharp(a) => a.calculate_complexity(content),
            Analyzer::Go(a) => a.calculate_complexity(content),
            Analyzer::Rust(a) => a.calculate_complexity(content),
        }
    }

    fn analyze(&self, content: &str, filename: &str) -> (r: AnalysisResult) {
        match self {
            Analyzer::JavaScript(a) => a.analyze(content, filename),
            Analyzer::Python(a) => a.analyze(content, filename),
            Analyzer::Cpp(a) => a.analyze(content, filename),
            Analyzer::CSharp(a) => a.analyze(content, filename),
            Analyzer::Go(a) => a.analyze(content, filename),
            Analyzer::Rust(a) => a.analyze(content, filename),
        }
    }
}

impl Analyzer {
    /// The language the extractor is set to; `get_language` returns it.
    pub open spec fn language(&self) -> Language {
        match self {
            Analyzer::JavaScript(x) => x.language,
            Analyzer::Cpp(x) => x.language,
            Analyzer::Python(_) => Language::Python,
            Analyzer::CSharp(_) => Language::CSharp,
            Analyzer::Go(_) => Language::Go,
            Analyzer::Rust(_) => Language::Rust,
        }
    }

    /// The two-language extractors are set to one of their languages.
    pub open spec fn wf(&self) -> bool {
        match self {
            Analyzer::JavaScript(x) => x.language == Language::JavaScript || x.language
                == Language::TypeScript,
            Analyzer::Cpp(x) => x.language == Language::Cpp || x.language == Language::C,
            _ => true,
        }
    }
}

/// The rules that the extractor for a language analyses with.
#[verifier::opaque]
pub open spec fn rules_for(l: Language) -> RulesView {
    match l {
        Language::JavaScript | Language::TypeScript => javascript_rules(l),
        Language::Cpp | Language::C => cpp_rules(l),
        Language::Python => python_rules(l),
        Language::CSharp => csharp_rules(l),
        Language::Go => go_rules(l),
        Language::Rust => rust_rules(l),
        Language::Unknown => javascript_rules(l),
    }
}

#[derive(Clone, Copy, Debug, PartialEq, Eq, Structural)]
pub enum AnalyzerError {
    /// No extractor exists for `Language::Unknown`.
    UnsupportedLanguage,
}

/// Index of the last `b` among the first `n` bytes of `s`, or -1.
pub open spec fn last_index(s: Seq<u8>, b: u8, n: int) -> int
    decreases n,
{
    if n <= 0 {
        -1
    } else if s[n - 1] == b {
        n - 1
    } else {
        last_index(s, b, n - 1)
    }
}

pub proof fn lemma_last_index_range(s: Seq<u8>, b: u8, n: int)
    requires
        0 <= n <= s.len(),
    ensures
        -1 <= last_index(s, b, n) < n,
    decreases n,
{
    if n > 0 && s[n - 1] != b {
        lemma_last_index_range(s, b, n - 1);
    }
}

fn last_index_exec(s: &[u8], b: u8, upto: usize) -> (r: Option<usize>)
    requires
        upto <= s@.len(),
    ensures
        match r {
            Some(i) => i as int == last_index(s@, b, upto as int) && i < upto,
            None => last_index(s@, b, upto as int) == -1,
        },
{
    let mut n = upto;
    while n > 0
        invariant
            n <= upto <= s@.len(),
            last_index(s@, b, n as int) == last_index(s@, b, upto as int),
        decreases n,
    {
        if s[n - 1] == b {
            return Some(n - 1);
        }
        n = n - 1;
    }
    None
}

/// The length of the first `n` bytes of a path without its trailing `/`
/// and `/.` components, which `Path` ignores; a lone leading `/` stays.
pub open spec fn trimmed_len(p: Seq<u8>, n: int) -> int
    decreases n,
{
    if n > 1 && n <= p.len() && p[n - 1] == 47 {
        trimmed_len(p, n - 1)
    } else if n > 1 && n <= p.len() && p[n - 1] == 46 && p[n - 2] == 47 {
        trimmed_len(p, n - 1)
    } else {
        n
    }
}

/// Where the last component of a path ends.
pub open spec fn name_end(p: Seq<u8>) -> int {
    trimmed_len(p, p.len() as int)
}

proof fn lemma_trimmed_len(p: Seq<u8>, n: int)
    requires
        0 <= n <= p.len(),
    ensures
        0 <= trimmed_len(p, n) <= n,
        forall|j: int| trimmed_len(p, n) <= j < n ==> (#[trigger] p[j] == 47 || p[j] == 46),
    decreases n,
{
    if n > 1 && (p[n - 1] == 47 || (p[n - 1] == 46 && p[n - 2] == 47)) {
        lemma_trimmed_len(p, n - 1);
    }
}

fn name_end_exec(p: &[u8]) -> (r: usize)
    ensures
        r as int == name_end(p@),
        r <= p@.len(),
{
    proof {
        lemma_trimmed_len(p@, p@.len() as int);
    }
    let mut n = p.len();
    while n > 1 && (p[n - 1] == 47 || (p[n - 1] == 46 && p[n - 2] == 47))
        invariant
            n <= p@.len(),
            trimmed_len(p@, n as int) == name_end(p@),
        decreases n,
    {
        n = n - 1;
    }
    n
}

/// Where the extension of a path begins: after the last dot of the last
/// component, when that dot is not the component's first byte and the
/// component is not `..`. The extension runs to `name_end`.
pub open spec fn extension_start(p: Seq<u8>) -> Option<int> {
    let m = name_end(p);
    let ns = last_index(p, 47, m) + 1;
    let d = last_index(p, 46, m);
    if d > ns && !(d == ns + 1 && p[ns] == 46 && d + 1 == m) {
        Some(d + 1)
    } else {
        None
    }
}

/// The extension of a path, when it has one.
pub open spec fn extension_of(p: Seq<u8>) -> Option<Seq<u8>> {
    match extension_start(p) {
        Some(s) => Some(p.subrange(s, name_end(p))),
        None => None,
    }
}

/// The language of a path, by its extension; `Unknown` without one.
pub open spec fn path_language(p: Seq<u8>) -> Language {
    match extension_of(p) {
        Some(e) => resolve_extension(e),
        None => Language::Unknown,
    }
}

/// Where the extension of a path begins and ends.
pub(crate) fn extension_start_exec(p: &[u8]) -> (r: Option<(usize, usize)>)
    ensures
        match r {
            Some(se) => extension_start(p@) == Some(se.0 as int) && se.1 as int == name_end(p@) && 1
                <= se.0 <= se.1 <= p@.len(),
            None => extension_start(p@) is None,
        },
{
    let m = name_end_exec(p);
    proof {
        lemma_last_index_range(p@, 47, m as int);
        lemma_last_index_range(p@, 46, m as int);
        assert(p@.len() == p.len());
    }
    let ns = match last_index_exec(p, 47, m) {
        Some(i) => i + 1,
        None => 0,
    };
    match last_index_exec(p, 46, m) {
        Some(d) => {
            if d > ns && !(d == ns + 1 && p[ns] == 46 && d + 1 == m) {
                Some((d + 1, m))
            } else {
                None
            }
        },
        None => None,
    }
}

/// The language of a path, by its extension.
pub fn language_of_path(path: &str) -> (r: Language)
    ensures
        r == path_language(path.spec_bytes()),
{
    let p = path.as_bytes();
    match extension_start_exec(p) {
        Some((s, m)) => {
            let e = vstd::slice::slice_subrange(p, s, m);
            Language::from_extension_bytes(e)
        },
        None => Language::Unknown,
    }
}

/// Builds extractors.
pub struct AnalyzerFactory {}

impl AnalyzerFactory {
    /// The extractor for a language; only `Unknown` has none.
    pub fn create_analyzer(language: Language) -> (r: Result<Analyzer, AnalyzerError>)
        ensures
            r is Err <==> language == Language::Unknown,
            r matches Ok(a) ==> a.rules() == rules_for(language) && a.wf(),
    {
        reveal(rules_for);
        match language {
            Language::JavaScript => Ok(Analyzer::JavaScript(JavaScriptAnalyzer::new())),
            Language::TypeScript => Ok(Analyzer::JavaScript(JavaScriptAnalyzer::typescript())),
            Language::Cpp => Ok(Analyzer::Cpp(CppAnalyzer::new())),
            Language::C => Ok(Analyzer::Cpp(CppAnalyzer::c())),
            Language::Python => Ok(Analyzer::Python(PythonAnalyzer::new())),
            Language::CSharp => Ok(Analyzer::CSharp(CSharpAnalyzer::new())),
            Language::Go => Ok(Analyzer::Go(GoAnalyzer::new())),
            Language::Rust => Ok(Analyzer::Rust(RustAnalyzer::new())),
            Language::Unknown => Err(AnalyzerError::UnsupportedLanguage),
        }
    }

    /// The extractor for the language an extension resolves to.
    pub fn create_analyzer_from_extension(extension: &str) -> (r: Result<Analyzer, AnalyzerError>)
        ensures
            r is Err <==> resolve_extension(extension.spec_bytes()) == Language::Unknown,
            r matches Ok(a) ==> a.rules() == rules_for(resolve_extension(extension.spec_bytes()))
                && a.wf(),
    {
        let language = Language::from_extension(extension);
        AnalyzerFactory::create_analyzer(language)
    }

    /// The extension of a file name: what follows the last dot of its last
    /// component, as `Path::extension` gives it.
    pub fn get_extension(filename: &str) -> (r: Option<&str>)
        ensures
            extension_start(filename.spec_bytes()) is None ==> r is None,
            r matches Some(e) ==> extension_of(filename.spec_bytes()) == Some(e.spec_bytes()),
            (extension_start(filename.spec_bytes()) matches Some(s)
                && vstd::utf8::is_char_boundary(filename.spec_bytes(), s)) ==> r is Some,
    {
        let ghost full = filename.spec_bytes();
        match extension_start_exec(filename.as_bytes()) {
            Some((s, m)) => {
                if filename.is_char_boundary(s) {
                    let (_, rest) = filename.split_at(s);
                    proof {
                        vstd::utf8::encode_utf8_valid_utf8(filename@);
                        vstd::utf8::valid_utf8_split(full, s as int);
                        let right = rest.spec_bytes();
                        assert(right =~= full.subrange(s as int, full.len() as int));
                        if m < full.len() {
                            lemma_trimmed_len(full, full.len() as int);
                            assert(right[m - s] == full[m as int]);
                            vstd::utf8::is_char_boundary_iff_is_leading_byte(right, m - s);
                        } else {
                            vstd::utf8::is_char_boundary_start_end_of_seq(right);
                        }
                    }
                    let (ext, _) = rest.split_at(m - s);
                    proof {
                        assert(ext.spec_bytes() =~= full.subrange(s as int, m as int));
                    }
                    Some(ext)
                } else {
                    None
                }
            },
            None => None,
        }
    }
}

} // verus!

verus! {

proof fn lemma_literal_bytes(lit: &str)
    requires
        vstd::utf8::is_ascii_chars(lit@),
    ensures
        lit.spec_bytes() == lit@.map_values(|c: char| c as u8),
{
    vstd::utf8::is_ascii_chars_encode_utf8(lit@);
    assert(lit.spec_bytes() =~= lit@.map_values(|c: char| c as u8));
}

/// The bytes of the extensions in the language table.
proof fn lemma_extension_bytes()
    ensures
        "js".spec_bytes() == seq![106u8, 115u8],
        "jsx".spec_bytes() == seq![106u8, 115u8, 120u8],
        "mjs".spec_bytes() == seq![109u8, 106u8, 115u8],
        "ts".spec_bytes() == seq![116u8, 115u8],
        "tsx".spec_bytes() == seq![116u8, 115u8, 120u8],
        "cpp".spec_bytes() == seq![99u8, 112u8, 112u8],
        "cc".spec_bytes() == seq![99u8, 99u8],
        "cxx".spec_bytes() == seq![99u8, 120u8, 120u8],
        "hpp".spec_bytes() == seq![104u8, 112u8, 112u8],
        "hxx".spec_bytes() == seq![104u8, 120u8, 120u8],
        "hh".spec_bytes() == seq![104u8, 104u8],
        "h++".spec_bytes() == seq![104u8, 43u8, 43u8],
        "c".spec_bytes() == seq![99u8],
        "h".spec_bytes() == seq![104u8],
        "py".spec_bytes() == seq![112u8, 121u8],
        "pyw".spec_bytes() == seq![112u8, 121u8, 119u8],
        "cs".spec_bytes() == seq![99u8, 115u8],
        "go".spec_bytes() == seq![103u8, 111u8],
        "rs".spec_bytes() == seq![114u8, 115u8],
{
    reveal_strlit("js");
    lemma_literal_bytes("js");
    assert("js".spec_bytes() =~= seq![106u8, 115u8]);
    reveal_strlit("jsx");
    lemma_literal_bytes("jsx");
    assert("jsx".spec_bytes() =~= seq![106u8, 115u8, 120u8]);
    reveal_strlit("mjs");
    lemma_literal_bytes("mjs");
    assert("mjs".spec_bytes() =~= seq![109u8, 106u8, 115u8]);
    reveal_strlit("ts");
    lemma_literal_bytes("ts");
    assert("ts".spec_bytes() =~= seq![116u8, 115u8]);
    reveal_strlit("tsx");
    lemma_literal_bytes("tsx");
    assert("tsx".spec_bytes() =~= seq![116u8, 115u8, 120u8]);
    reveal_strlit("cpp");
    lemma_literal_bytes("cpp");
    assert("cpp".spec_bytes() =~= seq![99u8, 112u8, 112u8]);
    reveal_strlit("cc");
    lemma_literal_bytes("cc");
    assert("cc".spec_bytes() =~= seq![99u8, 99u8]);
    reveal_strlit("cxx");
    lemma_literal_bytes("cxx");
    assert("cxx".spec_bytes() =~= seq![99u8, 120u8, 120u8]);
    reveal_strlit("hpp");
    lemma_literal_bytes("hpp");
    assert("hpp".spec_bytes() =~= seq![104u8, 112u8, 112u8]);
    reveal_strlit("hxx");
    lemma_literal_bytes("hxx");
    assert("hxx".spec_bytes() =~= seq![104u8, 120u8, 120u8]);
    reveal_strlit("hh");
    lemma_literal_bytes("hh");
    assert("hh".spec_bytes() =~= seq![104u8, 104u8]);
    reveal_strlit("h++");
    lemma_literal_bytes("h++");
    assert("h++".spec_bytes() =~= seq![104u8, 43u8, 43u8]);
    reveal_strlit("c");
    lemma_literal_bytes("c");
    assert("c".spec_bytes() =~= seq![99u8]);
    reveal_strlit("h");
    lemma_literal_bytes("h");
    assert("h".spec_bytes() =~= seq![104u8]);
    reveal_strlit("py");
    lemma_literal_bytes("py");
    assert("py".spec_bytes() =~= seq![112u8, 121u8]);
    reveal_strlit("pyw");
    lemma_literal_bytes("pyw");
    assert("pyw".spec_bytes() =~= seq![112u8, 121u8, 119u8]);
    reveal_strlit("cs");
    lemma_literal_bytes("cs");
    assert("cs".spec_bytes() =~= seq![99u8, 115u8]);
    reveal_strlit("go");
    lemma_literal_bytes("go");
    assert("go".spec_bytes() =~= seq![103u8, 111u8]);
    reveal_strlit("rs");
    lemma_literal_bytes("rs");
    assert("rs".spec_bytes() =~= seq![114u8, 115u8]);
}

proof fn lemma_resolves_js()
    ensures
        resolve_extension(vstd::utf8::encode_utf8("js"@)) == Language::JavaScript,
{
    reveal(resolve_extension);
    lemma_extension_bytes();
    let b = seq![106u8, 115u8];
    assert(vstd::utf8::encode_utf8("js"@) == b);
    assert(ascii_lower(b) =~= b);
    assert(strip_dot(b) == b);
}

proof fn lemma_resolves_jsx()
    ensures
        resolve_extension(vstd::utf8::encode_utf8("jsx"@)) == Language::JavaScript,
{
    reveal(resolve_extension);
    lemma_extension_bytes();
    let b = seq![106u8, 115u8, 120u8];
    assert(vstd::utf8::encode_utf8("jsx"@) == b);
    assert(ascii_lower(b) =~= b);
    assert(strip_dot(b) == b);
}

proof fn lemma_resolves_mjs()
    ensures
        resolve_extension(vstd::utf8::encode_utf8("mjs"@)) == Language::JavaScript,
{
    reveal(resolve_extension);
    lemma_extension_bytes();
    let b = seq![109u8, 106u8, 115u8];
    assert(vstd::utf8::encode_utf8("mjs"@) == b);
    assert(ascii_lower(b) =~= b);
    assert(strip_dot(b) == b);
}

proof fn lemma_resolves_ts()
    ensures
        resolve_extension(vstd::utf8::encode_utf8("ts"@)) == Language::TypeScript,
{
    reveal(resolve_extension);
    lemma_extension_bytes();
    let b = seq![116u8, 115u8];
    assert(vstd::utf8::encode_utf8("ts"@) == b);
    assert(ascii_lower(b) =~= b);
    assert(strip_dot(b) == b);
}

proof fn lemma_resolves_tsx()
    ensures
        resolve_extension(vstd::utf8::encode_utf8("tsx"@)) == Language::TypeScript,
{
    reveal(resolve_extension);
    lemma_extension_bytes();
    let b = seq![116u8, 115u8, 120u8];
    assert(vstd::utf8::encode_utf8("tsx"@) == b);
    assert(ascii_lower(b) =~= b);
    assert(strip_dot(b) == b);
}

proof fn lemma_resolves_cpp()
    ensures
        resolve_extension(vstd::utf8::encode_utf8("cpp"@)) == Language::Cpp,
{
    reveal(resolve_extension);
    lemma_extension_bytes();
    let b = seq![99u8, 112u8, 112u8];
    assert(vstd::utf8::encode_utf8("cpp"@) == b);
    assert(ascii_lower(b) =~= b);
    assert(strip_dot(b) == b);
}

proof fn lemma_resolves_cc()
    ensures
        resolve_extension(vstd::utf8::encode_utf8("cc"@)) == Language::Cpp,
{
    reveal(resolve_extension);
    lemma_extension_bytes();
    let b = seq![99u8, 99u8];
    assert(vstd::utf8::encode_utf8("cc"@) == b);
    assert(ascii_lower(b) =~= b);
    assert(strip_dot(b) == b);
}

proof fn lemma_resolves_cxx()
    ensures
        resolve_extension(vstd::utf8::encode_utf8("cxx"@)) == Language::Cpp,
{
    reveal(resolve_extension);
    lemma_extension_bytes();
    let b = seq![99u8, 120u8, 120u8];
    assert(vstd::utf8::encode_utf8("cxx"@) == b);
    assert(ascii_lower(b) =~= b);
    assert(strip_dot(b) == b);
}

proof fn lemma_resolves_hpp()
    ensures
        resolve_extension(vstd::utf8::encode_utf8("hpp"@)) == Language::Cpp,
{
    reveal(resolve_extension);
    lemma_extension_bytes();
    let b = seq![104u8, 112u8, 112u8];
    assert(vstd::utf8::encode_utf8("hpp"@) == b);
    assert(ascii_lower(b) =~= b);
    assert(strip_dot(b) == b);
}

proof fn lemma_resolves_hxx()
    ensures
        resolve_extension(vstd::utf8::encode_utf8("hxx"@)) == Language::Cpp,
{
    reveal(resolve_extension);
    lemma_extension_bytes();
    let b = seq![104u8, 120u8, 120u8];
    assert(vstd::utf8::encode_utf8("hxx"@) == b);
    assert(ascii_lower(b) =~= b);
    assert(strip_dot(b) == b);
}

proof fn lemma_resolves_hh()
    ensures
        resolve_extension(vstd::utf8::encode_utf8("hh"@)) == Language::Cpp,
{
    reveal(resolve_extension);
    lemma_extension_bytes();
    let b = seq![104u8, 104u8];
    assert(vstd::utf8::encode_utf8("hh"@) == b);
    assert(ascii_lower(b) =~= b);
    assert(strip_dot(b) == b);
}

proof fn lemma_resolves_hplusplus()
    ensures
        resolve_extension(vstd::utf8::encode_utf8("h++"@)) == Language::Cpp,
{
    reveal(resolve_extension);
    lemma_extension_bytes();
    let b = seq![104u8, 43u8, 43u8];
    assert(vstd::utf8::encode_utf8("h++"@) == b);
    assert(ascii_lower(b) =~= b);
    assert(strip_dot(b) == b);
}

proof fn lemma_resolves_c()
    ensures
        resolve_extension(vstd::utf8::encode_utf8("c"@)) == Language::C,
{
    reveal(resolve_extension);
    lemma_extension_bytes();
    let b = seq![99u8];
    assert(vstd::utf8::encode_utf8("c"@) == b);
    assert(ascii_lower(b) =~= b);
    assert(strip_dot(b) == b);
}

proof fn lemma_resolves_h()
    ensures
        resolve_extension(vstd::utf8::encode_utf8("h"@)) == Language::C,
{
    reveal(resolve_extension);
    lemma_extension_bytes();
    let b = seq![104u8];
    assert(vstd::utf8::encode_utf8("h"@) == b);
    assert(ascii_lower(b) =~= b);
    assert(strip_dot(b) == b);
}

proof fn lemma_resolves_py()
    ensures
        resolve_extension(vstd::utf8::encode_utf8("py"@)) == Language::Python,
{
    reveal(resolve_extension);
    lemma_extension_bytes();
    let b = seq![112u8, 121u8];
    assert(vstd::utf8::encode_utf8("py"@) == b);
    assert(ascii_lower(b) =~= b);
    assert(strip_dot(b) == b);
}

proof fn lemma_resolves_pyw()
    ensures
        resolve_extension(vstd::utf8::encode_utf8("pyw"@)) == Language::Python,
{
    reveal(resolve_extension);
    lemma_extension_bytes();
    let b = seq![112u8, 121u8, 119u8];
    assert(vstd::utf8::encode_utf8("pyw"@) == b);
    assert(ascii_lower(b) =~= b);
    assert(strip_dot(b) == b);
}

proof fn lemma_resolves_cs()
    ensures
        resolve_extension(vstd::utf8::encode_utf8("cs"@)) == Language::CSharp,
{
    reveal(resolve_extension);
    lemma_extension_bytes();
    let b = seq![99u8, 115u8];
    assert(vstd::utf8::encode_utf8("cs"@) == b);
    assert(ascii_lower(b) =~= b);
    assert(strip_dot(b) == b);
}

proof fn lemma_resolves_go()
    ensures
        resolve_extension(vstd::utf8::encode_utf8("go"@)) == Language::Go,
{
    reveal(resolve_extension);
    lemma_extension_bytes();
    let b = seq![103u8, 111u8];
    assert(vstd::utf8::encode_utf8("go"@) == b);
    assert(ascii_lower(b) =~= b);
    assert(strip_dot(b) == b);
}

proof fn lemma_resolves_rs()
    ensures
        resolve_extension(vstd::utf8::encode_utf8("rs"@)) == Language::Rust,
{
    reveal(resolve_extension);
    lemma_extension_bytes();
    let b = seq![114u8, 115u8];
    assert(vstd::utf8::encode_utf8("rs"@) == b);
    assert(ascii_lower(b) =~= b);
    assert(strip_dot(b) == b);
}

/// The language an extractor is set to is the one its rules analyse as.
pub proof fn lemma_language_of_rules(a: Analyzer)
    ensures
        a.language() == a.rules().language,
{
}

/// Every extension an extractor advertises resolves to that extractor's
/// language, so the resolver and the extractors agree.
#[verifier::rlimit(30)]
pub proof fn lemma_extensions_resolve(a: Analyzer)
    requires
        a.wf(),
    ensures
        forall|i: int|
            0 <= i < a.extensions().len() ==> resolve_extension(
                vstd::utf8::encode_utf8(#[trigger] a.extensions()[i]),
            ) == a.language(),
{
    match a {
        Analyzer::JavaScript(x) => {
            if x.language == Language::TypeScript {
                lemma_resolves_ts();
                lemma_resolves_tsx();
                let ghost ex = seq!["ts"@, "tsx"@];
                assert(a.extensions() =~= ex);
                assert forall|i: int| 0 <= i < ex.len() implies resolve_extension(vstd::utf8::encode_utf8(#[trigger] ex[i])) == a.language() by {
                    if i == 0 {
                        assert(ex[i] == "ts"@);
                    }
                    if i == 1 {
                        assert(ex[i] == "tsx"@);
                    }
                }
            } else {
                lemma_resolves_js();
                lemma_resolves_jsx();
                lemma_resolves_mjs();
                let ghost ex = seq!["js"@, "jsx"@, "mjs"@];
                assert(a.extensions() =~= ex);
                assert forall|i: int| 0 <= i < ex.len() implies resolve_extension(vstd::utf8::encode_utf8(#[trigger] ex[i])) == a.language() by {
                    if i == 0 {
                        assert(ex[i] == "js"@);
                    }
                    if i == 1 {
                        assert(ex[i] == "jsx"@);
                    }
                    if i == 2 {
                        assert(ex[i] == "mjs"@);
                    }
                }
            }
        },
        Analyzer::Cpp(x) => {
            if x.language == Language::C {
                lemma_resolves_c();
                lemma_resolves_h();
                let ghost ex = seq!["c"@, "h"@];
                assert(a.extensions() =~= ex);
                assert forall|i: int| 0 <= i < ex.len() implies resolve_extension(vstd::utf8::encode_utf8(#[trigger] ex[i])) == a.language() by {
                    if i == 0 {
                        assert(ex[i] == "c"@);
                    }
                    if i == 1 {
                        assert(ex[i] == "h"@);
                    }
                }
            } else {
                lemma_resolves_cpp();
                lemma_resolves_cc();
                lemma_resolves_cxx();
                lemma_resolves_hpp();
                lemma_resolves_hxx();
                lemma_resolves_hh();
                lemma_resolves_hplusplus();
                let ghost ex = seq!["cpp"@, "cc"@, "cxx"@, "hpp"@, "hxx"@, "hh"@, "h++"@];
                assert(a.extensions() =~= ex);
                assert forall|i: int| 0 <= i < ex.len() implies resolve_extension(vstd::utf8::encode_utf8(#[trigger] ex[i])) == a.language() by {
                    if i == 0 {
                        assert(ex[i] == "cpp"@);
                    }
                    if i == 1 {
                        assert(ex[i] == "cc"@);
                    }
                    if i == 2 {
                        assert(ex[i] == "cxx"@);
                    }
                    if i == 3 {
                        assert(ex[i] == "hpp"@);
                    }
                    if i == 4 {
                        assert(ex[i] == "hxx"@);
                    }
                    if i == 5 {
                        assert(ex[i] == "hh"@);
                    }
                    if i == 6 {
                        assert(ex[i] == "h++"@);
                    }
                }
            }
        },
        Analyzer::Python(_) => {
            lemma_resolves_py();
            lemma_resolves_pyw();
            let ghost ex = seq!["py"@, "pyw"@];
            assert(a.extensions() =~= ex);
            assert forall|i: int| 0 <= i < ex.len() implies resolve_extension(vstd::utf8::encode_utf8(#[trigger] ex[i])) == a.language() by {
                if i == 0 {
                    assert(ex[i] == "py"@);
                }
                if i == 1 {
                    assert(ex[i] == "pyw"@);
                }
            }
        },
        Analyzer::CSharp(_) => {
            lemma_resolves_cs();
            let ghost ex = seq!["cs"@];
            assert(a.extensions() =~= ex);
            assert forall|i: int| 0 <= i < ex.len() implies resolve_extension(vstd::utf8::encode_utf8(#[trigger] ex[i])) == a.language() by {
                if i == 0 {
                    assert(ex[i] == "cs"@);
                }
            }
        },
        Analyzer::Go(_) => {
            lemma_resolves_go();
            let ghost ex = seq!["go"@];
            assert(a.extensions() =~= ex);
            assert forall|i: int| 0 <= i < ex.len() implies resolve_extension(vstd::utf8::encode_utf8(#[trigger] ex[i])) == a.language() by {
                if i == 0 {
                    assert(ex[i] == "go"@);
                }
            }
        },
        Analyzer::Rust(_) => {
            lemma_resolves_rs();
            let ghost ex = seq!["rs"@];
            assert(a.extensions() =~= ex);
            assert forall|i: int| 0 <= i < ex.len() implies resolve_extension(vstd::utf8::encode_utf8(#[trigger] ex[i])) == a.language() by {
                if i == 0 {
                    assert(ex[i] == "rs"@);
                }
            }
        },
    }
}

} // verus!
