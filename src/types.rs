//! The data model: languages, complexity, structural records, statistics and
//! the per-file analysis result.
use vstd::prelude::*;
use vstd::string::StringSliceAdditionalSpecFns;
use vstd::utf8::encode_utf8;
use crate::text::{ascii_lower, bytes_eq, lower_bytes};

verus! {

/// Languages the analyzer knows.
#[derive(Clone, Copy, Debug, PartialEq, Eq, Hash, Structural)]
pub enum Language {
    JavaScript,
    TypeScript,
    Cpp,
    C,
    Python,
    CSharp,
    Go,
    Rust,
    Unknown,
}

/// An extension without its leading dot, if it has one.
pub open spec fn strip_dot(e: Seq<u8>) -> Seq<u8> {
    if e.len() > 0 && e[0] == 46 {
        e.drop_first()
    } else {
        e
    }
}

/// The language of a lower-case extension without a dot.
pub open spec fn language_of_ext(e: Seq<u8>) -> Language {
    if e == "js".spec_bytes() || e == "jsx".spec_bytes() || e == "mjs".spec_bytes() {
        Language::JavaScript
    } else if e == "ts".spec_bytes() || e == "tsx".spec_bytes() {
        Language::TypeScript
    } else if e == "cpp".spec_bytes() || e == "cc".spec_bytes() || e == "cxx".spec_bytes()
        || e == "hpp".spec_bytes() || e == "hxx".spec_bytes() || e == "hh".spec_bytes()
        || e == "h++".spec_bytes() {
        Language::Cpp
    } else if e == "c".spec_bytes() || e == "h".spec_bytes() {
        Language::C
    } else if e == "py".spec_bytes() || e == "pyw".spec_bytes() {
        Language::Python
    } else if e == "cs".spec_bytes() {
        Language::CSharp
    } else if e == "go".spec_bytes() {
        Language::Go
    } else if e == "rs".spec_bytes() {
        Language::Rust
    } else {
        Language::Unknown
    }
}

/// The language of an extension, ignoring ASCII case and one leading dot.
#[verifier::opaque]
pub open spec fn resolve_extension(e: Seq<u8>) -> Language {
    language_of_ext(strip_dot(ascii_lower(e)))
}

fn is_lit(e: &[u8], lit: &str) -> (r: bool)
    ensures
        r == (e@ == lit.spec_bytes()),
{
    bytes_eq(e, lit.as_bytes())
}

pub open spec fn language_name(l: Language) -> Seq<char> {
    match l {
        Language::JavaScript => "JavaScript"@,
        Language::TypeScript => "TypeScript"@,
        Language::Cpp => "C++"@,
        Language::C => "C"@,
        Language::Python => "Python"@,
        Language::CSharp => "C#"@,
        Language::Go => "Go"@,
        Language::Rust => "Rust"@,
        Language::Unknown => "Unknown"@,
    }
}

impl Language {
    /// Resolves an extension (with or without its dot, in any ASCII case).
    /// Unknown extensions give `Unknown`.
    pub fn from_extension(extension: &str) -> (r: Language)
        ensures
            r == resolve_extension(extension.spec_bytes()),
    {
        Language::from_extension_bytes(extension.as_bytes())
    }

    /// As `from_extension`, on the extension's bytes.
    pub fn from_extension_bytes(extension: &[u8]) -> (r: Language)
        ensures
            r == resolve_extension(extension@),
    {
        let lowered = lower_bytes(extension);
        let all = lowered.as_slice();
        let e = if all.len() > 0 && all[0] == 46 {
            vstd::slice::slice_subrange(all, 1, all.len())
        } else {
            all
        };
        proof {
            assert(e@ == strip_dot(ascii_lower(extension@)));
            reveal(resolve_extension);
        }
        if is_lit(e, "js") || is_lit(e, "jsx") || is_lit(e, "mjs") {
            Language::JavaScript
        } else if is_lit(e, "ts") || is_lit(e, "tsx") {
            Language::TypeScript
        } else if is_lit(e, "cpp") || is_lit(e, "cc") || is_lit(e, "cxx") || is_lit(e, "hpp")
            || is_lit(e, "hxx") || is_lit(e, "hh") || is_lit(e, "h++") {
            Language::Cpp
        } else if is_lit(e, "c") || is_lit(e, "h") {
            Language::C
        } else if is_lit(e, "py") || is_lit(e, "pyw") {
            Language::Python
        } else if is_lit(e, "cs") {
            Language::CSharp
        } else if is_lit(e, "go") {
            Language::Go
        } else if is_lit(e, "rs") {
            Language::Rust
        } else {
            Language::Unknown
        }
    }

    /// The display name of the language.
    pub fn name(&self) -> (r: &'static str)
        ensures
            r@ == language_name(*self),
    {
        match self {
            Language::JavaScript => "JavaScript",
            Language::TypeScript => "TypeScript",
            Language::Cpp => "C++",
            Language::C => "C",
            Language::Python => "Python",
            Language::CSharp => "C#",
            Language::Go => "Go",
            Language::Rust => "Rust",
            Language::Unknown => "Unknown",
        }
    }
}

/// Complexity bands of the cyclomatic complexity.
#[derive(Clone, Copy, Debug, PartialEq, Eq, Structural)]
pub enum ComplexityRating {
    Simple,
    Moderate,
    Complex,
    VeryComplex,
}

/// The band of a cyclomatic complexity: up to 10 Simple, 11 to 20 Moderate,
/// 21 to 50 Complex, above 50 VeryComplex.
pub open spec fn rating_for(cc: int) -> ComplexityRating {
    if cc <= 10 {
        ComplexityRating::Simple
    } else if cc <= 20 {
        ComplexityRating::Moderate
    } else if cc <= 50 {
        ComplexityRating::Complex
    } else {
        ComplexityRating::VeryComplex
    }
}

pub open spec fn rating_emoji_for(r: ComplexityRating) -> Seq<char> {
    match r {
        ComplexityRating::Simple => "🟢"@,
        ComplexityRating::Moderate => "🟡"@,
        ComplexityRating::Complex => "🟠"@,
        ComplexityRating::VeryComplex => "🔴"@,
    }
}

pub open spec fn rating_label(r: ComplexityRating) -> Seq<char> {
    match r {
        ComplexityRating::Simple => "Simple"@,
        ComplexityRating::Moderate => "Moderate"@,
        ComplexityRating::Complex => "Complex"@,
        ComplexityRating::VeryComplex => "Very Complex"@,
    }
}

/// The band of a cyclomatic complexity.
pub fn rate(cc: u64) -> (r: ComplexityRating)
    ensures
        r == rating_for(cc as int),
{
    if cc <= 10 {
        ComplexityRating::Simple
    } else if cc <= 20 {
        ComplexityRating::Moderate
    } else if cc <= 50 {
        ComplexityRating::Complex
    } else {
        ComplexityRating::VeryComplex
    }
}

fn rating_emoji(r: ComplexityRating) -> (s: &'static str)
    ensures
        s@ == rating_emoji_for(r),
{
    match r {
        ComplexityRating::Simple => "🟢",
        ComplexityRating::Moderate => "🟡",
        ComplexityRating::Complex => "🟠",
        ComplexityRating::VeryComplex => "🔴",
    }
}

#[derive(Clone, Debug)]
pub struct ComplexityInfo {
    pub cyclomatic_complexity: u64,
    pub max_nesting_depth: u64,
    pub cognitive_complexity: u64,
    pub rating: ComplexityRating,
    pub rating_emoji: String,
}

impl ComplexityInfo {
    /// The rating and its emoji agree with the cyclomatic complexity, which is
    /// at least the base value 1.
    pub open spec fn wf(&self) -> bool {
        &&& self.cyclomatic_complexity >= 1
        &&& self.rating == rating_for(self.cyclomatic_complexity as int)
        &&& self.rating_emoji@ == rating_emoji_for(self.rating)
    }

    /// Base complexity 1, no nesting.
    pub fn new() -> (r: ComplexityInfo)
        ensures
            r.wf(),
            r.cyclomatic_complexity == 1,
            r.max_nesting_depth == 0,
            r.cognitive_complexity == 0,
    {
        ComplexityInfo::measured(1, 0)
    }

    /// A complexity of `cyclomatic` with nesting depth `depth`, rated.
    pub fn measured(cyclomatic: u64, depth: u64) -> (r: ComplexityInfo)
        requires
            cyclomatic >= 1,
        ensures
            r.wf(),
            r.cyclomatic_complexity == cyclomatic,
            r.max_nesting_depth == depth,
            r.cognitive_complexity == 0,
    {
        let rating = rate(cyclomatic);
        ComplexityInfo {
            cyclomatic_complexity: cyclomatic,
            max_nesting_depth: depth,
            cognitive_complexity: 0,
            rating,
            rating_emoji: rating_emoji(rating).to_owned(),
        }
    }

    /// Recomputes the rating from the cyclomatic complexity.
    pub fn update_rating(&mut self)
        ensures
            final(self).rating == rating_for(old(self).cyclomatic_complexity as int),
            final(self).rating_emoji@ == rating_emoji_for(final(self).rating),
            final(self).cyclomatic_complexity == old(self).cyclomatic_complexity,
            final(self).max_nesting_depth == old(self).max_nesting_depth,
            final(self).cognitive_complexity == old(self).cognitive_complexity,
            old(self).cyclomatic_complexity >= 1 ==> final(self).wf(),
    {
        let rating = rate(self.cyclomatic_complexity);
        self.rating = rating;
        self.rating_emoji = rating_emoji(rating).to_owned();
    }

    /// The rating's label and emoji, as `"Moderate 🟡"`.
    pub fn to_string(&self) -> (r: String)
        ensures
            r@ == rating_label(self.rating) + " "@ + self.rating_emoji@,
    {
        let label = match self.rating {
            ComplexityRating::Simple => "Simple",
            ComplexityRating::Moderate => "Moderate",
            ComplexityRating::Complex => "Complex",
            ComplexityRating::VeryComplex => "Very Complex",
        };
        let mut s = label.to_owned();
        s.append(" ");
        s.append(self.rating_emoji.as_str());
        s
    }
}

impl Default for ComplexityInfo {
    fn default() -> (r: ComplexityInfo)
        ensures
            r.wf(),
            r.cyclomatic_complexity == 1,
            r.max_nesting_depth == 0,
    {
        ComplexityInfo::new()
    }
}

#[derive(Clone, Debug)]
pub struct FunctionInfo {
    pub name: String,
    pub start_line: usize,
    pub end_line: usize,
    pub parameters: Vec<String>,
    pub is_async: bool,
    pub is_arrow_function: bool,
    pub complexity: ComplexityInfo,
    /// Free-form marks, such as `is_static` or `is_virtual`.
    pub tags: Vec<String>,
}

impl FunctionInfo {
    pub fn new(name: String) -> (r: FunctionInfo)
        ensures
            r.name == name,
            r.start_line == 0,
            r.end_line == 0,
            r.parameters@.len() == 0,
            !r.is_async,
            !r.is_arrow_function,
            r.complexity.wf(),
            r.complexity.cyclomatic_complexity == 1,
            r.complexity.max_nesting_depth == 0,
            r.complexity.cognitive_complexity == 0,
            r.tags@.len() == 0,
    {
        FunctionInfo {
            name,
            start_line: 0,
            end_line: 0,
            parameters: Vec::new(),
            is_async: false,
            is_arrow_function: false,
            complexity: ComplexityInfo::new(),
            tags: Vec::new(),
        }
    }
}

#[derive(Clone, Debug)]
pub struct MemberVariable {
    pub name: String,
    pub var_type: String,
    pub declaration_line: usize,
    pub is_static: bool,
    pub is_const: bool,
    pub access_modifier: String,
    pub used_by_methods: Vec<String>,
    pub modified_by_methods: Vec<String>,
}

impl MemberVariable {
    /// A private, non-static, non-const member used by no method yet.
    pub fn new(name: String, var_type: String, declaration_line: usize) -> (r: MemberVariable)
        ensures
            r.name == name,
            r.var_type == var_type,
            r.declaration_line == declaration_line,
            !r.is_static,
            !r.is_const,
            r.access_modifier@ == "private"@,
            r.used_by_methods@.len() == 0,
            r.modified_by_methods@.len() == 0,
    {
        MemberVariable {
            name,
            var_type,
            declaration_line,
            is_static: false,
            is_const: false,
            access_modifier: "private".to_owned(),
            used_by_methods: Vec::new(),
            modified_by_methods: Vec::new(),
        }
    }
}

#[derive(Clone, Debug)]
pub struct ClassInfo {
    pub name: String,
    pub parent_class: String,
    pub start_line: usize,
    pub end_line: usize,
    pub methods: Vec<FunctionInfo>,
    pub properties: Vec<String>,
    pub member_variables: Vec<MemberVariable>,
    /// Free-form marks, such as `is_struct` or `is_interface`.
    pub tags: Vec<String>,
}

impl ClassInfo {
    pub fn new(name: String) -> (r: ClassInfo)
        ensures
            r.name == name,
            r.parent_class@.len() == 0,
            r.start_line == 0,
            r.end_line == 0,
            r.methods@.len() == 0,
            r.properties@.len() == 0,
            r.member_variables@.len() == 0,
            r.tags@.len() == 0,
    {
        ClassInfo {
            name,
            parent_class: String::new(),
            start_line: 0,
            end_line: 0,
            methods: Vec::new(),
            properties: Vec::new(),
            member_variables: Vec::new(),
            tags: Vec::new(),
        }
    }
}

#[derive(Clone, Copy, Debug, PartialEq, Eq, Structural)]
pub enum ImportType {
    Es6Import,
    CommonjsRequire,
    DynamicImport,
    CppInclude,
    CSharpUsing,
    GoImport,
    RustUse,
    PythonImport,
}

#[derive(Clone, Copy, Debug, PartialEq, Eq, Structural)]
pub enum ExportType {
    Es6Export,
    Es6Default,
    CommonjsExports,
}

#[derive(Clone, Debug)]
pub struct ImportInfo {
    pub import_type: ImportType,
    pub path: String,
    pub imported_names: Vec<String>,
    pub alias: String,
    pub line_number: usize,
    /// Free-form marks, such as `is_system_header`.
    pub tags: Vec<String>,
}

#[derive(Clone, Debug)]
pub struct ExportInfo {
    pub export_type: ExportType,
    pub exported_names: Vec<String>,
    pub is_default: bool,
    pub line_number: usize,
}

#[derive(Clone, Debug)]
pub struct FunctionCall {
    pub function_name: String,
    pub object_name: String,
    pub line_number: usize,
    pub is_method_call: bool,
}

impl FunctionCall {
    /// `object.function` for a method call, else the function name.
    pub fn full_name(&self) -> (r: String)
        ensures
            self.is_method_call ==> r@ == self.object_name@ + "."@ + self.function_name@,
            !self.is_method_call ==> r@ == self.function_name@,
    {
        if self.is_method_call {
            let mut s = self.object_name.clone();
            s.append(".");
            s.append(self.function_name.as_str());
            s
        } else {
            self.function_name.clone()
        }
    }
}

#[derive(Clone, Debug)]
pub struct CommentInfo {
    pub line_start: usize,
    pub line_end: usize,
    pub comment_type: String,
    pub content: String,
    pub looks_like_code: bool,
}

/// Counts derived from an analysis result's collections.
#[derive(Clone, Copy, Debug, PartialEq, Eq, Structural)]
pub struct Statistics {
    pub total_classes: u64,
    pub total_functions: u64,
    pub total_imports: u64,
    pub total_exports: u64,
    /// Distinct call names among the calls.
    pub unique_calls: u64,
    pub total_calls: u64,
    pub commented_lines_count: u64,
}

impl Statistics {
    pub open spec fn is_zero(&self) -> bool {
        &&& self.total_classes == 0
        &&& self.total_functions == 0
        &&& self.total_imports == 0
        &&& self.total_exports == 0
        &&& self.unique_calls == 0
        &&& self.total_calls == 0
        &&& self.commented_lines_count == 0
    }
}

impl Default for Statistics {
    fn default() -> (r: Statistics)
        ensures
            r.is_zero(),
    {
        Statistics {
            total_classes: 0,
            total_functions: 0,
            total_imports: 0,
            total_exports: 0,
            unique_calls: 0,
            total_calls: 0,
            commented_lines_count: 0,
        }
    }
}

/// What is known of an analysed file.
#[derive(Clone, Debug)]
pub struct FileInfo {
    pub name: String,
    pub size_bytes: u64,
    pub total_lines: usize,
    pub code_lines: usize,
    pub comment_lines: usize,
    pub empty_lines: usize,
}

impl FileInfo {
    pub open spec fn wf(&self) -> bool {
        self.total_lines == self.code_lines + self.comment_lines + self.empty_lines
    }

    pub fn new(name: String) -> (r: FileInfo)
        ensures
            r.name == name,
            r.size_bytes == 0,
            r.total_lines == 0,
            r.code_lines == 0,
            r.comment_lines == 0,
            r.empty_lines == 0,
            r.wf(),
    {
        FileInfo { name, size_bytes: 0, total_lines: 0, code_lines: 0, comment_lines: 0, empty_lines: 0 }
    }

    /// A record named after the last component of `path`, or "unknown" when
    /// that component is empty.
    pub fn from_path(path: &str) -> (r: FileInfo)
        ensures
            r.wf(),
            r.total_lines == 0,
            r.size_bytes == 0,
            ({
                let b = path.spec_bytes();
                let start = crate::analyzers::last_index(b, 47, b.len() as int) + 1;
                if start < b.len() && vstd::utf8::is_char_boundary(b, start) {
                    encode_utf8(r.name@) == b.subrange(start, b.len() as int)
                } else {
                    r.name@ == "unknown"@
                }
            }),
    {
        let b = path.as_bytes();
        let start = crate::session::file_name_start(b);
        if start < b.len() && path.is_char_boundary(start) {
            let (_, name) = path.split_at(start);
            FileInfo::new(name.to_owned())
        } else {
            FileInfo::new("unknown".to_owned())
        }
    }
}

/// The analysis of one file.
#[derive(Clone, Debug)]
pub struct AnalysisResult {
    pub file_info: FileInfo,
    pub language: Language,
    pub classes: Vec<ClassInfo>,
    pub functions: Vec<FunctionInfo>,
    pub imports: Vec<ImportInfo>,
    pub exports: Vec<ExportInfo>,
    pub function_calls: Vec<FunctionCall>,
    pub complexity: ComplexityInfo,
    pub commented_lines: Vec<CommentInfo>,
    pub statistics: Statistics,
}

/// The name a call is counted under.
pub open spec fn call_name(c: FunctionCall) -> Seq<char> {
    if c.is_method_call {
        c.object_name@ + "."@ + c.function_name@
    } else {
        c.function_name@
    }
}

pub open spec fn call_names(v: Seq<FunctionCall>) -> Seq<Seq<char>> {
    v.map_values(|c: FunctionCall| call_name(c))
}

/// How many distinct values a sequence holds.
pub open spec fn distinct_count(s: Seq<Seq<char>>) -> nat
    decreases s.len(),
{
    if s.len() == 0 {
        0
    } else {
        distinct_count(s.drop_last()) + if s.drop_last().contains(s.last()) {
            0nat
        } else {
            1nat
        }
    }
}

/// The number of distinct call names among calls.
pub fn unique_call_count(calls: &Vec<FunctionCall>) -> (r: usize)
    ensures
        r == distinct_count(call_names(calls@)),
{
    let mut names: Vec<String> = Vec::new();
    let mut i: usize = 0;
    while i < calls.len()
        invariant
            i <= calls@.len(),
            names@.len() == i,
            forall|j: int| 0 <= j < i ==> (#[trigger] names@[j])@ == call_name(calls@[j]),
        decreases calls@.len() - i,
    {
        names.push(calls[i].full_name());
        i = i + 1;
    }
    let ghost all = call_names(calls@);
    assert(all.len() == names@.len());
    let mut count: usize = 0;
    let mut k: usize = 0;
    while k < names.len()
        invariant
            k <= names@.len(),
            all.len() == names@.len(),
            forall|j: int| 0 <= j < names@.len() ==> (#[trigger] names@[j])@ == all[j],
            count == distinct_count(all.subrange(0, k as int)),
            count <= k,
        decreases names@.len() - k,
    {
        let mut seen = false;
        let mut m: usize = 0;
        while m < k
            invariant
                m <= k < names@.len(),
                forall|j: int| 0 <= j < names@.len() ==> (#[trigger] names@[j])@ == all[j],
                seen <==> exists|j: int| 0 <= j < m && all[j] == all[k as int],
            decreases k - m,
        {
            if bytes_eq(names[m].as_str().as_bytes(), names[k].as_str().as_bytes()) {
                proof {
                    vstd::utf8::encode_utf8_decode_utf8(all[m as int]);
                    vstd::utf8::encode_utf8_decode_utf8(all[k as int]);
                }
                seen = true;
            } else {
                proof {
                    if all[m as int] == all[k as int] {
                        assert(names@[m as int]@ == names@[k as int]@);
                    }
                }
            }
            m = m + 1;
        }
        proof {
            let pre = all.subrange(0, k as int);
            assert(all.subrange(0, k + 1).drop_last() =~= pre);
            assert(all.subrange(0, k + 1).last() == all[k as int]);
            if seen {
                let j = choose|j: int| 0 <= j < k && all[j] == all[k as int];
                assert(pre[j] == all[k as int]);
            } else {
                assert forall|j: int| 0 <= j < pre.len() implies pre[j] != all[k as int] by {
                    assert(pre[j] == all[j]);
                }
            }
        }
        if !seen {
            count = count + 1;
        }
        k = k + 1;
    }
    proof {
        assert(all.subrange(0, names@.len() as int) =~= all);
    }
    count
}

/// The statistics that an analysis result's collections give.
pub open spec fn derived_statistics(r: AnalysisResult) -> Statistics {
    Statistics {
        total_classes: r.classes@.len() as u64,
        total_functions: r.functions@.len() as u64,
        total_imports: r.imports@.len() as u64,
        total_exports: r.exports@.len() as u64,
        unique_calls: distinct_count(call_names(r.function_calls@)) as u64,
        total_calls: r.function_calls@.len() as u64,
        commented_lines_count: r.commented_lines@.len() as u64,
    }
}

impl AnalysisResult {
    /// Line counts add up, the complexity is rated and at least 1, and the
    /// statistics are those of the collections.
    pub open spec fn wf(&self) -> bool {
        &&& self.file_info.wf()
        &&& self.complexity.wf()
        &&& self.statistics == derived_statistics(*self)
    }

    /// An empty result for `language` of a file named "unknown".
    pub fn new(language: Language) -> (r: AnalysisResult)
        ensures
            r.wf(),
            r.language == language,
            r.file_info.name@ == "unknown"@,
            r.file_info.total_lines == 0,
            r.classes@.len() == 0,
            r.functions@.len() == 0,
            r.imports@.len() == 0,
            r.complexity.cyclomatic_complexity == 1,
    {
        AnalysisResult {
            file_info: FileInfo::new("unknown".to_owned()),
            language,
            classes: Vec::new(),
            functions: Vec::new(),
            imports: Vec::new(),
            exports: Vec::new(),
            function_calls: Vec::new(),
            complexity: ComplexityInfo::new(),
            commented_lines: Vec::new(),
            statistics: Statistics::default(),
        }
    }

    /// Sets the statistics to the counts of the collections.
    pub fn update_statistics(&mut self)
        ensures
            final(self).statistics == derived_statistics(*old(self)),
            final(self).file_info == old(self).file_info,
            final(self).language == old(self).language,
            final(self).classes == old(self).classes,
            final(self).functions == old(self).functions,
            final(self).imports == old(self).imports,
            final(self).exports == old(self).exports,
            final(self).function_calls == old(self).function_calls,
            final(self).complexity == old(self).complexity,
            final(self).commented_lines == old(self).commented_lines,
    {
        self.statistics = Statistics {
            total_classes: self.classes.len() as u64,
            total_functions: self.functions.len() as u64,
            total_imports: self.imports.len() as u64,
            total_exports: self.exports.len() as u64,
            unique_calls: unique_call_count(&self.function_calls) as u64,
            total_calls: self.function_calls.len() as u64,
            commented_lines_count: self.commented_lines.len() as u64,
        };
    }
}

} // verus!
