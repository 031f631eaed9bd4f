//! Directory-level results: the analysed files, the files that failed, and
//! the summary statistics, which are always the sum over the analysed files.
use vstd::prelude::*;
use crate::analyzers::{language_of_path, path_language, rules_for, AnalyzerFactory, LanguageAnalyzer};
use crate::extract::{analyzed_as, MAX_CONTENT_LEN};
use crate::types::{AnalysisResult, Language, Statistics};
use vstd::string::StringSliceAdditionalSpecFns;

verus! {

/// Field-by-field sums of statistics, as unbounded numbers.
pub struct Totals {
    pub classes: nat,
    pub functions: nat,
    pub imports: nat,
    pub exports: nat,
    pub unique_calls: nat,
    pub calls: nat,
    pub commented: nat,
}

pub open spec fn plus(t: Totals, s: Statistics) -> Totals {
    Totals {
        classes: t.classes + s.total_classes as nat,
        functions: t.functions + s.total_functions as nat,
        imports: t.imports + s.total_imports as nat,
        exports: t.exports + s.total_exports as nat,
        unique_calls: t.unique_calls + s.unique_calls as nat,
        calls: t.calls + s.total_calls as nat,
        commented: t.commented + s.commented_lines_count as nat,
    }
}

/// The element-wise sum of the statistics of a sequence of results.
pub open spec fn sum_statistics(files: Seq<AnalysisResult>) -> Totals
    decreases files.len(),
{
    if files.len() == 0 {
        Totals {
            classes: 0,
            functions: 0,
            imports: 0,
            exports: 0,
            unique_calls: 0,
            calls: 0,
            commented: 0,
        }
    } else {
        plus(sum_statistics(files.drop_last()), files.last().statistics)
    }
}

/// Statistics that hold exactly the given totals.
pub open spec fn matches_totals(s: Statistics, t: Totals) -> bool {
    &&& s.total_classes == t.classes
    &&& s.total_functions == t.functions
    &&& s.total_imports == t.imports
    &&& s.total_exports == t.exports
    &&& s.unique_calls == t.unique_calls
    &&& s.total_calls == t.calls
    &&& s.commented_lines_count == t.commented
}

proof fn lemma_sum_remove(s: Seq<AnalysisResult>, j: int)
    requires
        0 <= j < s.len(),
    ensures
        sum_statistics(s) == plus(sum_statistics(s.remove(j)), s[j].statistics),
    decreases s.len(),
{
    if j == s.len() - 1 {
        assert(s.remove(j) =~= s.drop_last());
    } else {
        let d = s.drop_last();
        lemma_sum_remove(d, j);
        assert(d.remove(j) =~= s.remove(j).drop_last());
        assert(s.remove(j).last() == s.last());
    }
}

/// Summing is independent of order: two sequences holding the same results,
/// in any order, have the same sum.
pub proof fn lemma_sum_permutation(a: Seq<AnalysisResult>, b: Seq<AnalysisResult>)
    requires
        a.to_multiset() == b.to_multiset(),
    ensures
        sum_statistics(a) == sum_statistics(b),
    decreases a.len(),
{
    broadcast use vstd::seq_lib::group_to_multiset_ensures;

    assert(a.to_multiset().len() == a.len());
    assert(b.to_multiset().len() == b.len());
    if a.len() == 0 {
    } else {
        let x = a.last();
        let rest = a.drop_last();
        assert(rest.push(x) =~= a);
        assert(a.to_multiset() =~= rest.to_multiset().insert(x));
        assert(b.to_multiset().count(x) > 0);
        assert(b.contains(x));
        let j = choose|j: int| 0 <= j < b.len() && b[j] == x;
        assert(b.remove(j).to_multiset() =~= b.to_multiset().remove(x));
        assert(rest.to_multiset() =~= b.remove(j).to_multiset());
        lemma_sum_permutation(rest, b.remove(j));
        lemma_sum_remove(b, j);
    }
}

/// Why a file of a scan has no result.
#[derive(Clone, Copy, Debug, PartialEq, Eq, Structural)]
pub enum FailureReason {
    /// It could not be read.
    Unreadable,
    /// Its extension maps to no language.
    UnsupportedLanguage,
    /// It is larger than an analysis can take.
    TooLarge,
}

#[derive(Clone, Debug)]
pub struct FileFailure {
    pub path: String,
    pub reason: FailureReason,
}

/// What became of one file of a scan.
pub enum FileOutcome {
    Analyzed(AnalysisResult),
    Failed(FileFailure),
}

#[derive(Clone, Copy, Debug, PartialEq, Eq, Structural)]
pub enum AnalysisError {
    /// The path does not exist, or is neither a file nor a directory.
    PathNotFound,
    /// A single file was asked for whose extension maps to no language.
    UnsupportedLanguage,
    /// A single file was asked for that is larger than an analysis can take.
    TooLarge,
    /// The summary's sums do not fit its counters.
    SummaryOverflow,
}

/// The analysis of a directory, or of one file.
#[derive(Clone, Debug)]
pub struct DirectoryAnalysis {
    pub root: String,
    pub files: Vec<AnalysisResult>,
    pub failures: Vec<FileFailure>,
    pub summary: Statistics,
}

impl DirectoryAnalysis {
    /// The summary is the element-wise sum of the files' statistics.
    pub open spec fn wf(&self) -> bool {
        matches_totals(self.summary, sum_statistics(self.files@))
    }

    pub fn new(root: String) -> (r: DirectoryAnalysis)
        ensures
            r.wf(),
            r.root == root,
            r.files@.len() == 0,
            r.failures@.len() == 0,
    {
        DirectoryAnalysis {
            root,
            files: Vec::new(),
            failures: Vec::new(),
            summary: Statistics::default(),
        }
    }

    /// Adds one analysed file and its statistics to the summary. Fails, and
    /// changes nothing, when a sum would not fit.
    pub fn add_result(&mut self, result: AnalysisResult) -> (r: Result<(), AnalysisError>)
        requires
            old(self).wf(),
        ensures
            final(self).wf(),
            final(self).root == old(self).root,
            final(self).failures == old(self).failures,
            r is Ok ==> final(self).files@ == old(self).files@.push(result),
            r is Err ==> final(self).files@ == old(self).files@ && r == Err::<(), AnalysisError>(
                AnalysisError::SummaryOverflow,
            ),
            r is Err <==> !fits(plus(sum_statistics(old(self).files@), result.statistics)),
    {
        let s = self.summary;
        let t = result.statistics;
        let sum = match (
            s.total_classes.checked_add(t.total_classes),
            s.total_functions.checked_add(t.total_functions),
            s.total_imports.checked_add(t.total_imports),
            s.total_exports.checked_add(t.total_exports),
            s.unique_calls.checked_add(t.unique_calls),
            s.total_calls.checked_add(t.total_calls),
            s.commented_lines_count.checked_add(t.commented_lines_count),
        ) {
            (Some(a), Some(b), Some(c), Some(d), Some(u), Some(e), Some(f)) => Statistics {
                total_classes: a,
                total_functions: b,
                total_imports: c,
                total_exports: d,
                unique_calls: u,
                total_calls: e,
                commented_lines_count: f,
            },
            _ => {
                return Err(AnalysisError::SummaryOverflow);
            },
        };
        let ghost before = self.files@;
        self.summary = sum;
        self.files.push(result);
        proof {
            assert(self.files@.drop_last() =~= before);
        }
        Ok(())
    }

    /// Records a file that has no result.
    pub fn add_failure(&mut self, failure: FileFailure)
        ensures
            final(self).files == old(self).files,
            final(self).summary == old(self).summary,
            final(self).root == old(self).root,
            final(self).failures@ == old(self).failures@.push(failure),
    {
        self.failures.push(failure);
    }

    /// Gathers the outcomes of a scan, in the order given: the analysed files
    /// with their summed statistics, and the failures. Fails only when a sum
    /// would not fit the summary's counters.
    pub fn from_outcomes(root: String, outcomes: Vec<FileOutcome>) -> (r: Result<
        DirectoryAnalysis,
        AnalysisError,
    >)
        ensures
            r matches Ok(d) ==> (d.wf() && d.root == root && d.files@ == analyzed_of(outcomes@)
                && d.failures@ == failed_of(outcomes@)),
            r is Err ==> r == Err::<DirectoryAnalysis, AnalysisError>(AnalysisError::SummaryOverflow),
            r is Ok <==> fits(sum_statistics(analyzed_of(outcomes@))),
    {
        let mut d = DirectoryAnalysis::new(root);
        let mut rest = outcomes;
        let ghost all = rest@;
        let ghost mut i: int = 0;
        while rest.len() > 0
            invariant
                0 <= i <= all.len(),
                all == outcomes@,
                rest@ == all.subrange(i, all.len() as int),
                d.wf(),
                d.root == root,
                d.files@ == analyzed_of(all.subrange(0, i)),
                d.failures@ == failed_of(all.subrange(0, i)),
            decreases rest@.len(),
        {
            let o = rest.remove(0);
            proof {
                assert(all.subrange(0, i + 1).drop_last() =~= all.subrange(0, i));
                assert(all.subrange(0, i + 1).last() == o);
            }
            match o {
                FileOutcome::Analyzed(res) => {
                    match d.add_result(res) {
                        Ok(()) => {},
                        Err(e) => {
                            proof {
                                let prefix = analyzed_of(all.subrange(0, i + 1));
                                assert(prefix == analyzed_of(all.subrange(0, i)).push(res));
                                assert(prefix.drop_last() =~= analyzed_of(all.subrange(0, i)));
                                assert(sum_statistics(prefix) == plus(
                                    sum_statistics(analyzed_of(all.subrange(0, i))),
                                    res.statistics,
                                ));
                                lemma_sum_grows(all, i + 1);
                            }
                            return Err(e);
                        },
                    }
                },
                FileOutcome::Failed(f) => {
                    d.add_failure(f);
                },
            }
            proof {
                i = i + 1;
            }
        }
        proof {
            assert(all.subrange(0, all.len() as int) =~= all);
        }
        Ok(d)
    }
}

/// Every field of `a` is at most that of `b`.
pub open spec fn at_most(a: Totals, b: Totals) -> bool {
    &&& a.classes <= b.classes
    &&& a.functions <= b.functions
    &&& a.imports <= b.imports
    &&& a.exports <= b.exports
    &&& a.unique_calls <= b.unique_calls
    &&& a.calls <= b.calls
    &&& a.commented <= b.commented
}

/// The sums over the results of a prefix of the outcomes are at most those
/// over all of them.
proof fn lemma_sum_grows(o: Seq<FileOutcome>, i: int)
    requires
        0 <= i <= o.len(),
    ensures
        at_most(sum_statistics(analyzed_of(o.subrange(0, i))), sum_statistics(analyzed_of(o))),
    decreases o.len() - i,
{
    if i < o.len() {
        lemma_sum_grows(o, i + 1);
        let p = o.subrange(0, i + 1);
        assert(p.drop_last() =~= o.subrange(0, i));
        match p.last() {
            FileOutcome::Analyzed(r) => {
                assert(analyzed_of(p).drop_last() =~= analyzed_of(o.subrange(0, i)));
            },
            FileOutcome::Failed(_) => {},
        }
    } else {
        assert(o.subrange(0, i) =~= o);
    }
}

/// The sums fit the summary's counters.
pub open spec fn fits(t: Totals) -> bool {
    &&& t.classes <= u64::MAX
    &&& t.functions <= u64::MAX
    &&& t.imports <= u64::MAX
    &&& t.exports <= u64::MAX
    &&& t.unique_calls <= u64::MAX
    &&& t.calls <= u64::MAX
    &&& t.commented <= u64::MAX
}

/// The results among outcomes, in order.
pub open spec fn analyzed_of(o: Seq<FileOutcome>) -> Seq<AnalysisResult>
    decreases o.len(),
{
    if o.len() == 0 {
        seq![]
    } else {
        match o.last() {
            FileOutcome::Analyzed(r) => analyzed_of(o.drop_last()).push(r),
            FileOutcome::Failed(_) => analyzed_of(o.drop_last()),
        }
    }
}

/// The failures among outcomes, in order.
pub open spec fn failed_of(o: Seq<FileOutcome>) -> Seq<FileFailure>
    decreases o.len(),
{
    if o.len() == 0 {
        seq![]
    } else {
        match o.last() {
            FileOutcome::Analyzed(_) => failed_of(o.drop_last()),
            FileOutcome::Failed(f) => failed_of(o.drop_last()).push(f),
        }
    }
}

/// A directory analysis's summary is the element-wise sum of its files'
/// statistics whatever order the files were processed in: two well-formed
/// analyses that hold the same results, in any order, have equal summaries.
pub proof fn lemma_summary_independent_of_order(d1: DirectoryAnalysis, d2: DirectoryAnalysis)
    requires
        d1.wf(),
        d2.wf(),
        d1.files@.to_multiset() == d2.files@.to_multiset(),
    ensures
        d1.summary == d2.summary,
        matches_totals(d1.summary, sum_statistics(d2.files@)),
{
    lemma_sum_permutation(d1.files@, d2.files@);
}

/// The outcome that analysing one file's text gives.
pub open spec fn outcome_spec(path: Seq<char>, content: Seq<u8>, o: FileOutcome) -> bool {
    let language = path_language(vstd::utf8::encode_utf8(path));
    if language == Language::Unknown {
        (o matches FileOutcome::Failed(f) && f.reason == FailureReason::UnsupportedLanguage)
    } else if content.len() > MAX_CONTENT_LEN {
        (o matches FileOutcome::Failed(f) && f.reason == FailureReason::TooLarge)
    } else {
        (o matches FileOutcome::Analyzed(r) && analyzed_as(r, rules_for(language), content, path))
    }
}

/// Analyses the text of one file with the extractor its extension selects.
/// Never fails: a file of no known language, or too large, is a failure
/// outcome.
pub fn analyze_source(path: &str, content: &str) -> (r: FileOutcome)
    ensures
        outcome_spec(path@, content.spec_bytes(), r),
        r matches FileOutcome::Failed(f) ==> f.path@ == path@,
{
    let language = language_of_path(path);
    match AnalyzerFactory::create_analyzer(language) {
        Err(_) => FileOutcome::Failed(
            FileFailure { path: path.to_owned(), reason: FailureReason::UnsupportedLanguage },
        ),
        Ok(analyzer) => {
            if content.as_bytes().len() > MAX_CONTENT_LEN {
                FileOutcome::Failed(FileFailure { path: path.to_owned(), reason: FailureReason::TooLarge })
            } else {
                FileOutcome::Analyzed(analyzer.analyze(content, path))
            }
        },
    }
}

/// The analysis of a single file: exactly one result, or the error of why
/// there is none.
pub fn analyze_single_file(path: &str, content: &str) -> (r: Result<DirectoryAnalysis, AnalysisError>)
    ensures
        path_language(path.spec_bytes()) == Language::Unknown ==> r == Err::<
            DirectoryAnalysis,
            AnalysisError,
        >(AnalysisError::UnsupportedLanguage),
        path_language(path.spec_bytes()) != Language::Unknown && content.spec_bytes().len()
            > MAX_CONTENT_LEN ==> r == Err::<DirectoryAnalysis, AnalysisError>(AnalysisError::TooLarge),
        path_language(path.spec_bytes()) != Language::Unknown && content.spec_bytes().len()
            <= MAX_CONTENT_LEN ==> (r matches Ok(d) && d.wf() && d.files@.len() == 1 && d.failures@.len() == 0
            && analyzed_as(d.files@[0], rules_for(path_language(path.spec_bytes())), content.spec_bytes(), path@)),
{
    match analyze_source(path, content) {
        FileOutcome::Failed(f) => {
            if f.reason == FailureReason::UnsupportedLanguage {
                Err(AnalysisError::UnsupportedLanguage)
            } else {
                Err(AnalysisError::TooLarge)
            }
        },
        FileOutcome::Analyzed(result) => {
            let mut d = DirectoryAnalysis::new(path.to_owned());
            let ghost res = result;
            proof {
                assert(sum_statistics(seq![res]) == plus(sum_statistics(seq![]), res.statistics)) by {
                    assert(seq![res].drop_last() =~= seq![]);
                }
            }
            match d.add_result(result) {
                Ok(()) => {
                    proof {
                        assert(d.files@ =~= seq![res]);
                    }
                    Ok(d)
                },
                Err(e) => Err(e),
            }
        },
    }
}

} // verus!
