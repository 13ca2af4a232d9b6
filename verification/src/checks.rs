//! The diagnostic checks, and the report on them.
use vstd::prelude::*;
use vstd::string::*;

use crate::{number, text};

pub mod actions_check;
pub mod git_check;
pub mod internet_check;
pub mod nodejs_check;

verus! {

/// The result of a check.
#[derive(Debug)]
pub struct CheckResult {
    pub name: String,
    pub description: String,
    pub passed: bool,
    pub detail: Option<String>,
    /// Where the check is documented.
    pub doc_url: Option<String>,
}

/// The result of a check.
pub struct CheckView {
    pub name: Seq<char>,
    pub description: Seq<char>,
    pub passed: bool,
    pub detail: Option<Seq<char>>,
    pub doc_url: Option<Seq<char>>,
}

impl CheckResult {
    pub open spec fn view(&self) -> CheckView {
        CheckView {
            name: self.name@,
            description: self.description@,
            passed: self.passed,
            detail: text::view_option(self.detail),
            doc_url: text::view_option(self.doc_url),
        }
    }

    /// A check that passed.
    pub fn pass(name: &str, description: &str) -> (r: Self)
        ensures
            r@ == (CheckView {
                name: name@,
                description: description@,
                passed: true,
                detail: None,
                doc_url: None,
            }),
    {
        CheckResult {
            name: name.to_owned(),
            description: description.to_owned(),
            passed: true,
            detail: None,
            doc_url: None,
        }
    }

    /// A check that failed.
    pub fn fail(name: &str, description: &str, detail: &str) -> (r: Self)
        ensures
            r@ == (CheckView {
                name: name@,
                description: description@,
                passed: false,
                detail: Some(detail@),
                doc_url: None,
            }),
    {
        CheckResult {
            name: name.to_owned(),
            description: description.to_owned(),
            passed: false,
            detail: Some(detail.to_owned()),
            doc_url: None,
        }
    }

    /// The same result, with the place of its documentation.
    pub fn with_doc_url(self, url: &str) -> (r: Self)
        ensures
            r@ == (CheckView { doc_url: Some(url@), ..self@ }),
    {
        CheckResult {
            name: self.name,
            description: self.description,
            passed: self.passed,
            detail: self.detail,
            doc_url: Some(url.to_owned()),
        }
    }

    /// The same result, with a detail.
    pub fn with_detail(self, detail: &str) -> (r: Self)
        ensures
            r@ == (CheckView { detail: Some(detail@), ..self@ }),
    {
        CheckResult {
            name: self.name,
            description: self.description,
            passed: self.passed,
            detail: Some(detail.to_owned()),
            doc_url: self.doc_url,
        }
    }
}

/// What a check that finds no fault, or one fault, results in.
pub open spec fn verdict(
    name: Seq<char>,
    description: Seq<char>,
    fault: Option<Seq<char>>,
    doc_url: Seq<char>,
) -> CheckView {
    CheckView { name, description, passed: fault is None, detail: fault, doc_url: Some(doc_url) }
}

/// What came of an HTTP request.
#[derive(Debug)]
pub enum HttpAnswer {
    /// There was no answer, for this reason.
    Failed(String),
    /// The status of the answer, as a number and as text.
    Status(u16, String),
}

/// What came of running a program.
#[derive(Debug)]
pub enum ProgramRun {
    /// It did not start, for this reason.
    NotStarted(String),
    /// It failed.
    Failed(ProgramFailure),
    /// It succeeded and wrote this.
    Succeeded(String),
}

/// How a program failed.
#[derive(Debug)]
pub struct ProgramFailure {
    /// Its exit code, where it has one.
    pub code: Option<i32>,
    /// Its exit status, as text.
    pub status: String,
    /// What it wrote of its errors.
    pub stderr: String,
}

// ---------------------------------------------------------------------------
// The report
// ---------------------------------------------------------------------------

/// The results, by what they say.
pub open spec fn result_views(results: Seq<CheckResult>) -> Seq<CheckView> {
    results.map_values(|r: CheckResult| r@)
}

/// How many checks passed.
pub open spec fn passed_count(results: Seq<CheckView>) -> int
    decreases results.len(),
{
    if results.len() == 0 {
        0
    } else {
        passed_count(results.drop_last()) + if results.last().passed {
            1int
        } else {
            0int
        }
    }
}

/// Every check passed.
pub open spec fn all_pass(results: Seq<CheckView>) -> bool {
    forall|i: int| 0 <= i < results.len() ==> (#[trigger] results[i]).passed
}

/// The part of the report on one check.
pub open spec fn report_entry(r: CheckView) -> Seq<char> {
    "  ["@ + (if r.passed {
        "Pass"@
    } else {
        "Fail"@
    }) + "] "@ + r.name + "\n"@ + (if r.description.len() > 0 {
        "        "@ + r.description + "\n"@
    } else {
        Seq::empty()
    }) + (match r.detail {
        Some(detail) => "        "@ + detail + "\n"@,
        None => Seq::empty(),
    }) + "\n"@
}

/// The parts of the report on the checks, one after the other.
pub open spec fn report_entries(results: Seq<CheckView>) -> Seq<char>
    decreases results.len(),
{
    if results.len() == 0 {
        Seq::empty()
    } else {
        report_entries(results.drop_last()) + report_entry(results.last())
    }
}

pub const REPORT_HEAD: &'static str = "\n----------------------------------------------\n  Runner Diagnostic Checks\n----------------------------------------------\n\n";

pub const REPORT_TAIL: &'static str = "----------------------------------------------\n";

/// The report on all checks.
pub open spec fn report(results: Seq<CheckView>) -> Seq<char> {
    REPORT_HEAD@ + report_entries(results) + "  "@ + number::decimal(passed_count(results))
        + " passed, "@ + number::decimal(results.len() - passed_count(results)) + " failed\n"@
        + REPORT_TAIL@
}

fn write_entry(r: &CheckResult) -> (s: String)
    ensures
        s@ == report_entry(r@),
{
    let mut s = "  [".to_owned();
    if r.passed {
        s.append("Pass");
    } else {
        s.append("Fail");
    }
    s.append("] ");
    s.append(r.name.as_str());
    s.append("\n");
    if !text::is_empty(r.description.as_str()) {
        let mut line = "        ".to_owned();
        line.append(r.description.as_str());
        line.append("\n");
        s.append(line.as_str());
    }
    if let Some(detail) = &r.detail {
        let mut line = "        ".to_owned();
        line.append(detail.as_str());
        line.append("\n");
        s.append(line.as_str());
    }
    s.append("\n");
    assert(s@ =~= report_entry(r@));
    s
}

/// The report on all checks.
pub fn format_check_results(results: &[CheckResult]) -> (r: String)
    ensures
        r@ == report(result_views(results@)),
{
    let ghost all = result_views(results@);
    let mut out = REPORT_HEAD.to_owned();
    let mut entries = String::new();
    let mut passed: u64 = 0;
    let mut failed: u64 = 0;
    let n: usize = results.len();
    let mut i: usize = 0;
    while i < n
        invariant
            i <= n == results@.len(),
            all == result_views(results@),
            passed + failed == i,
            passed == passed_count(all.take(i as int)),
            entries@ == report_entries(all.take(i as int)),
        decreases n - i,
    {
        assert(all.take(i + 1).drop_last() == all.take(i as int));
        assert(all.take(i + 1).last() == results@[i as int]@);
        entries.append(write_entry(&results[i]).as_str());
        if results[i].passed {
            passed = passed + 1;
        } else {
            failed = failed + 1;
        }
        i = i + 1;
    }
    assert(all.take(all.len() as int) == all);
    out.append(entries.as_str());
    out.append("  ");
    out.append(number::u64_text(passed).as_str());
    out.append(" passed, ");
    out.append(number::u64_text(failed).as_str());
    out.append(" failed\n");
    out.append(REPORT_TAIL);
    out
}

/// Whether every check passed.
pub fn all_passed(results: &[CheckResult]) -> (r: bool)
    ensures
        r == all_pass(result_views(results@)),
{
    let ghost all = result_views(results@);
    let n: usize = results.len();
    let mut i: usize = 0;
    while i < n
        invariant
            i <= n == results@.len(),
            all == result_views(results@),
            forall|j: int| 0 <= j < i ==> (#[trigger] all[j]).passed,
        decreases n - i,
    {
        assert(all[i as int] == results@[i as int]@);
        if !results[i].passed {
            return false;
        }
        i = i + 1;
    }
    true
}

/// The server that the checks are run against: the one that is given, else the one that the
/// runner is configured for, else the public one.
pub fn checked_server(url: &Option<String>, configured: &Option<String>) -> (r: String)
    ensures
        r@ == match (text::view_option(*url), text::view_option(*configured)) {
            (Some(given), _) => given,
            (None, Some(server)) => server,
            (None, None) => "https://github.com"@,
        },
{
    match (url, configured) {
        (Some(given), _) => given.clone(),
        (None, Some(server)) => server.clone(),
        (None, None) => "https://github.com".to_owned(),
    }
}

/// The results of all checks, in the order in which the checks are run.
pub fn run_all_checks(
    internet: CheckResult,
    actions: CheckResult,
    git: CheckResult,
    node: CheckResult,
) -> (r: Vec<CheckResult>)
    ensures
        r@ == seq![internet, actions, git, node],
{
    let mut results: Vec<CheckResult> = Vec::new();
    results.push(internet);
    results.push(actions);
    results.push(git);
    results.push(node);
    assert(results@ =~= seq![internet, actions, git, node]);
    results
}

/// All checks passed exactly when none is reported as failed.
pub proof fn law_none_failed(results: Seq<CheckView>)
    ensures
        0 <= passed_count(results) <= results.len(),
        all_pass(results) <==> passed_count(results) == results.len(),
    decreases results.len(),
{
    if results.len() > 0 {
        let front = results.drop_last();
        law_none_failed(front);
        if all_pass(results) {
            assert forall|i: int| 0 <= i < front.len() implies (#[trigger] front[i]).passed by {
                assert(results[i].passed);
            }
            assert(results[results.len() - 1].passed);
        } else {
            let i = choose|i: int| 0 <= i < results.len() && !(#[trigger] results[i]).passed;
            if i < front.len() {
                assert(!front[i].passed);
            }
        }
    }
}

/// Each check counts as passed or failed by itself, wherever it stands among the others.
pub proof fn law_each_check_counts(before: Seq<CheckView>, check: CheckView, after: Seq<CheckView>)
    ensures
        passed_count(before + seq![check] + after) == passed_count(before) + passed_count(after)
            + if check.passed {
            1int
        } else {
            0int
        },
    decreases after.len(),
{
    let all = before + seq![check] + after;
    if after.len() > 0 {
        assert(all.drop_last() == before + seq![check] + after.drop_last());
        assert(all.last() == after.last());
        law_each_check_counts(before, check, after.drop_last());
    } else {
        assert(all.drop_last() == before);
        assert(all.last() == check);
    }
}

/// A check passed if and only if no fault was found, and a fault that was found is told.
pub proof fn law_fault_fails_check(
    name: Seq<char>,
    description: Seq<char>,
    fault: Seq<char>,
    doc_url: Seq<char>,
)
    ensures
        ({
            let good = verdict(name, description, None, doc_url);
            let bad = verdict(name, description, Some(fault), doc_url);
            &&& good.passed && good.detail is None
            &&& !bad.passed && bad.detail == Some(fault)
            &&& good.name == name && bad.name == name
            &&& good.description == description && bad.description == description
            &&& good.doc_url == Some(doc_url) && bad.doc_url == Some(doc_url)
        }),
{
}

/// The entry of a check tells whether it passed, which it is, and what is to be said of it.
pub proof fn law_entry_tells_check(r: CheckView)
    ensures
        r.passed ==> text::has_prefix(report_entry(r), "  ["@ + "Pass"@ + "] "@ + r.name + "\n"@),
        !r.passed ==> text::has_prefix(report_entry(r), "  ["@ + "Fail"@ + "] "@ + r.name + "\n"@),
        r.detail matches Some(detail) ==> text::has_suffix(
            report_entry(r),
            "        "@ + detail + "\n"@ + "\n"@,
        ),
        r.description.len() > 0 && r.detail is None ==> text::has_suffix(
            report_entry(r),
            "        "@ + r.description + "\n"@ + "\n"@,
        ),
        r.description.len() > 0 && r.detail is Some ==> text::has_suffix(
            report_entry(r),
            "        "@ + r.description + "\n"@ + ("        "@ + r.detail->0 + "\n"@ + "\n"@),
        ),
{
    let head = "  ["@ + (if r.passed {
        "Pass"@
    } else {
        "Fail"@
    }) + "] "@ + r.name + "\n"@;
    let described = if r.description.len() > 0 {
        "        "@ + r.description + "\n"@
    } else {
        Seq::empty()
    };
    let detailed = match r.detail {
        Some(detail) => "        "@ + detail + "\n"@,
        None => Seq::empty(),
    };
    let all = report_entry(r);
    assert(all == head + described + detailed + "\n"@);
    assert(all.subrange(0, head.len() as int) =~= head);
    let last = detailed + "\n"@;
    assert(all.subrange(all.len() - last.len(), all.len() as int) =~= last);
    let both = described + last;
    assert(all.subrange(all.len() - both.len(), all.len() as int) =~= both);
    if r.detail is None {
        assert(last =~= "\n"@);
    }
}

/// The report holds the entry of every check, in the order of the checks, and ends with how
/// many passed and how many failed.
pub proof fn law_report_tells_all(before: Seq<CheckView>, check: CheckView, after: Seq<CheckView>)
    ensures
        ({
            let all = before + seq![check] + after;
            let passed = passed_count(all);
            &&& report_entries(all) == report_entries(before) + report_entry(check)
                + report_entries(after)
            &&& text::has_suffix(
                report(all),
                "  "@ + number::decimal(passed) + " passed, "@ + number::decimal(
                    all.len() - passed,
                ) + " failed\n"@ + REPORT_TAIL@,
            )
            &&& text::has_prefix(report(all), REPORT_HEAD@ + report_entries(all))
        }),
{
    let all = before + seq![check] + after;
    lemma_entries_add_up(before, check, after);
    let passed = passed_count(all);
    let head = REPORT_HEAD@ + report_entries(all);
    let tail = "  "@ + number::decimal(passed) + " passed, "@ + number::decimal(all.len() - passed)
        + " failed\n"@ + REPORT_TAIL@;
    let whole = report(all);
    assert(whole == head + tail);
    assert(whole.subrange(0, head.len() as int) =~= head);
    assert(whole.subrange(whole.len() - tail.len(), whole.len() as int) =~= tail);
}

proof fn lemma_entries_add_up(before: Seq<CheckView>, check: CheckView, after: Seq<CheckView>)
    ensures
        report_entries(before + seq![check] + after) == report_entries(before) + report_entry(check)
            + report_entries(after),
    decreases after.len(),
{
    let all = before + seq![check] + after;
    if after.len() > 0 {
        assert(all.drop_last() == before + seq![check] + after.drop_last());
        assert(all.last() == after.last());
        lemma_entries_add_up(before, check, after.drop_last());
        assert(report_entries(all) =~= report_entries(before) + report_entry(check)
            + report_entries(after));
    } else {
        assert(all.drop_last() == before);
        assert(all.last() == check);
        assert(report_entries(after) =~= Seq::<char>::empty());
    }
}

} // verus!
