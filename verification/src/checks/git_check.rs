//! Whether Git can be run.
use vstd::prelude::*;
use vstd::string::*;

use crate::checks::{CheckResult, ProgramRun};
use crate::{checks, number, text};

verus! {

pub const CHECK_NAME: &'static str = "Git";

pub const CHECK_DESCRIPTION: &'static str = "Check if git is installed and accessible";

pub const LFS_CHECK_NAME: &'static str = "Git LFS";

pub const LFS_CHECK_DESCRIPTION: &'static str = "Check if git-lfs is installed";

pub const DOC_URL: &'static str = "https://github.com/actions/runner/blob/main/docs/checks/git.md";

/// What running `git_path` shows: its version, or the fault.
pub open spec fn git_version(git_path: Seq<char>, run: ProgramRun) -> Result<Seq<char>, Seq<char>> {
    match run {
        ProgramRun::NotStarted(e) => Err(
            "Failed to execute '"@ + git_path + "': "@ + e@
                + ". Is git installed and on the PATH?"@,
        ),
        ProgramRun::Failed(f) => Err(
            "git --version exited with code "@ + number::signed_decimal(
                match f.code {
                    Some(code) => code as int,
                    None => -1,
                },
            ) + ": "@ + f.stderr@,
        ),
        ProgramRun::Succeeded(out) => Ok(text::trimmed(out@)),
    }
}

/// Checks that Git can be run.
pub struct GitCheck;

impl GitCheck {
    /// The program to run: the one that comes with the runner, which has one of two paths,
    /// else the system's.
    pub fn git_program(unix_path: &Option<String>, windows_path: &Option<String>) -> (r: String)
        ensures
            r@ == match (text::view_option(*unix_path), text::view_option(*windows_path)) {
                (Some(p), _) => p,
                (None, Some(p)) => p,
                (None, None) => "git"@,
            },
    {
        match (unix_path, windows_path) {
            (Some(p), _) => p.clone(),
            (None, Some(p)) => p.clone(),
            (None, None) => "git".to_owned(),
        }
    }

    /// What running the program shows: its version, or the fault.
    pub fn check_git(git_path: &str, run: &ProgramRun) -> (r: Result<String, String>)
        ensures
            text::view_result(r) == git_version(git_path@, *run),
    {
        match run {
            ProgramRun::NotStarted(e) => {
                let mut s = "Failed to execute '".to_owned();
                s.append(git_path);
                s.append("': ");
                s.append(e.as_str());
                s.append(". Is git installed and on the PATH?");
                Err(s)
            },
            ProgramRun::Failed(f) => {
                let code: i32 = match f.code {
                    Some(code) => code,
                    None => -1,
                };
                let mut s = "git --version exited with code ".to_owned();
                s.append(number::i64_text(code as i64).as_str());
                s.append(": ");
                s.append(f.stderr.as_str());
                Err(s)
            },
            ProgramRun::Succeeded(out) => Ok(text::trim(out.as_str())),
        }
    }

    /// The check's result.
    pub fn run_check(git_path: &str, run: &ProgramRun) -> (r: CheckResult)
        ensures
            r@ == checks::verdict(
                CHECK_NAME@,
                CHECK_DESCRIPTION@,
                match git_version(git_path@, *run) {
                    Ok(_) => None,
                    Err(e) => Some(e),
                },
                DOC_URL@,
            ),
    {
        match GitCheck::check_git(git_path, run) {
            Ok(_) => CheckResult::pass(CHECK_NAME, CHECK_DESCRIPTION).with_doc_url(DOC_URL),
            Err(e) => CheckResult::fail(
                CHECK_NAME,
                CHECK_DESCRIPTION,
                e.as_str(),
            ).with_doc_url(DOC_URL),
        }
    }
}

/// Checks that Git LFS can be run, given what came of running it.
pub fn check_git_lfs(run: &ProgramRun) -> (r: CheckResult)
    ensures
        r@ == checks::verdict(
            LFS_CHECK_NAME@,
            LFS_CHECK_DESCRIPTION@,
            match *run {
                ProgramRun::NotStarted(e) => Some("git-lfs not found: "@ + e@),
                ProgramRun::Failed(f) => Some("git lfs version failed: "@ + f.stderr@),
                ProgramRun::Succeeded(_) => None,
            },
            DOC_URL@,
        ),
{
    match run {
        ProgramRun::NotStarted(e) => {
            let mut s = "git-lfs not found: ".to_owned();
            s.append(e.as_str());
            CheckResult::fail(LFS_CHECK_NAME, LFS_CHECK_DESCRIPTION, s.as_str()).with_doc_url(
                DOC_URL,
            )
        },
        ProgramRun::Failed(f) => {
            let mut s = "git lfs version failed: ".to_owned();
            s.append(f.stderr.as_str());
            CheckResult::fail(LFS_CHECK_NAME, LFS_CHECK_DESCRIPTION, s.as_str()).with_doc_url(
                DOC_URL,
            )
        },
        ProgramRun::Succeeded(_) => CheckResult::pass(
            LFS_CHECK_NAME,
            LFS_CHECK_DESCRIPTION,
        ).with_doc_url(DOC_URL),
    }
}

/// Git is found if and only if it runs and succeeds, and its version is what it writes,
/// without the white space around it.
pub proof fn law_git_is_found(
    git_path: Seq<char>,
    run: ProgramRun,
    before: Seq<char>,
    version: Seq<char>,
    after: Seq<char>,
)
    requires
        text::blank(before),
        text::blank(after),
        version.len() > 0 ==> !text::white_space(version[0]) && !text::white_space(version.last()),
    ensures
        git_version(git_path, run) is Ok <==> run is Succeeded,
        run matches ProgramRun::Succeeded(out) ==> out@ == before + version + after ==> git_version(
            git_path,
            run,
        ) == Ok::<Seq<char>, Seq<char>>(version),
        run matches ProgramRun::NotStarted(e) ==> git_version(git_path, run) == Err::<
            Seq<char>,
            Seq<char>,
        >(
            "Failed to execute '"@ + git_path + "': "@ + e@
                + ". Is git installed and on the PATH?"@,
        ),
{
    text::law_trimmed_drops(before, version, after);
}

} // verus!
