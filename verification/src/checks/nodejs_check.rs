//! Whether Node.js can be run.
use vstd::prelude::*;
use vstd::string::*;

use crate::checks::{CheckResult, ProgramRun};
use crate::{checks, text};

verus! {

pub const CHECK_NAME: &'static str = "Node.js";

pub const CHECK_DESCRIPTION: &'static str = "Check if Node.js is installed and accessible for running actions";

pub const DOC_URL: &'static str = "https://github.com/actions/runner/blob/main/docs/checks/nodejs.md";

/// The versions that come with the runner.
pub open spec fn expected() -> Seq<Seq<char>> {
    seq!["node16"@, "node20"@]
}

/// What running `path` shows: its version, or the fault.
pub open spec fn version_of(path: Seq<char>, run: ProgramRun) -> Result<Seq<char>, Seq<char>> {
    match run {
        ProgramRun::NotStarted(e) => Err("Failed to run "@ + path + ": "@ + e@),
        ProgramRun::Failed(f) => Err(path + " --version failed with status "@ + f.status@),
        ProgramRun::Succeeded(out) => Ok(text::trimmed(out@)),
    }
}

/// What is found of one of the versions that come with the runner.
#[derive(Debug)]
pub enum NodeProbe {
    /// There is nothing at this path.
    Missing(String),
    /// The version that it reports, or why it reports none.
    Present(Result<String, String>),
}

/// What is told of the versions that could be run.
pub open spec fn found_versions(names: Seq<Seq<char>>, probes: Seq<NodeProbe>) -> Seq<Seq<char>>
    decreases probes.len(),
{
    if probes.len() == 0 || names.len() != probes.len() {
        Seq::empty()
    } else {
        let before = found_versions(names.drop_last(), probes.drop_last());
        match probes.last() {
            NodeProbe::Present(Ok(version)) => before.push(names.last() + ": "@ + version@),
            _ => before,
        }
    }
}

/// What is told of the versions that could not be run.
pub open spec fn missing_versions(names: Seq<Seq<char>>, probes: Seq<NodeProbe>) -> Seq<Seq<char>>
    decreases probes.len(),
{
    if probes.len() == 0 || names.len() != probes.len() {
        Seq::empty()
    } else {
        let before = missing_versions(names.drop_last(), probes.drop_last());
        match probes.last() {
            NodeProbe::Missing(path) => before.push(names.last() + ": not found at "@ + path@),
            NodeProbe::Present(Err(e)) => before.push(
                names.last() + ": exists but failed to get version: "@ + e@,
            ),
            NodeProbe::Present(Ok(_)) => before,
        }
    }
}

/// What is told of the versions, where one can be run, else the fault. The system's version
/// counts only where no version that comes with the runner can be run.
pub open spec fn node_verdict(
    bundled: Seq<Seq<char>>,
    missing: Seq<Seq<char>>,
    system: Option<Seq<char>>,
) -> Result<Seq<char>, Seq<char>> {
    let found = if bundled.len() == 0 && system is Some {
        seq!["system: "@ + system->0]
    } else {
        bundled
    };
    if found.len() > 0 {
        Ok(
            "Found: "@ + text::joined(found, ", "@) + (if missing.len() > 0 {
                " (missing: "@ + text::joined(missing, ", "@) + ")"@
            } else {
                Seq::empty()
            }),
        )
    } else if missing.len() > 0 {
        Err("Node.js not available: "@ + text::joined(missing, "; "@))
    } else {
        Err("Node.js not found. Neither bundled nor system Node.js is available."@)
    }
}

fn sort_probes(names: &Vec<String>, probes: &Vec<NodeProbe>) -> (r: (Vec<String>, Vec<String>))
    requires
        names@.len() == probes@.len(),
    ensures
        text::views(r.0@) == found_versions(text::views(names@), probes@),
        text::views(r.1@) == missing_versions(text::views(names@), probes@),
{
    let ghost all = text::views(names@);
    let mut found: Vec<String> = Vec::new();
    let mut missing: Vec<String> = Vec::new();
    let mut i: usize = 0;
    assert(text::views(found@) =~= Seq::empty());
    assert(text::views(missing@) =~= Seq::empty());
    while i < probes.len()
        invariant
            i <= probes@.len() == names@.len(),
            all == text::views(names@),
            text::views(found@) == found_versions(all.take(i as int), probes@.take(i as int)),
            text::views(missing@) == missing_versions(all.take(i as int), probes@.take(i as int)),
        decreases probes@.len() - i,
    {
        let ghost found_before = found@;
        let ghost missing_before = missing@;
        assert(all.take(i + 1).drop_last() == all.take(i as int));
        assert(probes@.take(i + 1).drop_last() == probes@.take(i as int));
        assert(all.take(i + 1).last() == names@[i as int]@);
        let mut s = names[i].clone();
        match &probes[i] {
            NodeProbe::Missing(path) => {
                s.append(": not found at ");
                s.append(path.as_str());
                missing.push(s);
                assert(text::views(missing@) =~= text::views(missing_before).push(s@));
            },
            NodeProbe::Present(Ok(version)) => {
                s.append(": ");
                s.append(version.as_str());
                found.push(s);
                assert(text::views(found@) =~= text::views(found_before).push(s@));
            },
            NodeProbe::Present(Err(e)) => {
                s.append(": exists but failed to get version: ");
                s.append(e.as_str());
                missing.push(s);
                assert(text::views(missing@) =~= text::views(missing_before).push(s@));
            },
        }
        i = i + 1;
    }
    assert(all.take(all.len() as int) == all);
    assert(probes@.take(probes@.len() as int) == probes@);
    (found, missing)
}

fn first_names(count: usize) -> (r: Vec<String>)
    requires
        count <= expected().len(),
    ensures
        text::views(r@) == expected().take(count as int),
{
    let mut v: Vec<String> = Vec::new();
    if count > 0 {
        v.push("node16".to_owned());
    }
    if count > 1 {
        v.push("node20".to_owned());
    }
    assert(text::views(v@) =~= expected().take(count as int));
    v
}

/// Checks that Node.js can be run.
pub struct NodeJsCheck;

impl NodeJsCheck {
    /// The versions that come with the runner.
    pub fn expected_versions() -> (r: Vec<String>)
        ensures
            text::views(r@) == expected(),
    {
        let r = first_names(2);
        assert(expected().take(2) =~= expected());
        r
    }

    /// What running the program shows: its version, or the fault.
    pub fn get_node_version(node_path: &str, run: &ProgramRun) -> (r: Result<String, String>)
        ensures
            text::view_result(r) == version_of(node_path@, *run),
    {
        match run {
            ProgramRun::NotStarted(e) => {
                let mut s = "Failed to run ".to_owned();
                s.append(node_path);
                s.append(": ");
                s.append(e.as_str());
                Err(s)
            },
            ProgramRun::Failed(f) => {
                let mut s = node_path.to_owned();
                s.append(" --version failed with status ");
                s.append(f.status.as_str());
                Err(s)
            },
            ProgramRun::Succeeded(out) => Ok(text::trim(out.as_str())),
        }
    }

    /// Whether the system's version is to be asked for: no version that comes with the runner
    /// can be run.
    pub fn needs_system_node(probes: &Vec<NodeProbe>) -> (r: bool)
        requires
            probes@.len() <= expected().len(),
        ensures
            r == (found_versions(expected().take(probes@.len() as int), probes@).len() == 0),
    {
        let names = first_names(probes.len());
        assert(text::views(names@).len() == names@.len());
        let (found, _) = sort_probes(&names, probes);
        assert(text::views(found@).len() == found@.len());
        found.len() == 0
    }

    /// What is told of the versions, or the fault. `probes` tells of the first versions that
    /// come with the runner, and `system` is the system's version if it can be run.
    pub fn check_node(probes: &Vec<NodeProbe>, system: &Option<String>) -> (r: Result<
        String,
        String,
    >)
        requires
            probes@.len() <= expected().len(),
        ensures
            text::view_result(r) == ({
                let names = expected().take(probes@.len() as int);
                node_verdict(
                    found_versions(names, probes@),
                    missing_versions(names, probes@),
                    text::view_option(*system),
                )
            }),
    {
        let names = first_names(probes.len());
        assert(text::views(names@).len() == names@.len());
        let (bundled, missing) = sort_probes(&names, probes);
        assert(text::views(bundled@).len() == bundled@.len());
        assert(text::views(missing@).len() == missing@.len());
        let mut found = bundled;
        if found.len() == 0 {
            if let Some(version) = system {
                let mut s = "system: ".to_owned();
                s.append(version.as_str());
                found.push(s);
                assert(text::views(found@) =~= seq![s@]);
            }
        }
        assert(text::views(found@).len() == found@.len());
        if found.len() == 0 {
            if missing.len() == 0 {
                Err(
                    "Node.js not found. Neither bundled nor system Node.js is available.".to_owned(),
                )
            } else {
                let mut s = "Node.js not available: ".to_owned();
                s.append(text::join(&missing, "; ").as_str());
                Err(s)
            }
        } else {
            let mut s = "Found: ".to_owned();
            s.append(text::join(&found, ", ").as_str());
            let ghost told = s@;
            if missing.len() > 0 {
                let mut note = " (missing: ".to_owned();
                note.append(text::join(&missing, ", ").as_str());
                note.append(")");
                s.append(note.as_str());
            } else {
                assert(told + Seq::<char>::empty() =~= told);
            }
            Ok(s)
        }
    }

    /// The check's result, given what is told of the versions.
    pub fn run_check(result: &Result<String, String>) -> (r: CheckResult)
        ensures
            r@ == (checks::CheckView {
                name: CHECK_NAME@,
                description: CHECK_DESCRIPTION@,
                passed: result is Ok,
                detail: Some(
                    match text::view_result(*result) {
                        Ok(detail) => detail,
                        Err(e) => e,
                    },
                ),
                doc_url: Some(DOC_URL@),
            }),
    {
        match result {
            Ok(detail) => CheckResult::pass(CHECK_NAME, CHECK_DESCRIPTION).with_doc_url(
                DOC_URL,
            ).with_detail(detail.as_str()),
            Err(e) => CheckResult::fail(
                CHECK_NAME,
                CHECK_DESCRIPTION,
                e.as_str(),
            ).with_doc_url(DOC_URL),
        }
    }
}

// ---------------------------------------------------------------------------
// Laws
// ---------------------------------------------------------------------------

/// Node is found if and only if it runs and succeeds, and its version is what it writes,
/// without the white space around it.
pub proof fn law_node_is_found(
    path: Seq<char>,
    run: ProgramRun,
    before: Seq<char>,
    version: Seq<char>,
    after: Seq<char>,
)
    requires
        text::blank(before),
        text::blank(after),
        version.len() > 0 ==> !text::white_space(version[0]) && !text::white_space(version.last()),
    ensures
        version_of(path, run) is Ok <==> run is Succeeded,
        run matches ProgramRun::Succeeded(out) ==> out@ == before + version + after ==> version_of(
            path,
            run,
        ) == Ok::<Seq<char>, Seq<char>>(version),
{
    text::law_trimmed_drops(before, version, after);
}

/// Every version that comes with the runner is told once: as found, with what it reports, or
/// as missing, with the reason.
pub proof fn law_versions_are_told(names: Seq<Seq<char>>, probes: Seq<NodeProbe>, i: int)
    requires
        names.len() == probes.len(),
        0 <= i < names.len(),
    ensures
        ({
            let found = found_versions(names, probes);
            let missing = missing_versions(names, probes);
            &&& found.len() + missing.len() == names.len()
            &&& match probes[i] {
                NodeProbe::Present(Ok(version)) => found.contains(names[i] + ": "@ + version@),
                NodeProbe::Present(Err(e)) => missing.contains(
                    names[i] + ": exists but failed to get version: "@ + e@,
                ),
                NodeProbe::Missing(path) => missing.contains(names[i] + ": not found at "@ + path@),
            }
        }),
    decreases names.len(),
{
    let found = found_versions(names, probes);
    let missing = missing_versions(names, probes);
    let front_found = found_versions(names.drop_last(), probes.drop_last());
    let front_missing = missing_versions(names.drop_last(), probes.drop_last());
    if i == names.len() - 1 {
        if names.len() > 1 {
            law_versions_are_told(names.drop_last(), probes.drop_last(), 0);
        }
        match probes[i] {
            NodeProbe::Present(Ok(version)) => {
                assert(found[found.len() - 1] == names[i] + ": "@ + version@);
            },
            NodeProbe::Present(Err(e)) => {
                assert(missing[missing.len() - 1] == names[i]
                    + ": exists but failed to get version: "@ + e@);
            },
            NodeProbe::Missing(path) => {
                assert(missing[missing.len() - 1] == names[i] + ": not found at "@ + path@);
            },
        }
    } else {
        law_versions_are_told(names.drop_last(), probes.drop_last(), i);
        assert(names.drop_last()[i] == names[i]);
        assert forall|told: Seq<char>| #[trigger] front_found.contains(told) implies found.contains(
            told,
        ) by {
            let j = choose|j: int| 0 <= j < front_found.len() && front_found[j] == told;
            assert(found[j] == told);
        }
        assert forall|told: Seq<char>| #[trigger]
            front_missing.contains(told) implies missing.contains(told) by {
            let j = choose|j: int| 0 <= j < front_missing.len() && front_missing[j] == told;
            assert(missing[j] == told);
        }
    }
}

/// The check passes if and only if some version can be run; the system's version is told only
/// where none that comes with the runner can be run.
pub proof fn law_some_version_passes(
    bundled: Seq<Seq<char>>,
    missing: Seq<Seq<char>>,
    system: Option<Seq<char>>,
    version: Seq<char>,
)
    ensures
        node_verdict(bundled, missing, system) is Ok <==> bundled.len() > 0 || system is Some,
        bundled.len() > 0 ==> node_verdict(bundled, missing, system) == node_verdict(
            bundled,
            missing,
            None,
        ),
        bundled.len() == 0 ==> node_verdict(bundled, Seq::empty(), Some(version)) == Ok::<
            Seq<char>,
            Seq<char>,
        >("Found: "@ + ("system: "@ + version)),
        bundled.len() > 0 && missing.len() == 0 ==> node_verdict(bundled, missing, system) == Ok::<
            Seq<char>,
            Seq<char>,
        >("Found: "@ + text::joined(bundled, ", "@)),
        bundled.len() > 0 && missing.len() > 0 ==> node_verdict(bundled, missing, system) == Ok::<
            Seq<char>,
            Seq<char>,
        >(
            "Found: "@ + text::joined(bundled, ", "@) + (" (missing: "@ + text::joined(
                missing,
                ", "@,
            ) + ")"@),
        ),
{
    let told = "system: "@ + version;
    assert(text::joined(seq![told], ", "@) == told);
    assert("Found: "@ + told + Seq::<char>::empty() =~= "Found: "@ + told);
    assert("Found: "@ + text::joined(bundled, ", "@) + Seq::<char>::empty() =~= "Found: "@
        + text::joined(bundled, ", "@));
}

} // verus!
