//! Whether the Actions service can be reached.
use vstd::prelude::*;
use vstd::string::*;

use crate::checks::{CheckResult, HttpAnswer};
use crate::url_parts::UrlParts;
use crate::{checks, polling, text, url_parts};

verus! {

pub const CHECK_NAME: &'static str = "Actions Connection";

pub const CHECK_DESCRIPTION: &'static str = "Check connectivity to GitHub Actions service";

pub const DNS_CHECK_NAME: &'static str = "Actions DNS";

pub const DNS_CHECK_DESCRIPTION: &'static str = "DNS resolution for GitHub Actions domains";

pub const DOC_URL: &'static str = "https://github.com/actions/runner/blob/main/docs/checks/actions.md";

/// The API of the public server.
pub const PUBLIC_API: &'static str = "https://api.github.com/";

/// The path of the API on a server of one's own.
pub const API_PATH: &'static str = "/api/v3";

/// The host is the public server or below it.
pub open spec fn public_host(host: Option<Seq<char>>) -> bool {
    host is Some && (host->0 == "github.com"@ || text::has_suffix(host->0, ".github.com"@))
}

/// The URL of the API: of the public server where `parsed` names that, else `own`.
pub open spec fn api_of(
    parsed: Result<url_parts::UrlView, Seq<char>>,
    own: Result<Seq<char>, Seq<char>>,
) -> Result<Seq<char>, Seq<char>> {
    match parsed {
        Err(e) => Err(e),
        Ok(url) => if public_host(url.1) {
            Ok(PUBLIC_API@)
        } else {
            own
        },
    }
}

fn is_public(host: &Option<String>) -> (r: bool)
    ensures
        r == public_host(text::view_option(*host)),
{
    proof {
        reveal_strlit(".github.com");
    }
    match host {
        Some(host) => text::same(host.as_str(), "github.com") || text::ends_with(
            host.as_str(),
            ".github.com",
        ),
        None => false,
    }
}

/// The status shows that the server was reached: it served the request, or refused it for
/// want of credentials.
pub open spec fn reached(status: u16) -> bool {
    polling::success_status(status) || status == 401 || status == 403
}

/// What a request for the API shows: what is told of it, or the fault.
pub open spec fn connectivity(api_url: Seq<char>, answer: HttpAnswer) -> Result<
    Seq<char>,
    Seq<char>,
> {
    match answer {
        HttpAnswer::Failed(e) => Err(e@),
        HttpAnswer::Status(status, status_text) => if reached(status) {
            Ok("Successfully connected to "@ + api_url + " (status: "@ + status_text@ + ")"@)
        } else {
            Err("Unexpected status code "@ + status_text@ + " from "@ + api_url)
        },
    }
}

/// The domains that the service needs.
pub open spec fn domains() -> Seq<Seq<char>> {
    seq![
        "github.com"@,
        "api.github.com"@,
        "codeload.github.com"@,
        "ghcr.io"@,
        "pipelines.actions.githubusercontent.com"@,
        "results-receiver.actions.githubusercontent.com"@,
    ]
}

/// What is told of the names that could not be resolved. `errors` has an entry for each name,
/// with the error if there was one.
pub open spec fn dns_failures(names: Seq<Seq<char>>, errors: Seq<Option<String>>) -> Seq<
    Seq<char>,
>
    decreases errors.len(),
{
    if errors.len() == 0 || names.len() != errors.len() {
        Seq::empty()
    } else {
        let before = dns_failures(names.drop_last(), errors.drop_last());
        match errors.last() {
            Some(e) => before.push(names.last() + ": "@ + e@),
            None => before,
        }
    }
}

/// The domains that the service needs.
pub fn actions_domains() -> (r: Vec<String>)
    ensures
        text::views(r@) == domains(),
{
    let mut v: Vec<String> = Vec::new();
    v.push("github.com".to_owned());
    v.push("api.github.com".to_owned());
    v.push("codeload.github.com".to_owned());
    v.push("ghcr.io".to_owned());
    v.push("pipelines.actions.githubusercontent.com".to_owned());
    v.push("results-receiver.actions.githubusercontent.com".to_owned());
    assert(text::views(v@) =~= domains());
    v
}

/// Checks the connection to the service.
pub struct ActionsCheck;

impl ActionsCheck {
    /// The URL of the API, given the parts of the server's URL and the URL with the API's
    /// path in place of its own.
    pub fn choose_api_url(parsed: &Result<UrlParts, String>, own: &Result<String, String>) -> (r:
        Result<String, String>)
        ensures
            text::view_result(r) == api_of(url_parts::view_parsed(*parsed), text::view_result(*own)),
    {
        match parsed {
            Err(e) => Err(e.clone()),
            Ok(url) => if is_public(&url.host) {
                Ok(PUBLIC_API.to_owned())
            } else {
                match own {
                    Ok(s) => Ok(s.clone()),
                    Err(e) => Err(e.clone()),
                }
            },
        }
    }

    /// The URL of a server's API, or what is wrong with the server's URL.
    pub fn get_api_url(server_url: &str) -> (r: Result<String, String>)
        ensures
            text::view_result(r) == api_of(
                url_parts::parsed_url(server_url@),
                url_parts::url_with_path(server_url@, API_PATH@),
            ),
    {
        let parsed = url_parts::parse(server_url);
        let own = url_parts::with_path(server_url, API_PATH);
        ActionsCheck::choose_api_url(&parsed, &own)
    }

    /// What a request for the API shows.
    pub fn check_connectivity(api_url: &str, answer: &HttpAnswer) -> (r: Result<String, String>)
        ensures
            text::view_result(r) == connectivity(api_url@, *answer),
    {
        match answer {
            HttpAnswer::Failed(e) => Err(e.clone()),
            HttpAnswer::Status(status, status_text) => if polling::is_success(*status) || *status
                == 401 || *status == 403 {
                let mut s = "Successfully connected to ".to_owned();
                s.append(api_url);
                s.append(" (status: ");
                s.append(status_text.as_str());
                s.append(")");
                Ok(s)
            } else {
                let mut s = "Unexpected status code ".to_owned();
                s.append(status_text.as_str());
                s.append(" from ");
                s.append(api_url);
                Err(s)
            },
        }
    }

    /// The check's result, given what the request for the API shows.
    pub fn run_check(server_url: &str, result: &Result<String, String>) -> (r: CheckResult)
        ensures
            r@ == checks::verdict(
                CHECK_NAME@,
                CHECK_DESCRIPTION@,
                match text::view_result(*result) {
                    Ok(_) => None,
                    Err(e) => Some("Failed to connect to "@ + server_url@ + ": "@ + e),
                },
                DOC_URL@,
            ),
    {
        match result {
            Ok(_) => CheckResult::pass(CHECK_NAME, CHECK_DESCRIPTION).with_doc_url(DOC_URL),
            Err(e) => {
                let mut s = "Failed to connect to ".to_owned();
                s.append(server_url);
                s.append(": ");
                s.append(e.as_str());
                CheckResult::fail(CHECK_NAME, CHECK_DESCRIPTION, s.as_str()).with_doc_url(DOC_URL)
            },
        }
    }
}

fn list_failures(names: &Vec<String>, errors: &Vec<Option<String>>) -> (r: Vec<String>)
    requires
        names@.len() == errors@.len(),
    ensures
        text::views(r@) == dns_failures(text::views(names@), errors@),
{
    let ghost all = text::views(names@);
    let mut out: Vec<String> = Vec::new();
    let mut i: usize = 0;
    assert(text::views(out@) =~= Seq::empty());
    while i < errors.len()
        invariant
            i <= errors@.len() == names@.len(),
            all == text::views(names@),
            text::views(out@) == dns_failures(all.take(i as int), errors@.take(i as int)),
        decreases errors@.len() - i,
    {
        let ghost before = out@;
        assert(all.take(i + 1).drop_last() == all.take(i as int));
        assert(errors@.take(i + 1).drop_last() == errors@.take(i as int));
        assert(all.take(i + 1).last() == names@[i as int]@);
        if let Some(e) = &errors[i] {
            let mut s = names[i].clone();
            s.append(": ");
            s.append(e.as_str());
            out.push(s);
            assert(text::views(out@) =~= text::views(before).push(s@));
        }
        i = i + 1;
    }
    assert(all.take(all.len() as int) == all);
    assert(errors@.take(errors@.len() as int) == errors@);
    out
}

/// Checks that the service's domains can be resolved. `errors` has an entry for each of them,
/// with the error if there was one.
pub fn check_actions_dns(errors: &Vec<Option<String>>) -> (r: CheckResult)
    requires
        errors@.len() == domains().len(),
    ensures
        r@ == checks::verdict(
            DNS_CHECK_NAME@,
            DNS_CHECK_DESCRIPTION@,
            if dns_failures(domains(), errors@).len() == 0 {
                None
            } else {
                Some(
                    "Failed to resolve: "@ + text::joined(
                        dns_failures(domains(), errors@),
                        ", "@,
                    ),
                )
            },
            DOC_URL@,
        ),
{
    let names = actions_domains();
    assert(text::views(names@).len() == names@.len());
    let failures = list_failures(&names, errors);
    assert(text::views(failures@).len() == failures@.len());
    if failures.len() == 0 {
        CheckResult::pass(DNS_CHECK_NAME, DNS_CHECK_DESCRIPTION).with_doc_url(DOC_URL)
    } else {
        let mut s = "Failed to resolve: ".to_owned();
        s.append(text::join(&failures, ", ").as_str());
        CheckResult::fail(DNS_CHECK_NAME, DNS_CHECK_DESCRIPTION, s.as_str()).with_doc_url(DOC_URL)
    }
}

// ---------------------------------------------------------------------------
// Laws
// ---------------------------------------------------------------------------

/// The public API serves the public server and every host below it; any other server is asked
/// for its own API, and a URL that is wrong stays wrong.
pub proof fn law_api_by_host(
    scheme: Seq<char>,
    host: Option<Seq<char>>,
    below: Seq<char>,
    path: Seq<char>,
    own: Result<Seq<char>, Seq<char>>,
    reason: Seq<char>,
)
    ensures
        api_of(Ok((scheme, Some("github.com"@), path)), own) == Ok::<Seq<char>, Seq<char>>(
            "https://api.github.com/"@,
        ),
        api_of(Ok((scheme, Some(below + ".github.com"@), path)), own) == Ok::<
            Seq<char>,
            Seq<char>,
        >("https://api.github.com/"@),
        host is None || host->0 != "github.com"@ && !text::has_suffix(host->0, ".github.com"@)
            ==> api_of(Ok((scheme, host, path)), own) == own,
        api_of(Err(reason), own) == Err::<Seq<char>, Seq<char>>(reason),
{
    let whole = below + ".github.com"@;
    let n = ".github.com"@.len() as int;
    assert(whole.subrange(whole.len() - n, whole.len() as int) =~= ".github.com"@);
}

/// A server is reached if it serves the request or refuses it for want of credentials; any
/// other status, or no answer, is a fault that is told.
pub proof fn law_reached_servers(api_url: Seq<char>, status: u16, text: String, reason: String)
    ensures
        connectivity(api_url, HttpAnswer::Status(status, text)) is Ok <==> 200 <= status < 300
            || status == 401 || status == 403,
        connectivity(api_url, HttpAnswer::Failed(reason)) == Err::<Seq<char>, Seq<char>>(reason@),
        connectivity(api_url, HttpAnswer::Status(status, text)) is Err ==> connectivity(
            api_url,
            HttpAnswer::Status(status, text),
        ) == Err::<Seq<char>, Seq<char>>(
            "Unexpected status code "@ + text@ + " from "@ + api_url,
        ),
{
}

/// Every name that could not be resolved is told, with its error, and no other.
pub proof fn law_failures_are_told(names: Seq<Seq<char>>, errors: Seq<Option<String>>, i: int)
    requires
        names.len() == errors.len(),
        0 <= i < names.len(),
    ensures
        errors[i] matches Some(e) ==> dns_failures(names, errors).contains(names[i] + ": "@ + e@),
        (forall|k: int| 0 <= k < errors.len() ==> #[trigger] errors[k] is None) <==> dns_failures(
            names,
            errors,
        ).len() == 0,
        dns_failures(names, errors).len() <= names.len(),
    decreases names.len(),
{
    let before = dns_failures(names.drop_last(), errors.drop_last());
    let all = dns_failures(names, errors);
    if i == names.len() - 1 {
        if names.len() > 1 {
            law_failures_are_told(names.drop_last(), errors.drop_last(), 0);
        }
        if let Some(e) = errors[i] {
            assert(all[all.len() - 1] == names[i] + ": "@ + e@);
        }
    } else {
        law_failures_are_told(names.drop_last(), errors.drop_last(), i);
        if let Some(e) = errors[i] {
            assert(names.drop_last()[i] == names[i]);
            let told = names[i] + ": "@ + e@;
            let j = choose|j: int| 0 <= j < before.len() && before[j] == told;
            assert(all[j] == told);
        }
    }
    let front = errors.drop_last();
    if forall|k: int| 0 <= k < errors.len() ==> #[trigger] errors[k] is None {
        assert forall|k: int| 0 <= k < front.len() implies #[trigger] front[k] is None by {
            assert(errors[k] is None);
        }
        assert(errors[errors.len() - 1] is None);
    }
    if all.len() == 0 {
        assert forall|k: int| 0 <= k < errors.len() implies #[trigger] errors[k] is None by {
            if k < front.len() {
                assert(front[k] is None);
            }
        }
    }
}

} // verus!
