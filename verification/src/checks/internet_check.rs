//! Whether the internet can be reached.
use vstd::prelude::*;
use vstd::string::*;

use crate::checks::{CheckResult, HttpAnswer};
use crate::{checks, text};

verus! {

pub const CHECK_NAME: &'static str = "Internet Connection";

pub const CHECK_DESCRIPTION: &'static str = "Check basic internet connectivity";

pub const DOC_URL: &'static str = "https://github.com/actions/runner/blob/main/docs/checks/internet.md";

/// The page that is asked for.
pub const CHECK_URL: &'static str = "https://github.com";

pub const PROXY_CHECK_NAME: &'static str = "Proxy Configuration";

pub const PROXY_CHECK_DESCRIPTION: &'static str = "Check if proxy is configured";

pub const NO_PROXY_DESCRIPTION: &'static str = "Check if proxy is configured (no proxy configured)";

/// What came of looking a host up.
#[derive(Debug)]
pub enum DnsAnswer {
    Failed(String),
    NoAddress,
    Resolved,
}

/// The hosts that are looked up, in order.
pub open spec fn hosts() -> Seq<Seq<char>> {
    seq!["github.com"@, "api.github.com"@]
}

/// The fault that an answer shows.
pub open spec fn dns_fault(host: Seq<char>, answer: DnsAnswer) -> Option<Seq<char>> {
    match answer {
        DnsAnswer::Failed(e) => Some(
            "DNS resolution failed for "@ + host + ": "@ + e@
                + ". Please check your network configuration and DNS settings."@,
        ),
        DnsAnswer::NoAddress => Some(
            "DNS resolution for "@ + host + " returned no addresses"@,
        ),
        DnsAnswer::Resolved => None,
    }
}

/// The fault of the first answer that shows one.
pub open spec fn first_dns_fault(names: Seq<Seq<char>>, answers: Seq<DnsAnswer>) -> Option<
    Seq<char>,
>
    decreases answers.len(),
{
    if answers.len() == 0 || names.len() == 0 {
        None
    } else if dns_fault(names[0], answers[0]) is Some {
        dns_fault(names[0], answers[0])
    } else {
        first_dns_fault(names.skip(1), answers.skip(1))
    }
}

/// The fault that the answer to a request for the page shows.
pub open spec fn https_fault(answer: HttpAnswer) -> Option<Seq<char>> {
    match answer {
        HttpAnswer::Failed(e) => Some(
            "HTTPS connection to "@ + CHECK_URL@ + " failed: "@ + e@
                + ". Please check your firewall and proxy settings."@,
        ),
        HttpAnswer::Status(status, status_text) => if 500 <= status <= 599 {
            Some(
                "HTTPS connection to "@ + CHECK_URL@ + " returned server error: "@ + status_text@,
            )
        } else {
            None
        },
    }
}

/// A verdict, given the fault if there is one.
pub open spec fn or_fault(fault: Option<Seq<char>>) -> Result<(), Seq<char>> {
    match fault {
        Some(e) => Err(e),
        None => Ok(()),
    }
}

fn find_dns_fault(host: &str, answer: &DnsAnswer) -> (r: Option<String>)
    ensures
        text::view_option(r) == dns_fault(host@, *answer),
{
    match answer {
        DnsAnswer::Failed(e) => {
            let mut s = "DNS resolution failed for ".to_owned();
            s.append(host);
            s.append(": ");
            s.append(e.as_str());
            s.append(". Please check your network configuration and DNS settings.");
            Some(s)
        },
        DnsAnswer::NoAddress => {
            let mut s = "DNS resolution for ".to_owned();
            s.append(host);
            s.append(" returned no addresses");
            Some(s)
        },
        DnsAnswer::Resolved => None,
    }
}

/// Checks the connection to the internet.
pub struct InternetCheck;

impl InternetCheck {
    /// The hosts that are looked up, in order.
    pub fn check_hosts() -> (r: Vec<String>)
        ensures
            text::views(r@) == hosts(),
    {
        let mut v: Vec<String> = Vec::new();
        v.push("github.com".to_owned());
        v.push("api.github.com".to_owned());
        assert(text::views(v@) =~= hosts());
        v
    }

    /// Whether the hosts could be looked up, given the answers for the first of them. The
    /// first fault is told.
    pub fn check_dns(answers: &Vec<DnsAnswer>) -> (r: Result<(), String>)
        requires
            answers@.len() <= hosts().len(),
        ensures
            text::view_verdict(r) == or_fault(first_dns_fault(hosts(), answers@)),
    {
        let names = InternetCheck::check_hosts();
        let ghost all = text::views(names@);
        assert(all.len() == names@.len());
        let mut i: usize = 0;
        assert(all.skip(0) == all);
        assert(answers@.skip(0) == answers@);
        while i < answers.len()
            invariant
                i <= answers@.len() <= names@.len(),
                all == text::views(names@),
                all == hosts(),
                first_dns_fault(all, answers@) == first_dns_fault(
                    all.skip(i as int),
                    answers@.skip(i as int),
                ),
            decreases answers@.len() - i,
        {
            assert(all.skip(i as int)[0] == names@[i as int]@);
            assert(all.skip(i as int).skip(1) == all.skip(i + 1));
            assert(answers@.skip(i as int).skip(1) == answers@.skip(i + 1));
            if let Some(e) = find_dns_fault(names[i].as_str(), &answers[i]) {
                return Err(e);
            }
            i = i + 1;
        }
        Ok(())
    }

    /// Whether the page could be had. A refusal counts as an answer, an error of the server
    /// does not.
    pub fn check_https(answer: &HttpAnswer) -> (r: Result<(), String>)
        ensures
            text::view_verdict(r) == or_fault(https_fault(*answer)),
    {
        match answer {
            HttpAnswer::Failed(e) => {
                let mut s = "HTTPS connection to ".to_owned();
                s.append(CHECK_URL);
                s.append(" failed: ");
                s.append(e.as_str());
                s.append(". Please check your firewall and proxy settings.");
                Err(s)
            },
            HttpAnswer::Status(status, status_text) => if 500 <= *status && *status <= 599 {
                let mut s = "HTTPS connection to ".to_owned();
                s.append(CHECK_URL);
                s.append(" returned server error: ");
                s.append(status_text.as_str());
                Err(s)
            } else {
                Ok(())
            },
        }
    }

    /// The check's result, given the first fault if there is one.
    pub fn run_check(result: &Result<(), String>) -> (r: CheckResult)
        ensures
            r@ == checks::verdict(
                CHECK_NAME@,
                CHECK_DESCRIPTION@,
                match text::view_verdict(*result) {
                    Ok(_) => None,
                    Err(e) => Some(e),
                },
                DOC_URL@,
            ),
    {
        match result {
            Ok(_) => CheckResult::pass(CHECK_NAME, CHECK_DESCRIPTION).with_doc_url(DOC_URL),
            Err(e) => CheckResult::fail(
                CHECK_NAME,
                CHECK_DESCRIPTION,
                e.as_str(),
            ).with_doc_url(DOC_URL),
        }
    }
}

/// The variables that name a proxy.
pub open spec fn proxy_names() -> Seq<Seq<char>> {
    seq!["https_proxy"@, "http_proxy"@, "HTTPS_PROXY"@, "HTTP_PROXY"@]
}

/// The variables that name hosts to be reached without a proxy.
pub open spec fn no_proxy_names() -> Seq<Seq<char>> {
    seq!["no_proxy"@, "NO_PROXY"@]
}

/// The variables that are set and not empty, with their values.
pub open spec fn settings_of(names: Seq<Seq<char>>, values: Seq<Option<String>>) -> Seq<Seq<char>>
    decreases values.len(),
{
    if values.len() == 0 || names.len() != values.len() {
        Seq::empty()
    } else {
        let before = settings_of(names.drop_last(), values.drop_last());
        match values.last() {
            Some(v) => if v@.len() > 0 {
                before.push(names.last() + "="@ + v@)
            } else {
                before
            },
            None => before,
        }
    }
}

/// The variables that name a proxy.
pub fn proxy_variables() -> (r: Vec<String>)
    ensures
        text::views(r@) == proxy_names(),
{
    let mut v: Vec<String> = Vec::new();
    v.push("https_proxy".to_owned());
    v.push("http_proxy".to_owned());
    v.push("HTTPS_PROXY".to_owned());
    v.push("HTTP_PROXY".to_owned());
    assert(text::views(v@) =~= proxy_names());
    v
}

/// The variables that name hosts to be reached without a proxy.
pub fn no_proxy_variables() -> (r: Vec<String>)
    ensures
        text::views(r@) == no_proxy_names(),
{
    let mut v: Vec<String> = Vec::new();
    v.push("no_proxy".to_owned());
    v.push("NO_PROXY".to_owned());
    assert(text::views(v@) =~= no_proxy_names());
    v
}

fn list_settings(names: &Vec<String>, values: &Vec<Option<String>>) -> (r: Vec<String>)
    requires
        names@.len() == values@.len(),
    ensures
        text::views(r@) == settings_of(text::views(names@), values@),
{
    let ghost all = text::views(names@);
    let mut out: Vec<String> = Vec::new();
    let mut i: usize = 0;
    assert(text::views(out@) =~= Seq::empty());
    while i < values.len()
        invariant
            i <= values@.len() == names@.len(),
            all == text::views(names@),
            text::views(out@) == settings_of(all.take(i as int), values@.take(i as int)),
        decreases values@.len() - i,
    {
        let ghost before = out@;
        assert(all.take(i + 1).drop_last() == all.take(i as int));
        assert(values@.take(i + 1).drop_last() == values@.take(i as int));
        assert(all.take(i + 1).last() == names@[i as int]@);
        if let Some(v) = &values[i] {
            if !text::is_empty(v.as_str()) {
                let mut s = names[i].clone();
                s.append("=");
                s.append(v.as_str());
                out.push(s);
                assert(text::views(out@) =~= text::views(before).push(s@));
            }
        }
        i = i + 1;
    }
    assert(all.take(all.len() as int) == all);
    assert(values@.take(values@.len() as int) == values@);
    out
}

/// Tells of the proxies that are configured, given the values of the variables. The check
/// always passes.
pub fn check_proxy(proxies: &Vec<Option<String>>, no_proxies: &Vec<Option<String>>) -> (r:
    CheckResult)
    requires
        proxies@.len() == proxy_names().len(),
        no_proxies@.len() == no_proxy_names().len(),
    ensures
        r@ == ({
            let found = settings_of(proxy_names(), proxies@);
            checks::CheckView {
                name: PROXY_CHECK_NAME@,
                description: if found.len() > 0 {
                    PROXY_CHECK_DESCRIPTION@
                } else {
                    NO_PROXY_DESCRIPTION@
                },
                passed: true,
                detail: if found.len() > 0 {
                    Some(
                        text::joined(found + settings_of(no_proxy_names(), no_proxies@), ", "@),
                    )
                } else {
                    None
                },
                doc_url: None,
            }
        }),
{
    let names = proxy_variables();
    assert(text::views(names@).len() == names@.len());
    let mut found = list_settings(&names, proxies);
    assert(text::views(found@).len() == found@.len());
    if found.len() == 0 {
        return CheckResult::pass(PROXY_CHECK_NAME, NO_PROXY_DESCRIPTION);
    }
    let no_names = no_proxy_variables();
    assert(text::views(no_names@).len() == no_names@.len());
    let mut more = list_settings(&no_names, no_proxies);
    let ghost first = found@;
    let ghost second = more@;
    found.append(&mut more);
    assert(text::views(found@) =~= text::views(first) + text::views(second));
    CheckResult::pass(PROXY_CHECK_NAME, PROXY_CHECK_DESCRIPTION).with_detail(
        text::join(&found, ", ").as_str(),
    )
}

// ---------------------------------------------------------------------------
// Laws
// ---------------------------------------------------------------------------

/// The check fails on the first host that cannot be looked up, and tells of that one: hosts
/// before it that could be looked up do not matter, nor do hosts behind it.
pub proof fn law_first_fault_is_told(names: Seq<Seq<char>>, answers: Seq<DnsAnswer>, i: int)
    requires
        names.len() == answers.len(),
        0 <= i < answers.len(),
        forall|k: int| 0 <= k < i ==> (#[trigger] answers[k]) is Resolved,
        !(answers[i] is Resolved),
    ensures
        first_dns_fault(names, answers) is Some,
        answers[i] matches DnsAnswer::Failed(e) ==> first_dns_fault(names, answers) == Some(
            "DNS resolution failed for "@ + names[i] + ": "@ + e@
                + ". Please check your network configuration and DNS settings."@,
        ),
        answers[i] is NoAddress ==> first_dns_fault(names, answers) == Some(
            "DNS resolution for "@ + names[i] + " returned no addresses"@,
        ),
    decreases answers.len(),
{
    if i > 0 {
        assert(answers[0] is Resolved);
        let rest = answers.skip(1);
        assert forall|k: int| 0 <= k < i - 1 implies (#[trigger] rest[k]) is Resolved by {
            assert(rest[k] == answers[k + 1]);
        }
        assert(rest[i - 1] == answers[i]);
        assert(names.skip(1)[i - 1] == names[i]);
        law_first_fault_is_told(names.skip(1), rest, i - 1);
    }
}

/// Where all hosts can be looked up, there is no fault.
pub proof fn law_resolved_hosts_pass(names: Seq<Seq<char>>, answers: Seq<DnsAnswer>)
    requires
        forall|k: int| 0 <= k < answers.len() ==> (#[trigger] answers[k]) is Resolved,
    ensures
        first_dns_fault(names, answers) is None,
    decreases answers.len(),
{
    if answers.len() > 0 && names.len() > 0 {
        let rest = answers.skip(1);
        assert forall|k: int| 0 <= k < rest.len() implies (#[trigger] rest[k]) is Resolved by {
            assert(rest[k] == answers[k + 1]);
        }
        assert(answers[0] is Resolved);
        law_resolved_hosts_pass(names.skip(1), rest);
    }
}

/// Only no answer at all, or an error of the server, is a fault of the connection.
pub proof fn law_server_errors_fail(status: u16, text: String, reason: String)
    ensures
        https_fault(HttpAnswer::Status(status, text)) is Some <==> 500 <= status < 600,
        https_fault(HttpAnswer::Failed(reason)) is Some,
        or_fault(https_fault(HttpAnswer::Status(status, text))) is Ok <==> status < 500 || status
            >= 600,
{
}

/// Every variable that is set and not empty is told, with its value, and no other.
pub proof fn law_settings_are_told(names: Seq<Seq<char>>, values: Seq<Option<String>>, i: int)
    requires
        names.len() == values.len(),
        0 <= i < names.len(),
    ensures
        values[i] matches Some(v) ==> v@.len() > 0 ==> settings_of(names, values).contains(
            names[i] + "="@ + v@,
        ),
        (forall|k: int|
            0 <= k < values.len() ==> (#[trigger] values[k] matches Some(v) ==> v@.len() == 0))
            <==> settings_of(names, values).len() == 0,
        settings_of(names, values).len() <= names.len(),
    decreases names.len(),
{
    let before = settings_of(names.drop_last(), values.drop_last());
    let all = settings_of(names, values);
    let front = values.drop_last();
    if i == names.len() - 1 {
        if names.len() > 1 {
            law_settings_are_told(names.drop_last(), front, 0);
        }
        if let Some(v) = values[i] {
            if v@.len() > 0 {
                assert(all[all.len() - 1] == names[i] + "="@ + v@);
            }
        }
    } else {
        law_settings_are_told(names.drop_last(), front, i);
        if let Some(v) = values[i] {
            if v@.len() > 0 {
                assert(names.drop_last()[i] == names[i]);
                let told = names[i] + "="@ + v@;
                let j = choose|j: int| 0 <= j < before.len() && before[j] == told;
                assert(all[j] == told);
            }
        }
    }
    if forall|k: int|
        0 <= k < values.len() ==> (#[trigger] values[k] matches Some(v) ==> v@.len() == 0) {
        assert forall|k: int| 0 <= k < front.len() implies (#[trigger] front[k] matches Some(v)
            ==> v@.len() == 0) by {
            assert(front[k] == values[k]);
        }
        let last = values[values.len() - 1];
        assert(last matches Some(v) ==> v@.len() == 0);
    }
    if all.len() == 0 {
        assert forall|k: int| 0 <= k < values.len() implies (#[trigger] values[k] matches Some(v)
            ==> v@.len() == 0) by {
            if k < front.len() {
                assert(front[k] == values[k]);
            }
        }
    }
}

} // verus!
