//! How HTTP clients are set up.
use vstd::prelude::*;
use vstd::string::*;

use crate::{host_context, text};

verus! {

/// The proxies that the environment names.
#[derive(Debug)]
pub struct ProxySettings {
    pub http_address: Option<String>,
    pub http_username: Option<String>,
    pub http_password: Option<String>,
    pub https_address: Option<String>,
    pub https_username: Option<String>,
    pub https_password: Option<String>,
    pub no_proxy: Option<String>,
}

/// A proxy, and what it asks for.
#[derive(Debug)]
pub struct ProxyPlan {
    pub address: String,
    pub login: Option<(String, String)>,
}

/// A proxy, and what it asks for.
pub struct ProxyView {
    pub address: Seq<char>,
    pub login: Option<(Seq<char>, Seq<char>)>,
}

/// How a client is set up.
#[derive(Debug)]
pub struct ClientPlan {
    pub http_proxy: Option<ProxyPlan>,
    pub https_proxy: Option<ProxyPlan>,
    /// The hosts that are reached without a proxy, where there are any. The environment is
    /// told of them, and the proxies are cleared from the client.
    pub no_proxy: Option<String>,
    /// Whether any certificate is accepted.
    pub accept_invalid_certs: bool,
    pub user_agent: String,
}

impl ProxyPlan {
    pub open spec fn view(&self) -> ProxyView {
        ProxyView {
            address: self.address@,
            login: match self.login {
                Some((u, p)) => Some((u@, p@)),
                None => None,
            },
        }
    }
}

/// What an optional proxy is.
pub open spec fn view_proxy(p: Option<ProxyPlan>) -> Option<ProxyView> {
    match p {
        Some(proxy) => Some(proxy@),
        None => None,
    }
}

/// A proxy: there is one where it has an address, and a login where it has both a name and a
/// password.
pub open spec fn proxy_of(
    address: Option<Seq<char>>,
    username: Option<Seq<char>>,
    password: Option<Seq<char>>,
) -> Option<ProxyView> {
    match address {
        Some(address) => Some(
            ProxyView {
                address,
                login: match (username, password) {
                    (Some(u), Some(p)) => Some((u, p)),
                    _ => None,
                },
            },
        ),
        None => None,
    }
}

fn plan_proxy(address: &Option<String>, username: &Option<String>, password: &Option<String>) -> (r:
    Option<ProxyPlan>)
    ensures
        view_proxy(r) == proxy_of(
            text::view_option(*address),
            text::view_option(*username),
            text::view_option(*password),
        ),
{
    match address {
        Some(address) => Some(
            ProxyPlan {
                address: address.clone(),
                login: match (username, password) {
                    (Some(u), Some(p)) => Some((u.clone(), p.clone())),
                    _ => None,
                },
            },
        ),
        None => None,
    }
}

/// Sets up HTTP clients.
pub struct HttpClientFactory;

impl HttpClientFactory {
    /// How a client is set up. `tls_no_verify` tells whether the environment asks to accept
    /// any certificate.
    pub fn create_client(
        proxy: &ProxySettings,
        tls_no_verify: bool,
        package: &str,
        version: &str,
    ) -> (r: ClientPlan)
        ensures
            view_proxy(r.http_proxy) == proxy_of(
                text::view_option(proxy.http_address),
                text::view_option(proxy.http_username),
                text::view_option(proxy.http_password),
            ),
            view_proxy(r.https_proxy) == proxy_of(
                text::view_option(proxy.https_address),
                text::view_option(proxy.https_username),
                text::view_option(proxy.https_password),
            ),
            text::view_option(r.no_proxy) == match text::view_option(proxy.no_proxy) {
                Some(hosts) => if hosts.len() > 0 {
                    Some(hosts)
                } else {
                    None
                },
                None => None,
            },
            r.accept_invalid_certs == tls_no_verify,
            r.user_agent@ == host_context::user_agent(package@, version@),
    {
        let no_proxy = match &proxy.no_proxy {
            Some(hosts) => if text::is_empty(hosts.as_str()) {
                None
            } else {
                Some(hosts.clone())
            },
            None => None,
        };
        ClientPlan {
            http_proxy: plan_proxy(
                &proxy.http_address,
                &proxy.http_username,
                &proxy.http_password,
            ),
            https_proxy: plan_proxy(
                &proxy.https_address,
                &proxy.https_username,
                &proxy.https_password,
            ),
            no_proxy,
            accept_invalid_certs: tls_no_verify,
            user_agent: host_context::default_user_agent(package, version),
        }
    }
}

/// There is a proxy if and only if it has an address, and the client logs in to it if and only
/// if both a name and a password are given.
pub proof fn law_proxy_as_configured(
    address: Seq<char>,
    username: Option<Seq<char>>,
    password: Option<Seq<char>>,
    u: Seq<char>,
    p: Seq<char>,
)
    ensures
        proxy_of(None, username, password) is None,
        proxy_of(Some(address), username, password) is Some,
        proxy_of(Some(address), username, password)->0.address == address,
        proxy_of(Some(address), username, password)->0.login == Some((u, p)) <==> username == Some(
            u,
        ) && password == Some(p),
        proxy_of(Some(address), username, password)->0.login is None <==> username is None
            || password is None,
{
}

} // verus!
