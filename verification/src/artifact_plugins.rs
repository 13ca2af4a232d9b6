//! The plugins that publish and download artifacts.
use vstd::prelude::*;
use vstd::string::*;

use crate::string_map::StringMap;
use crate::{credential_data, number, text};

verus! {

/// Publishes an artifact.
pub struct PublishArtifactPlugin;

/// Downloads an artifact.
pub struct DownloadArtifactPlugin;

/// The name of the endpoint that both plugins talk to.
pub const CONNECTION_NAME: &'static str = "SystemVssConnection";

/// The parameter that holds its token.
pub const ACCESS_TOKEN_PARAMETER: &'static str = "AccessToken";

// ---------------------------------------------------------------------------
// Connections
// ---------------------------------------------------------------------------

/// How to authenticate with an endpoint.
#[derive(Debug)]
pub struct EndpointAuthorization {
    pub scheme: String,
    pub parameters: StringMap,
}

/// An endpoint that the job may talk to.
#[derive(Debug)]
pub struct ServiceEndpoint {
    pub name: String,
    pub url: String,
    pub authorization: Option<EndpointAuthorization>,
}

/// An endpoint: its name, its URL and the parameters of its authorization.
pub struct EndpointView {
    pub name: Seq<char>,
    pub url: Seq<char>,
    pub parameters: Option<Seq<(Seq<char>, Seq<char>)>>,
}

impl ServiceEndpoint {
    pub open spec fn view(&self) -> EndpointView {
        EndpointView {
            name: self.name@,
            url: self.url@,
            parameters: match self.authorization {
                Some(a) => Some(a.parameters.items()),
                None => None,
            },
        }
    }
}

/// What endpoints are.
pub open spec fn endpoint_views(endpoints: Seq<ServiceEndpoint>) -> Seq<EndpointView> {
    endpoints.map_values(|e: ServiceEndpoint| e@)
}

/// Why there is no connection.
#[derive(Debug, Clone, Copy, PartialEq, Eq, Structural)]
pub enum ConnectionError {
    NoEndpoint,
    NoAuthorization,
    NoAccessToken,
}

impl ConnectionError {
    /// The error in words.
    pub fn message(&self) -> (r: &'static str)
        ensures
            r@ == match *self {
                ConnectionError::NoEndpoint => "SystemVssConnection endpoint not found"@,
                ConnectionError::NoAuthorization => "SystemVssConnection has no authorization"@,
                ConnectionError::NoAccessToken =>
                    "AccessToken not found in SystemVssConnection authorization"@,
            },
    {
        match self {
            ConnectionError::NoEndpoint => "SystemVssConnection endpoint not found",
            ConnectionError::NoAuthorization => "SystemVssConnection has no authorization",
            ConnectionError::NoAccessToken =>
                "AccessToken not found in SystemVssConnection authorization",
        }
    }
}

/// The URL and the token of the first endpoint, from the `i`th on, with the connection's
/// name; the case of ASCII letters matters neither in that name nor in the parameter's.
pub open spec fn connection_from(endpoints: Seq<EndpointView>, i: int) -> Result<
    (Seq<char>, Seq<char>),
    ConnectionError,
>
    decreases endpoints.len() - i,
{
    if i < 0 || i >= endpoints.len() {
        Err(ConnectionError::NoEndpoint)
    } else if !text::equal_ignoring_ascii_case(endpoints[i].name, CONNECTION_NAME@) {
        connection_from(endpoints, i + 1)
    } else {
        match endpoints[i].parameters {
            None => Err(ConnectionError::NoAuthorization),
            Some(parameters) => match credential_data::data_value(
                parameters,
                ACCESS_TOKEN_PARAMETER@,
            ) {
                None => Err(ConnectionError::NoAccessToken),
                Some(token) => Ok((endpoints[i].url, token)),
            },
        }
    }
}

fn find_parameter(parameters: &StringMap, name: &str) -> (r: Option<String>)
    ensures
        text::view_option(r) == credential_data::data_value(parameters.items(), name@),
{
    let ghost items = parameters.items();
    let n: usize = parameters.len();
    let mut i: usize = 0;
    assert(items.skip(0) == items);
    while i < n
        invariant
            i <= n,
            n == items.len(),
            items == parameters.items(),
            credential_data::data_value(items, name@) == credential_data::data_value(
                items.skip(i as int),
                name@,
            ),
        decreases n - i,
    {
        assert(items.skip(i as int).skip(1) == items.skip(i + 1));
        if text::eq_ignore_ascii_case(parameters.key_at(i).as_str(), name) {
            return Some(parameters.value_at(i).clone());
        }
        i = i + 1;
    }
    None
}

/// The URL and the token of the connection.
pub fn resolve_connection(endpoints: &Vec<ServiceEndpoint>) -> (r: Result<
    (String, String),
    ConnectionError,
>)
    ensures
        match r {
            Ok((url, token)) => connection_from(endpoint_views(endpoints@), 0) == Ok::<
                (Seq<char>, Seq<char>),
                ConnectionError,
            >((url@, token@)),
            Err(e) => connection_from(endpoint_views(endpoints@), 0) == Err::<
                (Seq<char>, Seq<char>),
                ConnectionError,
            >(e),
        },
{
    let ghost all = endpoint_views(endpoints@);
    let mut i: usize = 0;
    while i < endpoints.len()
        invariant
            i <= endpoints@.len(),
            all == endpoint_views(endpoints@),
            connection_from(all, 0) == connection_from(all, i as int),
        decreases endpoints@.len() - i,
    {
        assert(all[i as int] == endpoints@[i as int]@);
        let endpoint = &endpoints[i];
        if text::eq_ignore_ascii_case(endpoint.name.as_str(), CONNECTION_NAME) {
            return match &endpoint.authorization {
                None => Err(ConnectionError::NoAuthorization),
                Some(a) => match find_parameter(&a.parameters, ACCESS_TOKEN_PARAMETER) {
                    None => Err(ConnectionError::NoAccessToken),
                    Some(token) => Ok((endpoint.url.clone(), token)),
                },
            };
        }
        i = i + 1;
    }
    Err(ConnectionError::NoEndpoint)
}

// ---------------------------------------------------------------------------
// Inputs
// ---------------------------------------------------------------------------

/// The characters that an artifact's name must not hold.
pub open spec fn forbidden_name_chars() -> Seq<char> {
    seq!['\\', '/', '"', ':', '<', '>', '|', '*', '?']
}

/// The characters that an artifact's name must not hold.
pub fn invalid_artifact_name_chars() -> (r: Vec<char>)
    ensures
        r@ == forbidden_name_chars(),
{
    let r: Vec<char> = vec!['\\', '/', '"', ':', '<', '>', '|', '*', '?'];
    assert(r@ == forbidden_name_chars());
    r
}

/// The text holds a character that an artifact's name must not hold.
pub open spec fn holds_forbidden(name: Seq<char>) -> bool {
    exists|i: int| 0 <= i < name.len() && forbidden_name_chars().contains(#[trigger] name[i])
}

/// The name that the inputs give: the older input goes before the newer one, unless it is
/// empty.
pub open spec fn artifact_name(legacy: Option<Seq<char>>, name: Option<Seq<char>>) -> Seq<char> {
    let fallback = match name {
        Some(n) => n,
        None => Seq::empty(),
    };
    match legacy {
        Some(l) => if l.len() > 0 {
            l
        } else {
            fallback
        },
        None => fallback,
    }
}

/// Why a plugin cannot run.
#[derive(Debug)]
pub enum PluginError {
    /// The artifact has no name.
    EmptyName,
    /// The name holds a character that it must not hold.
    InvalidName(String),
    /// The path does not exist.
    MissingPath,
    /// The run's id is not a number of 32 bits.
    BadRunId(String),
    /// The container's id is not a number of 64 bits.
    BadContainerId(String),
    /// There is no connection.
    Connection(ConnectionError),
}

/// Why a plugin cannot run.
pub enum PluginErrorView {
    EmptyName,
    InvalidName(Seq<char>),
    MissingPath,
    BadRunId(Seq<char>),
    BadContainerId(Seq<char>),
    Connection(ConnectionError),
}

impl PluginError {
    pub open spec fn view(&self) -> PluginErrorView {
        match *self {
            PluginError::EmptyName => PluginErrorView::EmptyName,
            PluginError::InvalidName(name) => PluginErrorView::InvalidName(name@),
            PluginError::MissingPath => PluginErrorView::MissingPath,
            PluginError::BadRunId(s) => PluginErrorView::BadRunId(s@),
            PluginError::BadContainerId(s) => PluginErrorView::BadContainerId(s@),
            PluginError::Connection(e) => PluginErrorView::Connection(e),
        }
    }

    /// The error in words; `path` is the path that is spoken of.
    pub fn message(&self, path: &str) -> (r: String)
        ensures
            r@ == match self@ {
                PluginErrorView::EmptyName => "Artifact name can not be empty string"@,
                PluginErrorView::InvalidName(name) => "Artifact name is not valid: "@ + name
                    + ". It cannot contain '\\', '/', '\"', ':', '<', '>', '|', '*', and '?'"@,
                PluginErrorView::MissingPath => "Path does not exist "@ + path@,
                PluginErrorView::BadRunId(s) => "Run Id is not an Int32: "@ + s,
                PluginErrorView::BadContainerId(s) => "Container Id is not an Int64: "@ + s,
                PluginErrorView::Connection(ConnectionError::NoEndpoint) =>
                    "SystemVssConnection endpoint not found"@,
                PluginErrorView::Connection(ConnectionError::NoAuthorization) =>
                    "SystemVssConnection has no authorization"@,
                PluginErrorView::Connection(ConnectionError::NoAccessToken) =>
                    "AccessToken not found in SystemVssConnection authorization"@,
            },
    {
        match self {
            PluginError::EmptyName => "Artifact name can not be empty string".to_owned(),
            PluginError::InvalidName(name) => {
                let mut s = "Artifact name is not valid: ".to_owned();
                s.append(name.as_str());
                s.append(". It cannot contain '\\', '/', '\"', ':', '<', '>', '|', '*', and '?'");
                s
            },
            PluginError::MissingPath => {
                let mut s = "Path does not exist ".to_owned();
                s.append(path);
                s
            },
            PluginError::BadRunId(id) => {
                let mut s = "Run Id is not an Int32: ".to_owned();
                s.append(id.as_str());
                s
            },
            PluginError::BadContainerId(id) => {
                let mut s = "Container Id is not an Int64: ".to_owned();
                s.append(id.as_str());
                s
            },
            PluginError::Connection(e) => e.message().to_owned(),
        }
    }
}

/// The name that the inputs give.
pub fn choose_artifact_name(legacy: &Option<String>, name: &Option<String>) -> (r: String)
    ensures
        r@ == artifact_name(text::view_option(*legacy), text::view_option(*name)),
{
    if let Some(l) = legacy {
        if !text::is_empty(l.as_str()) {
            return l.clone();
        }
    }
    match name {
        Some(n) => n.clone(),
        None => String::new(),
    }
}

fn has_forbidden_char(name: &str) -> (r: bool)
    ensures
        r == holds_forbidden(name@),
{
    let v = text::to_chars(name);
    let forbidden = invalid_artifact_name_chars();
    let mut i: usize = 0;
    while i < v.len()
        invariant
            v@ == name@,
            forbidden@ == forbidden_name_chars(),
            i <= v@.len(),
            forall|j: int| 0 <= j < i ==> !forbidden_name_chars().contains(#[trigger] v@[j]),
        decreases v@.len() - i,
    {
        let mut k: usize = 0;
        while k < forbidden.len()
            invariant
                v@ == name@,
                i < v@.len(),
                forbidden@ == forbidden_name_chars(),
                k <= forbidden@.len(),
                forall|j: int| 0 <= j < k ==> forbidden@[j] != v@[i as int],
            decreases forbidden@.len() - k,
        {
            if forbidden[k] == v[i] {
                assert(forbidden_name_chars()[k as int] == name@[i as int]);
                return true;
            }
            k = k + 1;
        }
        i = i + 1;
    }
    false
}

/// The verdict on the name of an artifact to be published: `None` if it is accepted.
pub open spec fn name_verdict(name: Seq<char>) -> Option<PluginErrorView> {
    if text::trimmed(name).len() == 0 {
        Some(PluginErrorView::EmptyName)
    } else if holds_forbidden(name) {
        Some(PluginErrorView::InvalidName(name))
    } else {
        None
    }
}

/// Accepts the name of an artifact to be published.
pub fn check_artifact_name(name: &str) -> (r: Result<(), PluginError>)
    ensures
        match r {
            Ok(_) => name_verdict(name@) is None,
            Err(e) => name_verdict(name@) == Some(e@),
        },
{
    if text::is_empty(text::trim(name).as_str()) {
        return Err(PluginError::EmptyName);
    }
    if has_forbidden_char(name) {
        return Err(PluginError::InvalidName(name.to_owned()));
    }
    Ok(())
}

/// The path that an artifact is downloaded to: the one that is given, or else the artifact's
/// name.
pub fn download_target(path: &str, artifact_name: &str) -> (r: String)
    ensures
        r@ == if path@.len() == 0 {
            artifact_name@
        } else {
            path@
        },
{
    if text::is_empty(path) {
        artifact_name.to_owned()
    } else {
        path.to_owned()
    }
}

// ---------------------------------------------------------------------------
// Publishing
// ---------------------------------------------------------------------------

/// What is published, and where.
#[derive(Debug)]
pub struct PublishPlan {
    pub artifact_name: String,
    pub run_id: i32,
    pub container_id: i64,
    pub base_url: String,
    pub auth_token: String,
}

/// What is published, and where.
pub struct PublishView {
    pub artifact_name: Seq<char>,
    pub run_id: int,
    pub container_id: int,
    pub base_url: Seq<char>,
    pub auth_token: Seq<char>,
}

impl PublishPlan {
    pub open spec fn view(&self) -> PublishView {
        PublishView {
            artifact_name: self.artifact_name@,
            run_id: self.run_id as int,
            container_id: self.container_id as int,
            base_url: self.base_url@,
            auth_token: self.auth_token@,
        }
    }
}

/// What is published, or the first thing that is wrong: the name, the path, the run's id, the
/// container's id, the connection are looked at in this order.
pub open spec fn publish_plan(
    name: Seq<char>,
    path_exists: bool,
    run_id: Seq<char>,
    container_id: Seq<char>,
    endpoints: Seq<EndpointView>,
) -> Result<PublishView, PluginErrorView> {
    match name_verdict(name) {
        Some(e) => Err(e),
        None => if !path_exists {
            Err(PluginErrorView::MissingPath)
        } else {
            match number::signed_value(run_id, i32::MIN as int, i32::MAX as int) {
                None => Err(PluginErrorView::BadRunId(run_id)),
                Some(run) => match number::signed_value(
                    container_id,
                    i64::MIN as int,
                    i64::MAX as int,
                ) {
                    None => Err(PluginErrorView::BadContainerId(container_id)),
                    Some(container) => match connection_from(endpoints, 0) {
                        Err(e) => Err(PluginErrorView::Connection(e)),
                        Ok((url, token)) => Ok(
                            PublishView {
                                artifact_name: name,
                                run_id: run,
                                container_id: container,
                                base_url: url,
                                auth_token: token,
                            },
                        ),
                    },
                },
            }
        },
    }
}

/// What a result of planning says.
pub open spec fn view_publish(r: Result<PublishPlan, PluginError>) -> Result<
    PublishView,
    PluginErrorView,
> {
    match r {
        Ok(plan) => Ok(plan@),
        Err(e) => Err(e@),
    }
}

impl PublishArtifactPlugin {
    /// Prepares to publish an artifact.
    pub fn prepare(
        name: String,
        path_exists: bool,
        run_id: &str,
        container_id: &str,
        endpoints: &Vec<ServiceEndpoint>,
    ) -> (r: Result<PublishPlan, PluginError>)
        ensures
            view_publish(r) == publish_plan(
                name@,
                path_exists,
                run_id@,
                container_id@,
                endpoint_views(endpoints@),
            ),
    {
        if let Err(e) = check_artifact_name(name.as_str()) {
            return Err(e);
        }
        if !path_exists {
            return Err(PluginError::MissingPath);
        }
        let run = match number::parse_signed(run_id, i32::MIN as i64, i32::MAX as i64) {
            Some(run) => run as i32,
            None => return Err(PluginError::BadRunId(run_id.to_owned())),
        };
        let container = match number::parse_signed(container_id, i64::MIN, i64::MAX) {
            Some(container) => container,
            None => return Err(PluginError::BadContainerId(container_id.to_owned())),
        };
        match resolve_connection(endpoints) {
            Err(e) => Err(PluginError::Connection(e)),
            Ok((base_url, auth_token)) => Ok(
                PublishPlan {
                    artifact_name: name,
                    run_id: run,
                    container_id: container,
                    base_url,
                    auth_token,
                },
            ),
        }
    }
}

// ---------------------------------------------------------------------------
// Downloading
// ---------------------------------------------------------------------------

/// What is downloaded, and where to.
#[derive(Debug)]
pub struct DownloadRequest {
    pub artifact_name: String,
    pub target: String,
    pub run_id: i32,
    pub base_url: String,
    pub auth_token: String,
}

/// What is downloaded, and where to.
pub struct DownloadView {
    pub artifact_name: Seq<char>,
    pub target: Seq<char>,
    pub run_id: int,
    pub base_url: Seq<char>,
    pub auth_token: Seq<char>,
}

impl DownloadRequest {
    pub open spec fn view(&self) -> DownloadView {
        DownloadView {
            artifact_name: self.artifact_name@,
            target: self.target@,
            run_id: self.run_id as int,
            base_url: self.base_url@,
            auth_token: self.auth_token@,
        }
    }
}

/// What is downloaded, or the first thing that is wrong: the run's id, the connection are
/// looked at in this order.
pub open spec fn download_request(
    name: Seq<char>,
    path: Seq<char>,
    run_id: Seq<char>,
    endpoints: Seq<EndpointView>,
) -> Result<DownloadView, PluginErrorView> {
    match number::signed_value(run_id, i32::MIN as int, i32::MAX as int) {
        None => Err(PluginErrorView::BadRunId(run_id)),
        Some(run) => match connection_from(endpoints, 0) {
            Err(e) => Err(PluginErrorView::Connection(e)),
            Ok((url, token)) => Ok(
                DownloadView {
                    artifact_name: name,
                    target: if path.len() == 0 {
                        name
                    } else {
                        path
                    },
                    run_id: run,
                    base_url: url,
                    auth_token: token,
                },
            ),
        },
    }
}

/// What a result of planning says.
pub open spec fn view_download(r: Result<DownloadRequest, PluginError>) -> Result<
    DownloadView,
    PluginErrorView,
> {
    match r {
        Ok(request) => Ok(request@),
        Err(e) => Err(e@),
    }
}

impl DownloadArtifactPlugin {
    /// Prepares to download an artifact.
    pub fn prepare(name: String, path: &str, run_id: &str, endpoints: &Vec<ServiceEndpoint>) -> (r:
        Result<DownloadRequest, PluginError>)
        ensures
            view_download(r) == download_request(
                name@,
                path@,
                run_id@,
                endpoint_views(endpoints@),
            ),
    {
        let target = download_target(path, name.as_str());
        let run = match number::parse_signed(run_id, i32::MIN as i64, i32::MAX as i64) {
            Some(run) => run as i32,
            None => return Err(PluginError::BadRunId(run_id.to_owned())),
        };
        match resolve_connection(endpoints) {
            Err(e) => Err(PluginError::Connection(e)),
            Ok((base_url, auth_token)) => Ok(
                DownloadRequest { artifact_name: name, target, run_id: run, base_url, auth_token },
            ),
        }
    }

    /// The error that the artifact could not be found.
    pub fn not_found(artifact_name: &str) -> (r: String)
        ensures
            r@ == "The actions storage artifact for '"@ + artifact_name@
                + "' could not be found, or is no longer available"@,
    {
        let mut s = "The actions storage artifact for '".to_owned();
        s.append(artifact_name);
        s.append("' could not be found, or is no longer available");
        s
    }
}

/// What is published has a name that is not blank and can be the name of a file.
pub proof fn law_published_name_is_valid(
    name: Seq<char>,
    path_exists: bool,
    run_id: Seq<char>,
    container_id: Seq<char>,
    endpoints: Seq<EndpointView>,
)
    requires
        publish_plan(name, path_exists, run_id, container_id, endpoints) is Ok,
    ensures
        text::trimmed(name).len() > 0,
        forall|c: char| forbidden_name_chars().contains(c) ==> !name.contains(c),
        path_exists,
{
    assert forall|c: char| forbidden_name_chars().contains(c) implies !name.contains(c) by {
        if name.contains(c) {
            let i = choose|i: int| 0 <= i < name.len() && name[i] == c;
            assert(forbidden_name_chars().contains(name[i]));
        }
    }
}

/// The connection is the first endpoint of its name: endpoints of other names before it do
/// not matter, nor does what stands behind it.
pub proof fn law_first_connection_counts(
    before: Seq<EndpointView>,
    endpoint: EndpointView,
    after: Seq<EndpointView>,
)
    requires
        forall|i: int|
            0 <= i < before.len() ==> !text::equal_ignoring_ascii_case(
                (#[trigger] before[i]).name,
                "SystemVssConnection"@,
            ),
        text::equal_ignoring_ascii_case(endpoint.name, "SystemVssConnection"@),
    ensures
        connection_from(before + seq![endpoint] + after, 0) == match endpoint.parameters {
            None => Err(ConnectionError::NoAuthorization),
            Some(parameters) => match credential_data::data_value(parameters, "AccessToken"@) {
                None => Err(ConnectionError::NoAccessToken),
                Some(token) => Ok((endpoint.url, token)),
            },
        },
        connection_from(before, 0) == Err::<(Seq<char>, Seq<char>), ConnectionError>(
            ConnectionError::NoEndpoint,
        ),
{
    lemma_connection_from(before + seq![endpoint] + after, 0, before.len() as int);
    lemma_connection_from(before, 0, before.len() as int);
    assert((before + seq![endpoint] + after)[before.len() as int] == endpoint);
}

proof fn lemma_connection_from(endpoints: Seq<EndpointView>, i: int, n: int)
    requires
        0 <= i <= n <= endpoints.len(),
        forall|k: int|
            i <= k < n ==> !text::equal_ignoring_ascii_case(
                (#[trigger] endpoints[k]).name,
                "SystemVssConnection"@,
            ),
    ensures
        connection_from(endpoints, i) == connection_from(endpoints, n),
    decreases n - i,
{
    if i < n {
        lemma_connection_from(endpoints, i + 1, n);
    }
}

/// The older input names the artifact unless it is missing or empty; else the newer one does.
pub proof fn law_artifact_name(legacy: Option<Seq<char>>, name: Seq<char>, other: Seq<char>)
    ensures
        name.len() > 0 ==> artifact_name(Some(name), Some(other)) == name,
        name.len() > 0 ==> artifact_name(Some(name), None) == name,
        legacy is None || legacy == Some(Seq::<char>::empty()) ==> artifact_name(
            legacy,
            Some(other),
        ) == other && artifact_name(legacy, None) == Seq::<char>::empty(),
{
}

/// A name is accepted if and only if it is not blank and holds none of the characters
/// `\`, `/`, `"`, `:`, `<`, `>`, `|`, `*` and `?`.
pub proof fn law_accepted_artifact_names(name: Seq<char>)
    ensures
        name_verdict(name) is None <==> {
            &&& text::trimmed(name).len() > 0
            &&& !name.contains('\\')
            &&& !name.contains('/')
            &&& !name.contains('"')
            &&& !name.contains(':')
            &&& !name.contains('<')
            &&& !name.contains('>')
            &&& !name.contains('|')
            &&& !name.contains('*')
            &&& !name.contains('?')
        },
        text::trimmed(name).len() == 0 ==> name_verdict(name) == Some(PluginErrorView::EmptyName),
        text::trimmed(name).len() > 0 && name_verdict(name) is Some ==> name_verdict(name) == Some(
            PluginErrorView::InvalidName(name),
        ),
{
    let all = forbidden_name_chars();
    assert(all.len() == 9);
    assert(all[0] == '\\' && all[1] == '/' && all[2] == '"' && all[3] == ':' && all[4] == '<'
        && all[5] == '>' && all[6] == '|' && all[7] == '*' && all[8] == '?');
    if holds_forbidden(name) {
        let i = choose|i: int| 0 <= i < name.len() && all.contains(#[trigger] name[i]);
        let k = choose|k: int| 0 <= k < all.len() && all[k] == name[i];
        assert(name.contains(name[i]));
        assert(0 <= k < 9);
    } else {
        assert forall|k: int| 0 <= k < 9 implies !name.contains(#[trigger] all[k]) by {
            if name.contains(all[k]) {
                let i = choose|i: int| 0 <= i < name.len() && name[i] == all[k];
                assert(all.contains(name[i]));
            }
        }
    }
}

/// Whatever is named, numbered and connected is published as it is named and numbered, by
/// the connection's URL and token.
pub proof fn law_plan_publishes_what_is_given(
    name: Seq<char>,
    run: int,
    container: int,
    endpoints: Seq<EndpointView>,
    url: Seq<char>,
    token: Seq<char>,
)
    requires
        name_verdict(name) is None,
        -0x8000_0000 <= run <= 0x7fff_ffff,
        -0x8000_0000_0000_0000 <= container <= 0x7fff_ffff_ffff_ffff,
        connection_from(endpoints, 0) == Ok::<(Seq<char>, Seq<char>), ConnectionError>(
            (url, token),
        ),
    ensures
        publish_plan(
            name,
            true,
            number::signed_decimal(run),
            number::signed_decimal(container),
            endpoints,
        ) == Ok::<PublishView, PluginErrorView>(
            PublishView {
                artifact_name: name,
                run_id: run,
                container_id: container,
                base_url: url,
                auth_token: token,
            },
        ),
{
    number::law_signed_reads_back(run, i32::MIN as int, i32::MAX as int);
    number::law_signed_reads_back(container, i64::MIN as int, i64::MAX as int);
}

/// Nothing is published from a path that does not exist, nor under a number that is none, nor
/// without a connection; the first thing that is wrong is what is reported.
pub proof fn law_publish_errors(
    name: Seq<char>,
    path_exists: bool,
    run_id: Seq<char>,
    container_id: Seq<char>,
    endpoints: Seq<EndpointView>,
)
    ensures
        ({
            let plan = publish_plan(name, path_exists, run_id, container_id, endpoints);
            let run = number::signed_value(run_id, -0x8000_0000, 0x7fff_ffff);
            let container = number::signed_value(
                container_id,
                -0x8000_0000_0000_0000,
                0x7fff_ffff_ffff_ffff,
            );
            let named = name_verdict(name) is None;
            &&& !named ==> plan is Err && plan->Err_0 == name_verdict(name)->0
            &&& named && !path_exists ==> plan == Err::<PublishView, PluginErrorView>(
                PluginErrorView::MissingPath,
            )
            &&& named && path_exists && run is None ==> plan == Err::<PublishView, PluginErrorView>(
                PluginErrorView::BadRunId(run_id),
            )
            &&& named && path_exists && run is Some && container is None ==> plan == Err::<
                PublishView,
                PluginErrorView,
            >(PluginErrorView::BadContainerId(container_id))
            &&& named && path_exists && run is Some && container is Some && connection_from(
                endpoints,
                0,
            ) is Err ==> plan == Err::<PublishView, PluginErrorView>(
                PluginErrorView::Connection(connection_from(endpoints, 0)->Err_0),
            )
        }),
{
}

/// An artifact is downloaded under its own name to the path that is given, or else to one of
/// the artifact's name, by the connection's URL and token.
pub proof fn law_download_goes_where_it_is_told(
    name: Seq<char>,
    path: Seq<char>,
    run: int,
    endpoints: Seq<EndpointView>,
    url: Seq<char>,
    token: Seq<char>,
)
    requires
        -0x8000_0000 <= run <= 0x7fff_ffff,
        connection_from(endpoints, 0) == Ok::<(Seq<char>, Seq<char>), ConnectionError>(
            (url, token),
        ),
    ensures
        download_request(name, path, number::signed_decimal(run), endpoints) matches Ok(r) && {
            &&& r.artifact_name == name
            &&& r.run_id == run
            &&& r.base_url == url
            &&& r.auth_token == token
            &&& path.len() > 0 ==> r.target == path
            &&& path.len() == 0 ==> r.target == name
        },
{
    number::law_signed_reads_back(run, i32::MIN as int, i32::MAX as int);
}

/// Nothing is downloaded for a run whose id is no number, nor without a connection.
pub proof fn law_download_errors(
    name: Seq<char>,
    path: Seq<char>,
    run_id: Seq<char>,
    endpoints: Seq<EndpointView>,
)
    ensures
        number::signed_value(run_id, -0x8000_0000, 0x7fff_ffff) is None ==> download_request(
            name,
            path,
            run_id,
            endpoints,
        ) == Err::<DownloadView, PluginErrorView>(PluginErrorView::BadRunId(run_id)),
        number::signed_value(run_id, -0x8000_0000, 0x7fff_ffff) is Some && connection_from(
            endpoints,
            0,
        ) is Err ==> download_request(name, path, run_id, endpoints) == Err::<
            DownloadView,
            PluginErrorView,
        >(PluginErrorView::Connection(connection_from(endpoints, 0)->Err_0)),
{
}

} // verus!
