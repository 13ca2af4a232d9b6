//! Where the runner keeps its files, how it names itself, and why it stops.
use vstd::prelude::*;
use vstd::string::*;

use crate::constants::variables::agent;
use crate::constants::{path, OsPlatform, WellKnownConfigFile, WellKnownDirectory};
use crate::http_client_factory::ProxySettings;
use crate::runner_service::{ShutdownReason, StartupType};
use crate::secret_masker::SecretMasker;
use crate::string_map;
use crate::tracing::{TraceEventType, TraceManager, TraceSetting, Tracing};
use crate::{number, secret_masker, text};

verus! {

/// What a place is counted from.
#[derive(Debug)]
pub enum Anchor {
    /// The directory of the runner's executable.
    Bin,
    /// The directory above it.
    Root,
    /// A path that is given.
    Given(String),
}

/// What a place is counted from.
pub enum AnchorView {
    Bin,
    Root,
    Given(Seq<char>),
}

/// A place on disk: the names below the anchor, from the outside in.
#[derive(Debug)]
pub struct Place {
    pub anchor: Anchor,
    pub below: Vec<String>,
}

/// A place on disk: the names below the anchor, from the outside in.
pub struct PlaceView {
    pub anchor: AnchorView,
    pub below: Seq<Seq<char>>,
}

impl Anchor {
    pub open spec fn view(&self) -> AnchorView {
        match *self {
            Anchor::Bin => AnchorView::Bin,
            Anchor::Root => AnchorView::Root,
            Anchor::Given(p) => AnchorView::Given(p@),
        }
    }
}

impl PlaceView {
    /// The place of that name inside this one.
    pub open spec fn inside(self, name: Seq<char>) -> PlaceView {
        PlaceView { anchor: self.anchor, below: self.below.push(name) }
    }
}

impl Place {
    pub open spec fn view(&self) -> PlaceView {
        PlaceView { anchor: self.anchor@, below: text::views(self.below@) }
    }

    fn at(anchor: Anchor) -> (r: Self)
        ensures
            r@ == (PlaceView { anchor: anchor@, below: Seq::empty() }),
    {
        let r = Place { anchor, below: Vec::new() };
        assert(r@.below =~= Seq::empty());
        r
    }

    fn join(self, name: &str) -> (r: Self)
        ensures
            r@ == self@.inside(name@),
    {
        let ghost before = self.below@;
        let mut below = self.below;
        below.push(name.to_owned());
        assert(text::views(below@) =~= text::views(before).push(name@));
        Place { anchor: self.anchor, below }
    }

    /// The same place.
    pub fn duplicate(&self) -> (r: Self)
        ensures
            r@ == self@,
    {
        let anchor = match &self.anchor {
            Anchor::Bin => Anchor::Bin,
            Anchor::Root => Anchor::Root,
            Anchor::Given(p) => Anchor::Given(p.clone()),
        };
        Place { anchor, below: string_map::copy_texts(&self.below) }
    }
}

/// What an optional place is.
pub open spec fn view_place(p: Option<Place>) -> Option<PlaceView> {
    match p {
        Some(place) => Some(place@),
        None => None,
    }
}

/// The first value that is set.
pub open spec fn first_set(values: Seq<Option<Seq<char>>>) -> Option<Seq<char>>
    decreases values.len(),
{
    if values.len() == 0 {
        None
    } else if values[0] is Some {
        values[0]
    } else {
        first_set(values.skip(1))
    }
}

/// Where the runner is installed.
pub open spec fn root_place(root: Option<Seq<char>>) -> PlaceView {
    PlaceView {
        anchor: match root {
            Some(p) => AnchorView::Given(p),
            None => AnchorView::Root,
        },
        below: Seq::empty(),
    }
}

/// Where jobs work: in the folder that is set, else in the one of the default name.
pub open spec fn work_place(root: Option<Seq<char>>, work: Option<PlaceView>) -> PlaceView {
    match work {
        Some(place) => place,
        None => root_place(root).inside(path::WORK_DIRECTORY@),
    }
}

/// Where a directory is. `root` is the root of the installation and `work` the work folder,
/// as far as they are set. `tools` holds the values of the variables that may name the tools
/// directory: the first one that is set decides, unless it is empty.
pub open spec fn place_of(
    directory: WellKnownDirectory,
    root: Option<Seq<char>>,
    work: Option<PlaceView>,
    tools: Seq<Option<Seq<char>>>,
) -> PlaceView {
    match directory {
        WellKnownDirectory::Bin => PlaceView { anchor: AnchorView::Bin, below: Seq::empty() },
        WellKnownDirectory::Root => root_place(root),
        WellKnownDirectory::Diag => root_place(root).inside(path::DIAG_DIRECTORY@),
        WellKnownDirectory::Externals => root_place(root).inside(path::EXTERNALS_DIRECTORY@),
        WellKnownDirectory::Work => work_place(root, work),
        WellKnownDirectory::Temp => work_place(root, work).inside(path::TEMP_DIRECTORY@),
        WellKnownDirectory::Actions => work_place(root, work).inside(path::ACTIONS_DIRECTORY@),
        WellKnownDirectory::Update => work_place(root, work).inside(path::UPDATE_DIRECTORY@),
        WellKnownDirectory::Tools => match first_set(tools) {
            Some(p) => if p.len() > 0 {
                PlaceView { anchor: AnchorView::Given(p), below: Seq::empty() }
            } else {
                work_place(root, work).inside(path::TOOL_DIRECTORY@)
            },
            None => work_place(root, work).inside(path::TOOL_DIRECTORY@),
        },
    }
}

/// The name of a configuration file.
pub open spec fn config_name(file: WellKnownConfigFile, platform: OsPlatform) -> Seq<char> {
    match file {
        WellKnownConfigFile::Runner => ".runner"@,
        WellKnownConfigFile::MigratedRunner => ".runner_migrated"@,
        WellKnownConfigFile::Credentials => ".credentials"@,
        WellKnownConfigFile::MigratedCredentials => ".credentials_migrated"@,
        WellKnownConfigFile::RSACredentials => ".credentials_rsaparams"@,
        WellKnownConfigFile::Service => ".service"@,
        WellKnownConfigFile::CredentialStore => if platform == OsPlatform::MacOS {
            ".credential_store.keychain"@
        } else {
            ".credential_store"@
        },
        WellKnownConfigFile::Certificates => ".certificates"@,
        WellKnownConfigFile::Options => ".options"@,
        WellKnownConfigFile::SetupInfo => ".setup_info"@,
        WellKnownConfigFile::Telemetry => ".telemetry"@,
    }
}

/// Where a configuration file is: in the root of the installation, the telemetry file among
/// the diagnostics.
pub open spec fn config_place(
    file: WellKnownConfigFile,
    platform: OsPlatform,
    root: Option<Seq<char>>,
) -> PlaceView {
    if file == WellKnownConfigFile::Telemetry {
        root_place(root).inside(path::DIAG_DIRECTORY@).inside(config_name(file, platform))
    } else {
        root_place(root).inside(config_name(file, platform))
    }
}

fn config_file_name(file: WellKnownConfigFile, platform: OsPlatform) -> (r: &'static str)
    ensures
        r@ == config_name(file, platform),
{
    match file {
        WellKnownConfigFile::Runner => ".runner",
        WellKnownConfigFile::MigratedRunner => ".runner_migrated",
        WellKnownConfigFile::Credentials => ".credentials",
        WellKnownConfigFile::MigratedCredentials => ".credentials_migrated",
        WellKnownConfigFile::RSACredentials => ".credentials_rsaparams",
        WellKnownConfigFile::Service => ".service",
        WellKnownConfigFile::CredentialStore => match platform {
            OsPlatform::MacOS => ".credential_store.keychain",
            _ => ".credential_store",
        },
        WellKnownConfigFile::Certificates => ".certificates",
        WellKnownConfigFile::Options => ".options",
        WellKnownConfigFile::SetupInfo => ".setup_info",
        WellKnownConfigFile::Telemetry => ".telemetry",
    }
}

/// The variables that may name the tools directory, in the order in which they are looked at.
pub fn tools_variables() -> (r: Vec<&'static str>)
    ensures
        r@.map_values(|s: &'static str| s@) == seq![
            "RUNNER_TOOL_CACHE"@,
            "RUNNER_TOOLSDIRECTORY"@,
            "AGENT_TOOLSDIRECTORY"@,
            agent::TOOLS_DIRECTORY@,
        ],
{
    let mut r: Vec<&'static str> = Vec::new();
    r.push("RUNNER_TOOL_CACHE");
    r.push("RUNNER_TOOLSDIRECTORY");
    r.push("AGENT_TOOLSDIRECTORY");
    r.push(agent::TOOLS_DIRECTORY);
    assert(r@.map_values(|s: &'static str| s@) =~= seq![
        "RUNNER_TOOL_CACHE"@,
        "RUNNER_TOOLSDIRECTORY"@,
        "AGENT_TOOLSDIRECTORY"@,
        agent::TOOLS_DIRECTORY@,
    ]);
    r
}

/// What optional texts hold.
pub open spec fn option_views(v: Seq<Option<String>>) -> Seq<Option<Seq<char>>> {
    v.map_values(|s: Option<String>| text::view_option(s))
}

fn find_first_set(values: &Vec<Option<String>>) -> (r: Option<String>)
    ensures
        text::view_option(r) == first_set(option_views(values@)),
{
    let ghost all = option_views(values@);
    let mut i: usize = 0;
    assert(all.skip(0) == all);
    while i < values.len()
        invariant
            i <= values@.len(),
            all == option_views(values@),
            first_set(all) == first_set(all.skip(i as int)),
        decreases values@.len() - i,
    {
        assert(all.skip(i as int)[0] == text::view_option(values@[i as int]));
        assert(all.skip(i as int).skip(1) == all.skip(i + 1));
        if values[i].is_some() {
            return text::copy_option(&values[i]);
        }
        i = i + 1;
    }
    None
}

// ---------------------------------------------------------------------------
// User agents
// ---------------------------------------------------------------------------

/// The user agent of every request.
pub open spec fn user_agent(package: Seq<char>, version: Seq<char>) -> Seq<char> {
    "GitHubActionsRunner-"@ + package + "/"@ + version
}

/// The user agent of every request.
pub fn default_user_agent(package: &str, version: &str) -> (r: String)
    ensures
        r@ == user_agent(package@, version@),
{
    let mut s = "GitHubActionsRunner-".to_owned();
    s.append(package);
    s.append("/");
    s.append(version);
    s
}

/// What further user agents tell of the process.
#[derive(Debug)]
pub struct ProcessInfo {
    pub commit_hash: String,
    pub extra_user_agent: Option<String>,
    pub process_id: u32,
    /// The time at which the process was started.
    pub creation_time: String,
}

/// The further user agents: whether there is a proxy, the commit that was built, what the
/// environment adds, the process, the time and the kind of the process.
pub open spec fn further_agents(
    proxy_configured: bool,
    info: ProcessInfo,
    host_type: Seq<char>,
) -> Seq<Seq<char>> {
    (if proxy_configured {
        seq!["HttpProxyConfigured/true"@]
    } else {
        Seq::empty()
    }) + seq!["CommitSHA/"@ + info.commit_hash@] + (match info.extra_user_agent {
        Some(extra) => if extra@.len() > 0 {
            seq![extra@]
        } else {
            Seq::empty()
        },
        None => Seq::empty(),
    }) + seq![
        "Pid/"@ + number::decimal(info.process_id as int),
        "CreationTime/"@ + info.creation_time@,
        "("@ + host_type + ")"@,
    ]
}

fn list_agents(proxy_configured: bool, info: &ProcessInfo, host_type: &str) -> (r: Vec<String>)
    ensures
        text::views(r@) == further_agents(proxy_configured, *info, host_type@),
{
    let mut out: Vec<String> = Vec::new();
    if proxy_configured {
        out.push("HttpProxyConfigured/true".to_owned());
    }
    let mut commit = "CommitSHA/".to_owned();
    commit.append(info.commit_hash.as_str());
    out.push(commit);
    if let Some(extra) = &info.extra_user_agent {
        if !text::is_empty(extra.as_str()) {
            out.push(extra.clone());
        }
    }
    let mut pid = "Pid/".to_owned();
    pid.append(number::u64_text(info.process_id as u64).as_str());
    out.push(pid);
    let mut time = "CreationTime/".to_owned();
    time.append(info.creation_time.as_str());
    out.push(time);
    let mut host = "(".to_owned();
    host.append(host_type);
    host.append(")");
    out.push(host);
    assert(text::views(out@) =~= further_agents(proxy_configured, *info, host_type@));
    out
}

// ---------------------------------------------------------------------------
// The context
// ---------------------------------------------------------------------------

/// The secrets among the proxy settings.
pub open spec fn proxy_secrets(proxy: ProxySettings) -> Seq<Seq<char>> {
    let first = match proxy.http_password {
        Some(p) => secret_masker::registered(Seq::empty(), p@),
        None => Seq::empty(),
    };
    match proxy.https_password {
        Some(p) => secret_masker::registered(first, p@),
        None => first,
    }
}

/// What every part of the runner shares.
#[derive(Debug)]
pub struct HostContext {
    host_type: String,
    shutdown_reason: Option<ShutdownReason>,
    pub secret_masker: SecretMasker,
    web_proxy: ProxySettings,
    user_agents: Vec<String>,
    pub startup_type: StartupType,
    trace_manager: TraceManager,
    root_override: Option<String>,
    work_folder: Option<Place>,
}

/// What every part of the runner shares.
pub struct HostView {
    pub host_type: Seq<char>,
    pub shutdown_reason: Option<ShutdownReason>,
    pub secrets: Seq<Seq<char>>,
    pub proxy: ProxySettings,
    pub user_agents: Seq<Seq<char>>,
    pub startup_type: StartupType,
    pub trace_setting: TraceSetting,
    pub root: Option<Seq<char>>,
    pub work: Option<PlaceView>,
}

impl HostContext {
    pub closed spec fn view(&self) -> HostView {
        HostView {
            host_type: self.host_type@,
            shutdown_reason: self.shutdown_reason,
            secrets: self.secret_masker.secrets(),
            proxy: self.web_proxy,
            user_agents: text::views(self.user_agents@),
            startup_type: self.startup_type,
            trace_setting: self.trace_manager.settings(),
            root: text::view_option(self.root_override),
            work: view_place(self.work_folder),
        }
    }

    /// A new context. The proxies' passwords are secrets. `print_to_stdout` is what the
    /// environment says of printing trace lines.
    pub fn new(
        host_type: &str,
        web_proxy: ProxySettings,
        print_to_stdout: Option<bool>,
        package: &str,
        version: &str,
    ) -> (r: Self)
        requires
            host_type@.len() > 0,
        ensures
            r@ == (HostView {
                host_type: host_type@,
                shutdown_reason: None,
                secrets: proxy_secrets(web_proxy),
                proxy: web_proxy,
                user_agents: seq![user_agent(package@, version@)],
                startup_type: StartupType::Manual,
                trace_setting: TraceSetting {
                    level: TraceEventType::Verbose,
                    print_to_stdout: print_to_stdout == Some(true),
                },
                root: None,
                work: None,
            }),
    {
        let mut secret_masker = SecretMasker::new();
        if let Some(password) = &web_proxy.http_password {
            secret_masker.add_value(password.as_str());
        }
        if let Some(password) = &web_proxy.https_password {
            secret_masker.add_value(password.as_str());
        }
        let print = match print_to_stdout {
            Some(value) => value,
            None => false,
        };
        let setting = TraceSetting { level: TraceEventType::Verbose, print_to_stdout: print };
        let mut user_agents: Vec<String> = Vec::new();
        user_agents.push(default_user_agent(package, version));
        assert(text::views(user_agents@) =~= seq![user_agent(package@, version@)]);
        HostContext {
            host_type: host_type.to_owned(),
            shutdown_reason: None,
            secret_masker,
            web_proxy,
            user_agents,
            startup_type: StartupType::Manual,
            trace_manager: TraceManager::with_setting(setting),
            root_override: None,
            work_folder: None,
        }
    }

    /// Which process this is.
    pub fn host_type(&self) -> (r: &str)
        ensures
            r@ == self@.host_type,
    {
        self.host_type.as_str()
    }

    /// The proxies that the environment names.
    pub fn web_proxy(&self) -> (r: &ProxySettings)
        ensures
            *r == self@.proxy,
    {
        &self.web_proxy
    }

    /// The user agents that go with requests.
    pub fn user_agents(&self) -> (r: &Vec<String>)
        ensures
            text::views(r@) == self@.user_agents,
    {
        &self.user_agents
    }

    /// Puts the root of the installation elsewhere.
    pub fn set_root_override(&mut self, path: &str)
        ensures
            final(self)@ == (HostView { root: Some(path@), ..old(self)@ }),
    {
        self.root_override = Some(path.to_owned());
    }

    fn root(&self) -> (r: Place)
        ensures
            r@ == root_place(self@.root),
    {
        match &self.root_override {
            Some(p) => Place::at(Anchor::Given(p.clone())),
            None => Place::at(Anchor::Root),
        }
    }

    fn work(&self) -> (r: Place)
        ensures
            r@ == work_place(self@.root, self@.work),
    {
        match &self.work_folder {
            Some(place) => place.duplicate(),
            None => self.root().join(path::WORK_DIRECTORY),
        }
    }

    /// Where a directory is. `tools` holds the values of the variables that may name the tools
    /// directory.
    pub fn get_directory(&self, directory: WellKnownDirectory, tools: &Vec<Option<String>>) -> (r:
        Place)
        ensures
            r@ == place_of(directory, self@.root, self@.work, option_views(tools@)),
    {
        match directory {
            WellKnownDirectory::Bin => Place::at(Anchor::Bin),
            WellKnownDirectory::Root => self.root(),
            WellKnownDirectory::Diag => self.root().join(path::DIAG_DIRECTORY),
            WellKnownDirectory::Externals => self.root().join(path::EXTERNALS_DIRECTORY),
            WellKnownDirectory::Work => self.work(),
            WellKnownDirectory::Temp => self.work().join(path::TEMP_DIRECTORY),
            WellKnownDirectory::Actions => self.work().join(path::ACTIONS_DIRECTORY),
            WellKnownDirectory::Update => self.work().join(path::UPDATE_DIRECTORY),
            WellKnownDirectory::Tools => {
                if let Some(p) = find_first_set(tools) {
                    if !text::is_empty(p.as_str()) {
                        return Place::at(Anchor::Given(p));
                    }
                }
                self.work().join(path::TOOL_DIRECTORY)
            },
        }
    }

    /// Sets the work folder. One that is not `absolute` is inside the root of the
    /// installation, as that stands now.
    pub fn set_work_folder(&mut self, work_folder: &str, absolute: bool)
        ensures
            final(self)@ == (HostView {
                work: Some(
                    if absolute {
                        PlaceView {
                            anchor: AnchorView::Given(work_folder@),
                            below: Seq::empty(),
                        }
                    } else {
                        root_place(old(self)@.root).inside(work_folder@)
                    },
                ),
                ..old(self)@
            }),
    {
        let place = if absolute {
            Place::at(Anchor::Given(work_folder.to_owned()))
        } else {
            self.root().join(work_folder)
        };
        self.work_folder = Some(place);
    }

    /// The work folder, if it is set.
    pub fn get_work_folder_override(&self) -> (r: Option<Place>)
        ensures
            view_place(r) == self@.work,
    {
        match &self.work_folder {
            Some(place) => Some(place.duplicate()),
            None => None,
        }
    }

    /// Where a configuration file is.
    pub fn get_config_file(&self, file: WellKnownConfigFile, platform: OsPlatform) -> (r: Place)
        ensures
            r@ == config_place(file, platform, self@.root),
    {
        let folder = match file {
            WellKnownConfigFile::Telemetry => self.root().join(path::DIAG_DIRECTORY),
            _ => self.root(),
        };
        folder.join(config_file_name(file, platform))
    }

    /// The source of trace lines with a name.
    pub fn get_trace(&self, name: &str) -> (r: Tracing)
        ensures
            r.source() == name@,
            r.settings() == self@.trace_setting,
    {
        self.trace_manager.get(name)
    }

    /// Why the runner is being shut down, if it is.
    pub fn runner_shutdown_reason(&self) -> (r: Option<ShutdownReason>)
        ensures
            r == self@.shutdown_reason,
    {
        self.shutdown_reason
    }

    /// Begins to shut the runner down. The result is what is traced of it.
    pub fn shutdown_runner(&mut self, reason: ShutdownReason) -> (r: String)
        ensures
            final(self)@ == (HostView { shutdown_reason: Some(reason), ..old(self)@ }),
            r@ == "Runner will be shutdown for "@ + reason.text(),
    {
        self.shutdown_reason = Some(reason);
        let mut s = "Runner will be shutdown for ".to_owned();
        s.append(reason.name());
        s
    }

    /// Adds the further user agents.
    pub fn load_default_user_agents(&mut self, info: &ProcessInfo)
        ensures
            final(self)@ == (HostView {
                user_agents: old(self)@.user_agents + further_agents(
                    old(self)@.proxy.http_address is Some || old(self)@.proxy.https_address is Some,
                    *info,
                    old(self)@.host_type,
                ),
                ..old(self)@
            }),
    {
        let proxied = self.web_proxy.http_address.is_some()
            || self.web_proxy.https_address.is_some();
        let mut more = list_agents(proxied, info, self.host_type.as_str());
        let ghost before = self.user_agents@;
        let ghost added = more@;
        self.user_agents.append(&mut more);
        assert(text::views(self.user_agents@) =~= text::views(before) + text::views(added));
    }
}

// ---------------------------------------------------------------------------
// Laws
// ---------------------------------------------------------------------------

/// The first value that is set is the one that counts; unset ones before it do not matter,
/// nor does what stands behind it.
pub proof fn law_first_set_counts(
    unset: nat,
    value: Seq<char>,
    after: Seq<Option<Seq<char>>>,
)
    ensures
        first_set(Seq::new(unset, |i: int| None) + seq![Some(value)] + after) == Some(value),
        first_set(Seq::new(unset, |i: int| None)) is None,
    decreases unset,
{
    let front: Seq<Option<Seq<char>>> = Seq::new(unset, |i: int| None);
    let all = front + seq![Some(value)] + after;
    if unset > 0 {
        let shorter: Seq<Option<Seq<char>>> = Seq::new((unset - 1) as nat, |i: int| None);
        law_first_set_counts((unset - 1) as nat, value, after);
        assert(front.skip(1) == shorter);
        assert(all.skip(1) == shorter + seq![Some(value)] + after);
        assert(all[0] == None::<Seq<char>>);
        assert(front[0] == None::<Seq<char>>);
    } else {
        assert(all[0] == Some(value));
        assert(front.len() == 0);
    }
}

/// Diagnostics and externals are in the root of the installation; what jobs leave behind is
/// in the work folder, under a name of its own each.
pub proof fn law_directories_nest(
    root: Option<Seq<char>>,
    work: Option<PlaceView>,
    tools: Seq<Option<Seq<char>>>,
)
    ensures
        ({
            let base = place_of(WellKnownDirectory::Root, root, work, tools);
            let jobs = place_of(WellKnownDirectory::Work, root, work, tools);
            &&& place_of(WellKnownDirectory::Diag, root, work, tools) == base.inside("_diag"@)
            &&& place_of(WellKnownDirectory::Externals, root, work, tools) == base.inside(
                "externals"@,
            )
            &&& place_of(WellKnownDirectory::Temp, root, work, tools) == jobs.inside("_temp"@)
            &&& place_of(WellKnownDirectory::Actions, root, work, tools) == jobs.inside(
                "_actions"@,
            )
            &&& place_of(WellKnownDirectory::Update, root, work, tools) == jobs.inside("_update"@)
            &&& place_of(WellKnownDirectory::Bin, root, work, tools) == (PlaceView {
                anchor: AnchorView::Bin,
                below: Seq::empty(),
            })
        }),
{
}

/// The root and the work folder are where they are put; a work folder that is not set is in
/// the root.
pub proof fn law_settings_place_root_and_work(
    root: Option<Seq<char>>,
    work: Option<PlaceView>,
    tools: Seq<Option<Seq<char>>>,
    path: Seq<char>,
    place: PlaceView,
)
    ensures
        root == Some(path) ==> place_of(WellKnownDirectory::Root, root, work, tools) == (PlaceView {
            anchor: AnchorView::Given(path),
            below: Seq::empty(),
        }),
        root is None ==> place_of(WellKnownDirectory::Root, root, work, tools) == (PlaceView {
            anchor: AnchorView::Root,
            below: Seq::empty(),
        }),
        work == Some(place) ==> place_of(WellKnownDirectory::Work, root, work, tools) == place,
        work is None ==> place_of(WellKnownDirectory::Work, root, work, tools) == place_of(
            WellKnownDirectory::Root,
            root,
            work,
            tools,
        ).inside("_work"@),
{
}

/// The tools directory is the one that the environment names; where it names none, or an
/// empty one, it is in the work folder.
pub proof fn law_environment_places_tools(
    root: Option<Seq<char>>,
    work: Option<PlaceView>,
    tools: Seq<Option<Seq<char>>>,
    path: Seq<char>,
)
    ensures
        ({
            let place = place_of(WellKnownDirectory::Tools, root, work, tools);
            let own = place_of(WellKnownDirectory::Work, root, work, tools).inside("_tool"@);
            &&& first_set(tools) == Some(path) && path.len() > 0 ==> place == (PlaceView {
                anchor: AnchorView::Given(path),
                below: Seq::empty(),
            })
            &&& first_set(tools) == Some(Seq::<char>::empty()) ==> place == own
            &&& first_set(tools) is None ==> place == own
        }),
{
}

proof fn lemma_config_names(file: WellKnownConfigFile, platform: OsPlatform)
    ensures
        config_name(file, platform).len() == match file {
            WellKnownConfigFile::Runner => 7int,
            WellKnownConfigFile::MigratedRunner => 16,
            WellKnownConfigFile::Credentials => 12,
            WellKnownConfigFile::MigratedCredentials => 21,
            WellKnownConfigFile::RSACredentials => 22,
            WellKnownConfigFile::Service => 8,
            WellKnownConfigFile::CredentialStore => if platform == OsPlatform::MacOS {
                26
            } else {
                17
            },
            WellKnownConfigFile::Certificates => 13,
            WellKnownConfigFile::Options => 8,
            WellKnownConfigFile::SetupInfo => 11,
            WellKnownConfigFile::Telemetry => 10,
        },
        file == WellKnownConfigFile::Service ==> config_name(file, platform)[1] == 's',
        file == WellKnownConfigFile::Options ==> config_name(file, platform)[1] == 'o',
{
    reveal_strlit(".runner");
    reveal_strlit(".runner_migrated");
    reveal_strlit(".credentials");
    reveal_strlit(".credentials_migrated");
    reveal_strlit(".credentials_rsaparams");
    reveal_strlit(".service");
    reveal_strlit(".credential_store.keychain");
    reveal_strlit(".credential_store");
    reveal_strlit(".certificates");
    reveal_strlit(".options");
    reveal_strlit(".setup_info");
    reveal_strlit(".telemetry");
}

/// Every configuration file has a place of its own, so that none is written over by another.
pub proof fn law_config_files_are_apart(
    a: WellKnownConfigFile,
    b: WellKnownConfigFile,
    platform: OsPlatform,
    root: Option<Seq<char>>,
)
    requires
        a != b,
    ensures
        config_place(a, platform, root) != config_place(b, platform, root),
{
    lemma_config_names(a, platform);
    lemma_config_names(b, platform);
    let p = config_place(a, platform, root);
    let q = config_place(b, platform, root);
    assert(p.below.last() == config_name(a, platform));
    assert(q.below.last() == config_name(b, platform));
}

/// Configuration files are in the root of the installation, but for the telemetry, which is
/// among the diagnostics.
pub proof fn law_config_files_are_in_root(
    file: WellKnownConfigFile,
    platform: OsPlatform,
    root: Option<Seq<char>>,
    work: Option<PlaceView>,
    tools: Seq<Option<Seq<char>>>,
)
    ensures
        config_place(file, platform, root) == place_of(
            if file == WellKnownConfigFile::Telemetry {
                WellKnownDirectory::Diag
            } else {
                WellKnownDirectory::Root
            },
            root,
            work,
            tools,
        ).inside(config_name(file, platform)),
{
}

/// The further user agents always tell the commit, the process, the time and the kind of the
/// process, in this order at the end; a proxy, and what the environment adds, are told if
/// and only if there are any.
pub proof fn law_agents_tell_process(
    proxy_configured: bool,
    info: ProcessInfo,
    host_type: Seq<char>,
)
    ensures
        ({
            let all = further_agents(proxy_configured, info, host_type);
            let commit = "CommitSHA/"@ + info.commit_hash@;
            let last = seq![
                "Pid/"@ + number::decimal(info.process_id as int),
                "CreationTime/"@ + info.creation_time@,
                "("@ + host_type + ")"@,
            ];
            let extra = info.extra_user_agent matches Some(extra) && extra@.len() > 0;
            &&& proxy_configured && extra ==> all == seq![
                "HttpProxyConfigured/true"@,
                commit,
                info.extra_user_agent->0@,
            ] + last
            &&& proxy_configured && !extra ==> all == seq!["HttpProxyConfigured/true"@, commit]
                + last
            &&& !proxy_configured && extra ==> all == seq![commit, info.extra_user_agent->0@] + last
            &&& !proxy_configured && !extra ==> all == seq![commit] + last
        }),
{
    let all = further_agents(proxy_configured, info, host_type);
    let commit = "CommitSHA/"@ + info.commit_hash@;
    let last = seq![
        "Pid/"@ + number::decimal(info.process_id as int),
        "CreationTime/"@ + info.creation_time@,
        "("@ + host_type + ")"@,
    ];
    let extra = info.extra_user_agent matches Some(extra) && extra@.len() > 0;
    if proxy_configured && extra {
        assert(all =~= seq!["HttpProxyConfigured/true"@, commit, info.extra_user_agent->0@] + last);
    } else if proxy_configured {
        assert(all =~= seq!["HttpProxyConfigured/true"@, commit] + last);
    } else if extra {
        assert(all =~= seq![commit, info.extra_user_agent->0@] + last);
    } else {
        assert(all =~= seq![commit] + last);
    }
}

/// The passwords of both proxies are secrets from the start, unless they are blank.
pub proof fn law_proxy_passwords_are_secret(proxy: ProxySettings)
    ensures
        proxy.http_password matches Some(p) ==> text::trimmed(p@).len() > 0 ==> proxy_secrets(
            proxy,
        ).contains(text::trimmed(p@)),
        proxy.https_password matches Some(p) ==> text::trimmed(p@).len() > 0 ==> proxy_secrets(
            proxy,
        ).contains(text::trimmed(p@)),
{
    let none = Seq::<Seq<char>>::empty();
    let first = match proxy.http_password {
        Some(p) => secret_masker::registered(none, p@),
        None => none,
    };
    if let Some(p) = proxy.http_password {
        if text::trimmed(p@).len() > 0 {
            secret_masker::law_registered_is_known(none, p@);
        }
    }
    if let Some(p) = proxy.https_password {
        if text::trimmed(p@).len() > 0 {
            secret_masker::law_registered_is_known(first, p@);
        }
    }
}

} // verus!
