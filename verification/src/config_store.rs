//! The runner's settings, and the store that keeps them.
use vstd::prelude::*;

use crate::credential_data::{CredentialData, CredentialView};
use crate::url_parts::UrlParts;
use crate::{text, url_parts};

verus! {

/// The settings of a configured runner.
#[derive(Debug)]
pub struct RunnerSettings {
    /// The runner's id.
    pub agent_id: u64,
    /// The runner's name.
    pub agent_name: String,
    /// Whether session recovery is skipped at the start.
    pub skip_session_recover: bool,
    /// The id of the runner group.
    pub pool_id: i32,
    /// The name of the runner group.
    pub pool_name: String,
    /// Whether automatic updates are switched off.
    pub disable_update: bool,
    /// Whether the runner takes a single job.
    pub is_ephemeral: bool,
    /// The URL of the Actions service.
    pub server_url: String,
    /// The URL of the repository, organization or enterprise.
    pub git_hub_url: String,
    /// The work directory.
    pub work_folder: String,
    /// The socket of the supervising process.
    pub monitor_socket_address: Option<String>,
    /// Whether messages come from the broker.
    pub use_v2_flow: bool,
    /// Whether the runner admin flow is used.
    pub use_runner_admin_flow: bool,
    /// The URL of the broker.
    pub server_url_v2: Option<String>,
    /// Whether the server is a hosted one, where that was recorded.
    pub is_hosted_server: Option<bool>,
}

/// What settings say.
pub struct SettingsView {
    pub agent_id: u64,
    pub agent_name: Seq<char>,
    pub skip_session_recover: bool,
    pub pool_id: i32,
    pub pool_name: Seq<char>,
    pub disable_update: bool,
    pub is_ephemeral: bool,
    pub server_url: Seq<char>,
    pub git_hub_url: Seq<char>,
    pub work_folder: Seq<char>,
    pub monitor_socket_address: Option<Seq<char>>,
    pub use_v2_flow: bool,
    pub use_runner_admin_flow: bool,
    pub server_url_v2: Option<Seq<char>>,
    pub is_hosted_server: Option<bool>,
}

/// What the surroundings say about the server.
#[derive(Debug, Clone, Copy, PartialEq, Eq, Structural)]
pub struct HostedHints {
    /// The GitHub URL belongs to a hosted server. Read only where that URL is valid.
    pub github_url_is_hosted: bool,
    /// The environment asks to take the server for a GitHub Enterprise Server.
    pub force_ghes: bool,
    /// The environment asks to take a server without a GitHub URL for a hosted one.
    pub empty_github_url_is_hosted: bool,
}

/// A host name of the Actions service.
pub open spec fn actions_host(host: Seq<char>) -> bool {
    let host = text::lowered(host);
    text::has_suffix(host, ".actions.githubusercontent.com"@) || text::has_suffix(
        host,
        ".codedev.ms"@,
    )
}

/// A host name of the broker.
pub open spec fn broker_host(host: Seq<char>) -> bool {
    let host = text::lowered(host);
    text::has_suffix(host, ".actions.githubusercontent.com"@) || text::has_suffix(
        host,
        ".githubapp.com"@,
    ) || text::has_suffix(host, ".ghe.com"@) || text::has_suffix(host, ".actions.localhost"@)
        || text::has_suffix(host, ".ghe.localhost"@)
}

/// Whether the server is a hosted one. A recorded answer stands; else a valid GitHub URL
/// decides; else the environment, the host of the service, the host of the broker; and a
/// server of which none of these is known is taken for a hosted one.
pub open spec fn hosted(
    recorded: Option<bool>,
    github_url_empty: bool,
    github_url_valid: bool,
    hints: HostedHints,
    server_host: Option<Seq<char>>,
    broker_url_host: Option<Seq<char>>,
) -> bool {
    match recorded {
        Some(v) => v,
        None => if !github_url_empty && github_url_valid {
            hints.github_url_is_hosted
        } else if hints.force_ghes {
            false
        } else if github_url_empty && hints.empty_github_url_is_hosted {
            true
        } else {
            match server_host {
                Some(host) => actions_host(host),
                None => match broker_url_host {
                    Some(host) => broker_host(host),
                    None => true,
                },
            }
        },
    }
}

/// The host of a URL; an empty or invalid URL has none.
pub open spec fn host_of(url: Seq<char>) -> Option<Seq<char>> {
    if url.len() == 0 {
        None
    } else {
        match url_parts::parsed_url(url) {
            Ok((_, host, _)) => host,
            Err(_) => None,
        }
    }
}

fn url_host(url: &str) -> (r: Option<String>)
    ensures
        text::view_option(r) == host_of(url@),
{
    if text::is_empty(url) {
        None
    } else {
        match url_parts::parse(url) {
            Ok(parts) => parts.host,
            Err(_) => None,
        }
    }
}

/// Whether the server is a hosted one, given what its URLs hold.
pub fn decide_hosted(
    recorded: Option<bool>,
    github_url_empty: bool,
    github_url_valid: bool,
    hints: HostedHints,
    server_host: &Option<String>,
    broker_url_host: &Option<String>,
) -> (r: bool)
    ensures
        r == hosted(
            recorded,
            github_url_empty,
            github_url_valid,
            hints,
            text::view_option(*server_host),
            text::view_option(*broker_url_host),
        ),
{
    if let Some(v) = recorded {
        return v;
    }
    if !github_url_empty && github_url_valid {
        return hints.github_url_is_hosted;
    }
    if hints.force_ghes {
        return false;
    }
    if github_url_empty && hints.empty_github_url_is_hosted {
        return true;
    }
    match server_host {
        Some(host) => {
            let host = text::to_lowercase(host.as_str());
            text::ends_with(host.as_str(), ".actions.githubusercontent.com") || text::ends_with(
                host.as_str(),
                ".codedev.ms",
            )
        },
        None => match broker_url_host {
            Some(host) => {
                let host = text::to_lowercase(host.as_str());
                text::ends_with(host.as_str(), ".actions.githubusercontent.com")
                    || text::ends_with(host.as_str(), ".githubapp.com") || text::ends_with(
                    host.as_str(),
                    ".ghe.com",
                ) || text::ends_with(host.as_str(), ".actions.localhost") || text::ends_with(
                    host.as_str(),
                    ".ghe.localhost",
                )
            },
            None => true,
        },
    }
}

/// The repository or organization that the URLs name: the whole path of the GitHub URL if
/// the service runs on `githubusercontent.com`, else the first segment of the service's
/// path; empty where there is neither. `github_path` is the path of a valid GitHub URL.
pub open spec fn repo_or_org(
    github_path: Option<Seq<char>>,
    server: Option<url_parts::UrlView>,
) -> Seq<char> {
    let by_github = match (github_path, server) {
        (Some(path), Some((_, Some(host), _))) => if text::has_suffix(
            host,
            ".githubusercontent.com"@,
        ) {
            text::trimmed_end_char(text::trimmed_start_char(path, '/'), '/')
        } else {
            Seq::empty()
        },
        _ => Seq::empty(),
    };
    if by_github.len() > 0 {
        by_github
    } else {
        match server {
            Some((_, _, path)) => if path.len() > 0 && path[0] == '/' {
                text::pieces(path.skip(1), '/')[0]
            } else {
                Seq::empty()
            },
            None => Seq::empty(),
        }
    }
}

/// The repository or organization that the parts of the two URLs name.
pub fn repo_or_org_of(github_path: &Option<String>, server: &Option<UrlParts>) -> (r: String)
    ensures
        r@ == repo_or_org(
            text::view_option(*github_path),
            match *server {
                Some(parts) => Some(parts@),
                None => None,
            },
        ),
{
    proof {
        reveal_strlit("/");
        assert("/"@ == seq!['/']);
    }
    if let (Some(path), Some(parts)) = (github_path, server) {
        if let Some(host) = &parts.host {
            if text::ends_with(host.as_str(), ".githubusercontent.com") {
                let start = text::trim_start_char(path.as_str(), '/');
                let name = text::trim_end_char(start.as_str(), '/');
                if !text::is_empty(name.as_str()) {
                    return name;
                }
            }
        }
    }
    match server {
        Some(parts) => match text::strip_prefix(parts.path.as_str(), "/") {
            Some(rest) => {
                assert(parts.path@.subrange(0, 1)[0] == parts.path@[0]);
                let pieces = text::split(rest.as_str(), '/');
                assert(text::views(pieces@).len() > 0);
                assert(text::views(pieces@)[0] == pieces@[0]@);
                pieces[0].clone()
            },
            None => {
                assert(parts.path@.len() > 0 && parts.path@[0] == '/' ==> parts.path@.subrange(0, 1)
                    == seq!['/']);
                String::new()
            },
        },
        None => String::new(),
    }
}

/// The parts of a URL, if it is valid.
pub open spec fn valid_url(url: Seq<char>) -> Option<url_parts::UrlView> {
    match url_parts::parsed_url(url) {
        Ok(parts) => Some(parts),
        Err(_) => None,
    }
}

impl Default for RunnerSettings {
    fn default() -> (r: Self)
        ensures
            r@ == SettingsView::empty(),
    {
        RunnerSettings {
            agent_id: 0,
            agent_name: String::new(),
            skip_session_recover: false,
            pool_id: 0,
            pool_name: String::new(),
            disable_update: false,
            is_ephemeral: false,
            server_url: String::new(),
            git_hub_url: String::new(),
            work_folder: String::new(),
            monitor_socket_address: None,
            use_v2_flow: false,
            use_runner_admin_flow: false,
            server_url_v2: None,
            is_hosted_server: None,
        }
    }
}

impl SettingsView {
    /// Settings that say nothing.
    pub open spec fn empty() -> SettingsView {
        SettingsView {
            agent_id: 0,
            agent_name: Seq::empty(),
            skip_session_recover: false,
            pool_id: 0,
            pool_name: Seq::empty(),
            disable_update: false,
            is_ephemeral: false,
            server_url: Seq::empty(),
            git_hub_url: Seq::empty(),
            work_folder: Seq::empty(),
            monitor_socket_address: None,
            use_v2_flow: false,
            use_runner_admin_flow: false,
            server_url_v2: None,
            is_hosted_server: None,
        }
    }
}

impl RunnerSettings {
    pub open spec fn view(&self) -> SettingsView {
        SettingsView {
            agent_id: self.agent_id,
            agent_name: self.agent_name@,
            skip_session_recover: self.skip_session_recover,
            pool_id: self.pool_id,
            pool_name: self.pool_name@,
            disable_update: self.disable_update,
            is_ephemeral: self.is_ephemeral,
            server_url: self.server_url@,
            git_hub_url: self.git_hub_url@,
            work_folder: self.work_folder@,
            monitor_socket_address: text::view_option(self.monitor_socket_address),
            use_v2_flow: self.use_v2_flow,
            use_runner_admin_flow: self.use_runner_admin_flow,
            server_url_v2: text::view_option(self.server_url_v2),
            is_hosted_server: self.is_hosted_server,
        }
    }

    /// Settings that say the same.
    pub fn duplicate(&self) -> (r: Self)
        ensures
            r@ == self@,
    {
        RunnerSettings {
            agent_id: self.agent_id,
            agent_name: self.agent_name.clone(),
            skip_session_recover: self.skip_session_recover,
            pool_id: self.pool_id,
            pool_name: self.pool_name.clone(),
            disable_update: self.disable_update,
            is_ephemeral: self.is_ephemeral,
            server_url: self.server_url.clone(),
            git_hub_url: self.git_hub_url.clone(),
            work_folder: self.work_folder.clone(),
            monitor_socket_address: text::copy_option(&self.monitor_socket_address),
            use_v2_flow: self.use_v2_flow,
            use_runner_admin_flow: self.use_runner_admin_flow,
            server_url_v2: text::copy_option(&self.server_url_v2),
            is_hosted_server: self.is_hosted_server,
        }
    }

    /// Whether the runner is configured against a hosted server.
    pub fn is_hosted_server(&self, hints: HostedHints) -> (r: bool)
        ensures
            r == hosted(
                self@.is_hosted_server,
                self@.git_hub_url.len() == 0,
                valid_url(self@.git_hub_url) is Some,
                hints,
                host_of(self@.server_url),
                match self@.server_url_v2 {
                    Some(url) => host_of(url),
                    None => None,
                },
            ),
    {
        let empty = text::is_empty(self.git_hub_url.as_str());
        let valid = url_parts::parse(self.git_hub_url.as_str()).is_ok();
        let server_host = url_host(self.server_url.as_str());
        let broker_url_host = match &self.server_url_v2 {
            Some(url) => url_host(url.as_str()),
            None => None,
        };
        decide_hosted(
            self.is_hosted_server,
            empty,
            valid,
            hints,
            &server_host,
            &broker_url_host,
        )
    }

    /// Records whether the server is a hosted one.
    pub fn set_is_hosted_server(&mut self, value: bool)
        ensures
            final(self)@ == (SettingsView { is_hosted_server: Some(value), ..old(self)@ }),
    {
        self.is_hosted_server = Some(value);
    }

    /// The repository or organization that the URLs name, or an empty text.
    pub fn repo_or_org_name(&self) -> (r: String)
        ensures
            r@ == repo_or_org(
                if self@.git_hub_url.len() == 0 {
                    None
                } else {
                    match valid_url(self@.git_hub_url) {
                        Some((_, _, path)) => Some(path),
                        None => None,
                    }
                },
                valid_url(self@.server_url),
            ),
    {
        let github_path = if text::is_empty(self.git_hub_url.as_str()) {
            None
        } else {
            match url_parts::parse(self.git_hub_url.as_str()) {
                Ok(parts) => Some(parts.path),
                Err(_) => None,
            }
        };
        let server = match url_parts::parse(self.server_url.as_str()) {
            Ok(parts) => Some(parts),
            Err(_) => None,
        };
        repo_or_org_of(&github_path, &server)
    }
}

// ---------------------------------------------------------------------------
// The store
// ---------------------------------------------------------------------------

/// Which of the store's files exist.
#[derive(Debug, Clone, Copy, PartialEq, Eq, Structural)]
pub struct ConfigFiles {
    pub settings: bool,
    pub migrated_settings: bool,
    pub credentials: bool,
    pub migrated_credentials: bool,
    pub service: bool,
}

/// What the store remembers of the files that it has read or written.
pub struct StoreView {
    pub settings: Option<SettingsView>,
    pub migrated_settings: Option<SettingsView>,
    pub credentials: Option<CredentialView>,
    pub migrated_credentials: Option<CredentialView>,
}

/// Keeps settings and credentials once they are read or written.
#[derive(Debug)]
pub struct ConfigurationStore {
    root_folder: String,
    settings: Option<RunnerSettings>,
    migrated_settings: Option<RunnerSettings>,
    creds: Option<CredentialData>,
    migrated_creds: Option<CredentialData>,
}

/// What optional settings say.
pub open spec fn view_settings(s: Option<RunnerSettings>) -> Option<SettingsView> {
    match s {
        Some(v) => Some(v@),
        None => None,
    }
}

/// What optional credentials say.
pub open spec fn view_credentials(s: Option<CredentialData>) -> Option<CredentialView> {
    match s {
        Some(v) => Some(v@),
        None => None,
    }
}

/// What a read gives: what is remembered, or else what the file holds.
pub open spec fn read_through<T>(remembered: Option<T>, on_disk: Option<T>) -> Option<T> {
    match remembered {
        Some(_) => remembered,
        None => on_disk,
    }
}

fn copy_settings(s: &Option<RunnerSettings>) -> (r: Option<RunnerSettings>)
    ensures
        view_settings(r) == view_settings(*s),
{
    match s {
        Some(v) => Some(v.duplicate()),
        None => None,
    }
}

fn copy_credentials(s: &Option<CredentialData>) -> (r: Option<CredentialData>)
    ensures
        view_credentials(r) == view_credentials(*s),
{
    match s {
        Some(v) => Some(v.duplicate()),
        None => None,
    }
}

impl ConfigurationStore {
    pub closed spec fn view(&self) -> StoreView {
        StoreView {
            settings: view_settings(self.settings),
            migrated_settings: view_settings(self.migrated_settings),
            credentials: view_credentials(self.creds),
            migrated_credentials: view_credentials(self.migrated_creds),
        }
    }

    /// The root of the installation.
    pub closed spec fn root(&self) -> Seq<char> {
        self.root_folder@
    }

    /// A store that remembers nothing.
    pub fn new(root_folder: String) -> (r: Self)
        ensures
            r.root() == root_folder@,
            r@ == (StoreView {
                settings: None,
                migrated_settings: None,
                credentials: None,
                migrated_credentials: None,
            }),
    {
        ConfigurationStore {
            root_folder,
            settings: None,
            migrated_settings: None,
            creds: None,
            migrated_creds: None,
        }
    }

    /// The root of the installation.
    pub fn root_folder(&self) -> (r: &String)
        ensures
            r@ == self.root(),
    {
        &self.root_folder
    }

    /// Whether the runner has been configured.
    pub fn is_configured(&self, files: ConfigFiles) -> (r: bool)
        ensures
            r == (files.settings || files.migrated_settings),
    {
        files.settings || files.migrated_settings
    }

    /// Whether a service has been configured.
    pub fn is_service_configured(&self, files: ConfigFiles) -> (r: bool)
        ensures
            r == files.service,
    {
        files.service
    }

    /// Whether there are migrated settings.
    pub fn is_migrated_configured(&self, files: ConfigFiles) -> (r: bool)
        ensures
            r == files.migrated_settings,
    {
        files.migrated_settings
    }

    /// Whether there are credentials.
    pub fn has_credentials(&self, files: ConfigFiles) -> (r: bool)
        ensures
            r == (files.credentials || files.migrated_credentials),
    {
        files.credentials || files.migrated_credentials
    }

    /// Whether the settings are remembered, so that the file need not be read.
    pub fn remembers_settings(&self) -> (r: bool)
        ensures
            r == self@.settings is Some,
    {
        self.settings.is_some()
    }

    /// Whether the migrated settings are remembered.
    pub fn remembers_migrated_settings(&self) -> (r: bool)
        ensures
            r == self@.migrated_settings is Some,
    {
        self.migrated_settings.is_some()
    }

    /// Whether the credentials are remembered.
    pub fn remembers_credentials(&self) -> (r: bool)
        ensures
            r == self@.credentials is Some,
    {
        self.creds.is_some()
    }

    /// Whether the migrated credentials are remembered.
    pub fn remembers_migrated_credentials(&self) -> (r: bool)
        ensures
            r == self@.migrated_credentials is Some,
    {
        self.migrated_creds.is_some()
    }

    /// The settings: those that are remembered, or else those that the file holds, which
    /// are then remembered. `None` if the file could not be read.
    pub fn get_settings(&mut self, on_disk: Option<RunnerSettings>) -> (r: Option<RunnerSettings>)
        ensures
            view_settings(r) == read_through(old(self)@.settings, view_settings(on_disk)),
            final(self)@ == (StoreView { settings: view_settings(r), ..old(self)@ }),
            final(self).root() == old(self).root(),
    {
        if self.settings.is_none() {
            self.settings = on_disk;
        }
        copy_settings(&self.settings)
    }

    /// The migrated settings, in the same way.
    pub fn get_migrated_settings(&mut self, on_disk: Option<RunnerSettings>) -> (r: Option<
        RunnerSettings,
    >)
        ensures
            view_settings(r) == read_through(old(self)@.migrated_settings, view_settings(on_disk)),
            final(self)@ == (StoreView { migrated_settings: view_settings(r), ..old(self)@ }),
            final(self).root() == old(self).root(),
    {
        if self.migrated_settings.is_none() {
            self.migrated_settings = on_disk;
        }
        copy_settings(&self.migrated_settings)
    }

    /// The credentials, in the same way.
    pub fn get_credentials(&mut self, on_disk: Option<CredentialData>) -> (r: Option<
        CredentialData,
    >)
        ensures
            view_credentials(r) == read_through(old(self)@.credentials, view_credentials(on_disk)),
            final(self)@ == (StoreView { credentials: view_credentials(r), ..old(self)@ }),
            final(self).root() == old(self).root(),
    {
        if self.creds.is_none() {
            self.creds = on_disk;
        }
        copy_credentials(&self.creds)
    }

    /// The migrated credentials, in the same way.
    pub fn get_migrated_credentials(&mut self, on_disk: Option<CredentialData>) -> (r: Option<
        CredentialData,
    >)
        ensures
            view_credentials(r) == read_through(
                old(self)@.migrated_credentials,
                view_credentials(on_disk),
            ),
            final(self)@ == (StoreView { migrated_credentials: view_credentials(r), ..old(self)@ }),
            final(self).root() == old(self).root(),
    {
        if self.migrated_creds.is_none() {
            self.migrated_creds = on_disk;
        }
        copy_credentials(&self.migrated_creds)
    }

    /// Remembers settings that were written to their file.
    pub fn save_settings(&mut self, settings: &RunnerSettings)
        ensures
            final(self)@ == (StoreView { settings: Some(settings@), ..old(self)@ }),
            final(self).root() == old(self).root(),
    {
        self.settings = Some(settings.duplicate());
    }

    /// Remembers migrated settings that were written to their file.
    pub fn save_migrated_settings(&mut self, settings: &RunnerSettings)
        ensures
            final(self)@ == (StoreView { migrated_settings: Some(settings@), ..old(self)@ }),
            final(self).root() == old(self).root(),
    {
        self.migrated_settings = Some(settings.duplicate());
    }

    /// Remembers credentials that were written to their file.
    pub fn save_credential(&mut self, credential: &CredentialData)
        ensures
            final(self)@ == (StoreView { credentials: Some(credential@), ..old(self)@ }),
            final(self).root() == old(self).root(),
    {
        self.creds = Some(credential.duplicate());
    }

    /// Remembers migrated credentials that were written to their file.
    pub fn save_migrated_credential(&mut self, credential: &CredentialData)
        ensures
            final(self)@ == (StoreView { migrated_credentials: Some(credential@), ..old(self)@ }),
            final(self).root() == old(self).root(),
    {
        self.migrated_creds = Some(credential.duplicate());
    }

    /// Forgets both kinds of credentials, whose files were deleted.
    pub fn delete_credential(&mut self)
        ensures
            final(self)@ == (StoreView {
                credentials: None,
                migrated_credentials: None,
                ..old(self)@
            }),
            final(self).root() == old(self).root(),
    {
        self.creds = None;
        self.migrated_creds = None;
    }

    /// Forgets the migrated credentials, whose file was deleted.
    pub fn delete_migrated_credential(&mut self)
        ensures
            final(self)@ == (StoreView { migrated_credentials: None, ..old(self)@ }),
            final(self).root() == old(self).root(),
    {
        self.migrated_creds = None;
    }

    /// Forgets both kinds of settings, whose files were deleted.
    pub fn delete_settings(&mut self)
        ensures
            final(self)@ == (StoreView { settings: None, migrated_settings: None, ..old(self)@ }),
            final(self).root() == old(self).root(),
    {
        self.settings = None;
        self.migrated_settings = None;
    }

    /// Whether the settings point to a hosted server.
    pub fn is_hosted_server(settings: &RunnerSettings, hints: HostedHints) -> (r: bool)
        ensures
            r == hosted(
                settings@.is_hosted_server,
                settings@.git_hub_url.len() == 0,
                valid_url(settings@.git_hub_url) is Some,
                hints,
                host_of(settings@.server_url),
                match settings@.server_url_v2 {
                    Some(url) => host_of(url),
                    None => None,
                },
            ),
    {
        settings.is_hosted_server(hints)
    }
}

/// What was saved, or read once, is what every later read gives, whatever the file holds
/// by then.
pub proof fn law_remembered_wins<T>(value: T, on_disk: Option<T>)
    ensures
        read_through(Some(value), on_disk) == Some(value),
        read_through(read_through(None, Some(value)), on_disk) == Some(value),
{
}

/// Once deleted, what is read is what the file holds.
pub proof fn law_deleted_is_reread<T>(on_disk: Option<T>)
    ensures
        read_through(None::<T>, on_disk) == on_disk,
{
}

/// A recorded answer is never overruled.
pub proof fn law_recorded_hosted_wins(
    value: bool,
    github_url_empty: bool,
    github_url_valid: bool,
    hints: HostedHints,
    server_host: Option<Seq<char>>,
    broker_url_host: Option<Seq<char>>,
)
    ensures
        hosted(
            Some(value),
            github_url_empty,
            github_url_valid,
            hints,
            server_host,
            broker_url_host,
        ) == value,
{
}

/// Where nothing is recorded, a valid GitHub URL decides alone, whatever else is known.
pub proof fn law_github_url_decides_hosted(
    hints: HostedHints,
    server_host: Option<Seq<char>>,
    broker_url_host: Option<Seq<char>>,
)
    ensures
        hosted(None, false, true, hints, server_host, broker_url_host)
            == hints.github_url_is_hosted,
{
}

/// Without a recorded answer and a valid GitHub URL the environment decides, if it says
/// anything: that the server is an enterprise server, or that one without a GitHub URL is
/// hosted.
pub proof fn law_environment_decides_hosted(
    github_url_empty: bool,
    github_url_valid: bool,
    hints: HostedHints,
    server_host: Option<Seq<char>>,
    broker_url_host: Option<Seq<char>>,
)
    requires
        github_url_empty || !github_url_valid,
    ensures
        ({
            let answer = hosted(
                None,
                github_url_empty,
                github_url_valid,
                hints,
                server_host,
                broker_url_host,
            );
            &&& hints.force_ghes ==> !answer
            &&& !hints.force_ghes && github_url_empty && hints.empty_github_url_is_hosted ==> answer
        }),
{
}

/// Without any of these the host of the service decides; without that the host of the
/// broker; and a server of which nothing is known is a hosted one.
pub proof fn law_hosts_decide_hosted(
    github_url_empty: bool,
    github_url_valid: bool,
    hints: HostedHints,
    host: Seq<char>,
    broker: Option<Seq<char>>,
)
    requires
        github_url_empty || !github_url_valid,
        !hints.force_ghes,
        !(github_url_empty && hints.empty_github_url_is_hosted),
    ensures
        hosted(None, github_url_empty, github_url_valid, hints, Some(host), broker)
            == actions_host(host),
        hosted(None, github_url_empty, github_url_valid, hints, None, Some(host)) == broker_host(
            host,
        ),
        hosted(None, github_url_empty, github_url_valid, hints, None, None),
{
}

proof fn lemma_lowered_suffix(front: Seq<char>, domain: Seq<char>)
    requires
        text::all_ascii(front),
        text::all_ascii(domain),
        text::ascii_lowered(domain) == domain,
    ensures
        text::has_suffix(text::lowered(front + domain), domain),
{
    let whole = front + domain;
    assert forall|i: int| 0 <= i < whole.len() implies (#[trigger] whole[i]) <= '\u{7f}' by {
        if i < front.len() {
            assert(whole[i] == front[i]);
        } else {
            assert(whole[i] == domain[i - front.len()]);
        }
    }
    let low = text::lowered(whole);
    assert(low == text::ascii_lowered(whole));
    let n = front.len() as int;
    assert forall|i: int| 0 <= i < domain.len() implies low[n + i] == domain[i] by {
        assert(whole[n + i] == domain[i]);
        assert(text::ascii_lowered(domain)[i] == domain[i]);
    }
    assert(low.subrange(n, n + domain.len()) == domain);
}

/// Every host in the domains of the Actions service is one of its hosts, and every host in
/// the domains of the broker one of the broker's.
pub proof fn law_domains_are_known(front: Seq<char>)
    requires
        text::all_ascii(front),
    ensures
        actions_host(front + ".actions.githubusercontent.com"@),
        actions_host(front + ".codedev.ms"@),
        broker_host(front + ".actions.githubusercontent.com"@),
        broker_host(front + ".githubapp.com"@),
        broker_host(front + ".ghe.com"@),
        broker_host(front + ".actions.localhost"@),
        broker_host(front + ".ghe.localhost"@),
{
    reveal_strlit(".actions.githubusercontent.com");
    reveal_strlit(".codedev.ms");
    reveal_strlit(".githubapp.com");
    reveal_strlit(".ghe.com");
    reveal_strlit(".actions.localhost");
    reveal_strlit(".ghe.localhost");
    assert(text::ascii_lowered(".actions.githubusercontent.com"@)
        =~= ".actions.githubusercontent.com"@);
    assert(text::ascii_lowered(".codedev.ms"@) =~= ".codedev.ms"@);
    assert(text::ascii_lowered(".githubapp.com"@) =~= ".githubapp.com"@);
    assert(text::ascii_lowered(".ghe.com"@) =~= ".ghe.com"@);
    assert(text::ascii_lowered(".actions.localhost"@) =~= ".actions.localhost"@);
    assert(text::ascii_lowered(".ghe.localhost"@) =~= ".ghe.localhost"@);
    lemma_lowered_suffix(front, ".actions.githubusercontent.com"@);
    lemma_lowered_suffix(front, ".codedev.ms"@);
    lemma_lowered_suffix(front, ".githubapp.com"@);
    lemma_lowered_suffix(front, ".ghe.com"@);
    lemma_lowered_suffix(front, ".actions.localhost"@);
    lemma_lowered_suffix(front, ".ghe.localhost"@);
}

/// Where the service runs on `githubusercontent.com`, the whole path of the GitHub URL, with
/// all its segments, names the repository or organization; slashes around it do not count.
pub proof fn law_name_is_github_path(
    front: nat,
    name: Seq<char>,
    back: nat,
    scheme: Seq<char>,
    host: Seq<char>,
    path: Seq<char>,
)
    requires
        name.len() > 0,
        name[0] != '/',
        name.last() != '/',
    ensures
        repo_or_org(
            Some(text::repeated('/', front) + name + text::repeated('/', back)),
            Some((scheme, Some(host + ".githubusercontent.com"@), path)),
        ) == name,
{
    let domain = ".githubusercontent.com"@;
    let whole = host + domain;
    assert(whole.subrange(whole.len() - domain.len(), whole.len() as int) == domain);
    assert(text::has_suffix(whole, domain));
    let inner = name + text::repeated('/', back);
    assert(text::repeated('/', front) + name + text::repeated('/', back) == text::repeated(
        '/',
        front,
    ) + inner);
    text::law_trimmed_start_char_drops('/', front, inner);
    text::law_trimmed_end_char_drops(name, '/', back);
}

/// On another host, or without a GitHub URL, it is the first segment of the service's path;
/// where there is no service URL, nothing.
pub proof fn law_name_is_first_segment(
    github_path: Option<Seq<char>>,
    scheme: Seq<char>,
    host: Option<Seq<char>>,
    segment: Seq<char>,
    rest: Seq<char>,
)
    requires
        !segment.contains('/'),
        github_path is None || host is None || !text::has_suffix(
            host->0,
            ".githubusercontent.com"@,
        ),
    ensures
        repo_or_org(github_path, Some((scheme, host, seq!['/'] + segment))) == segment,
        repo_or_org(github_path, Some((scheme, host, seq!['/'] + segment + seq!['/'] + rest)))
            == segment,
        repo_or_org(github_path, None) == Seq::<char>::empty(),
{
    assert((seq!['/'] + segment).skip(1) == segment);
    text::law_pieces_of_joined(seq![segment], '/');
    assert(text::joined(seq![segment], seq!['/']) == segment);
    let path = segment + seq!['/'] + rest;
    assert((seq!['/'] + segment + seq!['/'] + rest).skip(1) == path);
    text::lemma_first_index(path, '/');
    let i = text::first_index(path, '/');
    assert(path[segment.len() as int] == '/');
    assert(i == segment.len()) by {
        if i < segment.len() {
            assert(segment[i] == '/');
        }
    }
    assert(path.take(i) == segment);
    assert(text::pieces(path, '/')[0] == segment);
}

} // verus!
