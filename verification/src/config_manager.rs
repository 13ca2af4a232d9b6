//! How a runner is configured and removed.
//!
//! Configuring begins with a questionnaire. Each answer may come from the command line, the
//! environment or the user. When it is complete, the runner is registered and its settings
//! and credentials are stored.
use vstd::prelude::*;
use vstd::string::*;

use crate::codec;
use crate::command_settings::{CommandSettings, Spoken};
use crate::config_store::{RunnerSettings, SettingsView};
use crate::constants::command_line::{args, flags};
use crate::constants::{configuration, path, Architecture, OsPlatform};
use crate::credential_data::{CredentialData, CredentialView};
use crate::prompt_manager::{Prompt, PromptError, PromptManager};
use crate::string_map::StringMap;
use crate::url_parts::{UrlParts, UrlView};
use crate::validators::{ErrorView, ValidationError};
use crate::{
    command_settings, credential_data, number, oauth, prompt_manager, string_map, text, url_parts,
    validators,
};

verus! {

/// The runner group of a runner that names none.
pub const DEFAULT_RUNNER_GROUP: &'static str = "Default";

/// The name of a runner whose host has none.
pub const FALLBACK_RUNNER_NAME: &'static str = "runner";

/// What the user is asked.
#[derive(Debug, Clone, Copy, PartialEq, Eq, Structural)]
pub enum Question {
    Url,
    Token,
    Name,
    Work,
}

/// Why a runner cannot be configured.
#[derive(Debug)]
pub enum ConfigureError {
    /// It is configured already.
    AlreadyConfigured,
    /// An answer is missing, and nobody is there to give it.
    Missing(Question),
    /// An answer is not accepted.
    Invalid(ValidationError),
}

/// Why a runner cannot be configured.
pub enum ConfigureErrorView {
    AlreadyConfigured,
    Missing(Question),
    Invalid(ErrorView),
}

/// What comes next in the questionnaire.
#[derive(Debug)]
pub enum ConfigureStep {
    Ask(Question),
    Fail(ConfigureError),
    Ready,
}

/// What comes next in the questionnaire.
pub enum StepView {
    Ask(Question),
    Fail(ConfigureErrorView),
    Ready,
}

impl ConfigureError {
    pub open spec fn view(&self) -> ConfigureErrorView {
        match *self {
            ConfigureError::AlreadyConfigured => ConfigureErrorView::AlreadyConfigured,
            ConfigureError::Missing(q) => ConfigureErrorView::Missing(q),
            ConfigureError::Invalid(e) => ConfigureErrorView::Invalid(e@),
        }
    }
}

impl ConfigureStep {
    pub open spec fn view(&self) -> StepView {
        match *self {
            ConfigureStep::Ask(q) => StepView::Ask(q),
            ConfigureStep::Fail(e) => StepView::Fail(e@),
            ConfigureStep::Ready => StepView::Ready,
        }
    }
}

/// The words of a question.
pub open spec fn question_text(q: Question) -> Seq<char> {
    match q {
        Question::Url => "Enter the URL of the repository, org, or enterprise"@,
        Question::Token => "Enter the registration token"@,
        Question::Name => "Enter the name of the runner"@,
        Question::Work => "Enter the work folder"@,
    }
}

fn words_of(q: Question) -> (r: &'static str)
    ensures
        r@ == question_text(q),
{
    match q {
        Question::Url => "Enter the URL of the repository, org, or enterprise",
        Question::Token => "Enter the registration token",
        Question::Name => "Enter the name of the runner",
        Question::Work => "Enter the work folder",
    }
}

impl ConfigureError {
    /// The error in words.
    pub fn message(&self) -> (r: String)
        ensures
            r@ == match self@ {
                ConfigureErrorView::AlreadyConfigured =>
                    "Runner is already configured. Use --replace to reconfigure."@,
                ConfigureErrorView::Missing(q) => "Required input '"@ + question_text(q)
                    + "' was not provided and running in unattended mode."@,
                ConfigureErrorView::Invalid(e) => validators::error_text(e),
            },
    {
        match self {
            ConfigureError::AlreadyConfigured =>
                "Runner is already configured. Use --replace to reconfigure.".to_owned(),
            ConfigureError::Missing(q) => PromptError::MissingInput(
                words_of(*q).to_owned(),
            ).message(),
            ConfigureError::Invalid(e) => e.message(),
        }
    }
}

/// The state of the questionnaire, and the choices that need no question.
#[derive(Debug)]
pub struct ConfigureFlow {
    unattended: bool,
    default_name: String,
    url: Option<String>,
    token: Option<String>,
    name: Option<String>,
    work: Option<String>,
    labels: String,
    runner_group: String,
    ephemeral: bool,
    disable_update: bool,
    no_default_labels: bool,
    generate_service_config: bool,
}

/// What the questionnaire holds.
pub struct FlowView {
    pub unattended: bool,
    pub default_name: Seq<char>,
    pub url: Option<Seq<char>>,
    pub token: Option<Seq<char>>,
    pub name: Option<Seq<char>>,
    pub work: Option<Seq<char>>,
    pub labels: Seq<char>,
    pub runner_group: Seq<char>,
    pub ephemeral: bool,
    pub disable_update: bool,
    pub no_default_labels: bool,
    pub generate_service_config: bool,
}

/// An answer, or else a default.
pub open spec fn or_else(a: Option<Seq<char>>, default: Seq<char>) -> Seq<char> {
    match a {
        Some(v) => v,
        None => default,
    }
}

/// The questionnaire at its start: answers that the command line or the environment give are
/// in it. Where nobody is there to ask, so are the defaults.
pub open spec fn first_view(
    args: spec_fn(Seq<char>) -> Option<Seq<char>>,
    flags: spec_fn(Seq<char>) -> bool,
    default_name: Seq<char>,
) -> FlowView {
    let unattended = flags(flags::UNATTENDED@);
    FlowView {
        unattended,
        default_name,
        url: args(args::URL@),
        token: args(args::TOKEN@),
        name: if unattended {
            Some(or_else(args(args::NAME@), default_name))
        } else {
            args(args::NAME@)
        },
        work: if unattended {
            Some(or_else(args(args::WORK@), path::WORK_DIRECTORY@))
        } else {
            args(args::WORK@)
        },
        labels: or_else(args(args::LABELS@), Seq::empty()),
        runner_group: or_else(args(args::RUNNER_GROUP@), DEFAULT_RUNNER_GROUP@),
        ephemeral: flags(flags::EPHEMERAL@),
        disable_update: flags(flags::DISABLE_UPDATE@),
        no_default_labels: flags(flags::NO_DEFAULT_LABELS@),
        generate_service_config: flags(flags::GENERATE_SERVICE_CONFIG@),
    }
}

/// What follows where an answer is missing that has no default.
pub open spec fn missing(flow: FlowView, q: Question) -> StepView {
    if flow.unattended {
        StepView::Fail(ConfigureErrorView::Missing(q))
    } else {
        StepView::Ask(q)
    }
}

/// What comes next: the first answer that is missing is asked for, and the first one that
/// is not accepted ends the questionnaire. `parsed` is what parsing the URL gave.
pub open spec fn next_step(flow: FlowView, parsed: Result<UrlView, Seq<char>>) -> StepView {
    match flow.url {
        None => missing(flow, Question::Url),
        Some(url) => match validators::url_verdict(url, parsed) {
            Some(e) => StepView::Fail(ConfigureErrorView::Invalid(e)),
            None => match flow.token {
                None => missing(flow, Question::Token),
                Some(_) => match flow.name {
                    None => StepView::Ask(Question::Name),
                    Some(name) => match validators::name_verdict(name) {
                        Some(e) => StepView::Fail(ConfigureErrorView::Invalid(e)),
                        None => match flow.work {
                            None => StepView::Ask(Question::Work),
                            Some(_) => StepView::Ready,
                        },
                    },
                },
            },
        },
    }
}

/// The questionnaire once a line answered a question. A blank line leaves a question without
/// a default open.
pub open spec fn answered(flow: FlowView, q: Question, line: Seq<char>) -> FlowView {
    match q {
        Question::Url => FlowView {
            url: match prompt_manager::required(line) {
                Some(v) => Some(v),
                None => flow.url,
            },
            ..flow
        },
        Question::Token => FlowView {
            token: match prompt_manager::required(line) {
                Some(v) => Some(v),
                None => flow.token,
            },
            ..flow
        },
        Question::Name => FlowView {
            name: Some(prompt_manager::or_default(line, flow.default_name)),
            ..flow
        },
        Question::Work => FlowView {
            work: Some(prompt_manager::or_default(line, path::WORK_DIRECTORY@)),
            ..flow
        },
    }
}

fn or_default_text(a: Option<String>, default: &str) -> (r: String)
    ensures
        r@ == or_else(text::view_option(a), default@),
{
    match a {
        Some(v) => v,
        None => default.to_owned(),
    }
}

impl ConfigureFlow {
    pub closed spec fn view(&self) -> FlowView {
        FlowView {
            unattended: self.unattended,
            default_name: self.default_name@,
            url: text::view_option(self.url),
            token: text::view_option(self.token),
            name: text::view_option(self.name),
            work: text::view_option(self.work),
            labels: self.labels@,
            runner_group: self.runner_group@,
            ephemeral: self.ephemeral,
            disable_update: self.disable_update,
            no_default_labels: self.no_default_labels,
            generate_service_config: self.generate_service_config,
        }
    }

    /// Begins to configure. A runner that is configured already is configured anew only on
    /// request. `host_name` is the name of the host, if it has one.
    pub fn start(settings: &CommandSettings, configured: bool, host_name: Option<String>) -> (r:
        Result<ConfigureFlow, ConfigureError>)
        ensures
            match r {
                Ok(flow) => {
                    &&& !configured || command_settings::flag_value(
                        settings@.flags,
                        settings.true_names(),
                        flags::REPLACE@,
                    )
                    &&& flow@ == first_view(
                        |name: Seq<char>|
                            command_settings::arg_value(settings@.args, settings.values(), name),
                        |name: Seq<char>|
                            command_settings::flag_value(
                                settings@.flags,
                                settings.true_names(),
                                name,
                            ),
                        or_else(text::view_option(host_name), FALLBACK_RUNNER_NAME@),
                    )
                },
                Err(e) => {
                    &&& configured && !command_settings::flag_value(
                        settings@.flags,
                        settings.true_names(),
                        flags::REPLACE@,
                    )
                    &&& e@ == ConfigureErrorView::AlreadyConfigured
                },
            },
    {
        if configured && !settings.is_replace() {
            return Err(ConfigureError::AlreadyConfigured);
        }
        proof {
            reveal_strlit("");
            assert(""@ == Seq::<char>::empty());
        }
        let default_name = or_default_text(host_name, FALLBACK_RUNNER_NAME);
        let unattended = settings.is_unattended();
        let name = match settings.get_name() {
            Some(name) => Some(name),
            None => if unattended {
                Some(default_name.clone())
            } else {
                None
            },
        };
        let work = match settings.get_work() {
            Some(work) => Some(work),
            None => if unattended {
                Some(path::WORK_DIRECTORY.to_owned())
            } else {
                None
            },
        };
        Ok(
            ConfigureFlow {
                unattended,
                default_name,
                url: settings.get_url(),
                token: settings.get_token(),
                name,
                work,
                labels: or_default_text(settings.get_labels(), ""),
                runner_group: or_default_text(settings.get_runner_group(), DEFAULT_RUNNER_GROUP),
                ephemeral: settings.is_ephemeral(),
                disable_update: settings.is_disable_update(),
                no_default_labels: settings.is_no_default_labels(),
                generate_service_config: settings.is_generate_service_config(),
            },
        )
    }

    /// What comes next, given what parsing the URL gave.
    pub fn next_given(&self, parsed: Result<UrlParts, String>) -> (r: ConfigureStep)
        ensures
            r@ == next_step(self@, url_parts::view_parsed(parsed)),
    {
        match &self.url {
            None => if self.unattended {
                ConfigureStep::Fail(ConfigureError::Missing(Question::Url))
            } else {
                ConfigureStep::Ask(Question::Url)
            },
            Some(url) => {
                if let Err(e) = validators::check_url(url.as_str(), parsed) {
                    return ConfigureStep::Fail(ConfigureError::Invalid(e));
                }
                if self.token.is_none() {
                    return if self.unattended {
                        ConfigureStep::Fail(ConfigureError::Missing(Question::Token))
                    } else {
                        ConfigureStep::Ask(Question::Token)
                    };
                }
                match &self.name {
                    None => ConfigureStep::Ask(Question::Name),
                    Some(name) => {
                        if let Err(e) = validators::validate_runner_name(name.as_str()) {
                            return ConfigureStep::Fail(ConfigureError::Invalid(e));
                        }
                        if self.work.is_none() {
                            ConfigureStep::Ask(Question::Work)
                        } else {
                            ConfigureStep::Ready
                        }
                    },
                }
            },
        }
    }

    /// What comes next.
    pub fn next(&self) -> (r: ConfigureStep)
        ensures
            r@ == next_step(self@, url_parts::parsed_url(or_else(self@.url, Seq::empty()))),
    {
        let parsed = match &self.url {
            Some(url) => url_parts::parse(url.as_str()),
            None => url_parts::parse(""),
        };
        proof {
            reveal_strlit("");
            assert(""@ == Seq::<char>::empty());
        }
        self.next_given(parsed)
    }

    /// The text that a question is shown with.
    pub fn shown(&self, q: Question) -> (r: String)
        ensures
            r@ == match q {
                Question::Url | Question::Token => question_text(q) + ": "@,
                Question::Name => question_text(q) + " ["@ + self@.default_name + "]: "@,
                Question::Work => question_text(q) + " ["@ + path::WORK_DIRECTORY@ + "]: "@,
            },
    {
        let mut s = words_of(q).to_owned();
        match q {
            Question::Url | Question::Token => {
                s.append(": ");
            },
            Question::Name => {
                s.append(" [");
                s.append(self.default_name.as_str());
                s.append("]: ");
            },
            Question::Work => {
                s.append(" [");
                s.append(path::WORK_DIRECTORY);
                s.append("]: ");
            },
        }
        s
    }

    /// Takes the line that answers a question.
    pub fn answer(&mut self, q: Question, line: &str)
        ensures
            final(self)@ == answered(old(self)@, q, line@),
    {
        match q {
            Question::Url => if let Some(v) = PromptManager::required_answer(line) {
                self.url = Some(v);
            },
            Question::Token => if let Some(v) = PromptManager::required_answer(line) {
                self.token = Some(v);
            },
            Question::Name => {
                let name = PromptManager::answer_or_default(line, self.default_name.as_str());
                self.name = Some(name);
            },
            Question::Work => {
                self.work = Some(PromptManager::answer_or_default(line, path::WORK_DIRECTORY));
            },
        }
    }

    /// The URL, once it is known.
    pub fn url(&self) -> (r: Option<String>)
        ensures
            text::view_option(r) == self@.url,
    {
        text::copy_option(&self.url)
    }

    /// The registration token, once it is known.
    pub fn token(&self) -> (r: Option<String>)
        ensures
            text::view_option(r) == self@.token,
    {
        text::copy_option(&self.token)
    }

    /// The work folder, once it is known.
    pub fn work(&self) -> (r: Option<String>)
        ensures
            text::view_option(r) == self@.work,
    {
        text::copy_option(&self.work)
    }

    /// Whether a service is to be configured too.
    pub fn generates_service_config(&self) -> (r: bool)
        ensures
            r == self@.generate_service_config,
    {
        self.generate_service_config
    }

    /// The request that registers the runner, once its name is known.
    pub fn registration_request(
        &self,
        server_url: &str,
        version: &str,
        platform: OsPlatform,
        architecture: Architecture,
    ) -> (r: RegistrationRequest)
        requires
            self@.name is Some,
        ensures
            r.url@ == server_url@ + "/_apis/distributedtask/pools/0/agents"@,
            Some(r.name@) == self@.name,
            r.version@ == version@,
            r.os_description@ == os_description(platform, architecture),
            label_views(r.labels@) == label_list(
                self@.labels,
                self@.no_default_labels,
                platform,
                architecture,
            ),
            r.runner_group@ == self@.runner_group,
            r.ephemeral == self@.ephemeral,
            r.disable_update == self@.disable_update,
    {
        let name = match &self.name {
            Some(name) => name.clone(),
            None => String::new(),
        };
        let mut url = server_url.to_owned();
        url.append("/_apis/distributedtask/pools/0/agents");
        let mut os_description = platform.name().to_owned();
        os_description.append(" ");
        os_description.append(architecture.label_name());
        RegistrationRequest {
            url,
            name,
            version: version.to_owned(),
            os_description,
            labels: labels_of(
                self.labels.as_str(),
                self.no_default_labels,
                platform,
                architecture,
            ),
            runner_group: self.runner_group.clone(),
            ephemeral: self.ephemeral,
            disable_update: self.disable_update,
        }
    }

    /// The settings of the registered runner, once URL and work folder are known.
    pub fn runner_settings(
        &self,
        agent_id: u64,
        agent_name: &str,
        server_url: &str,
        is_hosted: bool,
    ) -> (r: RunnerSettings)
        requires
            self@.url is Some,
            self@.work is Some,
        ensures
            r@ == (SettingsView {
                agent_id,
                agent_name: agent_name@,
                server_url: server_url@,
                git_hub_url: self@.url->0,
                work_folder: self@.work->0,
                is_ephemeral: self@.ephemeral,
                disable_update: self@.disable_update,
                pool_name: self@.runner_group,
                is_hosted_server: Some(is_hosted),
                ..SettingsView::empty()
            }),
    {
        let mut settings = RunnerSettings::default();
        settings.agent_id = agent_id;
        settings.agent_name = agent_name.to_owned();
        settings.server_url = server_url.to_owned();
        if let Some(url) = &self.url {
            settings.git_hub_url = url.clone();
        }
        if let Some(work) = &self.work {
            settings.work_folder = work.clone();
        }
        settings.is_ephemeral = self.ephemeral;
        settings.disable_update = self.disable_update;
        settings.pool_name = self.runner_group.clone();
        settings.set_is_hosted_server(is_hosted);
        settings
    }
}

// ---------------------------------------------------------------------------
// Registration
// ---------------------------------------------------------------------------

/// A label of a runner; system labels are given by the runner itself.
#[derive(Debug)]
pub struct RunnerLabel {
    pub name: String,
    pub is_system: bool,
}

/// What the registration of a runner asks for.
#[derive(Debug)]
pub struct RegistrationRequest {
    pub url: String,
    pub name: String,
    pub version: String,
    pub os_description: String,
    pub labels: Vec<RunnerLabel>,
    pub runner_group: String,
    pub ephemeral: bool,
    pub disable_update: bool,
}

/// The names of labels, and whether they are system labels.
pub open spec fn label_views(labels: Seq<RunnerLabel>) -> Seq<(Seq<char>, bool)> {
    labels.map_values(|l: RunnerLabel| (l.name@, l.is_system))
}

/// The platform in words.
pub open spec fn os_description(platform: OsPlatform, architecture: Architecture) -> Seq<char> {
    (match platform {
        OsPlatform::Linux => "Linux"@,
        OsPlatform::MacOS => "OSX"@,
        OsPlatform::Windows => "Windows"@,
    }) + " "@ + architecture.label()
}

/// The user's labels among the pieces of a list: trimmed, without empty ones.
pub open spec fn user_labels(pieces: Seq<Seq<char>>) -> Seq<(Seq<char>, bool)>
    decreases pieces.len(),
{
    if pieces.len() == 0 {
        Seq::empty()
    } else {
        let before = user_labels(pieces.drop_last());
        let label = text::trimmed(pieces.last());
        if label.len() == 0 {
            before
        } else {
            before.push((label, false))
        }
    }
}

/// The labels of a runner: those for self-hosting, platform and architecture, unless they
/// are not wanted, and then the user's.
pub open spec fn label_list(
    labels: Seq<char>,
    no_default_labels: bool,
    platform: OsPlatform,
    architecture: Architecture,
) -> Seq<(Seq<char>, bool)> {
    (if no_default_labels {
        Seq::empty()
    } else {
        seq![("self-hosted"@, true), (platform.label(), true), (architecture.label(), true)]
    }) + user_labels(text::pieces(labels, ','))
}

fn labels_of(
    labels: &str,
    no_default_labels: bool,
    platform: OsPlatform,
    architecture: Architecture,
) -> (r: Vec<RunnerLabel>)
    ensures
        label_views(r@) == label_list(labels@, no_default_labels, platform, architecture),
{
    let mut out: Vec<RunnerLabel> = Vec::new();
    if !no_default_labels {
        out.push(RunnerLabel { name: "self-hosted".to_owned(), is_system: true });
        out.push(RunnerLabel { name: platform.label_name().to_owned(), is_system: true });
        out.push(RunnerLabel { name: architecture.label_name().to_owned(), is_system: true });
    }
    let ghost system = label_views(out@);
    proof {
        if no_default_labels {
            assert(system == Seq::<(Seq<char>, bool)>::empty());
        } else {
            assert(system =~= seq![
                ("self-hosted"@, true),
                (platform.label(), true),
                (architecture.label(), true),
            ]);
        }
    }
    let list = text::split(labels, ',');
    let ghost all = text::views(list@);
    let mut i: usize = 0;
    assert(user_labels(all.take(0)) == Seq::<(Seq<char>, bool)>::empty());
    assert(label_views(out@) == system + Seq::<(Seq<char>, bool)>::empty());
    while i < list.len()
        invariant
            i <= list@.len(),
            all == text::views(list@),
            label_views(out@) == system + user_labels(all.take(i as int)),
        decreases list@.len() - i,
    {
        proof {
            let now = all.take(i + 1);
            assert(now.drop_last() == all.take(i as int));
            assert(now.last() == list@[i as int]@);
        }
        let label = text::trim(list[i].as_str());
        if !text::is_empty(label.as_str()) {
            let entry = RunnerLabel { name: label, is_system: false };
            proof {
                let before = user_labels(all.take(i as int));
                assert(label_views(out@.push(entry)) == label_views(out@).push(
                    (entry.name@, false),
                ));
                assert((system + before).push((entry.name@, false)) == system + before.push(
                    (entry.name@, false),
                ));
            }
            out.push(entry);
        }
        i = i + 1;
    }
    assert(all.take(all.len() as int) == all);
    out
}

/// The URL that removes a runner.
pub open spec fn removal_url(server_url: Seq<char>, agent_id: int) -> Seq<char> {
    server_url + "/_apis/distributedtask/pools/0/agents/"@ + number::decimal(agent_id)
}

/// The URL that removes a runner.
pub fn runner_removal_url(server_url: &str, agent_id: u64) -> (r: String)
    ensures
        r@ == removal_url(server_url@, agent_id as int),
{
    let mut url = server_url.to_owned();
    url.append("/_apis/distributedtask/pools/0/agents/");
    url.append(number::u64_text(agent_id).as_str());
    url
}

// ---------------------------------------------------------------------------
// Exchanging the registration token
// ---------------------------------------------------------------------------

/// The base of the API: that of the hosted server, or of the server itself.
pub open spec fn api_base(is_hosted: bool, url: UrlView) -> Seq<char> {
    if is_hosted {
        "https://api.github.com"@
    } else {
        url.0 + "://"@ + or_else(url.1, Seq::empty()) + "/api/v3"@
    }
}

/// The URL that tells where to register: for a server, an organization or a repository,
/// by how many segments the path has.
pub open spec fn registration_url(api: Seq<char>, segments: Seq<Seq<char>>) -> Seq<char> {
    if segments.len() == 0 {
        api + "/actions/runner-registration"@
    } else if segments.len() == 1 {
        api + "/orgs/"@ + segments[0] + "/actions/runner-registration"@
    } else {
        api + "/repos/"@ + segments[0] + "/"@ + segments[1] + "/actions/runner-registration"@
    }
}

/// The URL of the Actions service: the one that the server named, or a derived one.
pub open spec fn actions_url(named: Option<Seq<char>>, api: Seq<char>) -> Seq<char> {
    if or_else(named, Seq::empty()).len() > 0 {
        or_else(named, Seq::empty())
    } else {
        api + "/actions"@
    }
}

/// The URL that issues access tokens.
pub open spec fn authorization_url(is_hosted: bool, url: UrlView, actions: Seq<char>) -> Seq<char> {
    if is_hosted {
        actions + "/actions/token"@
    } else {
        url.0 + "://"@ + or_else(url.1, Seq::empty()) + "/actions/token"@
    }
}

/// What is needed to exchange a registration token.
#[derive(Debug)]
pub struct ExchangePlan {
    is_hosted: bool,
    url: UrlParts,
    api: String,
    endpoint: String,
}

/// What a registration token was exchanged for.
#[derive(Debug)]
pub struct TokenExchange {
    pub server_url: String,
    pub access_token: String,
    pub client_id: String,
    pub auth_url: Option<String>,
}

impl ExchangePlan {
    /// Whether the server is a hosted one.
    pub closed spec fn hosted(self) -> bool {
        self.is_hosted
    }

    /// The parts of the GitHub URL.
    pub closed spec fn url(self) -> UrlView {
        self.url@
    }

    #[verifier::type_invariant]
    spec fn inv(self) -> bool {
        self.api@ == api_base(self.is_hosted, self.url@)
    }

    /// The URL that tells where to register.
    pub closed spec fn endpoint(self) -> Seq<char> {
        self.endpoint@
    }

    /// The URL that tells where to register.
    pub fn registration_url(&self) -> (r: &str)
        ensures
            r@ == self.endpoint(),
    {
        self.endpoint.as_str()
    }

    /// What is needed for a server with this URL.
    pub fn of(parts: UrlParts, is_hosted: bool) -> (r: ExchangePlan)
        ensures
            r.hosted() == is_hosted,
            r.url() == parts@,
            r.endpoint() == registration_url(
                api_base(is_hosted, parts@),
                url_parts::path_segments(parts.path@),
            ),
    {
        let api = if is_hosted {
            "https://api.github.com".to_owned()
        } else {
            let mut s = parts.scheme.clone();
            s.append("://");
            s.append(
                match &parts.host {
                    Some(host) => host.as_str(),
                    None => "",
                },
            );
            proof {
                reveal_strlit("");
                assert(""@ == Seq::<char>::empty());
            }
            s.append("/api/v3");
            s
        };
        let segments = url_parts::segments(parts.path.as_str());
        assert(text::views(segments@).len() == segments@.len());
        let mut url = api.clone();
        if segments.len() == 0 {
            url.append("/actions/runner-registration");
        } else if segments.len() == 1 {
            assert(text::views(segments@)[0] == segments@[0]@);
            url.append("/orgs/");
            url.append(segments[0].as_str());
            url.append("/actions/runner-registration");
        } else {
            assert(text::views(segments@)[0] == segments@[0]@);
            assert(text::views(segments@)[1] == segments@[1]@);
            url.append("/repos/");
            url.append(segments[0].as_str());
            url.append("/");
            url.append(segments[1].as_str());
            url.append("/actions/runner-registration");
        }
        ExchangePlan { is_hosted, url: parts, api, endpoint: url }
    }

    /// What is needed for a GitHub URL. `Err` with the reason if the URL is not valid.
    pub fn for_url(github_url: &str, is_hosted: bool) -> (r: Result<ExchangePlan, String>)
        ensures
            match r {
                Ok(plan) => {
                    &&& url_parts::parsed_url(github_url@) matches Ok(url)
                    &&& plan.hosted() == is_hosted
                    &&& plan.url() == url
                    &&& plan.endpoint() == registration_url(
                        api_base(is_hosted, url),
                        url_parts::path_segments(url.2),
                    )
                },
                Err(reason) => url_parts::parsed_url(github_url@) == Err::<UrlView, Seq<char>>(
                    reason@,
                ),
            },
    {
        match url_parts::parse(github_url) {
            Ok(parts) => Ok(ExchangePlan::of(parts, is_hosted)),
            Err(reason) => Err(reason),
        }
    }

    /// What the token is exchanged for, given the service URL that the server named, if it
    /// did, and a new random id for the client.
    pub fn finish(&self, named: Option<String>, token: &str, client: u128) -> (r: TokenExchange)
        ensures
            r.server_url@ == actions_url(
                text::view_option(named),
                api_base(self.hosted(), self.url()),
            ),
            r.access_token@ == token@,
            r.client_id@ == "runner-"@ + codec::uuid_text(client),
            text::view_option(r.auth_url) == Some(
                authorization_url(self.hosted(), self.url(), r.server_url@),
            ),
    {
        proof {
            use_type_invariant(self);
            reveal_strlit("");
            assert(""@ == Seq::<char>::empty());
        }
        let named = or_default_text(named, "");
        let server_url = if text::is_empty(named.as_str()) {
            let mut s = self.api.clone();
            s.append("/actions");
            s
        } else {
            named
        };
        let auth_url = if self.is_hosted {
            let mut s = server_url.clone();
            s.append("/actions/token");
            s
        } else {
            let mut s = self.url.scheme.clone();
            s.append("://");
            s.append(
                match &self.url.host {
                    Some(host) => host.as_str(),
                    None => "",
                },
            );
            s.append("/actions/token");
            s
        };
        let mut client_id = "runner-".to_owned();
        client_id.append(codec::format_uuid(client).as_str());
        TokenExchange {
            server_url,
            access_token: token.to_owned(),
            client_id,
            auth_url: Some(auth_url),
        }
    }
}

impl ExchangePlan {
    /// What the token is exchanged for, with a new random id for the client.
    pub fn complete(&self, named: Option<String>, token: &str) -> (r: TokenExchange)
        ensures
            r.server_url@ == actions_url(
                text::view_option(named),
                api_base(self.hosted(), self.url()),
            ),
            r.access_token@ == token@,
            exists|client: u128|
                codec::is_random_uuid(client) && r.client_id@ == "runner-"@
                    + #[trigger] codec::uuid_text(client),
            text::view_option(r.auth_url) == Some(
                authorization_url(self.hosted(), self.url(), r.server_url@),
            ),
    {
        self.finish(named, token, codec::random_uuid())
    }
}

impl TokenExchange {
    /// What stands in where the token could not be exchanged: it may be an access token
    /// itself.
    pub fn direct(server_url: &str, token: &str) -> (r: TokenExchange)
        ensures
            r.server_url@ == server_url@,
            r.access_token@ == token@,
            r.client_id@ == Seq::<char>::empty(),
            r.auth_url is None,
    {
        TokenExchange {
            server_url: server_url.to_owned(),
            access_token: token.to_owned(),
            client_id: String::new(),
            auth_url: None,
        }
    }

    /// The credentials that are stored.
    pub fn credentials(&self) -> (r: CredentialData)
        ensures
            r@ == stored_credentials(
                text::view_option(self.auth_url),
                self.client_id@,
                self.access_token@,
            ),
    {
        let mut data = StringMap::new();
        data.insert("accessToken".to_owned(), self.access_token.clone());
        proof {
            assert(!string_map::has_key(
                Seq::<(Seq<char>, Seq<char>)>::empty(),
                "accessToken"@,
            ));
            assert(data.items() =~= seq![("accessToken"@, self.access_token@)]);
        }
        CredentialData {
            scheme: configuration::OAUTH.to_owned(),
            authorization_url: text::copy_option(&self.auth_url),
            client_id: Some(self.client_id.clone()),
            data,
        }
    }
}

/// The credentials that are stored when a runner is configured.
pub open spec fn stored_credentials(
    auth_url: Option<Seq<char>>,
    client_id: Seq<char>,
    access_token: Seq<char>,
) -> CredentialView {
    CredentialView {
        scheme: configuration::OAUTH@,
        authorization_url: auth_url,
        client_id: Some(client_id),
        data: seq![("accessToken"@, access_token)],
    }
}

// ---------------------------------------------------------------------------
// Removal
// ---------------------------------------------------------------------------

/// The question for the token that removes a runner.
pub const REMOVAL_TOKEN_PROMPT: &'static str =
    "Enter the registration/PAT token to remove the runner";

/// The token that removes a runner: a registration token, or else a personal access token,
/// or else the user is asked, where that is allowed.
pub fn removal_token(settings: &CommandSettings) -> (r: Result<Prompt<String>, PromptError>)
    ensures
        ({
            let token = command_settings::arg_value(
                settings@.args,
                settings.values(),
                args::TOKEN@,
            );
            let pat = command_settings::arg_value(settings@.args, settings.values(), args::PAT@);
            let alone = command_settings::flag_value(
                settings@.flags,
                settings.true_names(),
                flags::UNATTENDED@,
            );
            match r {
                Ok(Prompt::Answer(answer)) => Some(answer@) == if token is Some {
                    token
                } else {
                    pat
                },
                Ok(Prompt::Ask(shown)) => token is None && pat is None && !alone && shown@
                    == REMOVAL_TOKEN_PROMPT@ + ": "@,
                Err(PromptError::MissingInput(p)) => token is None && pat is None && alone && p@
                    == REMOVAL_TOKEN_PROMPT@,
                Err(PromptError::MissingSecret(_)) => false,
            }
        }),
{
    if let Some(token) = settings.get_token() {
        return Ok(Prompt::Answer(token));
    }
    if let Some(pat) = settings.get_pat() {
        return Ok(Prompt::Answer(pat));
    }
    PromptManager::new(settings.is_unattended()).prompt_required(REMOVAL_TOKEN_PROMPT)
}

/// Which of a runner's URLs tells whether its server is a hosted one, given whether they
/// are valid.
pub open spec fn telling_url(
    github_url: Seq<char>,
    github_valid: bool,
    server_url: Seq<char>,
    server_valid: bool,
) -> Option<Seq<char>> {
    if github_valid {
        Some(github_url)
    } else if server_valid {
        Some(server_url)
    } else {
        None
    }
}

/// The URL that tells whether the server of a runner is a hosted one: the GitHub URL if it is
/// valid, or else the service's. `None` if neither is valid.
pub fn removal_url_of(settings: &RunnerSettings) -> (r: Option<String>)
    ensures
        text::view_option(r) == telling_url(
            settings@.git_hub_url,
            url_parts::parsed_url(settings@.git_hub_url) is Ok,
            settings@.server_url,
            url_parts::parsed_url(settings@.server_url) is Ok,
        ),
{
    let github_valid = url_parts::parse(settings.git_hub_url.as_str()).is_ok();
    let server_valid = url_parts::parse(settings.server_url.as_str()).is_ok();
    telling_url_of(settings, github_valid, server_valid)
}

/// The URL that tells whether the server of a runner is a hosted one, given which of the two
/// are valid.
pub fn telling_url_of(settings: &RunnerSettings, github_valid: bool, server_valid: bool) -> (r:
    Option<String>)
    ensures
        text::view_option(r) == telling_url(
            settings@.git_hub_url,
            github_valid,
            settings@.server_url,
            server_valid,
        ),
{
    if github_valid {
        Some(settings.git_hub_url.clone())
    } else if server_valid {
        Some(settings.server_url.clone())
    } else {
        None
    }
}

// ---------------------------------------------------------------------------
// Laws
// ---------------------------------------------------------------------------

/// Where nobody is there to answer, nothing is ever asked.
pub proof fn law_unattended_never_asks(
    args: spec_fn(Seq<char>) -> Option<Seq<char>>,
    flags: spec_fn(Seq<char>) -> bool,
    default_name: Seq<char>,
    parsed: Result<UrlView, Seq<char>>,
)
    requires
        flags(flags::UNATTENDED@),
    ensures
        !(next_step(first_view(args, flags, default_name), parsed) is Ask),
{
}

/// A questionnaire is complete only with an accepted URL, a token, an accepted name and a
/// work folder.
pub proof fn law_ready_is_valid(flow: FlowView, parsed: Result<UrlView, Seq<char>>)
    requires
        next_step(flow, parsed) is Ready,
    ensures
        flow.url matches Some(url) && validators::url_verdict(url, parsed) is None,
        flow.token is Some,
        flow.name matches Some(name) && validators::name_verdict(name) is None,
        flow.work is Some,
{
}

/// An answer to a question that is asked is never lost, and a question once answered is not
/// asked again, unless the line was blank and there is no default.
pub proof fn law_answer_advances(
    flow: FlowView,
    q: Question,
    line: Seq<char>,
    parsed: Result<UrlView, Seq<char>>,
    parsed_after: Result<UrlView, Seq<char>>,
)
    requires
        next_step(flow, parsed) == StepView::Ask(q),
        q == Question::Name || q == Question::Work || prompt_manager::required(line) is Some,
    ensures
        next_step(answered(flow, q, line), parsed_after) != StepView::Ask(q),
{
}

/// Both listeners authenticate with the token that was stored when the runner was configured.
pub proof fn law_configured_token_is_used(
    auth_url: Option<Seq<char>>,
    client_id: Seq<char>,
    access_token: Seq<char>,
)
    ensures
        ({
            let credentials = stored_credentials(auth_url, client_id, access_token);
            let stored = oauth::TokenSourceView::Stored(access_token);
            &&& oauth::first_source(
                oauth::stored_under(credentials, "accessToken"@),
                oauth::exchange_of(credentials),
                oauth::stored_under(credentials, "token"@),
            ) == Ok::<oauth::TokenSourceView, oauth::TokenError>(stored)
            &&& oauth::first_source(
                oauth::stored_under(credentials, "accessToken"@),
                oauth::stored_under(credentials, "token"@),
                oauth::exchange_of(credentials),
            ) == Ok::<oauth::TokenSourceView, oauth::TokenError>(stored)
        }),
{
    let data = seq![("accessToken"@, access_token)];
    assert(text::equal_ignoring_ascii_case(data[0].0, "accessToken"@));
    assert(credential_data::data_value(data, "accessToken"@) == Some(access_token));
}

/// An answer that the command line or the environment gives is the one that is used,
/// whether anybody is there to ask or not.
pub proof fn law_given_answers_are_used(
    args: spec_fn(Seq<char>) -> Option<Seq<char>>,
    flags: spec_fn(Seq<char>) -> bool,
    default_name: Seq<char>,
    v: Seq<char>,
)
    ensures
        ({
            let flow = first_view(args, flags, default_name);
            &&& args("url"@) == Some(v) ==> flow.url == Some(v)
            &&& args("token"@) == Some(v) ==> flow.token == Some(v)
            &&& args("name"@) == Some(v) ==> flow.name == Some(v)
            &&& args("work"@) == Some(v) ==> flow.work == Some(v)
            &&& args("labels"@) == Some(v) ==> flow.labels == v
            &&& args("runnergroup"@) == Some(v) ==> flow.runner_group == v
        }),
{
}

/// A default is used only where no answer is given: for the name and the work folder where
/// nobody is there to ask, for the labels and the group always. What has no default stays
/// open.
pub proof fn law_defaults_fill_gaps(
    args: spec_fn(Seq<char>) -> Option<Seq<char>>,
    flags: spec_fn(Seq<char>) -> bool,
    default_name: Seq<char>,
)
    ensures
        ({
            let flow = first_view(args, flags, default_name);
            let alone = flags("unattended"@);
            &&& args("url"@) is None ==> flow.url is None
            &&& args("token"@) is None ==> flow.token is None
            &&& args("name"@) is None ==> flow.name == if alone {
                Some(default_name)
            } else {
                None
            }
            &&& args("work"@) is None ==> flow.work == if alone {
                Some("_work"@)
            } else {
                None
            }
            &&& args("labels"@) is None ==> flow.labels == Seq::<char>::empty()
            &&& args("runnergroup"@) is None ==> flow.runner_group == "Default"@
            &&& flow.default_name == default_name
        }),
{
}

/// Each choice that needs no question is made by its own flag.
pub proof fn law_flags_are_heeded(
    args: spec_fn(Seq<char>) -> Option<Seq<char>>,
    flags: spec_fn(Seq<char>) -> bool,
    default_name: Seq<char>,
)
    ensures
        ({
            let flow = first_view(args, flags, default_name);
            &&& flow.unattended <==> flags("unattended"@)
            &&& flow.ephemeral <==> flags("ephemeral"@)
            &&& flow.disable_update <==> flags("disableupdate"@)
            &&& flow.no_default_labels <==> flags("no-default-labels"@)
            &&& flow.generate_service_config <==> flags("generateServiceConfig"@)
        }),
{
}

/// A line answers its own question with the line's trimmed text, or, where the line is
/// blank, with the default if there is one; no other answer changes.
pub proof fn law_answer_is_kept(flow: FlowView, q: Question, line: Seq<char>)
    ensures
        ({
            let after = answered(flow, q, line);
            let said = text::trimmed(line);
            &&& said.len() > 0 ==> match q {
                Question::Url => after.url == Some(said),
                Question::Token => after.token == Some(said),
                Question::Name => after.name == Some(said),
                Question::Work => after.work == Some(said),
            }
            &&& said.len() == 0 ==> match q {
                Question::Url => after.url == flow.url,
                Question::Token => after.token == flow.token,
                Question::Name => after.name == Some(flow.default_name),
                Question::Work => after.work == Some("_work"@),
            }
            &&& q != Question::Url ==> after.url == flow.url
            &&& q != Question::Token ==> after.token == flow.token
            &&& q != Question::Name ==> after.name == flow.name
            &&& q != Question::Work ==> after.work == flow.work
            &&& after.unattended == flow.unattended
            &&& after.default_name == flow.default_name
            &&& after.labels == flow.labels
            &&& after.runner_group == flow.runner_group
            &&& after.ephemeral == flow.ephemeral
            &&& after.disable_update == flow.disable_update
            &&& after.no_default_labels == flow.no_default_labels
            &&& after.generate_service_config == flow.generate_service_config
        }),
{
}

/// A question is asked only while its answer is missing, and an answer that is there is
/// never missed: every complete and accepted set of answers is ready.
pub proof fn law_asks_what_is_missing(flow: FlowView, parsed: Result<UrlView, Seq<char>>)
    ensures
        ({
            let step = next_step(flow, parsed);
            let url_fine = flow.url is Some && validators::url_verdict(flow.url->0, parsed) is None;
            let name_fine = flow.name is Some && validators::name_verdict(flow.name->0) is None;
            &&& step == StepView::Ask(Question::Url) <==> flow.url is None && !flow.unattended
            &&& step == StepView::Fail(ConfigureErrorView::Missing(Question::Url)) <==> flow.url
                is None && flow.unattended
            &&& step == StepView::Ask(Question::Token) <==> url_fine && flow.token is None
                && !flow.unattended
            &&& step == StepView::Fail(ConfigureErrorView::Missing(Question::Token)) <==> url_fine
                && flow.token is None && flow.unattended
            &&& step == StepView::Ask(Question::Name) <==> url_fine && flow.token is Some
                && flow.name is None
            &&& step == StepView::Ask(Question::Work) <==> url_fine && flow.token is Some
                && name_fine && flow.work is None
            &&& step == StepView::Ready <==> url_fine && flow.token is Some && name_fine
                && flow.work is Some
        }),
{
}

/// A runner has the labels for self-hosting, platform and architecture, unless they are not
/// wanted, and the user's labels behind them: all of them, in their order, as they were
/// written.
pub proof fn law_labels_as_written(
    labels: Seq<Seq<char>>,
    no_default_labels: bool,
    platform: OsPlatform,
    architecture: Architecture,
)
    requires
        labels.len() > 0,
        forall|i: int|
            0 <= i < labels.len() ==> (#[trigger] labels[i]).len() > 0 && !labels[i].contains(',')
                && !text::white_space(labels[i][0]) && !text::white_space(labels[i].last()),
    ensures
        ({
            let all = label_list(
                text::joined(labels, seq![',']),
                no_default_labels,
                platform,
                architecture,
            );
            let n: int = if no_default_labels { 0 } else { 3 };
            &&& all.len() == n + labels.len()
            &&& !no_default_labels ==> all[0] == ("self-hosted"@, true) && all[1] == (
                platform.label(),
                true,
            ) && all[2] == (architecture.label(), true)
            &&& forall|i: int| 0 <= i < labels.len() ==> #[trigger] all[n + i] == (labels[i], false)
        }),
{
    text::law_pieces_of_joined(labels, ',');
    lemma_user_labels_kept(labels);
}

proof fn lemma_user_labels_kept(labels: Seq<Seq<char>>)
    requires
        forall|i: int|
            0 <= i < labels.len() ==> (#[trigger] labels[i]).len() > 0 && !text::white_space(
                labels[i][0],
            ) && !text::white_space(labels[i].last()),
    ensures
        user_labels(labels).len() == labels.len(),
        forall|i: int|
            0 <= i < labels.len() ==> #[trigger] user_labels(labels)[i] == (labels[i], false),
    decreases labels.len(),
{
    if labels.len() > 0 {
        let front = labels.drop_last();
        assert forall|i: int| 0 <= i < front.len() implies (#[trigger] front[i]).len() > 0
            && !text::white_space(front[i][0]) && !text::white_space(front[i].last()) by {
            assert(front[i] == labels[i]);
        }
        lemma_user_labels_kept(front);
        let last = labels[labels.len() - 1];
        let none = Seq::<char>::empty();
        text::law_trimmed_drops(none, last, none);
        assert(none + last + none == last);
        assert forall|i: int| 0 <= i < labels.len() implies #[trigger] user_labels(labels)[i] == (
            labels[i],
            false,
        ) by {
            if i < front.len() {
                assert(user_labels(front)[i] == (front[i], false));
            }
        }
    }
}

/// Blank pieces between labels and white space around them change nothing: a piece counts
/// by its trimmed text alone, wherever in the list it stands.
pub proof fn law_labels_are_trimmed(
    before: Seq<Seq<char>>,
    piece: Seq<char>,
    after: Seq<Seq<char>>,
)
    ensures
        ({
            let label = text::trimmed(piece);
            let own = if label.len() == 0 {
                Seq::empty()
            } else {
                seq![(label, false)]
            };
            user_labels(before + seq![piece] + after) == user_labels(before) + own + user_labels(
                after,
            )
        }),
    decreases after.len(),
{
    let all = before + seq![piece] + after;
    if after.len() == 0 {
        assert(after == Seq::<Seq<char>>::empty());
        assert(all.drop_last() == before);
        assert(all.last() == piece);
    } else {
        assert(all.drop_last() == before + seq![piece] + after.drop_last());
        assert(all.last() == after.last());
        law_labels_are_trimmed(before, piece, after.drop_last());
    }
}

/// A registration token of a repository is exchanged at the repository, one of an
/// organization at the organization and one of a server at the server, each named in full.
pub proof fn law_registration_by_path(api: Seq<char>, owner: Seq<char>, repository: Seq<char>)
    requires
        owner.len() > 0,
        !owner.contains('/'),
        repository.len() > 0,
        !repository.contains('/'),
    ensures
        registration_url(api, url_parts::path_segments("/"@)) == api
            + "/actions/runner-registration"@,
        registration_url(api, url_parts::path_segments("/"@ + owner)) == api + "/orgs/"@ + owner
            + "/actions/runner-registration"@,
        registration_url(api, url_parts::path_segments("/"@ + owner + "/"@ + repository)) == api
            + "/repos/"@ + owner + "/"@ + repository + "/actions/runner-registration"@,
{
    reveal_strlit("/");
    assert("/"@ == seq!['/']);
    url_parts::law_root_has_no_segment();
    url_parts::law_segments_of_written_path(seq![owner]);
    assert(text::joined(seq![owner], seq!['/']) == owner);
    let both = seq![owner, repository];
    url_parts::law_segments_of_written_path(both);
    assert(both.drop_last() == seq![owner]);
    assert(text::joined(both, seq!['/']) == owner + seq!['/'] + repository);
    assert("/"@ + owner + "/"@ + repository == seq!['/'] + (owner + seq!['/'] + repository));
}

/// The service URL that the server named is used as it is; only without one is it derived.
pub proof fn law_named_service_is_used(named: Seq<char>, api: Seq<char>)
    ensures
        named.len() > 0 ==> actions_url(Some(named), api) == named,
        named.len() == 0 ==> actions_url(Some(named), api) == api + "/actions"@,
        actions_url(None, api) == api + "/actions"@,
{
}

/// Stored credentials hold the token, and where and as whom it is renewed.
pub proof fn law_credentials_hold_exchange(
    auth_url: Option<Seq<char>>,
    client_id: Seq<char>,
    access_token: Seq<char>,
)
    ensures
        ({
            let c = stored_credentials(auth_url, client_id, access_token);
            &&& c.scheme == "OAuth"@
            &&& c.authorization_url == auth_url
            &&& c.client_id == Some(client_id)
            &&& credential_data::data_value(c.data, "accessToken"@) == Some(access_token)
        }),
{
    let data = seq![("accessToken"@, access_token)];
    assert(text::equal_ignoring_ascii_case(data[0].0, "accessToken"@));
}

/// The API is that of the hosted server, or that of the server itself, by its own scheme and
/// host.
pub proof fn law_api_of_server(scheme: Seq<char>, host: Seq<char>, path: Seq<char>, api: Seq<char>)
    ensures
        api_base(true, (scheme, Some(host), path)) == "https://api.github.com"@,
        api_base(false, (scheme, Some(host), path)) == scheme + "://"@ + host + "/api/v3"@,
        authorization_url(true, (scheme, Some(host), path), api) == api + "/actions/token"@,
        authorization_url(false, (scheme, Some(host), path), api) == scheme + "://"@ + host
            + "/actions/token"@,
{
}

/// The removal of one runner never removes another.
pub proof fn law_removal_names_runner(server_url: Seq<char>, a: int, b: int)
    requires
        0 <= a,
        0 <= b,
        removal_url(server_url, a) == removal_url(server_url, b),
    ensures
        a == b,
{
    number::law_decimal_reads_back(a);
    number::law_decimal_reads_back(b);
    let front = server_url + "/_apis/distributedtask/pools/0/agents/"@;
    let n = front.len() as int;
    assert(removal_url(server_url, a).skip(n) == number::decimal(a));
    assert(removal_url(server_url, b).skip(n) == number::decimal(b));
}

/// The GitHub URL tells whether the server is a hosted one if it is valid, whatever the
/// service's is; the service's does only in its place.
pub proof fn law_telling_url(github_url: Seq<char>, server_url: Seq<char>, server_valid: bool)
    ensures
        telling_url(github_url, true, server_url, server_valid) == Some(github_url),
        telling_url(github_url, false, server_url, true) == Some(server_url),
        telling_url(github_url, false, server_url, false) is None,
{
}

proof fn lemma_arguments_are_sayable(v: Seq<char>)
    ensures
        command_settings::sayable(Spoken::Named("url"@, v)),
        command_settings::sayable(Spoken::Named("token"@, v)),
        command_settings::sayable(Spoken::Named("name"@, v)),
        command_settings::sayable(Spoken::Named("work"@, v)),
        command_settings::sayable(Spoken::Named("labels"@, v)),
        command_settings::sayable(Spoken::Named("runnergroup"@, v)),
{
    reveal_strlit("url");
    reveal_strlit("token");
    reveal_strlit("name");
    reveal_strlit("work");
    reveal_strlit("labels");
    reveal_strlit("runnergroup");
    assert(text::lowered("url"@) =~= "url"@);
    assert(text::lowered("token"@) =~= "token"@);
    assert(text::lowered("name"@) =~= "name"@);
    assert(text::lowered("work"@) =~= "work"@);
    assert(text::lowered("labels"@) =~= "labels"@);
    assert(text::lowered("runnergroup"@) =~= "runnergroup"@);
}

/// What the command line says of the URL, the token, the name, the work folder, the labels or
/// the group, wherever it says it, is what the questionnaire begins with, whatever the
/// environment says and whether anybody is there to ask or not.
pub proof fn law_command_line_answers_are_used(
    before: Seq<Spoken>,
    key: Seq<char>,
    v: Seq<char>,
    after: Seq<Spoken>,
    values: Seq<(Seq<char>, Seq<char>)>,
    flags: spec_fn(Seq<char>) -> bool,
    default_name: Seq<char>,
)
    requires
        key == "url"@ || key == "token"@ || key == "name"@ || key == "work"@ || key == "labels"@
            || key == "runnergroup"@,
        forall|i: int| 0 <= i < before.len() ==> command_settings::sayable(#[trigger] before[i]),
        forall|i: int| 0 <= i < after.len() ==> command_settings::sayable(#[trigger] after[i]),
        command_settings::last_value(after, text::lowered(key)) is None,
    ensures
        ({
            let words = command_settings::all_words(before + seq![Spoken::Named(key, v)] + after);
            let read = command_settings::read_command_line(words);
            let flow = first_view(
                |name: Seq<char>| command_settings::arg_value(read.args, values, name),
                flags,
                default_name,
            );
            &&& key == "url"@ ==> flow.url == Some(v)
            &&& key == "token"@ ==> flow.token == Some(v)
            &&& key == "name"@ ==> flow.name == Some(v)
            &&& key == "work"@ ==> flow.work == Some(v)
            &&& key == "labels"@ ==> flow.labels == v
            &&& key == "runnergroup"@ ==> flow.runner_group == v
        }),
{
    lemma_arguments_are_sayable(v);
    command_settings::law_given_value_is_read(before, key, v, after, values);
    let words = command_settings::all_words(before + seq![Spoken::Named(key, v)] + after);
    let read = command_settings::read_command_line(words);
    let args = |name: Seq<char>| command_settings::arg_value(read.args, values, name);
    assert(args(key) == Some(v));
    law_given_answers_are_used(args, flags, default_name, v);
}

} // verus!
