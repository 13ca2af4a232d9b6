//! The listener on the Actions service.
use vstd::prelude::*;
use vstd::string::*;

use crate::config_store::{RunnerSettings, SettingsView};
use crate::constants::{Architecture, OsPlatform};
use crate::credential_data::CredentialData;
use crate::{clock, config_store, credential_data, number, text};

verus! {

/// How long a poll waits for a message, in seconds.
pub const GET_MESSAGE_TIMEOUT: u64 = 30;

/// A session on the service.
#[derive(Debug)]
pub struct TaskAgentSession {
    pub session_id: String,
    pub owner_name: String,
    pub use_fips_encryption: bool,
    pub encryption_key: Option<SessionEncryptionKey>,
}

/// The key of a session.
#[derive(Debug)]
pub struct SessionEncryptionKey {
    pub encrypted: bool,
    pub value: String,
}

/// A message of the service.
#[derive(Debug)]
pub struct TaskAgentMessage {
    pub message_id: u64,
    pub message_type: String,
    pub body: String,
}

/// Well-known message types.
#[derive(Debug, Clone, Copy, PartialEq, Eq, Structural)]
pub enum MessageType {
    JobRequest,
    RunnerJobRequest,
    JobCancel,
    AgentRefresh,
    RunnerRefresh,
    JobMetadata,
    BrokerMigration,
    Unknown,
}

/// The type that a name stands for.
pub open spec fn type_of(name: Seq<char>) -> MessageType {
    if name == "PipelineAgentJobRequest"@ || name == "AgentJobRequest"@ {
        MessageType::JobRequest
    } else if name == "RunnerJobRequest"@ {
        MessageType::RunnerJobRequest
    } else if name == "JobCancelMessage"@ || name == "JobCancellation"@ {
        MessageType::JobCancel
    } else if name == "AgentRefreshMessage"@ {
        MessageType::AgentRefresh
    } else if name == "BrokerMigration"@ {
        MessageType::BrokerMigration
    } else if name == "RunnerRefreshMessage"@ {
        MessageType::RunnerRefresh
    } else if name == "JobMetadataMessage"@ {
        MessageType::JobMetadata
    } else {
        MessageType::Unknown
    }
}

impl TaskAgentMessage {
    /// The type of the message.
    pub fn type_kind(&self) -> (r: MessageType)
        ensures
            r == type_of(self.message_type@),
    {
        let name = self.message_type.as_str();
        if text::same(name, "PipelineAgentJobRequest") || text::same(name, "AgentJobRequest") {
            MessageType::JobRequest
        } else if text::same(name, "RunnerJobRequest") {
            MessageType::RunnerJobRequest
        } else if text::same(name, "JobCancelMessage") || text::same(name, "JobCancellation") {
            MessageType::JobCancel
        } else if text::same(name, "AgentRefreshMessage") {
            MessageType::AgentRefresh
        } else if text::same(name, "BrokerMigration") {
            MessageType::BrokerMigration
        } else if text::same(name, "RunnerRefreshMessage") {
            MessageType::RunnerRefresh
        } else if text::same(name, "JobMetadataMessage") {
            MessageType::JobMetadata
        } else {
            MessageType::Unknown
        }
    }
}

// ---------------------------------------------------------------------------
// Requests
// ---------------------------------------------------------------------------

/// What a request tells about the runner.
#[derive(Debug)]
pub struct RunnerIdentity {
    pub version: String,
    pub platform: OsPlatform,
    pub architecture: Architecture,
}

/// A request: where it goes, and the token that it carries.
#[derive(Debug)]
pub struct ServiceRequest {
    pub url: String,
    pub token: String,
}

/// Why a request cannot be made.
#[derive(Debug, Clone, Copy, PartialEq, Eq, Structural)]
pub enum ListenerError {
    NoSession,
    NoSettings,
    NoToken,
}

/// What the creation of a session asks for.
#[derive(Debug)]
pub struct SessionRequest {
    pub url: String,
    pub agent_id: u64,
    pub agent_name: String,
    pub owner_name: String,
}

/// The base of every URL of the service: no slash at its end.
pub open spec fn base_url(server_url: Seq<char>) -> Seq<char> {
    text::trimmed_end_char(server_url, '/')
}

pub open spec fn bool_text(b: bool) -> Seq<char> {
    if b {
        "true"@
    } else {
        "false"@
    }
}

fn write_bool(b: bool) -> (r: &'static str)
    ensures
        r@ == bool_text(b),
{
    if b {
        "true"
    } else {
        "false"
    }
}

/// The runner's version, platform and architecture as a query.
pub open spec fn identity_query(identity: RunnerIdentity) -> Seq<char> {
    "&status=Online&runnerVersion="@ + identity.version@ + "&os="@ + identity.platform.label()
        + "&architecture="@ + identity.architecture.label()
}

/// The URL of a runner group's sessions.
pub open spec fn sessions_url(settings: SettingsView) -> Seq<char> {
    base_url(settings.server_url) + "/_apis/distributedtask/pools/"@ + number::signed_decimal(
        settings.pool_id as int,
    ) + "/sessions"@
}

/// The URL of a runner group's messages.
pub open spec fn messages_url(settings: SettingsView) -> Seq<char> {
    base_url(settings.server_url) + "/_apis/distributedtask/pools/"@ + number::signed_decimal(
        settings.pool_id as int,
    ) + "/messages"@
}

/// The URL that is polled.
pub open spec fn poll_url(
    settings: SettingsView,
    session_id: Seq<char>,
    last_message_id: int,
    identity: RunnerIdentity,
) -> Seq<char> {
    messages_url(settings) + "?sessionId="@ + session_id + "&lastMessageId="@ + number::decimal(
        last_message_id,
    ) + identity_query(identity) + "&disableUpdate="@ + bool_text(settings.disable_update)
}

/// The URL that a migration to the broker leads to.
pub open spec fn migrated_poll_url(
    broker_base_url: Seq<char>,
    settings: SettingsView,
    session_id: Seq<char>,
    identity: RunnerIdentity,
) -> Seq<char> {
    base_url(broker_base_url) + "/message?sessionId="@ + session_id + identity_query(identity)
        + "&disableUpdate="@ + bool_text(settings.disable_update)
}

/// The URL by which a job reference is acknowledged.
pub open spec fn acknowledge_url(session_id: Seq<char>, identity: RunnerIdentity) -> Seq<char> {
    "https://broker.actions.githubusercontent.com/acknowledge?sessionId="@ + session_id
        + identity_query(identity)
}

/// The URL by which a message is deleted.
pub open spec fn message_url(
    settings: SettingsView,
    message_id: int,
    session_id: Seq<char>,
) -> Seq<char> {
    messages_url(settings) + "/"@ + number::decimal(message_id) + "?sessionId="@ + session_id
}

fn write_group_url(settings: &RunnerSettings, what: &str) -> (r: String)
    ensures
        r@ == base_url(settings@.server_url) + "/_apis/distributedtask/pools/"@
            + number::signed_decimal(settings@.pool_id as int) + what@,
{
    let mut url = text::trim_end_char(settings.server_url.as_str(), '/');
    url.append("/_apis/distributedtask/pools/");
    url.append(number::i64_text(settings.pool_id as i64).as_str());
    url.append(what);
    url
}

fn append_identity(url: &mut String, identity: &RunnerIdentity)
    ensures
        final(url)@ == old(url)@ + identity_query(*identity),
{
    let mut query = "&status=Online&runnerVersion=".to_owned();
    query.append(identity.version.as_str());
    query.append("&os=");
    query.append(identity.platform.label_name());
    query.append("&architecture=");
    query.append(identity.architecture.label_name());
    url.append(query.as_str());
}

// ---------------------------------------------------------------------------
// The listener
// ---------------------------------------------------------------------------

/// What a listener knows.
pub struct ListenerView {
    pub session_id: Option<Seq<char>>,
    pub settings: Option<SettingsView>,
    pub credentials: Option<credential_data::CredentialView>,
    pub last_message_id: int,
    pub access_token: Option<Seq<char>>,
    pub clock_skew: int,
}

/// The listener on the Actions service.
#[derive(Debug)]
pub struct MessageListener {
    session: Option<TaskAgentSession>,
    settings: Option<RunnerSettings>,
    credentials: Option<CredentialData>,
    last_message_id: u64,
    access_token: Option<String>,
    clock_skew: u64,
}

/// What a poll needs, in the order in which it is looked for.
pub open spec fn poll_parts(listener: ListenerView) -> Result<
    (Seq<char>, SettingsView, Seq<char>),
    ListenerError,
> {
    match listener.session_id {
        None => Err(ListenerError::NoSession),
        Some(session_id) => match listener.settings {
            None => Err(ListenerError::NoSettings),
            Some(settings) => match listener.access_token {
                None => Err(ListenerError::NoToken),
                Some(token) => Ok((session_id, settings, token)),
            },
        },
    }
}

impl MessageListener {
    pub closed spec fn view(&self) -> ListenerView {
        ListenerView {
            session_id: match self.session {
                Some(session) => Some(session.session_id@),
                None => None,
            },
            settings: config_store::view_settings(self.settings),
            credentials: config_store::view_credentials(self.credentials),
            last_message_id: self.last_message_id as int,
            access_token: text::view_option(self.access_token),
            clock_skew: self.clock_skew as int,
        }
    }

    /// A listener without a session.
    pub fn new() -> (r: Self)
        ensures
            r@ == (ListenerView {
                session_id: None,
                settings: None,
                credentials: None,
                last_message_id: 0,
                access_token: None,
                clock_skew: 0,
            }),
    {
        MessageListener {
            session: None,
            settings: None,
            credentials: None,
            last_message_id: 0,
            access_token: None,
            clock_skew: 0,
        }
    }

    /// The current access token.
    pub fn get_access_token(&self) -> (r: Option<String>)
        ensures
            text::view_option(r) == self@.access_token,
    {
        text::copy_option(&self.access_token)
    }

    /// The id of the current session.
    pub fn session_id(&self) -> (r: Option<&str>)
        ensures
            match r {
                Some(id) => self@.session_id == Some(id@),
                None => self@.session_id is None,
            },
    {
        match &self.session {
            Some(session) => Some(session.session_id.as_str()),
            None => None,
        }
    }

    /// How far the server's clock was off when the session was created, in seconds.
    pub fn clock_skew(&self) -> (r: u64)
        ensures
            r == self@.clock_skew,
    {
        self.clock_skew
    }

    /// The credentials that the session was created with.
    pub fn credentials(&self) -> (r: &Option<CredentialData>)
        ensures
            config_store::view_credentials(*r) == self@.credentials,
    {
        &self.credentials
    }

    /// Takes the settings and the credentials that a session is to be created with.
    pub fn prepare_session(&mut self, settings: RunnerSettings, credentials: CredentialData)
        ensures
            final(self)@ == (ListenerView {
                settings: Some(settings@),
                credentials: Some(credentials@),
                ..old(self)@
            }),
    {
        self.settings = Some(settings);
        self.credentials = Some(credentials);
    }

    /// Takes a new access token.
    pub fn set_access_token(&mut self, token: String)
        ensures
            final(self)@ == (ListenerView { access_token: Some(token@), ..old(self)@ }),
    {
        self.access_token = Some(token);
    }

    /// What the creation of a session asks for.
    pub fn session_request(settings: &RunnerSettings) -> (r: SessionRequest)
        ensures
            r.url@ == sessions_url(settings@),
            r.agent_id == settings@.agent_id,
            r.agent_name@ == settings@.agent_name,
            r.owner_name@ == "runner-"@ + settings@.agent_name,
    {
        let mut owner_name = "runner-".to_owned();
        owner_name.append(settings.agent_name.as_str());
        SessionRequest {
            url: write_group_url(settings, "/sessions"),
            agent_id: settings.agent_id,
            agent_name: settings.agent_name.clone(),
            owner_name,
        }
    }

    /// Notes how far the server's clock is off, given the date that the server sent and the
    /// local time in seconds since the epoch. Another date changes nothing. Tells whether
    /// the clocks differ significantly.
    pub fn note_server_date(&mut self, date: &str, local: i64) -> (r: bool)
        ensures
            match clock::rfc2822_seconds(date@) {
                Some(server) => {
                    let skew = clock::skew(server as int, local as int);
                    &&& final(self)@ == (ListenerView { clock_skew: skew, ..old(self)@ })
                    &&& r == (skew > clock::SIGNIFICANT_SKEW_SECS)
                },
                None => final(self)@ == old(self)@ && !r,
            },
    {
        match clock::parse_rfc2822(date) {
            Some(server) => self.note_server_time(server, local),
            None => false,
        }
    }

    /// Notes how far the server's clock is off, given both times in seconds since the epoch.
    /// Tells whether the clocks differ significantly.
    pub fn note_server_time(&mut self, server: i64, local: i64) -> (r: bool)
        ensures
            final(self)@ == (ListenerView {
                clock_skew: clock::skew(server as int, local as int),
                ..old(self)@
            }),
            r == (clock::skew(server as int, local as int) > clock::SIGNIFICANT_SKEW_SECS),
    {
        self.clock_skew = clock::clock_skew(server, local);
        self.clock_skew > clock::SIGNIFICANT_SKEW_SECS
    }

    /// Takes the session that was created.
    pub fn session_created(&mut self, session: TaskAgentSession)
        ensures
            final(self)@ == (ListenerView {
                session_id: Some(session.session_id@),
                ..old(self)@
            }),
    {
        self.session = Some(session);
    }

    /// The request that polls for the next message.
    pub fn poll_request(&self, identity: &RunnerIdentity) -> (r: Result<
        ServiceRequest,
        ListenerError,
    >)
        ensures
            match r {
                Ok(request) => {
                    &&& poll_parts(self@) matches Ok((session_id, settings, token))
                    &&& request.url@ == poll_url(
                        settings,
                        session_id,
                        self@.last_message_id,
                        *identity,
                    )
                    &&& request.token@ == token
                },
                Err(e) => poll_parts(self@) matches Err(expected) && expected == e,
            },
    {
        match (&self.session, &self.settings, &self.access_token) {
            (None, _, _) => Err(ListenerError::NoSession),
            (Some(_), None, _) => Err(ListenerError::NoSettings),
            (Some(_), Some(_), None) => Err(ListenerError::NoToken),
            (Some(session), Some(settings), Some(token)) => {
                let mut url = write_group_url(settings, "/messages");
                url.append("?sessionId=");
                url.append(session.session_id.as_str());
                url.append("&lastMessageId=");
                url.append(number::u64_text(self.last_message_id).as_str());
                append_identity(&mut url, identity);
                url.append("&disableUpdate=");
                url.append(write_bool(settings.disable_update));
                Ok(ServiceRequest { url, token: token.clone() })
            },
        }
    }

    /// The request that follows a migration to the broker.
    pub fn migrated_poll_request(&self, broker_base_url: &str, identity: &RunnerIdentity) -> (r:
        Result<ServiceRequest, ListenerError>)
        ensures
            match r {
                Ok(request) => {
                    &&& poll_parts(self@) matches Ok((session_id, settings, token))
                    &&& request.url@ == migrated_poll_url(
                        broker_base_url@,
                        settings,
                        session_id,
                        *identity,
                    )
                    &&& request.token@ == token
                },
                Err(e) => poll_parts(self@) matches Err(expected) && expected == e,
            },
    {
        match (&self.session, &self.settings, &self.access_token) {
            (None, _, _) => Err(ListenerError::NoSession),
            (Some(_), None, _) => Err(ListenerError::NoSettings),
            (Some(_), Some(_), None) => Err(ListenerError::NoToken),
            (Some(session), Some(settings), Some(token)) => {
                let mut url = text::trim_end_char(broker_base_url, '/');
                url.append("/message?sessionId=");
                url.append(session.session_id.as_str());
                append_identity(&mut url, identity);
                url.append("&disableUpdate=");
                url.append(write_bool(settings.disable_update));
                Ok(ServiceRequest { url, token: token.clone() })
            },
        }
    }

    /// Takes note of a message that is handed on: the next poll asks for later ones. A
    /// message without an id leaves the last one as it was.
    pub fn message_received(&mut self, message_id: u64)
        ensures
            final(self)@ == (ListenerView {
                last_message_id: if message_id > 0 {
                    message_id as int
                } else {
                    old(self)@.last_message_id
                },
                ..old(self)@
            }),
    {
        if message_id > 0 {
            self.last_message_id = message_id;
        }
    }

    /// The request that acknowledges a job reference.
    pub fn acknowledge_request(&self, identity: &RunnerIdentity) -> (r: Result<
        ServiceRequest,
        ListenerError,
    >)
        ensures
            match r {
                Ok(request) => {
                    &&& self@.session_id matches Some(session_id)
                    &&& request.url@ == acknowledge_url(session_id, *identity)
                    &&& self@.access_token == Some(request.token@)
                },
                Err(ListenerError::NoSession) => self@.session_id is None,
                Err(ListenerError::NoToken) => self@.session_id is Some
                    && self@.access_token is None,
                Err(ListenerError::NoSettings) => false,
            },
    {
        match (&self.session, &self.access_token) {
            (None, _) => Err(ListenerError::NoSession),
            (Some(_), None) => Err(ListenerError::NoToken),
            (Some(session), Some(token)) => {
                let mut url =
                    "https://broker.actions.githubusercontent.com/acknowledge?sessionId=".to_owned();
                url.append(session.session_id.as_str());
                append_identity(&mut url, identity);
                Ok(ServiceRequest { url, token: token.clone() })
            },
        }
    }

    /// The request that deletes a message.
    pub fn delete_message_request(&self, message_id: u64) -> (r: Result<
        ServiceRequest,
        ListenerError,
    >)
        ensures
            match r {
                Ok(request) => {
                    &&& poll_parts(self@) matches Ok((session_id, settings, token))
                    &&& request.url@ == message_url(settings, message_id as int, session_id)
                    &&& request.token@ == token
                },
                Err(e) => poll_parts(self@) matches Err(expected) && expected == e,
            },
    {
        match (&self.session, &self.settings, &self.access_token) {
            (None, _, _) => Err(ListenerError::NoSession),
            (Some(_), None, _) => Err(ListenerError::NoSettings),
            (Some(_), Some(_), None) => Err(ListenerError::NoToken),
            (Some(session), Some(settings), Some(token)) => {
                let mut url = write_group_url(settings, "/messages");
                url.append("/");
                url.append(number::u64_text(message_id).as_str());
                url.append("?sessionId=");
                url.append(session.session_id.as_str());
                Ok(ServiceRequest { url, token: token.clone() })
            },
        }
    }

    /// Gives up the session. The request that deletes it, if there is anything to delete
    /// and the means to do so.
    pub fn delete_session_request(&mut self) -> (r: Option<ServiceRequest>)
        ensures
            final(self)@ == (ListenerView { session_id: None, ..old(self)@ }),
            match r {
                Some(request) => {
                    &&& poll_parts(old(self)@) matches Ok((session_id, settings, token))
                    &&& request.url@ == sessions_url(settings) + "/"@ + session_id
                    &&& request.token@ == token
                },
                None => poll_parts(old(self)@) is Err,
            },
    {
        let session = self.session.take();
        match (&session, &self.settings, &self.access_token) {
            (Some(session), Some(settings), Some(token)) => {
                let mut url = write_group_url(settings, "/sessions");
                url.append("/");
                url.append(session.session_id.as_str());
                Some(ServiceRequest { url, token: token.clone() })
            },
            _ => None,
        }
    }
}

// ---------------------------------------------------------------------------
// Laws
// ---------------------------------------------------------------------------

proof fn lemma_type_names_differ()
    ensures
        "PipelineAgentJobRequest"@.len() == 23,
        "AgentJobRequest"@.len() == 15,
        "AgentJobRequest"@[0] == 'A',
        "RunnerJobRequest"@.len() == 16,
        "RunnerJobRequest"@[0] == 'R',
        "JobCancelMessage"@.len() == 16,
        "JobCancelMessage"@[0] == 'J',
        "JobCancellation"@.len() == 15,
        "JobCancellation"@[0] == 'J',
        "AgentRefreshMessage"@.len() == 19,
        "BrokerMigration"@.len() == 15,
        "BrokerMigration"@[0] == 'B',
        "RunnerRefreshMessage"@.len() == 20,
        "JobMetadataMessage"@.len() == 18,
{
    reveal_strlit("PipelineAgentJobRequest");
    reveal_strlit("AgentJobRequest");
    reveal_strlit("RunnerJobRequest");
    reveal_strlit("JobCancelMessage");
    reveal_strlit("JobCancellation");
    reveal_strlit("AgentRefreshMessage");
    reveal_strlit("BrokerMigration");
    reveal_strlit("RunnerRefreshMessage");
    reveal_strlit("JobMetadataMessage");
}

/// Each type of message goes by its names and by no other.
pub proof fn law_type_names(name: Seq<char>)
    ensures
        type_of(name) == MessageType::JobRequest <==> name == "PipelineAgentJobRequest"@ || name
            == "AgentJobRequest"@,
        type_of(name) == MessageType::RunnerJobRequest <==> name == "RunnerJobRequest"@,
        type_of(name) == MessageType::JobCancel <==> name == "JobCancelMessage"@ || name
            == "JobCancellation"@,
        type_of(name) == MessageType::AgentRefresh <==> name == "AgentRefreshMessage"@,
        type_of(name) == MessageType::BrokerMigration <==> name == "BrokerMigration"@,
        type_of(name) == MessageType::RunnerRefresh <==> name == "RunnerRefreshMessage"@,
        type_of(name) == MessageType::JobMetadata <==> name == "JobMetadataMessage"@,
{
    lemma_type_names_differ();
}

/// Slashes at the end of the server's URL do not matter, and nothing else of it is lost:
/// every URL of the service begins with the rest of it.
pub proof fn law_urls_of_group(
    settings: SettingsView,
    base: Seq<char>,
    slashes: nat,
    session_id: Seq<char>,
    message_id: int,
)
    requires
        settings.server_url == base + text::repeated('/', slashes),
        base.len() > 0 ==> base.last() != '/',
    ensures
        ({
            let group = base + "/_apis/distributedtask/pools/"@ + number::signed_decimal(
                settings.pool_id as int,
            );
            &&& sessions_url(settings) == group + "/sessions"@
            &&& messages_url(settings) == group + "/messages"@
            &&& message_url(settings, message_id, session_id) == group + "/messages"@ + "/"@
                + number::decimal(message_id) + "?sessionId="@ + session_id
        }),
{
    text::law_trimmed_end_char_drops(base, '/', slashes);
}

/// A poll names the session, the last message that was seen and the runner as it is, and
/// says whether the runner takes updates.
pub proof fn law_poll_url(
    settings: SettingsView,
    session_id: Seq<char>,
    last_message_id: int,
    identity: RunnerIdentity,
)
    ensures
        poll_url(settings, session_id, last_message_id, identity) == messages_url(settings)
            + "?sessionId="@ + session_id + "&lastMessageId="@ + number::decimal(last_message_id)
            + ("&status=Online&runnerVersion="@ + identity.version@ + "&os="@
            + identity.platform.label() + "&architecture="@ + identity.architecture.label())
            + "&disableUpdate="@ + if settings.disable_update {
            "true"@
        } else {
            "false"@
        },
{
}

/// A poll that follows a migration goes to the broker that the migration named, and tells
/// of session and runner what any poll tells.
pub proof fn law_migrated_poll_url(
    broker: Seq<char>,
    slashes: nat,
    settings: SettingsView,
    session_id: Seq<char>,
    identity: RunnerIdentity,
)
    requires
        broker.len() > 0 ==> broker.last() != '/',
    ensures
        migrated_poll_url(
            broker + text::repeated('/', slashes),
            settings,
            session_id,
            identity,
        ) == broker + "/message?sessionId="@ + session_id + ("&status=Online&runnerVersion="@
            + identity.version@ + "&os="@ + identity.platform.label() + "&architecture="@
            + identity.architecture.label()) + "&disableUpdate="@ + if settings.disable_update {
            "true"@
        } else {
            "false"@
        },
{
    text::law_trimmed_end_char_drops(broker, '/', slashes);
}

/// Requests can be made if and only if there are a session, settings and a token, and carry
/// just these; what is missing first is what is reported.
pub proof fn law_requests_need_all(listener: ListenerView)
    ensures
        match poll_parts(listener) {
            Ok((session_id, settings, token)) => listener.session_id == Some(session_id)
                && listener.settings == Some(settings) && listener.access_token == Some(token),
            Err(ListenerError::NoSession) => listener.session_id is None,
            Err(ListenerError::NoSettings) => listener.session_id is Some && listener.settings
                is None,
            Err(ListenerError::NoToken) => listener.session_id is Some && listener.settings is Some
                && listener.access_token is None,
        },
{
}

} // verus!
