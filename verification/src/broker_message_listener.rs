//! The listener on the broker.
use vstd::prelude::*;
use vstd::string::*;

use crate::config_store::{RunnerSettings, SettingsView};
use crate::credential_data::CredentialData;
use crate::message_listener::{ListenerError, ServiceRequest};
use crate::{config_store, credential_data, number, text};

verus! {

/// How long a poll waits for a message, in seconds.
pub const GET_MESSAGE_TIMEOUT: u64 = 50;

/// A session on the broker.
#[derive(Debug)]
pub struct BrokerSession {
    pub session_id: String,
    pub runner_token: Option<String>,
    pub encryption_key: Option<String>,
}

/// A message of the broker.
#[derive(Debug)]
pub struct BrokerMessage {
    pub message_id: u64,
    pub message_type: String,
    pub body: String,
    pub initialization_vector: Option<String>,
}

/// Well-known broker message types.
#[derive(Debug, Clone, Copy, PartialEq, Eq, Structural)]
pub enum BrokerMessageType {
    RunnerJobRequest,
    RunnerRefresh,
    JobCancel,
    ForceTokenRefresh,
    RunnerRefreshConfig,
    HostedRunnerShutdown,
    Unknown,
}

/// The type that a name stands for.
pub open spec fn broker_type_of(name: Seq<char>) -> BrokerMessageType {
    if name == "RunnerJobRequest"@ {
        BrokerMessageType::RunnerJobRequest
    } else if name == "RunnerRefreshMessage"@ {
        BrokerMessageType::RunnerRefresh
    } else if name == "JobCancelMessage"@ {
        BrokerMessageType::JobCancel
    } else if name == "ForceTokenRefreshMessage"@ {
        BrokerMessageType::ForceTokenRefresh
    } else if name == "RunnerRefreshConfig"@ {
        BrokerMessageType::RunnerRefreshConfig
    } else if name == "HostedRunnerShutdown"@ {
        BrokerMessageType::HostedRunnerShutdown
    } else {
        BrokerMessageType::Unknown
    }
}

impl BrokerMessage {
    /// The type of the message.
    pub fn type_kind(&self) -> (r: BrokerMessageType)
        ensures
            r == broker_type_of(self.message_type@),
    {
        let name = self.message_type.as_str();
        if text::same(name, "RunnerJobRequest") {
            BrokerMessageType::RunnerJobRequest
        } else if text::same(name, "RunnerRefreshMessage") {
            BrokerMessageType::RunnerRefresh
        } else if text::same(name, "JobCancelMessage") {
            BrokerMessageType::JobCancel
        } else if text::same(name, "ForceTokenRefreshMessage") {
            BrokerMessageType::ForceTokenRefresh
        } else if text::same(name, "RunnerRefreshConfig") {
            BrokerMessageType::RunnerRefreshConfig
        } else if text::same(name, "HostedRunnerShutdown") {
            BrokerMessageType::HostedRunnerShutdown
        } else {
            BrokerMessageType::Unknown
        }
    }
}

/// What the creation of a session asks for.
#[derive(Debug)]
pub struct BrokerSessionRequest {
    pub url: String,
    pub runner_id: u64,
    pub runner_name: String,
}

/// The URL of the broker: that of the service where none is set.
pub open spec fn broker_url(settings: SettingsView) -> Seq<char> {
    match settings.server_url_v2 {
        Some(url) => url,
        None => settings.server_url,
    }
}

/// The URL under which the runner's sessions are created.
pub open spec fn session_url(settings: SettingsView) -> Seq<char> {
    broker_url(settings) + "/_apis/v1/runners/"@ + number::decimal(settings.agent_id as int)
        + "/session"@
}

fn write_session_url(settings: &RunnerSettings) -> (r: String)
    ensures
        r@ == session_url(settings@),
{
    let mut url = match &settings.server_url_v2 {
        Some(url) => url.clone(),
        None => settings.server_url.clone(),
    };
    url.append("/_apis/v1/runners/");
    url.append(number::u64_text(settings.agent_id).as_str());
    url.append("/session");
    url
}

/// What a listener knows.
pub struct BrokerView {
    pub session_id: Option<Seq<char>>,
    pub settings: Option<SettingsView>,
    pub credentials: Option<credential_data::CredentialView>,
    pub last_message_id: int,
    pub access_token: Option<Seq<char>>,
}

/// What a request needs, in the order in which it is looked for.
pub open spec fn request_parts(listener: BrokerView) -> Result<
    (Seq<char>, SettingsView, Seq<char>),
    ListenerError,
> {
    match listener.session_id {
        None => Err(ListenerError::NoSession),
        Some(session_id) => match listener.settings {
            None => Err(ListenerError::NoSettings),
            Some(settings) => match listener.access_token {
                None => Err(ListenerError::NoToken),
                Some(token) => Ok((session_id, settings, token)),
            },
        },
    }
}

/// The listener on the broker.
#[derive(Debug)]
pub struct BrokerMessageListener {
    session: Option<BrokerSession>,
    settings: Option<RunnerSettings>,
    credentials: Option<CredentialData>,
    last_message_id: u64,
    access_token: Option<String>,
}

impl BrokerMessageListener {
    pub closed spec fn view(&self) -> BrokerView {
        BrokerView {
            session_id: match self.session {
                Some(session) => Some(session.session_id@),
                None => None,
            },
            settings: config_store::view_settings(self.settings),
            credentials: config_store::view_credentials(self.credentials),
            last_message_id: self.last_message_id as int,
            access_token: text::view_option(self.access_token),
        }
    }

    /// A listener without a session.
    pub fn new() -> (r: Self)
        ensures
            r@ == (BrokerView {
                session_id: None,
                settings: None,
                credentials: None,
                last_message_id: 0,
                access_token: None,
            }),
    {
        BrokerMessageListener {
            session: None,
            settings: None,
            credentials: None,
            last_message_id: 0,
            access_token: None,
        }
    }

    /// The id of the current session.
    pub fn session_id(&self) -> (r: Option<&str>)
        ensures
            match r {
                Some(id) => self@.session_id == Some(id@),
                None => self@.session_id is None,
            },
    {
        match &self.session {
            Some(session) => Some(session.session_id.as_str()),
            None => None,
        }
    }

    /// The credentials that the session was created with.
    pub fn credentials(&self) -> (r: &Option<CredentialData>)
        ensures
            config_store::view_credentials(*r) == self@.credentials,
    {
        &self.credentials
    }

    /// Takes a new access token.
    pub fn set_access_token(&mut self, token: String)
        ensures
            final(self)@ == (BrokerView { access_token: Some(token@), ..old(self)@ }),
    {
        self.access_token = Some(token);
    }

    /// Takes the settings and the credentials that a session is to be created with.
    pub fn prepare_session(&mut self, settings: RunnerSettings, credentials: CredentialData)
        ensures
            final(self)@ == (BrokerView {
                settings: Some(settings@),
                credentials: Some(credentials@),
                ..old(self)@
            }),
    {
        self.settings = Some(settings);
        self.credentials = Some(credentials);
    }

    /// What the creation of a session asks for.
    pub fn session_request(settings: &RunnerSettings) -> (r: BrokerSessionRequest)
        ensures
            r.url@ == session_url(settings@),
            r.runner_id == settings@.agent_id,
            r.runner_name@ == settings@.agent_name,
    {
        BrokerSessionRequest {
            url: write_session_url(settings),
            runner_id: settings.agent_id,
            runner_name: settings.agent_name.clone(),
        }
    }

    /// Takes the session that was created, and the token where it brings one.
    pub fn session_created(&mut self, session: BrokerSession)
        ensures
            final(self)@ == (BrokerView {
                session_id: Some(session.session_id@),
                access_token: match session.runner_token {
                    Some(token) => Some(token@),
                    None => old(self)@.access_token,
                },
                ..old(self)@
            }),
    {
        if let Some(token) = &session.runner_token {
            self.access_token = Some(token.clone());
        }
        self.session = Some(session);
    }

    /// The request that polls for the next message.
    pub fn poll_request(&self) -> (r: Result<ServiceRequest, ListenerError>)
        ensures
            match r {
                Ok(request) => {
                    &&& request_parts(self@) matches Ok((session_id, settings, token))
                    &&& request.url@ == session_url(settings) + "/"@ + session_id
                        + "/message?lastMessageId="@ + number::decimal(self@.last_message_id)
                    &&& request.token@ == token
                },
                Err(e) => request_parts(self@) matches Err(expected) && expected == e,
            },
    {
        match (&self.session, &self.settings, &self.access_token) {
            (None, _, _) => Err(ListenerError::NoSession),
            (Some(_), None, _) => Err(ListenerError::NoSettings),
            (Some(_), Some(_), None) => Err(ListenerError::NoToken),
            (Some(session), Some(settings), Some(token)) => {
                let mut url = write_session_url(settings);
                url.append("/");
                url.append(session.session_id.as_str());
                url.append("/message?lastMessageId=");
                url.append(number::u64_text(self.last_message_id).as_str());
                Ok(ServiceRequest { url, token: token.clone() })
            },
        }
    }

    /// Takes note of a message: the next poll asks for later ones.
    pub fn message_received(&mut self, message_id: u64)
        ensures
            final(self)@ == (BrokerView { last_message_id: message_id as int, ..old(self)@ }),
    {
        self.last_message_id = message_id;
    }

    /// The request that deletes a message.
    pub fn delete_message_request(&self, message_id: u64) -> (r: Result<
        ServiceRequest,
        ListenerError,
    >)
        ensures
            match r {
                Ok(request) => {
                    &&& request_parts(self@) matches Ok((session_id, settings, token))
                    &&& request.url@ == session_url(settings) + "/"@ + session_id + "/message/"@
                        + number::decimal(message_id as int)
                    &&& request.token@ == token
                },
                Err(e) => request_parts(self@) matches Err(expected) && expected == e,
            },
    {
        match (&self.session, &self.settings, &self.access_token) {
            (None, _, _) => Err(ListenerError::NoSession),
            (Some(_), None, _) => Err(ListenerError::NoSettings),
            (Some(_), Some(_), None) => Err(ListenerError::NoToken),
            (Some(session), Some(settings), Some(token)) => {
                let mut url = write_session_url(settings);
                url.append("/");
                url.append(session.session_id.as_str());
                url.append("/message/");
                url.append(number::u64_text(message_id).as_str());
                Ok(ServiceRequest { url, token: token.clone() })
            },
        }
    }

    /// Gives up the session. The request that deletes it, if there is anything to delete
    /// and the means to do so.
    pub fn delete_session_request(&mut self) -> (r: Option<ServiceRequest>)
        ensures
            final(self)@ == (BrokerView { session_id: None, ..old(self)@ }),
            match r {
                Some(request) => {
                    &&& request_parts(old(self)@) matches Ok((session_id, settings, token))
                    &&& request.url@ == session_url(settings) + "/"@ + session_id
                    &&& request.token@ == token
                },
                None => request_parts(old(self)@) is Err,
            },
    {
        let session = self.session.take();
        match (&session, &self.settings, &self.access_token) {
            (Some(session), Some(settings), Some(token)) => {
                let mut url = write_session_url(settings);
                url.append("/");
                url.append(session.session_id.as_str());
                Some(ServiceRequest { url, token: token.clone() })
            },
            _ => None,
        }
    }
}

// ---------------------------------------------------------------------------
// Laws
// ---------------------------------------------------------------------------

proof fn lemma_type_names_differ()
    ensures
        "RunnerJobRequest"@.len() == 16,
        "RunnerJobRequest"@[0] == 'R',
        "RunnerRefreshMessage"@.len() == 20,
        "RunnerRefreshMessage"@[0] == 'R',
        "JobCancelMessage"@.len() == 16,
        "JobCancelMessage"@[0] == 'J',
        "ForceTokenRefreshMessage"@.len() == 24,
        "RunnerRefreshConfig"@.len() == 19,
        "HostedRunnerShutdown"@.len() == 20,
        "HostedRunnerShutdown"@[0] == 'H',
{
    reveal_strlit("RunnerJobRequest");
    reveal_strlit("RunnerRefreshMessage");
    reveal_strlit("JobCancelMessage");
    reveal_strlit("ForceTokenRefreshMessage");
    reveal_strlit("RunnerRefreshConfig");
    reveal_strlit("HostedRunnerShutdown");
}

/// Each type of message goes by its name and by no other.
pub proof fn law_broker_type_names(name: Seq<char>)
    ensures
        broker_type_of(name) == BrokerMessageType::RunnerJobRequest <==> name
            == "RunnerJobRequest"@,
        broker_type_of(name) == BrokerMessageType::RunnerRefresh <==> name
            == "RunnerRefreshMessage"@,
        broker_type_of(name) == BrokerMessageType::JobCancel <==> name == "JobCancelMessage"@,
        broker_type_of(name) == BrokerMessageType::ForceTokenRefresh <==> name
            == "ForceTokenRefreshMessage"@,
        broker_type_of(name) == BrokerMessageType::RunnerRefreshConfig <==> name
            == "RunnerRefreshConfig"@,
        broker_type_of(name) == BrokerMessageType::HostedRunnerShutdown <==> name
            == "HostedRunnerShutdown"@,
{
    lemma_type_names_differ();
}

/// The broker that the settings name is the one that is used; the service stands in for it
/// only where they name none. Sessions are those of the runner that the settings name.
pub proof fn law_named_broker_is_used(settings: SettingsView, url: Seq<char>)
    ensures
        ({
            let runner = "/_apis/v1/runners/"@ + number::decimal(settings.agent_id as int)
                + "/session"@;
            &&& settings.server_url_v2 == Some(url) ==> session_url(settings) == url + runner
            &&& settings.server_url_v2 is None ==> session_url(settings) == settings.server_url
                + runner
        }),
{
    let base = broker_url(settings);
    let id = number::decimal(settings.agent_id as int);
    assert(base + "/_apis/v1/runners/"@ + id + "/session"@ == base + ("/_apis/v1/runners/"@ + id
        + "/session"@));
}

/// Requests can be made if and only if there are a session, settings and a token, and carry
/// just these; what is missing first is what is reported.
pub proof fn law_requests_need_all(listener: BrokerView)
    ensures
        match request_parts(listener) {
            Ok((session_id, settings, token)) => listener.session_id == Some(session_id)
                && listener.settings == Some(settings) && listener.access_token == Some(token),
            Err(ListenerError::NoSession) => listener.session_id is None,
            Err(ListenerError::NoSettings) => listener.session_id is Some && listener.settings
                is None,
            Err(ListenerError::NoToken) => listener.session_id is Some && listener.settings is Some
                && listener.access_token is None,
        },
{
}

} // verus!
