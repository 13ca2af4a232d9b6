use actions_runner::broker_message_listener::{
    BrokerMessage, BrokerMessageListener, BrokerMessageType, BrokerSession,
};
use actions_runner::clock::clock_skew;
use actions_runner::config_store::RunnerSettings;
use actions_runner::constants::{Architecture, OsPlatform};
use actions_runner::credential_data::CredentialData;
use actions_runner::message_listener::{
    ListenerError, MessageListener, MessageType, RunnerIdentity, TaskAgentMessage,
    TaskAgentSession,
};
use actions_runner::oauth::{
    bearer_claims, exchange_bearer_token, exchange_oauth_token, new_service_claims, obtain_access_token,
    obtain_broker_token, service_claims, SignError, TokenError, TokenSource,
};
use actions_runner::rsa_key_manager::RsaKeyManager;

fn settings() -> RunnerSettings {
    let mut settings = RunnerSettings::default();
    settings.agent_id = 42;
    settings.agent_name = "box".to_string();
    settings.pool_id = 3;
    settings.server_url = "https://svc//".to_string();
    settings
}

fn identity() -> RunnerIdentity {
    RunnerIdentity {
        version: "2.9".to_string(),
        platform: OsPlatform::Linux,
        architecture: Architecture::X64,
    }
}

fn session(id: &str) -> TaskAgentSession {
    TaskAgentSession {
        session_id: id.to_string(),
        owner_name: "o".to_string(),
        use_fips_encryption: false,
        encryption_key: None,
    }
}

#[test]
fn the_listener_asks_for_what_it_needs_in_order() {
    let mut listener = MessageListener::new();
    assert!(matches!(listener.poll_request(&identity()), Err(ListenerError::NoSession)));
    listener.session_created(session("s1"));
    assert!(matches!(listener.poll_request(&identity()), Err(ListenerError::NoSettings)));
    assert!(matches!(listener.acknowledge_request(&identity()), Err(ListenerError::NoToken)));
    listener.prepare_session(settings(), CredentialData::new("OAuth"));
    assert!(matches!(listener.delete_message_request(1), Err(ListenerError::NoToken)));
    listener.set_access_token("tok".to_string());
    let request = listener.poll_request(&identity()).unwrap();
    assert_eq!(
        request.url,
        "https://svc/_apis/distributedtask/pools/3/messages?sessionId=s1&lastMessageId=0&status=Online&runnerVersion=2.9&os=Linux&architecture=X64&disableUpdate=false"
    );
    assert_eq!(request.token, "tok");
}

#[test]
fn requests_name_the_session() {
    let request = MessageListener::session_request(&settings());
    assert_eq!(request.url, "https://svc/_apis/distributedtask/pools/3/sessions");
    assert_eq!(request.agent_id, 42);
    assert_eq!(request.owner_name, "runner-box");
    let mut listener = MessageListener::new();
    listener.prepare_session(settings(), CredentialData::new("OAuth"));
    listener.session_created(session("s1"));
    listener.set_access_token("tok".to_string());
    listener.message_received(17);
    listener.message_received(0);
    assert!(listener.poll_request(&identity()).unwrap().url.contains("&lastMessageId=17&"));
    assert_eq!(
        listener.migrated_poll_request("https://broker/", &identity()).unwrap().url,
        "https://broker/message?sessionId=s1&status=Online&runnerVersion=2.9&os=Linux&architecture=X64&disableUpdate=false"
    );
    assert_eq!(
        listener.acknowledge_request(&identity()).unwrap().url,
        "https://broker.actions.githubusercontent.com/acknowledge?sessionId=s1&status=Online&runnerVersion=2.9&os=Linux&architecture=X64"
    );
    assert_eq!(
        listener.delete_message_request(9).unwrap().url,
        "https://svc/_apis/distributedtask/pools/3/messages/9?sessionId=s1"
    );
    assert_eq!(
        listener.delete_session_request().unwrap().url,
        "https://svc/_apis/distributedtask/pools/3/sessions/s1"
    );
    assert_eq!(listener.session_id(), None);
    assert!(listener.delete_session_request().is_none());
}

#[test]
fn the_broker_is_asked_by_the_runners_id() {
    let mut stored = settings();
    stored.server_url_v2 = Some("https://broker".to_string());
    let request = BrokerMessageListener::session_request(&stored);
    assert_eq!(request.url, "https://broker/_apis/v1/runners/42/session");
    let mut listener = BrokerMessageListener::new();
    listener.prepare_session(stored, CredentialData::new("OAuth"));
    listener.session_created(BrokerSession {
        session_id: "b1".to_string(),
        runner_token: Some("rt".to_string()),
        encryption_key: None,
    });
    listener.message_received(5);
    let request = listener.poll_request().unwrap();
    assert_eq!(
        request.url,
        "https://broker/_apis/v1/runners/42/session/b1/message?lastMessageId=5"
    );
    assert_eq!(request.token, "rt");
    assert_eq!(
        listener.delete_message_request(5).unwrap().url,
        "https://broker/_apis/v1/runners/42/session/b1/message/5"
    );
    assert_eq!(
        listener.delete_session_request().unwrap().url,
        "https://broker/_apis/v1/runners/42/session/b1"
    );
    assert!(matches!(listener.poll_request(), Err(ListenerError::NoSession)));
}

#[test]
fn messages_have_their_kinds() {
    let kind = |name: &str| {
        TaskAgentMessage { message_id: 1, message_type: name.to_string(), body: String::new() }
            .type_kind()
    };
    assert_eq!(kind("RunnerJobRequest"), MessageType::RunnerJobRequest);
    assert_eq!(kind("BrokerMigration"), MessageType::BrokerMigration);
    assert_eq!(kind("?"), MessageType::Unknown);
    let broker = |name: &str| {
        BrokerMessage {
            message_id: 1,
            message_type: name.to_string(),
            body: String::new(),
            initialization_vector: None,
        }
        .type_kind()
    };
    assert_eq!(broker("ForceTokenRefreshMessage"), BrokerMessageType::ForceTokenRefresh);
    assert_eq!(broker("?"), BrokerMessageType::Unknown);
}

#[test]
fn the_servers_date_shows_the_skew() {
    let mut listener = MessageListener::new();
    // 784111777 seconds after the epoch.
    let date = "Sun, 06 Nov 1994 08:49:37 GMT";
    assert!(!listener.note_server_date(date, 784_111_777 + 300));
    assert_eq!(listener.clock_skew(), 300);
    assert!(listener.note_server_date(date, 784_111_777 - 301));
    assert_eq!(listener.clock_skew(), 301);
    assert!(!listener.note_server_date("yesterday", 0));
    assert_eq!(listener.clock_skew(), 301);
    assert_eq!(clock_skew(i64::MIN, i64::MAX), u64::MAX);
}

#[test]
fn tokens_come_from_the_credentials() {
    let mut credentials = CredentialData::new("OAuth");
    assert!(matches!(obtain_access_token(&credentials), Err(TokenError::NoCredentials)));
    credentials.client_id = Some("c".to_string());
    assert!(matches!(obtain_broker_token(&credentials), Err(TokenError::NoCredentials)));
    credentials.authorization_url = Some("https://a".to_string());
    assert!(matches!(obtain_access_token(&credentials), Ok(TokenSource::Exchange { .. })));
    credentials.data.insert("token".to_string(), "p".to_string());
    assert!(matches!(obtain_access_token(&credentials), Ok(TokenSource::Exchange { .. })));
    assert!(matches!(obtain_broker_token(&credentials), Ok(TokenSource::Stored(s)) if s == "p"));
    credentials.data.insert("accessToken".to_string(), "t".to_string());
    assert!(matches!(obtain_access_token(&credentials), Ok(TokenSource::Stored(s)) if s == "t"));
    assert!(matches!(obtain_broker_token(&credentials), Ok(TokenSource::Stored(s)) if s == "t"));
}

#[test]
fn assertions_are_signed_with_the_key() {
    let (file, public) = RsaKeyManager::generate_key(false).unwrap();
    let claims = service_claims("client", "https://a/token", "id-1".to_string(), 1_000);
    assert_eq!((claims.nbf, claims.exp), (1_000, 1_300));
    let fresh = new_service_claims("client", "https://a/token", 1_000);
    assert_eq!(fresh.jti.as_ref().map(|id| id.len()), Some(36));
    assert_eq!((fresh.nbf, fresh.exp), (1_000, 1_300));
    let request = exchange_oauth_token(&claims, &file.content).unwrap();
    assert_eq!(request.url, "https://a/token");
    assert_eq!(request.form.get("grant_type").map(|s| s.as_str()), Some("client_credentials"));
    let jwt = request.form.get("client_assertion").unwrap();
    let parts: Vec<&str> = jwt.split('.').collect();
    assert_eq!(parts.len(), 3);
    // The header says RS256.
    assert_eq!(parts[0], "eyJ0eXAiOiJKV1QiLCJhbGciOiJSUzI1NiJ9");
    let key = jsonwebtoken::DecodingKey::from_rsa_pem(public.as_bytes()).unwrap();
    let mut validation = jsonwebtoken::Validation::new(jsonwebtoken::Algorithm::RS256);
    validation.validate_exp = false;
    validation.set_audience(&["https://a/token"]);
    let read = jsonwebtoken::decode::<serde_json::Value>(jwt, &key, &validation).unwrap();
    assert_eq!(read.claims["sub"], "client");
    assert_eq!(read.claims["iss"], "client");
    assert_eq!(read.claims["jti"], "id-1");
    assert_eq!(read.claims["nbf"], 1_000);
    assert_eq!(read.claims["exp"], 1_300);
    let again = exchange_oauth_token(&claims, &file.content).unwrap();
    assert_eq!(again.form.get("client_assertion").unwrap(), jwt);
    let claims = bearer_claims("client", "https://a/token", 1_000);
    assert_eq!((claims.nbf, claims.exp), (700, 1_300));
    let request = exchange_bearer_token(&claims, &file.content).unwrap();
    assert!(request.form.get("assertion").is_some());
    assert_ne!(request.form.get("assertion").unwrap(), jwt);
    assert_eq!(exchange_bearer_token(&claims, "no key").unwrap_err(), SignError::Key);
}
