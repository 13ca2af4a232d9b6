//! Access tokens: where they come from, and how one is asked for.
use vstd::prelude::*;

use crate::credential_data::{CredentialData, CredentialView};
use crate::string_map::StringMap;
use crate::{codec, credential_data, string_map, text};

verus! {

/// How long an assertion is valid, in seconds.
pub const ASSERTION_LIFETIME_SECS: i64 = 300;

/// Where an access token comes from.
#[derive(Debug)]
pub enum TokenSource {
    /// It is stored.
    Stored(String),
    /// It is issued for a signed assertion.
    Exchange { client_id: String, auth_url: String },
}

/// Where an access token comes from.
pub enum TokenSourceView {
    Stored(Seq<char>),
    Exchange { client_id: Seq<char>, auth_url: Seq<char> },
}

/// Why there is no access token.
#[derive(Debug, Clone, Copy, PartialEq, Eq, Structural)]
pub enum TokenError {
    /// The credentials hold neither a token nor what is needed to ask for one.
    NoCredentials,
    /// The stored token is missing.
    NoStoredToken,
    /// The authorization URL is missing.
    NoAuthorizationUrl,
    /// The client id is missing.
    NoClientId,
}

impl TokenSource {
    pub open spec fn view(&self) -> TokenSourceView {
        match *self {
            TokenSource::Stored(token) => TokenSourceView::Stored(token@),
            TokenSource::Exchange { client_id, auth_url } => TokenSourceView::Exchange {
                client_id: client_id@,
                auth_url: auth_url@,
            },
        }
    }
}

/// What a token lookup says.
pub open spec fn view_source(r: Result<TokenSource, TokenError>) -> Result<
    TokenSourceView,
    TokenError,
> {
    match r {
        Ok(source) => Ok(source@),
        Err(e) => Err(e),
    }
}

/// What the credentials need for an exchange: both a client id and an authorization URL.
pub open spec fn exchange_of(credentials: CredentialView) -> Option<TokenSourceView> {
    match (credentials.client_id, credentials.authorization_url) {
        (Some(client_id), Some(auth_url)) => Some(
            TokenSourceView::Exchange { client_id, auth_url },
        ),
        _ => None,
    }
}

/// The token stored under `key`.
pub open spec fn stored_under(credentials: CredentialView, key: Seq<char>) -> Option<
    TokenSourceView,
> {
    match credential_data::data_value(credentials.data, key) {
        Some(token) => Some(TokenSourceView::Stored(token)),
        None => None,
    }
}

/// The first of up to three sources.
pub open spec fn first_source(
    a: Option<TokenSourceView>,
    b: Option<TokenSourceView>,
    c: Option<TokenSourceView>,
) -> Result<TokenSourceView, TokenError> {
    match a {
        Some(source) => Ok(source),
        None => match b {
            Some(source) => Ok(source),
            None => match c {
                Some(source) => Ok(source),
                None => Err(TokenError::NoCredentials),
            },
        },
    }
}

fn stored(credentials: &CredentialData, key: &str) -> (r: Option<TokenSource>)
    ensures
        match r {
            Some(source) => stored_under(credentials@, key@) == Some(source@),
            None => stored_under(credentials@, key@) is None,
        },
{
    match credentials.get_data(key) {
        Some(token) => Some(TokenSource::Stored(token.clone())),
        None => None,
    }
}

fn exchange(credentials: &CredentialData) -> (r: Option<TokenSource>)
    ensures
        match r {
            Some(source) => exchange_of(credentials@) == Some(source@),
            None => exchange_of(credentials@) is None,
        },
{
    match (&credentials.client_id, &credentials.authorization_url) {
        (Some(client_id), Some(auth_url)) => Some(
            TokenSource::Exchange { client_id: client_id.clone(), auth_url: auth_url.clone() },
        ),
        _ => None,
    }
}

/// Where the listener on the Actions service gets its token: a stored access token, an
/// exchange, a stored plain token, in this order.
pub fn obtain_access_token(credentials: &CredentialData) -> (r: Result<TokenSource, TokenError>)
    ensures
        view_source(r) == first_source(
            stored_under(credentials@, "accessToken"@),
            exchange_of(credentials@),
            stored_under(credentials@, "token"@),
        ),
{
    if let Some(source) = stored(credentials, "accessToken") {
        return Ok(source);
    }
    if let Some(source) = exchange(credentials) {
        return Ok(source);
    }
    match stored(credentials, "token") {
        Some(source) => Ok(source),
        None => Err(TokenError::NoCredentials),
    }
}

/// Where the listener on the broker gets its token: a stored access token, a stored plain
/// token, an exchange, in this order.
pub fn obtain_broker_token(credentials: &CredentialData) -> (r: Result<TokenSource, TokenError>)
    ensures
        view_source(r) == first_source(
            stored_under(credentials@, "accessToken"@),
            stored_under(credentials@, "token"@),
            exchange_of(credentials@),
        ),
{
    if let Some(source) = stored(credentials, "accessToken") {
        return Ok(source);
    }
    if let Some(source) = stored(credentials, "token") {
        return Ok(source);
    }
    match exchange(credentials) {
        Some(source) => Ok(source),
        None => Err(TokenError::NoCredentials),
    }
}

// ---------------------------------------------------------------------------
// Assertions
// ---------------------------------------------------------------------------

/// What an assertion claims.
#[derive(Debug)]
pub struct JwtClaims {
    /// The subject.
    pub sub: String,
    /// The issuer.
    pub iss: String,
    /// The audience.
    pub aud: String,
    /// The assertion's own id, where it has one.
    pub jti: Option<String>,
    /// Not valid before, in seconds since the epoch.
    pub nbf: i64,
    /// Not valid after, in seconds since the epoch.
    pub exp: i64,
}

/// Why an assertion could not be signed.
#[derive(Debug, Clone, Copy, PartialEq, Eq, Structural)]
pub enum SignError {
    /// The key is not an RSA private key in PEM form.
    Key,
    /// The claims could not be signed with the key.
    Encode,
}

/// The signed assertion that `jsonwebtoken::encode` makes with RS256 of these claims and
/// this private key.
pub uninterp spec fn rs256_assertion(
    sub: Seq<char>,
    iss: Seq<char>,
    aud: Seq<char>,
    jti: Option<Seq<char>>,
    nbf: i64,
    exp: i64,
    rsa_pem: Seq<char>,
) -> Result<Seq<char>, SignError>;

/// What a result of signing holds.
pub open spec fn view_signed(r: Result<String, SignError>) -> Result<Seq<char>, SignError> {
    match r {
        Ok(jwt) => Ok(jwt@),
        Err(e) => Err(e),
    }
}

/// The assertion that the claims and the key make.
pub open spec fn assertion_of(claims: JwtClaims, rsa_pem: Seq<char>) -> Result<
    Seq<char>,
    SignError,
> {
    rs256_assertion(
        claims.sub@,
        claims.iss@,
        claims.aud@,
        text::view_option(claims.jti),
        claims.nbf,
        claims.exp,
        rsa_pem,
    )
}

/// `jsonwebtoken::encode` with an RS256 header, on the claims as a JSON object and the key
/// that `EncodingKey::from_rsa_pem` reads. The result depends on the claims and the key
/// alone, RS256 signatures not being random; the contract says no more than that.
#[verifier::external_body]
fn sign_rs256(claims: &JwtClaims, rsa_pem: &str) -> (r: Result<String, SignError>)
    ensures
        view_signed(r) == rs256_assertion(
            claims.sub@,
            claims.iss@,
            claims.aud@,
            text::view_option(claims.jti),
            claims.nbf,
            claims.exp,
            rsa_pem@,
        ),
{
    let mut body = serde_json::Map::from_iter([
        ("sub".to_string(), claims.sub.as_str().into()),
        ("iss".to_string(), claims.iss.as_str().into()),
        ("aud".to_string(), claims.aud.as_str().into()),
        ("nbf".to_string(), claims.nbf.into()),
        ("exp".to_string(), claims.exp.into()),
    ]);
    claims.jti.as_ref().map(|jti| body.insert("jti".to_string(), jti.as_str().into()));
    let key = jsonwebtoken::EncodingKey::from_rsa_pem(rsa_pem.as_bytes());
    jsonwebtoken::encode(
        &jsonwebtoken::Header::new(jsonwebtoken::Algorithm::RS256),
        &body,
        &key.map_err(|_| SignError::Key)?,
    ).map_err(|_| SignError::Encode)
}

/// The claims of a runner that asks the Actions service for a token. `jti` is an id that
/// was not used before, `now` the time in seconds since the epoch.
pub fn service_claims(client_id: &str, auth_url: &str, jti: String, now: i64) -> (r: JwtClaims)
    requires
        now <= i64::MAX - ASSERTION_LIFETIME_SECS,
    ensures
        r.sub@ == client_id@,
        r.iss@ == client_id@,
        r.aud@ == auth_url@,
        r.jti == Some(jti),
        r.nbf == now,
        r.exp == now + ASSERTION_LIFETIME_SECS,
{
    JwtClaims {
        sub: client_id.to_owned(),
        iss: client_id.to_owned(),
        aud: auth_url.to_owned(),
        jti: Some(jti),
        nbf: now,
        exp: now + ASSERTION_LIFETIME_SECS,
    }
}

/// The claims of a runner that asks the Actions service for a token, with a new random id.
pub fn new_service_claims(client_id: &str, auth_url: &str, now: i64) -> (r: JwtClaims)
    requires
        now <= i64::MAX - ASSERTION_LIFETIME_SECS,
    ensures
        r.sub@ == client_id@,
        r.iss@ == client_id@,
        r.aud@ == auth_url@,
        exists|id: u128|
            codec::is_random_uuid(id) && text::view_option(r.jti) == Some(
                #[trigger] codec::uuid_text(id),
            ),
        r.nbf == now,
        r.exp == now + ASSERTION_LIFETIME_SECS,
{
    let id: u128 = codec::random_uuid();
    service_claims(client_id, auth_url, codec::format_uuid(id), now)
}

/// The claims of a runner that asks for a token elsewhere. They begin to be valid before
/// `now`, so that a clock that runs ahead does no harm.
pub fn bearer_claims(client_id: &str, auth_url: &str, now: i64) -> (r: JwtClaims)
    requires
        i64::MIN + ASSERTION_LIFETIME_SECS <= now <= i64::MAX - ASSERTION_LIFETIME_SECS,
    ensures
        r.sub@ == client_id@,
        r.iss@ == client_id@,
        r.aud@ == auth_url@,
        r.jti is None,
        r.nbf == now - ASSERTION_LIFETIME_SECS,
        r.exp == now + ASSERTION_LIFETIME_SECS,
{
    JwtClaims {
        sub: client_id.to_owned(),
        iss: client_id.to_owned(),
        aud: auth_url.to_owned(),
        jti: None,
        nbf: now - ASSERTION_LIFETIME_SECS,
        exp: now + ASSERTION_LIFETIME_SECS,
    }
}

/// A request for a token: where it goes, and the form that it carries.
#[derive(Debug)]
pub struct TokenRequest {
    pub url: String,
    pub form: StringMap,
}

/// The form that carries an assertion to the Actions service.
pub open spec fn service_form(assertion: Seq<char>) -> Seq<(Seq<char>, Seq<char>)> {
    seq![
        ("grant_type"@, "client_credentials"@),
        (
            "client_assertion_type"@,
            "urn:ietf:params:oauth:client-assertion-type:jwt-bearer"@,
        ),
        ("client_assertion"@, assertion),
    ]
}

/// The form that carries an assertion elsewhere.
pub open spec fn bearer_form(assertion: Seq<char>) -> Seq<(Seq<char>, Seq<char>)> {
    seq![
        ("grant_type"@, "urn:ietf:params:oauth:grant-type:jwt-bearer"@),
        ("assertion"@, assertion),
    ]
}

/// The request that carries an assertion to the Actions service.
pub fn service_token_request(auth_url: &str, assertion: String) -> (r: TokenRequest)
    ensures
        r.url@ == auth_url@,
        r.form.items() == service_form(assertion@),
{
    let ghost given = assertion@;
    let mut form = StringMap::new();
    form.insert("grant_type".to_owned(), "client_credentials".to_owned());
    form.insert(
        "client_assertion_type".to_owned(),
        "urn:ietf:params:oauth:client-assertion-type:jwt-bearer".to_owned(),
    );
    form.insert("client_assertion".to_owned(), assertion);
    proof {
        reveal_strlit("grant_type");
        reveal_strlit("client_assertion_type");
        reveal_strlit("client_assertion");
        let a = Seq::<(Seq<char>, Seq<char>)>::empty().push(
            ("grant_type"@, "client_credentials"@),
        );
        assert(!string_map::has_key(Seq::<(Seq<char>, Seq<char>)>::empty(), "grant_type"@));
        assert("grant_type"@.len() != "client_assertion_type"@.len());
        assert(!string_map::has_key(a, "client_assertion_type"@));
        let b = a.push(
            (
                "client_assertion_type"@,
                "urn:ietf:params:oauth:client-assertion-type:jwt-bearer"@,
            ),
        );
        assert("grant_type"@.len() != "client_assertion"@.len());
        assert("client_assertion_type"@.len() != "client_assertion"@.len());
        assert(!string_map::has_key(b, "client_assertion"@));
        assert(form.items() =~= service_form(given));
    }
    TokenRequest { url: auth_url.to_owned(), form }
}

/// The request that carries an assertion elsewhere.
pub fn bearer_token_request(auth_url: &str, assertion: String) -> (r: TokenRequest)
    ensures
        r.url@ == auth_url@,
        r.form.items() == bearer_form(assertion@),
{
    let ghost given = assertion@;
    let mut form = StringMap::new();
    form.insert(
        "grant_type".to_owned(),
        "urn:ietf:params:oauth:grant-type:jwt-bearer".to_owned(),
    );
    form.insert("assertion".to_owned(), assertion);
    proof {
        reveal_strlit("grant_type");
        reveal_strlit("assertion");
        let a = Seq::<(Seq<char>, Seq<char>)>::empty().push(
            ("grant_type"@, "urn:ietf:params:oauth:grant-type:jwt-bearer"@),
        );
        assert(!string_map::has_key(Seq::<(Seq<char>, Seq<char>)>::empty(), "grant_type"@));
        assert("grant_type"@.len() != "assertion"@.len());
        assert(!string_map::has_key(a, "assertion"@));
        assert(form.items() =~= bearer_form(given));
    }
    TokenRequest { url: auth_url.to_owned(), form }
}

/// Signs the claims and makes the request of the Actions service's kind.
pub fn exchange_oauth_token(claims: &JwtClaims, rsa_pem: &str) -> (r: Result<
    TokenRequest,
    SignError,
>)
    ensures
        match r {
            Ok(request) => {
                &&& assertion_of(*claims, rsa_pem@) is Ok
                &&& request.url@ == claims.aud@
                &&& request.form.items() == service_form(assertion_of(*claims, rsa_pem@)->Ok_0)
            },
            Err(e) => assertion_of(*claims, rsa_pem@) == Err::<Seq<char>, SignError>(e),
        },
{
    match sign_rs256(claims, rsa_pem) {
        Ok(assertion) => Ok(service_token_request(claims.aud.as_str(), assertion)),
        Err(e) => Err(e),
    }
}

/// Signs the claims and makes the request of the other kind.
pub fn exchange_bearer_token(claims: &JwtClaims, rsa_pem: &str) -> (r: Result<
    TokenRequest,
    SignError,
>)
    ensures
        match r {
            Ok(request) => {
                &&& assertion_of(*claims, rsa_pem@) is Ok
                &&& request.url@ == claims.aud@
                &&& request.form.items() == bearer_form(assertion_of(*claims, rsa_pem@)->Ok_0)
            },
            Err(e) => assertion_of(*claims, rsa_pem@) == Err::<Seq<char>, SignError>(e),
        },
{
    match sign_rs256(claims, rsa_pem) {
        Ok(assertion) => Ok(bearer_token_request(claims.aud.as_str(), assertion)),
        Err(e) => Err(e),
    }
}

// ---------------------------------------------------------------------------
// Laws
// ---------------------------------------------------------------------------

/// The token comes from the first source that there is, and there is none only where all
/// three are missing.
pub proof fn law_first_source_wins(
    a: Option<TokenSourceView>,
    b: Option<TokenSourceView>,
    c: Option<TokenSourceView>,
    source: TokenSourceView,
)
    ensures
        first_source(a, b, c) == Ok::<TokenSourceView, TokenError>(source) <==> {
            ||| a == Some(source)
            ||| a is None && b == Some(source)
            ||| a is None && b is None && c == Some(source)
        },
        first_source(a, b, c) == Err::<TokenSourceView, TokenError>(TokenError::NoCredentials)
            <==> a is None && b is None && c is None,
{
}

/// A token can be exchanged for if and only if both the client and the place are known, and
/// it is asked for as that client at that place.
pub proof fn law_exchange_needs_both(
    credentials: CredentialView,
    client_id: Seq<char>,
    auth_url: Seq<char>,
)
    ensures
        exchange_of(credentials) == Some(TokenSourceView::Exchange { client_id, auth_url }) <==>
            credentials.client_id == Some(client_id) && credentials.authorization_url == Some(
            auth_url,
        ),
        exchange_of(credentials) is None <==> credentials.client_id is None
            || credentials.authorization_url is None,
{
}

/// A stored token is used as it is stored.
pub proof fn law_stored_token_is_used(
    credentials: CredentialView,
    key: Seq<char>,
    token: Seq<char>,
)
    ensures
        stored_under(credentials, key) == Some(TokenSourceView::Stored(token)) <==>
            credential_data::data_value(credentials.data, key) == Some(token),
        stored_under(credentials, key) is None <==> credential_data::data_value(
            credentials.data,
            key,
        ) is None,
{
}

/// Either form carries the assertion as it was signed, and says what kind of grant is asked
/// for.
pub proof fn law_forms_carry_assertion(assertion: Seq<char>)
    ensures
        service_form(assertion).contains(("client_assertion"@, assertion)),
        service_form(assertion).contains(("grant_type"@, "client_credentials"@)),
        service_form(assertion).contains(
            (
                "client_assertion_type"@,
                "urn:ietf:params:oauth:client-assertion-type:jwt-bearer"@,
            ),
        ),
        service_form(assertion).len() == 3,
        bearer_form(assertion).contains(("assertion"@, assertion)),
        bearer_form(assertion).contains(
            ("grant_type"@, "urn:ietf:params:oauth:grant-type:jwt-bearer"@),
        ),
        bearer_form(assertion).len() == 2,
{
    assert(service_form(assertion)[0] == ("grant_type"@, "client_credentials"@));
    assert(service_form(assertion)[1].0 == "client_assertion_type"@);
    assert(service_form(assertion)[2] == ("client_assertion"@, assertion));
    assert(bearer_form(assertion)[0].0 == "grant_type"@);
    assert(bearer_form(assertion)[1] == ("assertion"@, assertion));
}

/// What is signed is what the claims say, with the key that is given: claims that differ in
/// nothing are signed in the same way.
pub proof fn law_equal_claims_sign_alike(a: JwtClaims, b: JwtClaims, rsa_pem: Seq<char>)
    requires
        a.sub@ == b.sub@,
        a.iss@ == b.iss@,
        a.aud@ == b.aud@,
        text::view_option(a.jti) == text::view_option(b.jti),
        a.nbf == b.nbf,
        a.exp == b.exp,
    ensures
        assertion_of(a, rsa_pem) == assertion_of(b, rsa_pem),
{
}

} // verus!
