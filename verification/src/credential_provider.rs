//! Credential providers: what a runner authenticates with, by the scheme of its credentials.
use vstd::prelude::*;

use crate::credential_data::{CredentialData, CredentialView};
use crate::oauth::{TokenError, TokenSource, TokenSourceView};
use crate::{credential_data, oauth, text};

verus! {

/// A source of access tokens.
pub trait CredentialProvider {
    /// The credentials behind the provider.
    spec fn credentials(&self) -> CredentialView;

    /// Where the token comes from.
    spec fn source(&self) -> Result<TokenSourceView, TokenError>;

    /// Finds out where the access token comes from.
    fn get_token(&self) -> (r: Result<TokenSource, TokenError>)
        ensures
            oauth::view_source(r) == self.source(),
    ;

    /// The name of the scheme.
    fn scheme(&self) -> (r: &str)
        ensures
            r@ == self.credentials().scheme,
    ;

    /// The credentials behind the provider.
    fn credential_data(&self) -> (r: &CredentialData)
        ensures
            r@ == self.credentials(),
    ;
}

/// The token that is stored in the credentials: an access token, or else a plain token.
pub open spec fn stored_source(credentials: CredentialView) -> Result<
    TokenSourceView,
    TokenError,
> {
    match credential_data::data_value(credentials.data, "accessToken"@) {
        Some(token) => Ok(TokenSourceView::Stored(token)),
        None => match credential_data::data_value(credentials.data, "token"@) {
            Some(token) => Ok(TokenSourceView::Stored(token)),
            None => Err(TokenError::NoStoredToken),
        },
    }
}

/// The token of OAuth credentials: a stored access token that is not empty, or else an
/// exchange, for which both an authorization URL and a client id are needed.
pub open spec fn oauth_source(credentials: CredentialView) -> Result<TokenSourceView, TokenError> {
    let stored = match credential_data::data_value(credentials.data, "accessToken"@) {
        Some(token) => token,
        None => Seq::empty(),
    };
    if stored.len() > 0 {
        Ok(TokenSourceView::Stored(stored))
    } else {
        match credentials.authorization_url {
            None => Err(TokenError::NoAuthorizationUrl),
            Some(auth_url) => match credentials.client_id {
                None => Err(TokenError::NoClientId),
                Some(client_id) => Ok(TokenSourceView::Exchange { client_id, auth_url }),
            },
        }
    }
}

/// A provider whose token is stored.
#[derive(Debug)]
pub struct PatCredentialProvider {
    credential: CredentialData,
}

impl PatCredentialProvider {
    /// A provider of these credentials.
    pub fn new(credential: CredentialData) -> (r: Self)
        ensures
            r.credentials() == credential@,
    {
        PatCredentialProvider { credential }
    }
}

impl CredentialProvider for PatCredentialProvider {
    closed spec fn credentials(&self) -> CredentialView {
        self.credential@
    }

    open spec fn source(&self) -> Result<TokenSourceView, TokenError> {
        stored_source(self.credentials())
    }

    fn get_token(&self) -> (r: Result<TokenSource, TokenError>) {
        if let Some(token) = self.credential.get_data("accessToken") {
            return Ok(TokenSource::Stored(token.clone()));
        }
        match self.credential.get_data("token") {
            Some(token) => Ok(TokenSource::Stored(token.clone())),
            None => Err(TokenError::NoStoredToken),
        }
    }

    fn scheme(&self) -> (r: &str) {
        self.credential.scheme.as_str()
    }

    fn credential_data(&self) -> (r: &CredentialData) {
        &self.credential
    }
}

/// A provider that asks for a token with a signed assertion.
#[derive(Debug)]
pub struct OAuthCredentialProvider {
    credential: CredentialData,
}

impl OAuthCredentialProvider {
    /// A provider of these credentials.
    pub fn new(credential: CredentialData) -> (r: Self)
        ensures
            r.credentials() == credential@,
    {
        OAuthCredentialProvider { credential }
    }
}

impl CredentialProvider for OAuthCredentialProvider {
    closed spec fn credentials(&self) -> CredentialView {
        self.credential@
    }

    open spec fn source(&self) -> Result<TokenSourceView, TokenError> {
        oauth_source(self.credentials())
    }

    fn get_token(&self) -> (r: Result<TokenSource, TokenError>) {
        if let Some(token) = self.credential.get_data("accessToken") {
            if !text::is_empty(token.as_str()) {
                return Ok(TokenSource::Stored(token.clone()));
            }
        }
        match &self.credential.authorization_url {
            None => Err(TokenError::NoAuthorizationUrl),
            Some(auth_url) => match &self.credential.client_id {
                None => Err(TokenError::NoClientId),
                Some(client_id) => Ok(
                    TokenSource::Exchange {
                        client_id: client_id.clone(),
                        auth_url: auth_url.clone(),
                    },
                ),
            },
        }
    }

    fn scheme(&self) -> (r: &str) {
        self.credential.scheme.as_str()
    }

    fn credential_data(&self) -> (r: &CredentialData) {
        &self.credential
    }
}

/// The kinds of providers.
#[derive(Debug, Clone, Copy, PartialEq, Eq, Structural)]
pub enum ProviderKind {
    OAuth,
    Pat,
}

/// A provider of either kind.
#[derive(Debug)]
pub enum AnyProvider {
    OAuth(OAuthCredentialProvider),
    Pat(PatCredentialProvider),
}

/// The kind of provider that a scheme asks for; an unknown scheme asks for none.
pub open spec fn kind_of(scheme: Seq<char>) -> Option<ProviderKind> {
    if scheme == "OAuth"@ {
        Some(ProviderKind::OAuth)
    } else if scheme == "OAuthAccessToken"@ || scheme == "PersonalAccessToken"@ || scheme == "PAT"@ {
        Some(ProviderKind::Pat)
    } else {
        None
    }
}

/// Makes credential providers.
pub struct CredentialManager;

impl CredentialManager {
    /// The provider that the credentials ask for. `Err` with the scheme if it is unknown.
    pub fn create_provider(credential: &CredentialData) -> (r: Result<AnyProvider, String>)
        ensures
            match r {
                Ok(AnyProvider::OAuth(p)) => kind_of(credential@.scheme) == Some(
                    ProviderKind::OAuth,
                ) && p.credentials() == credential@,
                Ok(AnyProvider::Pat(p)) => kind_of(credential@.scheme) == Some(ProviderKind::Pat)
                    && p.credentials() == credential@,
                Err(scheme) => kind_of(credential@.scheme) is None && scheme@
                    == credential@.scheme,
            },
    {
        let scheme = credential.scheme.as_str();
        if text::same(scheme, "OAuth") {
            Ok(AnyProvider::OAuth(OAuthCredentialProvider::new(credential.duplicate())))
        } else if text::same(scheme, "OAuthAccessToken") || text::same(
            scheme,
            "PersonalAccessToken",
        ) || text::same(scheme, "PAT") {
            Ok(AnyProvider::Pat(PatCredentialProvider::new(credential.duplicate())))
        } else {
            Err(credential.scheme.clone())
        }
    }
}

// ---------------------------------------------------------------------------
// Laws
// ---------------------------------------------------------------------------

/// A stored access token is used; without one a stored plain token is; and it is an error
/// only where there is neither.
pub proof fn law_stored_token_order(credentials: CredentialView, token: Seq<char>)
    ensures
        ({
            let access = credential_data::data_value(credentials.data, "accessToken"@);
            let plain = credential_data::data_value(credentials.data, "token"@);
            let source = stored_source(credentials);
            let used = Ok::<TokenSourceView, TokenError>(TokenSourceView::Stored(token));
            &&& access == Some(token) ==> source == used
            &&& access is None && plain == Some(token) ==> source == used
            &&& access is None && plain is None ==> source == Err::<TokenSourceView, TokenError>(
                TokenError::NoStoredToken,
            )
        }),
{
}

/// With OAuth a stored access token is used unless it is empty; else a token is exchanged
/// for, as the client and at the place that the credentials name; and what is missing for
/// that, the place first, is reported.
pub proof fn law_oauth_order(credentials: CredentialView, token: Seq<char>)
    ensures
        ({
            let access = credential_data::data_value(credentials.data, "accessToken"@);
            let source = oauth_source(credentials);
            let none = access is None || access == Some(Seq::<char>::empty());
            &&& access == Some(token) && token.len() > 0 ==> source == Ok::<
                TokenSourceView,
                TokenError,
            >(TokenSourceView::Stored(token))
            &&& none && credentials.authorization_url is None ==> source == Err::<
                TokenSourceView,
                TokenError,
            >(TokenError::NoAuthorizationUrl)
            &&& none && credentials.authorization_url is Some && credentials.client_id is None
                ==> source == Err::<TokenSourceView, TokenError>(TokenError::NoClientId)
            &&& none && credentials.authorization_url is Some && credentials.client_id is Some
                ==> source == Ok::<TokenSourceView, TokenError>(
                TokenSourceView::Exchange {
                    client_id: credentials.client_id->0,
                    auth_url: credentials.authorization_url->0,
                },
            )
        }),
{
}

/// Each scheme has its provider, and other schemes have none.
pub proof fn law_schemes(scheme: Seq<char>)
    ensures
        kind_of(scheme) == Some(ProviderKind::OAuth) <==> scheme == "OAuth"@,
        kind_of(scheme) == Some(ProviderKind::Pat) <==> scheme == "OAuthAccessToken"@ || scheme
            == "PersonalAccessToken"@ || scheme == "PAT"@,
{
    reveal_strlit("OAuth");
    reveal_strlit("OAuthAccessToken");
    reveal_strlit("PersonalAccessToken");
    reveal_strlit("PAT");
    assert("OAuth"@.len() == 5 && "OAuthAccessToken"@.len() == 16);
    assert("PersonalAccessToken"@.len() == 19 && "PAT"@.len() == 3);
}

} // verus!
