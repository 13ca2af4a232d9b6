//! Credential schemes.
use vstd::prelude::*;

verus! {

pub const OAUTH_ACCESS_TOKEN: &'static str = "OAuthAccessToken";

pub const OAUTH: &'static str = "OAuth";

} // verus!
