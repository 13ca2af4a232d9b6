//! Named arguments (key=value style).
use vstd::prelude::*;

verus! {

pub const AUTH: &'static str = "auth";

pub const LABELS: &'static str = "labels";

pub const MONITOR_SOCKET_ADDRESS: &'static str = "monitorsocketaddress";

pub const NAME: &'static str = "name";

pub const RUNNER_GROUP: &'static str = "runnergroup";

pub const STARTUP_TYPE: &'static str = "startuptype";

pub const URL: &'static str = "url";

pub const USER_NAME: &'static str = "username";

pub const WINDOWS_LOGON_ACCOUNT: &'static str = "windowslogonaccount";

pub const WORK: &'static str = "work";

pub const TOKEN: &'static str = "token";

pub const PAT: &'static str = "pat";

pub const WINDOWS_LOGON_PASSWORD: &'static str = "windowslogonpassword";

pub const JIT_CONFIG: &'static str = "jitconfig";

/// The arguments whose values are secret.
pub open spec fn secret_names() -> Seq<Seq<char>> {
    seq![PAT@, TOKEN@, WINDOWS_LOGON_PASSWORD@, JIT_CONFIG@]
}

/// The arguments whose values are secret.
pub fn secrets() -> (r: Vec<&'static str>)
    ensures
        r@.map_values(|s: &'static str| s@) == secret_names(),
{
    let mut r: Vec<&'static str> = Vec::new();
    r.push(PAT);
    r.push(TOKEN);
    r.push(WINDOWS_LOGON_PASSWORD);
    r.push(JIT_CONFIG);
    assert(r@.map_values(|s: &'static str| s@) =~= secret_names());
    r
}

} // verus!
