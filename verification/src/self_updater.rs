//! Updates of the runner itself.
use vstd::prelude::*;
use vstd::string::*;

use crate::constants::{Architecture, OsPlatform, RUNNER_DOWNLOAD_RETRY_MAX_ATTEMPTS};
use crate::{codec, text};

verus! {

/// How many failed downloads are put up with.
pub const MAX_DOWNLOAD_RETRIES: u32 = RUNNER_DOWNLOAD_RETRY_MAX_ATTEMPTS;

/// The pause between two downloads, in seconds.
pub const DOWNLOAD_RETRY_DELAY: u64 = 30;

/// An update order of the Actions service.
#[derive(Debug)]
pub struct AgentRefreshMessage {
    pub target_version: String,
    pub download_url: Option<String>,
    pub hash_value: Option<String>,
}

/// An update order of the broker, with the package's URL and hash.
#[derive(Debug)]
pub struct RunnerRefreshMessage {
    pub target_version: String,
    pub download_url: String,
    pub hash_value: String,
}

// ---------------------------------------------------------------------------
// Versions
// ---------------------------------------------------------------------------

/// A version without white space and without the `v` before it.
pub open spec fn bare_version(version: Seq<char>) -> Seq<char> {
    text::trimmed_start_char(text::trimmed(version), 'v')
}

/// An update is needed: a version is named, and it is not the current one.
pub open spec fn update_needed(target: Seq<char>, current: Seq<char>) -> bool {
    target.len() > 0 && bare_version(target) != bare_version(current)
}

/// Whether an update is needed to get from one version to the other.
pub fn needs_update(target_version: &str, current_version: &str) -> (r: bool)
    ensures
        r == update_needed(target_version@, current_version@),
{
    if text::is_empty(target_version) {
        return false;
    }
    let target = text::trim_start_char(text::trim(target_version).as_str(), 'v');
    let current = text::trim_start_char(text::trim(current_version).as_str(), 'v');
    !text::same(target.as_str(), current.as_str())
}

/// What follows an update order.
#[derive(Debug, Clone, Copy, PartialEq, Eq, Structural)]
pub enum UpdateStep {
    /// Updates are switched off, or the version is the current one: nothing is to be done.
    Skip,
    /// The package is to be downloaded.
    Download,
}

/// What follows an update order.
pub fn update_step(disable_update: bool, target_version: &str, current_version: &str) -> (r:
    UpdateStep)
    ensures
        r == if !disable_update && update_needed(target_version@, current_version@) {
            UpdateStep::Download
        } else {
            UpdateStep::Skip
        },
{
    if !disable_update && needs_update(target_version, current_version) {
        UpdateStep::Download
    } else {
        UpdateStep::Skip
    }
}

// ---------------------------------------------------------------------------
// Packages
// ---------------------------------------------------------------------------

/// The platform as packages name it.
pub open spec fn package_os(platform: OsPlatform) -> Seq<char> {
    match platform {
        OsPlatform::Linux => "linux"@,
        OsPlatform::MacOS => "osx"@,
        OsPlatform::Windows => "win"@,
    }
}

/// The architecture as packages name it.
pub open spec fn package_arch(architecture: Architecture) -> Seq<char> {
    match architecture {
        Architecture::X64 => "x64"@,
        Architecture::Arm => "arm"@,
        Architecture::Arm64 => "arm64"@,
        Architecture::X86 => "x86"@,
    }
}

/// The file extension of a package.
pub open spec fn package_extension(platform: OsPlatform) -> Seq<char> {
    if platform == OsPlatform::Windows {
        "zip"@
    } else {
        "tar.gz"@
    }
}

/// The URL of the package of a version.
pub open spec fn package_url(
    version: Seq<char>,
    platform: OsPlatform,
    architecture: Architecture,
) -> Seq<char> {
    "https://github.com/actions/runner/releases/download/v"@ + bare_version(version)
        + "/actions-runner-"@ + package_os(platform) + "-"@ + package_arch(architecture) + "-"@
        + bare_version(version) + "."@ + package_extension(platform)
}

/// The URL of the package of a version.
pub fn construct_download_url(
    target_version: &str,
    platform: OsPlatform,
    architecture: Architecture,
) -> (r: String)
    ensures
        r@ == package_url(target_version@, platform, architecture),
{
    let version = text::trim_start_char(text::trim(target_version).as_str(), 'v');
    let mut url = "https://github.com/actions/runner/releases/download/v".to_owned();
    url.append(version.as_str());
    url.append("/actions-runner-");
    url.append(
        match platform {
            OsPlatform::Linux => "linux",
            OsPlatform::MacOS => "osx",
            OsPlatform::Windows => "win",
        },
    );
    url.append("-");
    url.append(
        match architecture {
            Architecture::X64 => "x64",
            Architecture::Arm => "arm",
            Architecture::Arm64 => "arm64",
            Architecture::X86 => "x86",
        },
    );
    url.append("-");
    url.append(version.as_str());
    url.append(".");
    url.append(
        match platform {
            OsPlatform::Windows => "zip",
            _ => "tar.gz",
        },
    );
    url
}

/// The URL to download from: the one that the order names, or else that of the version's
/// package.
pub fn download_url(
    named: &Option<String>,
    target_version: &str,
    platform: OsPlatform,
    architecture: Architecture,
) -> (r: String)
    ensures
        r@ == match *named {
            Some(url) => if url@.len() > 0 {
                url@
            } else {
                package_url(target_version@, platform, architecture)
            },
            None => package_url(target_version@, platform, architecture),
        },
{
    match named {
        Some(url) => if text::is_empty(url.as_str()) {
            construct_download_url(target_version, platform, architecture)
        } else {
            url.clone()
        },
        None => construct_download_url(target_version, platform, architecture),
    }
}

/// The name under which the broker's package is stored.
pub fn archive_name(platform: OsPlatform) -> (r: &'static str)
    ensures
        r@ == if platform == OsPlatform::Windows {
            "runner-update.zip"@
        } else {
            "runner-update.tar.gz"@
        },
{
    match platform {
        OsPlatform::Windows => "runner-update.zip",
        _ => "runner-update.tar.gz",
    }
}

/// How a package is packed.
#[derive(Debug, Clone, Copy, PartialEq, Eq, Structural)]
pub enum ArchiveFormat {
    TarGz,
    Zip,
}

/// How a package is packed, by the name of its file; `None` if that is not known.
pub open spec fn format_of(name: Seq<char>) -> Option<ArchiveFormat> {
    if text::has_suffix(name, ".tar.gz"@) {
        Some(ArchiveFormat::TarGz)
    } else if text::has_suffix(name, ".zip"@) && name.len() > ".zip"@.len() {
        Some(ArchiveFormat::Zip)
    } else {
        None
    }
}

/// How a package is packed, by the name of its file; `None` if that is not known.
pub fn archive_format(name: &str) -> (r: Option<ArchiveFormat>)
    ensures
        r == format_of(name@),
{
    proof {
        reveal_strlit(".zip");
    }
    if text::ends_with(name, ".tar.gz") {
        Some(ArchiveFormat::TarGz)
    } else if text::ends_with(name, ".zip") && text::to_chars(name).len() > 4 {
        Some(ArchiveFormat::Zip)
    } else {
        None
    }
}

// ---------------------------------------------------------------------------
// Downloads
// ---------------------------------------------------------------------------

/// What follows a failed download.
#[derive(Debug, Clone, Copy, PartialEq, Eq, Structural)]
pub enum DownloadStep {
    /// Wait this many seconds and try again; the first number counts the failures.
    Retry(u32, u64),
    /// Give up.
    GiveUp,
}

/// What follows the `n`th failure.
pub open spec fn download_step(n: int) -> DownloadStep {
    if n >= MAX_DOWNLOAD_RETRIES {
        DownloadStep::GiveUp
    } else {
        DownloadStep::Retry(n as u32, DOWNLOAD_RETRY_DELAY)
    }
}

/// The tries of one download.
#[derive(Debug)]
pub struct DownloadRetry {
    retry_count: u32,
}

impl DownloadRetry {
    #[verifier::type_invariant]
    spec fn inv(self) -> bool {
        self.retry_count <= MAX_DOWNLOAD_RETRIES
    }

    /// How many downloads failed.
    pub closed spec fn failures(self) -> int {
        self.retry_count as int
    }

    /// No download has failed yet.
    pub fn new() -> (r: Self)
        ensures
            r.failures() == 0,
    {
        DownloadRetry { retry_count: 0 }
    }

    /// Takes note of a failed download. The last one is final.
    pub fn failed(&mut self) -> (r: DownloadStep)
        ensures
            r == download_step(old(self).failures() + 1),
            final(self).failures() == if old(self).failures() < MAX_DOWNLOAD_RETRIES {
                old(self).failures() + 1
            } else {
                old(self).failures()
            },
    {
        proof {
            use_type_invariant(&*self);
        }
        if self.retry_count < MAX_DOWNLOAD_RETRIES {
            self.retry_count = self.retry_count + 1;
        }
        if self.retry_count >= MAX_DOWNLOAD_RETRIES {
            DownloadStep::GiveUp
        } else {
            DownloadStep::Retry(self.retry_count, DOWNLOAD_RETRY_DELAY)
        }
    }
}

// ---------------------------------------------------------------------------
// Hashes
// ---------------------------------------------------------------------------

/// The SHA-256 digest of `data`, as `sha2::Sha256` computes it.
pub uninterp spec fn sha256(data: Seq<u8>) -> Seq<u8>;

/// `sha2::Sha256` over the whole of `data`: 32 bytes that depend on `data` alone.
#[verifier::external_body]
fn sha256_digest(data: &[u8]) -> (r: Vec<u8>)
    ensures
        r@ == sha256(data@),
        r@.len() == 32,
{
    <sha2::Sha256 as sha2::Digest>::digest(data).to_vec()
}

/// A package whose hash is not the expected one.
#[derive(Debug)]
pub struct HashMismatch {
    pub expected: String,
    pub computed: String,
}

/// Compares a digest with its expected hexadecimal form, in which case does not matter.
pub fn check_digest(digest: &[u8], expected_hex: &str) -> (r: Result<(), HashMismatch>)
    ensures
        match r {
            Ok(_) => codec::hex_encoded(digest@) == text::lowered(expected_hex@),
            Err(e) => {
                &&& e.computed@ == codec::hex_encoded(digest@)
                &&& e.expected@ == text::lowered(expected_hex@)
                &&& e.computed@ != e.expected@
            },
        },
{
    let computed = codec::hex_encode(digest);
    let expected = text::to_lowercase(expected_hex);
    if text::same(computed.as_str(), expected.as_str()) {
        Ok(())
    } else {
        Err(HashMismatch { expected, computed })
    }
}

/// Compares the SHA-256 hash of a package with the expected one.
pub fn verify_hash(data: &[u8], expected_hex: &str) -> (r: Result<(), HashMismatch>)
    ensures
        match r {
            Ok(_) => codec::hex_encoded(sha256(data@)) == text::lowered(expected_hex@),
            Err(e) => {
                &&& e.computed@ == codec::hex_encoded(sha256(data@))
                &&& e.expected@ == text::lowered(expected_hex@)
                &&& e.computed@ != e.expected@
            },
        },
{
    let digest = sha256_digest(data);
    check_digest(digest.as_slice(), expected_hex)
}

/// Why the broker's package is not used.
#[derive(Debug)]
pub enum PackageError {
    /// The order names no URL.
    NoDownloadUrl,
    /// The hash is not the expected one.
    Mismatch(HashMismatch),
}

/// Where the broker's package is downloaded from.
pub fn package_source(message: &RunnerRefreshMessage) -> (r: Result<String, PackageError>)
    ensures
        match r {
            Ok(url) => message.download_url@.len() > 0 && url@ == message.download_url@,
            Err(PackageError::NoDownloadUrl) => message.download_url@.len() == 0,
            Err(PackageError::Mismatch(_)) => false,
        },
{
    if text::is_empty(message.download_url.as_str()) {
        Err(PackageError::NoDownloadUrl)
    } else {
        Ok(message.download_url.clone())
    }
}

/// Accepts a downloaded package. `Ok` tells whether it was verified: a package without an
/// expected hash is taken as it is.
pub fn accept_package(message: &RunnerRefreshMessage, data: &[u8]) -> (r: Result<
    bool,
    PackageError,
>)
    ensures
        match r {
            Ok(verified) => {
                &&& verified == (message.hash_value@.len() > 0)
                &&& verified ==> codec::hex_encoded(sha256(data@)) == text::lowered(
                    message.hash_value@,
                )
            },
            Err(PackageError::Mismatch(e)) => {
                &&& message.hash_value@.len() > 0
                &&& e.computed@ == codec::hex_encoded(sha256(data@))
                &&& e.expected@ == text::lowered(message.hash_value@)
                &&& e.computed@ != e.expected@
            },
            Err(PackageError::NoDownloadUrl) => false,
        },
{
    if text::is_empty(message.hash_value.as_str()) {
        return Ok(false);
    }
    match verify_hash(data, message.hash_value.as_str()) {
        Ok(_) => Ok(true),
        Err(e) => Err(PackageError::Mismatch(e)),
    }
}

// ---------------------------------------------------------------------------
// Scripts
// ---------------------------------------------------------------------------

/// The script that replaces the runner on Unix, up to the root directory.
pub const UNIX_SCRIPT_HEAD: &'static str = "#!/bin/bash\n# Auto-generated runner update script\nset -e\n\nRUNNER_ROOT=\"";

/// Between the root directory and the update directory.
pub const UNIX_SCRIPT_MIDDLE: &'static str = "\"\nUPDATE_DIR=\"";

/// From the update directory on.
pub const UNIX_SCRIPT_TAIL: &'static str = "\"\nCURRENT_PID=$$\n\necho \"Runner update starting...\"\necho \"  Root:   $RUNNER_ROOT\"\necho \"  Update: $UPDATE_DIR\"\n\n# Wait for the current runner process to exit\nRUNNER_PID=$(cat \"$RUNNER_ROOT/.runner_pid\" 2>/dev/null || echo \"\")\nif [ -n \"$RUNNER_PID\" ] && kill -0 \"$RUNNER_PID\" 2>/dev/null; then\n    echo \"Waiting for runner process $RUNNER_PID to exit...\"\n    for i in $(seq 1 30); do\n        if ! kill -0 \"$RUNNER_PID\" 2>/dev/null; then\n            break\n        fi\n        sleep 1\n    done\nfi\n\n# Copy updated files\necho \"Copying updated files...\"\ncp -rf \"$UPDATE_DIR\"/* \"$RUNNER_ROOT/\"\n\n# Set permissions\nchmod +x \"$RUNNER_ROOT/bin/Runner.Listener\" 2>/dev/null || true\nchmod +x \"$RUNNER_ROOT/bin/Runner.Worker\" 2>/dev/null || true\n\n# Clean up\nrm -rf \"$UPDATE_DIR\"\n\necho \"Update complete. Restarting runner...\"\nexec \"$RUNNER_ROOT/bin/Runner.Listener\" run\n";

/// The script that replaces the runner on Windows, up to the root directory.
pub const WINDOWS_SCRIPT_HEAD: &'static str = "@echo off\nREM Auto-generated runner update script\n\nset RUNNER_ROOT=";

/// Between the root directory and the update directory.
pub const WINDOWS_SCRIPT_MIDDLE: &'static str = "\nset UPDATE_DIR=";

/// From the update directory on.
pub const WINDOWS_SCRIPT_TAIL: &'static str = "\n\necho Runner update starting...\n\nREM Wait briefly for the runner to exit\ntimeout /t 5 /nobreak >nul\n\nREM Copy updated files\necho Copying updated files...\nxcopy /s /e /y \"%UPDATE_DIR%\\*\" \"%RUNNER_ROOT%\\\"\n\nREM Clean up\nrmdir /s /q \"%UPDATE_DIR%\"\n\necho Update complete. Restarting runner...\nstart \"\" \"%RUNNER_ROOT%\\bin\\Runner.Listener.exe\" run\n";

/// The script that replaces the runner: it waits for the runner to exit, copies the new files
/// over the old ones and starts the runner again.
pub open spec fn update_script(
    platform: OsPlatform,
    root: Seq<char>,
    update: Seq<char>,
) -> Seq<char> {
    if platform == OsPlatform::Windows {
        WINDOWS_SCRIPT_HEAD@ + root + WINDOWS_SCRIPT_MIDDLE@ + update + WINDOWS_SCRIPT_TAIL@
    } else {
        UNIX_SCRIPT_HEAD@ + root + UNIX_SCRIPT_MIDDLE@ + update + UNIX_SCRIPT_TAIL@
    }
}

/// The script that replaces the runner.
pub fn generate_update_script(platform: OsPlatform, root_dir: &str, update_dir: &str) -> (r: String)
    ensures
        r@ == update_script(platform, root_dir@, update_dir@),
{
    match platform {
        OsPlatform::Windows => {
            let mut s = WINDOWS_SCRIPT_HEAD.to_owned();
            s.append(root_dir);
            s.append(WINDOWS_SCRIPT_MIDDLE);
            s.append(update_dir);
            s.append(WINDOWS_SCRIPT_TAIL);
            s
        },
        _ => {
            let mut s = UNIX_SCRIPT_HEAD.to_owned();
            s.append(root_dir);
            s.append(UNIX_SCRIPT_MIDDLE);
            s.append(update_dir);
            s.append(UNIX_SCRIPT_TAIL);
            s
        },
    }
}

/// The name of the script's file.
pub fn update_script_name(platform: OsPlatform) -> (r: &'static str)
    ensures
        r@ == if platform == OsPlatform::Windows {
            "RunnerService.cmd.update"@
        } else {
            "RunnerService.sh.update"@
        },
{
    match platform {
        OsPlatform::Windows => "RunnerService.cmd.update",
        _ => "RunnerService.sh.update",
    }
}

// ---------------------------------------------------------------------------
// Laws
// ---------------------------------------------------------------------------

/// A runner is never updated to the version that it has, however that is written.
pub proof fn law_same_version_needs_no_update(target: Seq<char>, current: Seq<char>)
    requires
        bare_version(target) == bare_version(current),
    ensures
        !update_needed(target, current),
        !update_needed(current, target),
{
}

/// A download is given up with the third failure, and not before.
pub proof fn law_download_attempts(n: int)
    requires
        n >= 1,
    ensures
        download_step(n) == DownloadStep::GiveUp <==> n >= 3,
{
}

/// Neither white space around a version nor a `v` before it belongs to it; the rest does.
pub proof fn law_bare_version(
    before: Seq<char>,
    n: nat,
    version: Seq<char>,
    after: Seq<char>,
)
    requires
        text::blank(before),
        text::blank(after),
        version.len() > 0,
        version[0] != 'v',
        !text::white_space(version[0]),
        !text::white_space(version.last()),
    ensures
        bare_version(before + (text::repeated('v', n) + version) + after) == version,
{
    let inner = text::repeated('v', n) + version;
    assert(inner[0] == if n > 0 {
        'v'
    } else {
        version[0]
    });
    assert(inner.last() == version.last());
    text::law_trimmed_drops(before, inner, after);
    text::law_trimmed_start_char_drops('v', n, version);
}

/// A runner is updated to every other version that is named, newer or not, and only to a
/// version that is named.
pub proof fn law_other_version_needs_update(target: Seq<char>, current: Seq<char>)
    requires
        target.len() > 0,
        current.len() > 0,
        target[0] != 'v',
        current[0] != 'v',
        !text::white_space(target[0]),
        !text::white_space(target.last()),
        !text::white_space(current[0]),
        !text::white_space(current.last()),
    ensures
        update_needed(target, current) <==> target != current,
        update_needed("v"@ + target, current) <==> target != current,
        update_needed(target, "v"@ + current) <==> target != current,
        !update_needed(Seq::empty(), current),
{
    let none = Seq::<char>::empty();
    reveal_strlit("v");
    assert("v"@ == text::repeated('v', 1));
    law_bare_version(none, 0, target, none);
    law_bare_version(none, 1, target, none);
    law_bare_version(none, 0, current, none);
    law_bare_version(none, 1, current, none);
    assert(none + (text::repeated('v', 0) + target) + none == target);
    assert(none + (text::repeated('v', 1) + target) + none == "v"@ + target);
    assert(none + (text::repeated('v', 0) + current) + none == current);
    assert(none + (text::repeated('v', 1) + current) + none == "v"@ + current);
}

/// The package of a version is looked for under the version, in the release and in the
/// file's name, once for each platform and architecture.
pub proof fn law_package_url(version: Seq<char>, platform: OsPlatform, architecture: Architecture)
    ensures
        ({
            let v = bare_version(version);
            let url = package_url(version, platform, architecture);
            let front = "https://github.com/actions/runner/releases/download/v"@ + v
                + "/actions-runner-"@;
            let back = "-"@ + v + "."@ + if platform == OsPlatform::Windows {
                "zip"@
            } else {
                "tar.gz"@
            };
            let os = match platform {
                OsPlatform::Linux => "linux"@,
                OsPlatform::MacOS => "osx"@,
                OsPlatform::Windows => "win"@,
            };
            let arch = match architecture {
                Architecture::X64 => "x64"@,
                Architecture::Arm => "arm"@,
                Architecture::Arm64 => "arm64"@,
                Architecture::X86 => "x86"@,
            };
            url == front + os + "-"@ + arch + back
        }),
{
    let v = bare_version(version);
    let a = "https://github.com/actions/runner/releases/download/v"@ + v + "/actions-runner-"@
        + package_os(platform) + "-"@ + package_arch(architecture);
    let e = package_extension(platform);
    assert(a + "-"@ + v + "."@ + e == a + ("-"@ + v + "."@ + e));
}

/// Every package that is looked for can be unpacked: its format is known by its name.
pub proof fn law_format_by_name(front: Seq<char>)
    ensures
        format_of(front + ".tar.gz"@) == Some(ArchiveFormat::TarGz),
        front.len() > 0 ==> format_of(front + ".zip"@) == Some(ArchiveFormat::Zip),
{
    reveal_strlit(".tar.gz");
    reveal_strlit(".zip");
    let a = front + ".tar.gz"@;
    assert(a.subrange(a.len() - 7, a.len() as int) == ".tar.gz"@);
    let b = front + ".zip"@;
    assert(b.subrange(b.len() - 4, b.len() as int) == ".zip"@);
    if text::has_suffix(b, ".tar.gz"@) {
        assert(b.subrange(b.len() - 7, b.len() as int)[6] == b.last());
    }
}

/// Only these two formats are known.
pub proof fn law_other_formats_are_unknown(name: Seq<char>)
    requires
        !text::has_suffix(name, ".tar.gz"@),
        !text::has_suffix(name, ".zip"@),
    ensures
        format_of(name) is None,
{
}

/// A failed download is tried again after half a minute until the third failure.
pub proof fn law_download_is_retried(n: int)
    requires
        1 <= n < 3,
    ensures
        download_step(n) == DownloadStep::Retry(n as u32, 30),
{
}

/// The script of a platform is that platform's, and names both directories in full: the
/// runner's where the root is set, the update's where the update is.
pub proof fn law_script_names_both(platform: OsPlatform, root: Seq<char>, update: Seq<char>)
    ensures
        ({
            let script = update_script(platform, root, update);
            let windows = platform == OsPlatform::Windows;
            &&& windows ==> text::has_prefix(script, WINDOWS_SCRIPT_HEAD@ + root)
            &&& windows ==> text::has_suffix(
                script,
                WINDOWS_SCRIPT_MIDDLE@ + update + WINDOWS_SCRIPT_TAIL@,
            )
            &&& !windows ==> text::has_prefix(script, UNIX_SCRIPT_HEAD@ + root)
            &&& !windows ==> text::has_suffix(
                script,
                UNIX_SCRIPT_MIDDLE@ + update + UNIX_SCRIPT_TAIL@,
            )
        }),
{
    let script = update_script(platform, root, update);
    let (a, b) = if platform == OsPlatform::Windows {
        (WINDOWS_SCRIPT_HEAD@ + root, WINDOWS_SCRIPT_MIDDLE@ + update + WINDOWS_SCRIPT_TAIL@)
    } else {
        (UNIX_SCRIPT_HEAD@ + root, UNIX_SCRIPT_MIDDLE@ + update + UNIX_SCRIPT_TAIL@)
    };
    assert(script == a + b);
    assert(script.subrange(0, a.len() as int) == a);
    assert(script.subrange(script.len() - b.len(), script.len() as int) == b);
}

} // verus!
