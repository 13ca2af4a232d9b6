//! Artifact records of a run.
use vstd::prelude::*;
use vstd::string::*;

use crate::{codec, number, polling, text};

verus! {

/// What an artifact is recorded as.
pub const ARTIFACT_TYPE: &'static str = "actions_storage";

/// An artifact.
#[derive(Debug)]
pub struct ActionsStorageArtifact {
    pub name: String,
    /// The container that holds its files.
    pub container_id: i64,
    /// Its size in bytes.
    pub size: i64,
}

/// What the record of an artifact is made of.
#[derive(Debug)]
pub struct CreateActionsStorageArtifactParameters {
    pub name: String,
    pub container_id: i64,
    pub size: i64,
    pub artifact_type: String,
}

/// The service that keeps the records.
#[derive(Debug)]
pub struct PipelinesServer {
    base_url: String,
    auth_token: String,
}

/// The URL of a run's artifacts, up to the query.
pub open spec fn run_artifacts(base: Seq<char>, run_id: int) -> Seq<char> {
    base + "/_apis/pipelines/workflows/"@ + number::signed_decimal(run_id) + "/artifacts"@
}

/// What the answer to a lookup means.
#[derive(Debug, Clone, Copy, PartialEq, Eq, Structural)]
pub enum Lookup {
    Found,
    Missing,
    Failed(u16),
}

impl PipelinesServer {
    /// The base of every URL.
    pub closed spec fn base(&self) -> Seq<char> {
        self.base_url@
    }

    /// The token that requests carry.
    pub closed spec fn token(&self) -> Seq<char> {
        self.auth_token@
    }

    /// The service at a URL.
    pub fn new(base_url: &str, auth_token: &str) -> (r: Self)
        ensures
            r.base() == text::trimmed_end_char(base_url@, '/'),
            r.token() == auth_token@,
    {
        PipelinesServer {
            base_url: text::trim_end_char(base_url, '/'),
            auth_token: auth_token.to_owned(),
        }
    }

    /// The token that requests carry.
    pub fn auth_token(&self) -> (r: &str)
        ensures
            r@ == self.token(),
    {
        self.auth_token.as_str()
    }

    /// The URL of a run's artifacts. The pipeline plays no part in it.
    pub fn artifacts_url(&self, _pipeline_id: i32, run_id: i32) -> (r: String)
        ensures
            r@ == run_artifacts(self.base(), run_id as int) + "?api-version=6.0-preview"@,
    {
        let mut url = self.base_url.clone();
        url.append("/_apis/pipelines/workflows/");
        url.append(number::i64_text(run_id as i64).as_str());
        url.append("/artifacts");
        url.append("?api-version=6.0-preview");
        url
    }

    /// The URL of one of a run's artifacts. The pipeline plays no part in it.
    pub fn artifact_by_name_url(&self, _pipeline_id: i32, run_id: i32, name: &str) -> (r: String)
        ensures
            r@ == run_artifacts(self.base(), run_id as int) + "?artifactName="@
                + codec::percent_encoded(name.spec_bytes()) + "&api-version=6.0-preview"@,
    {
        let mut url = self.base_url.clone();
        url.append("/_apis/pipelines/workflows/");
        url.append(number::i64_text(run_id as i64).as_str());
        url.append("/artifacts");
        url.append("?artifactName=");
        url.append(codec::percent_encode(name).as_str());
        url.append("&api-version=6.0-preview");
        url
    }

    /// What the record of an artifact is made of.
    pub fn create_parameters(container_id: i64, name: &str, size: i64) -> (r:
        CreateActionsStorageArtifactParameters)
        ensures
            r.name@ == name@,
            r.container_id == container_id,
            r.size == size,
            r.artifact_type@ == ARTIFACT_TYPE@,
    {
        CreateActionsStorageArtifactParameters {
            name: name.to_owned(),
            container_id,
            size,
            artifact_type: ARTIFACT_TYPE.to_owned(),
        }
    }

    /// What the answer to a lookup means: there is no artifact where the server says so, or
    /// where it has nothing to say of one.
    pub fn lookup(status: u16, body: &str) -> (r: Lookup)
        ensures
            r == if status == 404 {
                Lookup::Missing
            } else if !polling::success_status(status) {
                Lookup::Failed(status)
            } else if text::trimmed(body@).len() == 0 {
                Lookup::Missing
            } else {
                Lookup::Found
            },
    {
        if status == 404 {
            Lookup::Missing
        } else if !polling::is_success(status) {
            Lookup::Failed(status)
        } else if text::is_empty(text::trim(body).as_str()) {
            Lookup::Missing
        } else {
            Lookup::Found
        }
    }
}

/// The records of one run are never those of another.
pub proof fn law_runs_are_apart(base: Seq<char>, a: int, b: int)
    requires
        run_artifacts(base, a) == run_artifacts(base, b),
    ensures
        a == b,
{
    let lo = if a < b { a } else { b };
    let hi = if a < b { b } else { a };
    number::law_signed_reads_back(a, lo, hi);
    number::law_signed_reads_back(b, lo, hi);
    let front = base + "/_apis/pipelines/workflows/"@;
    let back = "/artifacts"@;
    let n = front.len() as int;
    let x = number::signed_decimal(a);
    let y = number::signed_decimal(b);
    assert(run_artifacts(base, a).len() == n + x.len() + back.len());
    assert(run_artifacts(base, b).len() == n + y.len() + back.len());
    assert(run_artifacts(base, a).subrange(n, n + x.len()) == x);
    assert(run_artifacts(base, b).subrange(n, n + y.len()) == y);
}

} // verus!
