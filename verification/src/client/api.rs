//! The remote server's REST API: its replies, the address of each endpoint,
//! and what an HTTP status means for each request.
use vstd::prelude::*;
use super::ClientConfig;
use crate::text::concat;

verus! {

/// Reply to a generation request.
#[derive(Debug, Clone)]
pub struct GenerateResponse {
    pub job_id: String,
    pub status: String,
    pub queue_position: usize,
}

/// Reply to a health check.
#[derive(Debug, Clone)]
pub struct HealthResponse {
    pub status: String,
    pub version: String,
}

/// The address of an API path below the base address.
pub open spec fn endpoint(config: ClientConfig, path: Seq<char>) -> Seq<char> {
    config.server_url@ + "/api/v1"@ + path
}

/// The address of an API path (which starts with "/").
fn endpoint_url(config: &ClientConfig, path: &str) -> (s: String)
    ensures
        s@ == endpoint(*config, path@),
{
    let base = config.api_base();
    concat(base.as_str(), path)
}

/// The health check address.
pub fn health_url(config: &ClientConfig) -> (s: String)
    ensures
        s@ == endpoint(*config, "/health"@),
{
    endpoint_url(config, "/health")
}

/// The address generation jobs are submitted to.
pub fn generate_url(config: &ClientConfig) -> (s: String)
    ensures
        s@ == endpoint(*config, "/generate"@),
{
    endpoint_url(config, "/generate")
}

/// The address of the job queue.
pub fn queue_url(config: &ClientConfig) -> (s: String)
    ensures
        s@ == endpoint(*config, "/queue"@),
{
    endpoint_url(config, "/queue")
}

/// The address of one job in the queue.
pub fn job_url(config: &ClientConfig, job_id: &str) -> (s: String)
    ensures
        s@ == endpoint(*config, "/queue/"@ + job_id@),
{
    let path = concat("/queue/", job_id);
    endpoint_url(config, path.as_str())
}

/// The address of a generated file (`ApiClient::get_file_url`).
pub fn get_file_url(config: &ClientConfig, filename: &str) -> (s: String)
    ensures
        s@ == endpoint(*config, "/files/"@ + filename@),
{
    let path = concat("/files/", filename);
    endpoint_url(config, path.as_str())
}

/// The address of the prompt refinement chat.
pub fn chat_url(config: &ClientConfig) -> (s: String)
    ensures
        s@ == endpoint(*config, "/chat/refine"@),
{
    endpoint_url(config, "/chat/refine")
}

/// What an HTTP status means for a request.
#[derive(Debug, Clone, Copy, PartialEq, Eq, Structural)]
pub enum StatusMeaning {
    /// The request succeeded (a 2xx status).
    Success,
    /// The status the request treats on its own: a job that does not exist
    /// (404 on a job lookup or a file download), or one that can no longer
    /// be cancelled (400 on a cancellation).
    Special,
    /// Any other status: an error.
    Failure,
}

/// The requests whose statuses mean something particular.
#[derive(Debug, Clone, Copy, PartialEq, Eq, Structural)]
pub enum Request {
    Health,
    Submit,
    ListJobs,
    GetJob,
    CancelJob,
    DownloadFile,
    Chat,
}

/// The status a request treats on its own, if any.
pub open spec fn special_status(request: Request) -> Option<u16> {
    match request {
        Request::GetJob => Some(404u16),
        Request::DownloadFile => Some(404u16),
        Request::CancelJob => Some(400u16),
        _ => None,
    }
}

/// What `status` means for `request`.
pub open spec fn meaning_of(request: Request, status: u16) -> StatusMeaning {
    if special_status(request) == Some(status) {
        StatusMeaning::Special
    } else if 200 <= status && status <= 299 {
        StatusMeaning::Success
    } else {
        StatusMeaning::Failure
    }
}

/// Decides what an HTTP status means for a request: its own special
/// status first, then success for 2xx, else failure.
pub fn status_meaning(request: Request, status: u16) -> (m: StatusMeaning)
    ensures
        m == meaning_of(request, status),
{
    let special: Option<u16> = match request {
        Request::GetJob => Some(404),
        Request::DownloadFile => Some(404),
        Request::CancelJob => Some(400),
        _ => None,
    };
    if special == Some(status) {
        StatusMeaning::Special
    } else if 200 <= status && status <= 299 {
        StatusMeaning::Success
    } else {
        StatusMeaning::Failure
    }
}

} // verus!
