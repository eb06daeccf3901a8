//! The relay of a firmware job's state from the fleet manager.

use vstd::prelude::*;

verus! {

/// Why a job's state was not asked for.
#[derive(Debug, Clone, Copy, PartialEq, Eq, Structural)]
pub enum JobStatusError {
    /// The request names no job.
    MissingJobId,
    /// No fleet manager is configured.
    ClientNotConfigured,
}

/// A job's state as the fleet manager reports it.
#[derive(Debug, PartialEq, Eq)]
pub struct FleetJobStatus {
    pub job_id: String,
    pub job_state: i32,
    pub state_description: String,
    pub rack_id: String,
    pub node_id: String,
    pub error_message: String,
    pub result_json: String,
}

/// A job's state as it is handed on, with the state by its name.
#[derive(Debug, PartialEq, Eq)]
pub struct JobStatusResponse {
    pub job_id: String,
    pub state: String,
    pub state_description: String,
    pub rack_id: String,
    pub node_id: String,
    pub error_message: String,
    pub result_json: String,
}

/// The name of a job state.
pub open spec fn job_state_text(job_state: i32) -> Seq<char> {
    if job_state == 0 {
        "QUEUED"@
    } else if job_state == 1 {
        "RUNNING"@
    } else if job_state == 2 {
        "COMPLETED"@
    } else if job_state == 3 {
        "FAILED"@
    } else {
        "UNKNOWN"@
    }
}

/// What the check of a request says: it must name a job, and a fleet manager
/// must be configured.
pub open spec fn job_status_request_check(job_id: Seq<char>, client_configured: bool) -> Result<
    (),
    JobStatusError,
> {
    if job_id.len() == 0 {
        Err(JobStatusError::MissingJobId)
    } else if !client_configured {
        Err(JobStatusError::ClientNotConfigured)
    } else {
        Ok(())
    }
}

/// Checks a request for a job's state before it is handed on.
pub fn check_job_status_request(job_id: &str, client_configured: bool) -> (r: Result<
    (),
    JobStatusError,
>)
    ensures
        r == job_status_request_check(job_id@, client_configured),
{
    if job_id.is_empty() {
        Err(JobStatusError::MissingJobId)
    } else if !client_configured {
        Err(JobStatusError::ClientNotConfigured)
    } else {
        Ok(())
    }
}

/// The text of an error.
pub fn job_status_error_message(error: JobStatusError) -> (r: &'static str)
    ensures
        r@ == match error {
            JobStatusError::MissingJobId => "job_id is required"@,
            JobStatusError::ClientNotConfigured => "RMS client not configured"@,
        },
{
    match error {
        JobStatusError::MissingJobId => "job_id is required",
        JobStatusError::ClientNotConfigured => "RMS client not configured",
    }
}

/// The name of a job state: 0 is queued, 1 running, 2 completed, 3 failed;
/// any other number is unknown.
pub fn job_state_name(job_state: i32) -> (r: &'static str)
    ensures
        r@ == job_state_text(job_state),
{
    match job_state {
        0 => "QUEUED",
        1 => "RUNNING",
        2 => "COMPLETED",
        3 => "FAILED",
        _ => "UNKNOWN",
    }
}

/// Hands a job's state on: the state by its name, every other field as it
/// came.
pub fn relay_job_status(status: FleetJobStatus) -> (r: JobStatusResponse)
    ensures
        r.job_id@ == status.job_id@,
        r.state@ == job_state_text(status.job_state),
        r.state_description@ == status.state_description@,
        r.rack_id@ == status.rack_id@,
        r.node_id@ == status.node_id@,
        r.error_message@ == status.error_message@,
        r.result_json@ == status.result_json@,
{
    JobStatusResponse {
        job_id: status.job_id,
        state: job_state_name(status.job_state).to_owned(),
        state_description: status.state_description,
        rack_id: status.rack_id,
        node_id: status.node_id,
        error_message: status.error_message,
        result_json: status.result_json,
    }
}

} // verus!
