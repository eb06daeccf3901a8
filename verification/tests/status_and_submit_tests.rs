use rack_firmware::job_status::{
    check_job_status_request, job_state_name, job_status_error_message, relay_job_status,
    FleetJobStatus, JobStatusError,
};
use rack_firmware::submit::{check_submission, submit_error_message, SubmitError};
use rack_firmware::text::{decimal_text, signed_decimal_text};

#[test]
fn job_states_by_name() {
    assert_eq!(job_state_name(0), "QUEUED");
    assert_eq!(job_state_name(1), "RUNNING");
    assert_eq!(job_state_name(2), "COMPLETED");
    assert_eq!(job_state_name(3), "FAILED");
    assert_eq!(job_state_name(4), "UNKNOWN");
    assert_eq!(job_state_name(-1), "UNKNOWN");
    assert_eq!(job_state_name(i32::MAX), "UNKNOWN");
}

#[test]
fn job_status_request_needs_a_job_and_a_client() {
    assert_eq!(check_job_status_request("", true), Err(JobStatusError::MissingJobId));
    assert_eq!(check_job_status_request("", false), Err(JobStatusError::MissingJobId));
    assert_eq!(check_job_status_request("j", false), Err(JobStatusError::ClientNotConfigured));
    assert_eq!(check_job_status_request("j", true), Ok(()));
    assert_eq!(job_status_error_message(JobStatusError::MissingJobId), "job_id is required");
    assert_eq!(
        job_status_error_message(JobStatusError::ClientNotConfigured),
        "RMS client not configured"
    );
}

#[test]
fn job_status_passes_through_with_the_state_named() {
    let relayed = relay_job_status(FleetJobStatus {
        job_id: "j-9".to_string(),
        job_state: 2,
        state_description: "done".to_string(),
        rack_id: "r".to_string(),
        node_id: "n".to_string(),
        error_message: "".to_string(),
        result_json: "{\"ok\":true}".to_string(),
    });
    assert_eq!(relayed.job_id, "j-9");
    assert_eq!(relayed.state, "COMPLETED");
    assert_eq!(relayed.state_description, "done");
    assert_eq!(relayed.rack_id, "r");
    assert_eq!(relayed.node_id, "n");
    assert_eq!(relayed.error_message, "");
    assert_eq!(relayed.result_json, "{\"ok\":true}");
}

#[test]
fn submission_checks_come_in_order() {
    match check_submission("{not json", "") {
        Err(SubmitError::InvalidJson(text)) => assert!(!text.is_empty()),
        other => panic!("unexpected result {:?}", other),
    }
    assert_eq!(check_submission("{}", ""), Err(SubmitError::MissingId));
    assert_eq!(check_submission("{\"Id\": 5}", "t"), Err(SubmitError::MissingId));
    assert_eq!(check_submission("{\"Id\": \"fw-1\"}", ""), Err(SubmitError::MissingToken));
    let plain = check_submission("{\"Id\": \"fw-1\"}", "t").unwrap();
    assert_eq!(plain.id, "fw-1");
    assert_eq!(plain.parsed, None);
    let full = check_submission("{\"Id\": \"fw-2\", \"BoardSKUs\": [{\"SKUID\": \"s\"}]}", "t").unwrap();
    assert_eq!(full.id, "fw-2");
    assert_eq!(full.parsed.unwrap().board_skus[0].sku_id, "s");
}

#[test]
fn submission_error_texts() {
    assert_eq!(
        submit_error_message(&SubmitError::InvalidJson("eof".to_string())),
        "Invalid JSON: eof"
    );
    assert_eq!(
        submit_error_message(&SubmitError::MissingId),
        "JSON must contain 'Id' field to use as identifier"
    );
    assert_eq!(submit_error_message(&SubmitError::MissingToken), "Artifactory token is required");
}

#[test]
fn decimal_texts() {
    assert_eq!(decimal_text(0), "0");
    assert_eq!(decimal_text(7), "7");
    assert_eq!(decimal_text(10), "10");
    assert_eq!(decimal_text(1234567890), "1234567890");
    assert_eq!(decimal_text(u64::MAX), "18446744073709551615");
    assert_eq!(signed_decimal_text(-1), "-1");
    assert_eq!(signed_decimal_text(i64::MIN), "-9223372036854775808");
    assert_eq!(signed_decimal_text(i64::MAX), "9223372036854775807");
}
