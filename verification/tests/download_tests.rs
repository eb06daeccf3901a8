use rack_firmware::download::{
    artifactory_token, begin_fetch, download_filename, fetch_step, firmware_cache_dir,
    firmware_cache_path, plan_downloads, tally_downloads, token_header_name, Credentials,
    DownloadTally, FetchAction, FetchError, FetchEvent, FetchOutcome, FetchState, FirmwareConfig,
    StoredComponents, UnitResult, CONNECT_TIMEOUT_SECS, STATUS_UNAUTHORIZED, TOTAL_TIMEOUT_SECS,
};
use rack_firmware::json::parse_json;
use rack_firmware::lookup::build_firmware_lookup_table;
use rack_firmware::manifest::{parse_rack_firmware_json, ParsedFirmwareComponents};

fn parsed(text: &str) -> ParsedFirmwareComponents {
    parse_rack_firmware_json(&parse_json(text).unwrap()).unwrap()
}

const TWO_BOARDS: &str = r#"{"BoardSKUs": [
    {"SKUID": "699-24764-0001-TS3", "Components": {"Firmware": [
        {"Component": "HMC", "Bundle": "P1", "Locations": [
            {"Location": "https://h/a.bin", "LocationType": "HTTPS", "Type": "Firmware"},
            {"Location": "https://h/a.crt", "LocationType": "HTTPS", "Type": "Certificate"},
            {"Location": "https://h/b.bin", "LocationType": "Mirror", "Type": "Firmware"}]},
        {"Component": "BMC", "Locations": []}]}},
    {"SKUID": "999-FOO", "Components": {"Firmware": [
        {"Component": "NIC", "Locations": [
            {"Location": "https://h/c.bin", "LocationType": "HTTPS", "Type": "Firmware"}]}]}}
]}"#;

fn run(events: &[FetchEvent]) -> (Vec<FetchAction>, FetchState) {
    let mut state = FetchState::CheckingCache;
    let mut actions = vec![];
    for event in events {
        let (next, action) = fetch_step(state, *event);
        state = next;
        actions.push(action);
    }
    (actions, state)
}

fn requests(actions: &[FetchAction]) -> usize {
    actions.iter().filter(|a| matches!(a, FetchAction::Get { .. })).count()
}

#[test]
fn one_task_for_every_retained_location() {
    let tasks = plan_downloads(&parsed(TWO_BOARDS));
    assert_eq!(tasks.len(), 3);
    assert_eq!(tasks[0].url, "https://h/a.bin");
    assert_eq!(tasks[0].location_type, "HTTPS");
    assert_eq!(tasks[0].component, "HMC");
    assert_eq!(tasks[0].bundle.as_deref(), Some("P1"));
    assert_eq!(tasks[1].url, "https://h/b.bin");
    assert_eq!(tasks[1].location_type, "Mirror");
    assert_eq!(tasks[2].url, "https://h/c.bin");
    assert_eq!(tasks[2].component, "NIC");
    assert_eq!(tasks[2].bundle, None);
    assert!(plan_downloads(&ParsedFirmwareComponents { board_skus: vec![] }).is_empty());
}

#[test]
fn cache_paths_follow_the_convention() {
    assert_eq!(
        firmware_cache_dir("fw-1"),
        "/forge-boot-artifacts/blobs/internal/fw/rack_firmware/fw-1"
    );
    assert_eq!(
        firmware_cache_path("fw-1", "hmc.fwpkg"),
        "/forge-boot-artifacts/blobs/internal/fw/rack_firmware/fw-1/hmc.fwpkg"
    );
    assert_eq!(token_header_name(), "X-JFrog-Art-Api");
    assert_eq!(CONNECT_TIMEOUT_SECS, 30);
    assert_eq!(TOTAL_TIMEOUT_SECS, 600);
    assert_eq!(STATUS_UNAUTHORIZED, 401);
}

#[test]
fn file_name_is_the_last_segment_of_the_address() {
    assert_eq!(download_filename("https://h/dir/file.bin"), Ok("file.bin".to_string()));
    assert_eq!(download_filename("file.bin"), Ok("file.bin".to_string()));
    assert_eq!(download_filename("https://h/dir/"), Err(FetchError::EmptyFilename));
    assert_eq!(download_filename(""), Err(FetchError::EmptyFilename));
    assert_eq!(begin_fetch("https://h/f"), (FetchState::CheckingCache, FetchAction::CheckCache));
    assert_eq!(
        begin_fetch("https://h/"),
        (
            FetchState::Finished,
            FetchAction::Finish(FetchOutcome::Failed(FetchError::EmptyFilename))
        )
    );
}

#[test]
fn token_is_the_stored_password_or_empty() {
    let stored = Credentials { username: "fw-1".to_string(), password: "SECRET-REDACTED".to_string() };
    assert_eq!(artifactory_token(Some(&stored)), "SECRET-REDACTED");
    assert_eq!(artifactory_token(None), "");
}

#[test]
fn cached_file_is_not_requested() {
    let (actions, state) = run(&[FetchEvent::CacheHit]);
    assert_eq!(actions, vec![FetchAction::Finish(FetchOutcome::Cached)]);
    assert_eq!(state, FetchState::Finished);
    let (actions, _) = run(&[
        FetchEvent::CacheHit,
        FetchEvent::Status(401),
        FetchEvent::TransportFailed,
        FetchEvent::CacheMiss,
    ]);
    assert_eq!(requests(&actions), 0);
}

#[test]
fn plain_download_makes_one_request_without_token() {
    let (actions, state) = run(&[FetchEvent::CacheMiss, FetchEvent::Status(200), FetchEvent::Stored]);
    assert_eq!(
        actions,
        vec![
            FetchAction::Get { with_token: false },
            FetchAction::Store,
            FetchAction::Finish(FetchOutcome::Downloaded),
        ]
    );
    assert_eq!(state, FetchState::Finished);
}

#[test]
fn unauthorized_is_retried_once_with_the_token() {
    let (actions, _) = run(&[
        FetchEvent::CacheMiss,
        FetchEvent::Status(401),
        FetchEvent::Status(204),
        FetchEvent::Stored,
    ]);
    assert_eq!(
        actions,
        vec![
            FetchAction::Get { with_token: false },
            FetchAction::Get { with_token: true },
            FetchAction::Store,
            FetchAction::Finish(FetchOutcome::Downloaded),
        ]
    );
    let (actions, _) = run(&[FetchEvent::CacheMiss, FetchEvent::Status(401), FetchEvent::Status(401)]);
    assert_eq!(requests(&actions), 2);
    assert_eq!(
        actions[2],
        FetchAction::Finish(FetchOutcome::Failed(FetchError::Status(401)))
    );
}

#[test]
fn transport_failure_is_retried_once_with_the_token() {
    let (actions, _) = run(&[
        FetchEvent::CacheMiss,
        FetchEvent::TransportFailed,
        FetchEvent::TransportFailed,
    ]);
    assert_eq!(
        actions,
        vec![
            FetchAction::Get { with_token: false },
            FetchAction::Get { with_token: true },
            FetchAction::Finish(FetchOutcome::Failed(FetchError::RetryFailed)),
        ]
    );
}

#[test]
fn other_statuses_are_never_retried() {
    for status in [199u16, 300, 302, 400, 403, 404, 500, 503] {
        let (actions, state) = run(&[FetchEvent::CacheMiss, FetchEvent::Status(status)]);
        assert_eq!(requests(&actions), 1);
        assert_eq!(
            actions[1],
            FetchAction::Finish(FetchOutcome::Failed(FetchError::Status(status)))
        );
        assert_eq!(state, FetchState::Finished);
    }
    let (actions, _) = run(&[FetchEvent::CacheMiss, FetchEvent::Status(401), FetchEvent::Status(500)]);
    assert_eq!(
        actions[2],
        FetchAction::Finish(FetchOutcome::Failed(FetchError::Status(500)))
    );
}

#[test]
fn storing_can_fail_and_stray_events_end_the_fetch() {
    let (actions, _) = run(&[FetchEvent::CacheMiss, FetchEvent::Status(200), FetchEvent::BodyFailed]);
    assert_eq!(actions[2], FetchAction::Finish(FetchOutcome::Failed(FetchError::BodyFailed)));
    let (actions, _) = run(&[FetchEvent::CacheMiss, FetchEvent::Status(299), FetchEvent::WriteFailed]);
    assert_eq!(actions[2], FetchAction::Finish(FetchOutcome::Failed(FetchError::WriteFailed)));
    let (actions, _) = run(&[FetchEvent::CacheMiss, FetchEvent::ClientFailed]);
    assert_eq!(actions[1], FetchAction::Finish(FetchOutcome::Failed(FetchError::ClientFailed)));
    let (actions, state) = run(&[FetchEvent::Stored]);
    assert_eq!(actions[0], FetchAction::Finish(FetchOutcome::Failed(FetchError::OutOfTurn)));
    assert_eq!(state, FetchState::Finished);
    assert_eq!(
        fetch_step(FetchState::Finished, FetchEvent::CacheMiss),
        (FetchState::Finished, FetchAction::Finish(FetchOutcome::Failed(FetchError::OutOfTurn)))
    );
}

#[test]
fn tally_counts_every_unit_once() {
    let results = vec![
        UnitResult::Finished(FetchOutcome::Cached),
        UnitResult::Finished(FetchOutcome::Failed(FetchError::Status(500))),
        UnitResult::Crashed,
        UnitResult::Finished(FetchOutcome::Downloaded),
        UnitResult::Finished(FetchOutcome::Failed(FetchError::EmptyFilename)),
    ];
    assert_eq!(tally_downloads(&results), DownloadTally { successful: 2, failed: 3 });
    assert_eq!(tally_downloads(&vec![]), DownloadTally { successful: 0, failed: 0 });
}

#[test]
fn configuration_becomes_available_only_without_failures() {
    let components = parsed(TWO_BOARDS);
    let fresh = || {
        FirmwareConfig::new("fw-1".to_string(), "{}".to_string(), Some(components.clone()), 10)
    };
    let created = fresh();
    assert!(!created.available);
    assert_eq!(created.updated_at, 10);
    assert_eq!(created.parsed_components, StoredComponents::Parsed(components.clone()));

    let done = fresh().complete_download_run(
        &components,
        &DownloadTally { successful: 3, failed: 0 },
        25,
    );
    assert!(done.available);
    assert_eq!(done.updated_at, 25);
    assert_eq!(done.id, "fw-1");
    assert_eq!(done.raw_manifest, "{}");
    assert_eq!(
        done.parsed_components,
        StoredComponents::Lookup(build_firmware_lookup_table(&components))
    );

    let failed = fresh().complete_download_run(
        &components,
        &DownloadTally { successful: 2, failed: 1 },
        25,
    );
    assert_eq!(failed, fresh());
    assert!(!failed.available);

    let unparsed = FirmwareConfig::new("fw-2".to_string(), "[]".to_string(), None, 1);
    assert_eq!(unparsed.parsed_components, StoredComponents::Missing);
}
