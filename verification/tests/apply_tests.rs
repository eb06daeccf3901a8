use rack_firmware::apply::{
    apply_error_message, check_available, check_preconditions, display_name, interpret_call, lookup_key,
    plan_bucket, ApplyAction, ApplyError, ApplyEvent, ApplyResponse, ApplyRun, BucketPlan,
    CallOutcome, FirmwareTarget, NodeJobInfo, NodeType, RackInventory, UpdateRequest,
    UpdateResponse,
};
use rack_firmware::json::parse_json;
use rack_firmware::lookup::{build_firmware_lookup_table, FirmwareLookupEntry, FirmwareLookupTable};
use rack_firmware::manifest::parse_rack_firmware_json;
use rack_firmware::textmap::TextMap;

const SUCCESS: i32 = 0;

fn table_of(text: &str) -> FirmwareLookupTable {
    build_firmware_lookup_table(&parse_rack_firmware_json(&parse_json(text).unwrap()).unwrap())
}

fn compute_table() -> FirmwareLookupTable {
    table_of(
        r#"{"Id": "fw-1", "BoardSKUs": [{"SKUID": "699-24764-0001-TS3", "Components": {"Firmware": [
            {"Component": "BMC", "Type": "Prod", "Locations": [
                {"Location": "https://repo/bmc.fwpkg", "Type": "Firmware"}]},
            {"Component": "HMC", "Type": "Prod", "Locations": [
                {"Location": "https://repo/hmc.fwpkg", "Type": "Firmware"}]}
        ]}}]}"#,
    )
}

fn entry(filename: &str, target: &str) -> FirmwareLookupEntry {
    FirmwareLookupEntry {
        filename: filename.to_string(),
        target: target.to_string(),
        component: "c".to_string(),
        bundle: String::new(),
        firmware_type: "prod".to_string(),
        version: None,
        subcomponents: vec![],
    }
}

fn full_table() -> FirmwareLookupTable {
    let mut compute = TextMap::new();
    compute.insert("BMC_prod".to_string(), entry("bmc.bin", "FW_BMC_0"));
    compute.insert("HMC_prod".to_string(), entry("hmc.bin", "/redfish/v1/Chassis/HGX_Chassis_0"));
    let mut switch = TextMap::new();
    switch.insert("BIOS_prod".to_string(), entry("bios.bin", "bios"));
    switch.insert("BMC_prod".to_string(), entry("sbmc.bin", "bmc"));
    switch.insert("EROT_prod".to_string(), entry("erot.bin", "erot"));
    let mut devices = TextMap::new();
    devices.insert("Compute Node".to_string(), compute);
    devices.insert("Switch Tray".to_string(), switch);
    FirmwareLookupTable { devices }
}

fn rack(compute_trays: usize, power_shelves: usize, switches: usize) -> RackInventory {
    RackInventory { compute_trays, power_shelves, switches }
}

fn answer(status: i32, job_id: &str, total_nodes: i32) -> CallOutcome {
    CallOutcome::Answered(UpdateResponse {
        status,
        job_id: job_id.to_string(),
        total_nodes,
        message: "queued".to_string(),
        node_jobs: vec![NodeJobInfo { node_id: "n1".to_string(), job_id: "j1".to_string() }],
    })
}

fn path(name: &str) -> String {
    format!("/forge-boot-artifacts/blobs/internal/fw/rack_firmware/fw-1/{}", name)
}

fn finished(action: ApplyAction) -> ApplyResponse {
    match action {
        ApplyAction::Finished(response) => response,
        other => panic!("the apply is not over: {:?}", other),
    }
}

fn sent(action: ApplyAction) -> UpdateRequest {
    match action {
        ApplyAction::Send(request) => request,
        other => panic!("nothing was sent: {:?}", other),
    }
}

#[test]
fn compute_only_rack_gets_one_ordered_request_with_activation() {
    let table = compute_table();
    assert!(table.devices.get("Compute Node").unwrap().contains_key("HMC_prod"));
    assert!(table.devices.get("Compute Node").unwrap().contains_key("BMC_prod"));
    let run = ApplyRun::start(Some(true), Some(&table), &rack(4, 0, 0), "rack-7", "fw-1", "prod", true, SUCCESS)
        .unwrap();
    let (run, action) = run.step(ApplyEvent::Proceed);
    let request = sent(action);
    assert_eq!(request.node_type, NodeType::Compute);
    assert_eq!(request.rack_id, "rack-7");
    assert!(request.activate);
    assert_eq!(
        request.firmware_targets,
        vec![
            FirmwareTarget {
                target: "/redfish/v1/Chassis/HGX_Chassis_0".to_string(),
                filename: path("hmc.fwpkg"),
            },
            FirmwareTarget { target: "FW_BMC_0".to_string(), filename: path("bmc.fwpkg") },
        ]
    );
    assert!(run.is_awaiting());
    let (run, action) = run.step(ApplyEvent::Proceed);
    assert_eq!(action, ApplyAction::Wait);
    let (run, action) = run.step(ApplyEvent::Called(answer(SUCCESS, "batch-1", 4)));
    let response = finished(action);
    assert_eq!(response.total_updates, 1);
    assert_eq!(response.successful_updates, 1);
    assert_eq!(response.failed_updates, 0);
    let result = &response.device_results[0];
    assert_eq!(result.device_id, "rack-7");
    assert_eq!(result.device_type, "Compute Node");
    assert!(result.success);
    assert_eq!(result.message, "Async firmware update initiated for 4 nodes: queued");
    assert_eq!(result.job_id, "batch-1");
    assert_eq!(
        result.node_jobs,
        vec![NodeJobInfo { node_id: "n1".to_string(), job_id: "j1".to_string() }]
    );
    assert!(!run.is_awaiting());
    let (_, again) = run.step(ApplyEvent::Proceed);
    assert_eq!(finished(again), response);
}

#[test]
fn empty_rack_fails_before_anything_is_sent() {
    let table = compute_table();
    let started =
        ApplyRun::start(Some(true), Some(&table), &rack(0, 0, 0), "rack-7", "fw-1", "prod", true, SUCCESS);
    assert_eq!(started.err(), Some(ApplyError::EmptyRack));
    assert_eq!(check_preconditions(Some(true), &rack(0, 0, 0)), Err(ApplyError::EmptyRack));
    assert_eq!(check_preconditions(Some(true), &rack(0, 1, 0)), Ok(()));
    assert_eq!(
        apply_error_message(ApplyError::EmptyRack, "fw-1", "rack-7"),
        "Rack 'rack-7' contains no devices"
    );
}

#[test]
fn unavailable_configuration_fails_before_anything_is_sent() {
    let started = ApplyRun::start(Some(false), None, &rack(1, 1, 1), "rack-7", "fw-1", "prod", true, SUCCESS);
    assert_eq!(started.err(), Some(ApplyError::NotAvailable));
    assert_eq!(check_preconditions(Some(false), &rack(0, 0, 0)), Err(ApplyError::NotAvailable));
    let missing = ApplyRun::start(None, None, &rack(1, 1, 1), "rack-7", "fw-1", "prod", true, SUCCESS);
    assert_eq!(missing.err(), Some(ApplyError::NotFound));
    assert_eq!(check_preconditions(None, &rack(0, 0, 0)), Err(ApplyError::NotFound));
    assert_eq!(check_available(None), Err(ApplyError::NotFound));
    assert_eq!(check_available(Some(false)), Err(ApplyError::NotAvailable));
    assert_eq!(check_available(Some(true)), Ok(()));
    assert_eq!(
        apply_error_message(ApplyError::NotFound, "fw-1", "rack-7"),
        "Firmware configuration 'fw-1' not found"
    );
    assert_eq!(
        apply_error_message(ApplyError::NotAvailable, "fw-1", "rack-7"),
        "Firmware configuration 'fw-1' is not marked as available"
    );
}

#[test]
fn buckets_are_taken_in_order_and_failures_are_counted() {
    let table = full_table();
    let run = ApplyRun::start(Some(true), Some(&table), &rack(2, 1, 3), "r", "fw-1", "PROD", true, SUCCESS)
        .unwrap();
    let (run, action) = run.step(ApplyEvent::Proceed);
    let first = sent(action);
    assert_eq!(first.node_type, NodeType::Compute);
    assert!(first.activate);
    let (run, action) = run.step(ApplyEvent::Called(answer(7, "b1", 2)));
    let second = sent(action);
    assert_eq!(second.node_type, NodeType::Switch);
    assert!(!second.activate);
    let targets: Vec<&str> = second.firmware_targets.iter().map(|t| t.target.as_str()).collect();
    assert_eq!(targets, vec!["bmc", "erot", "bios"]);
    assert_eq!(second.firmware_targets[0].filename, path("sbmc.bin"));
    let (_, action) = run.step(ApplyEvent::Called(CallOutcome::Failed("unreachable".to_string())));
    let response = finished(action);
    assert_eq!(response.total_updates, 3);
    assert_eq!(response.successful_updates, 0);
    assert_eq!(response.failed_updates, 3);
    let kinds: Vec<&str> = response.device_results.iter().map(|r| r.device_type.as_str()).collect();
    assert_eq!(kinds, vec!["Compute Node", "Power Shelf", "Switch"]);
    assert!(!response.device_results[0].success);
    assert_eq!(response.device_results[0].job_id, "b1");
    assert_eq!(
        response.device_results[1].message,
        "No matching firmware found in config for Power Shelf"
    );
    assert_eq!(response.device_results[1].job_id, "");
    assert_eq!(response.device_results[2].message, "RMS API Error: unreachable");
    assert!(response.device_results[2].node_jobs.is_empty());
}

#[test]
fn nothing_is_sent_without_a_fleet_manager_or_a_table() {
    let table = full_table();
    let run = ApplyRun::start(Some(true), Some(&table), &rack(1, 0, 1), "r", "fw-1", "prod", false, SUCCESS)
        .unwrap();
    let (_, action) = run.step(ApplyEvent::Proceed);
    let response = finished(action);
    assert_eq!(response.total_updates, 2);
    assert_eq!(response.failed_updates, 2);
    assert_eq!(response.device_results[0].message, "RMS client not configured");
    assert_eq!(response.device_results[1].device_type, "Switch");

    let run = ApplyRun::start(Some(true), None, &rack(1, 0, 0), "r", "fw-1", "prod", true, SUCCESS).unwrap();
    let (_, action) = run.step(ApplyEvent::Called(answer(SUCCESS, "stray", 1)));
    let response = finished(action);
    assert_eq!(response.total_updates, 1);
    assert_eq!(
        response.device_results[0].message,
        "No matching firmware found in config for Compute Node"
    );
}

#[test]
fn plans_per_bucket() {
    let table = full_table();
    let present = rack(1, 1, 1);
    assert_eq!(
        plan_bucket(Some(&table), &rack(0, 1, 1), "r", "fw-1", "prod", true, NodeType::Compute),
        BucketPlan::Skip
    );
    match plan_bucket(Some(&table), &present, "r", "fw-1", "dev", true, NodeType::Compute) {
        BucketPlan::Fail(result) => assert_eq!(result.device_type, "Compute Node"),
        other => panic!("unexpected plan {:?}", other),
    }
    match plan_bucket(Some(&table), &present, "r", "fw-1", "prod", true, NodeType::Switch) {
        BucketPlan::Dispatch(request) => {
            assert_eq!(request.firmware_targets.len(), 3);
            assert!(!request.activate);
        }
        other => panic!("unexpected plan {:?}", other),
    }
    assert_eq!(lookup_key(NodeType::Switch), "Switch Tray");
    assert_eq!(display_name(NodeType::Switch), "Switch");
    assert_eq!(lookup_key(NodeType::PowerShelf), "Power Shelf");
    assert_eq!(display_name(NodeType::Compute), "Compute Node");
}

#[test]
fn answers_are_read_by_their_status() {
    let ok = interpret_call("r", NodeType::Switch, 0, answer(0, "b", -3));
    assert!(ok.success);
    assert_eq!(ok.message, "Async firmware update initiated for -3 nodes: queued");
    let bad = interpret_call("r", NodeType::Switch, 0, answer(1, "b", 12));
    assert!(!bad.success);
    assert_eq!(bad.job_id, "b");
    assert_eq!(bad.message, "Async firmware update initiated for 12 nodes: queued");
    let lowest = interpret_call("r", NodeType::Switch, 5, answer(5, "b", i32::MIN));
    assert!(lowest.success);
    assert_eq!(
        lowest.message,
        "Async firmware update initiated for -2147483648 nodes: queued"
    );
}
