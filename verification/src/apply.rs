//! The dispatch of firmware to the devices of a rack: what is checked before
//! anything is sent, what is asked of the fleet manager for each kind of
//! device, and how its answers are counted.

use crate::device::{flash_order, get_firmware_flash_order};
use crate::download::{cache_path, firmware_cache_path};
use crate::lookup::{
    components_for_device, find_firmware_components_for_device, flash_sorted, sort_for_flash,
    FirmwareLookupTable, FlashItem, RuleView, TableView,
};
use crate::text::{concat, decimal, signed_decimal_text};
use vstd::prelude::*;

verus! {

/// The kinds of node that the fleet manager knows, in the order in which a
/// rack's devices are updated.
#[derive(Debug, Clone, Copy, PartialEq, Eq, Structural)]
pub enum NodeType {
    Compute,
    PowerShelf,
    Switch,
}

/// How many devices of each kind a rack holds.
#[derive(Debug, Clone, Copy, PartialEq, Eq, Structural)]
pub struct RackInventory {
    pub compute_trays: usize,
    pub power_shelves: usize,
    pub switches: usize,
}

/// Why nothing was dispatched.
#[derive(Debug, Clone, Copy, PartialEq, Eq, Structural)]
pub enum ApplyError {
    /// There is no firmware configuration of the identifier.
    NotFound,
    /// The firmware configuration is not marked as available.
    NotAvailable,
    /// The rack holds no compute tray, no power shelf and no switch.
    EmptyRack,
}

/// One file to flash and the target to flash it to.
#[derive(Debug, PartialEq, Eq)]
pub struct FirmwareTarget {
    pub target: String,
    /// The file's path in the cache.
    pub filename: String,
}

pub struct FirmwareTargetView {
    pub target: Seq<char>,
    pub filename: Seq<char>,
}

/// The one request that updates all nodes of a kind in a rack.
#[derive(Debug, PartialEq, Eq)]
pub struct UpdateRequest {
    pub node_type: NodeType,
    pub rack_id: String,
    /// The files in the order in which they must be flashed.
    pub firmware_targets: Vec<FirmwareTarget>,
    /// Whether the nodes activate the firmware after flashing.
    pub activate: bool,
}

pub struct UpdateRequestView {
    pub node_type: NodeType,
    pub rack_id: Seq<char>,
    pub firmware_targets: Seq<FirmwareTargetView>,
    pub activate: bool,
}

/// The job that updates one node.
#[derive(Debug, PartialEq, Eq)]
pub struct NodeJobInfo {
    pub node_id: String,
    pub job_id: String,
}

pub struct NodeJobInfoView {
    pub node_id: Seq<char>,
    pub job_id: Seq<char>,
}

/// The fleet manager's answer to an update request.
#[derive(Debug, PartialEq, Eq)]
pub struct UpdateResponse {
    pub status: i32,
    pub job_id: String,
    pub total_nodes: i32,
    pub message: String,
    pub node_jobs: Vec<NodeJobInfo>,
}

pub struct UpdateResponseView {
    pub status: i32,
    pub job_id: Seq<char>,
    pub total_nodes: i32,
    pub message: Seq<char>,
    pub node_jobs: Seq<NodeJobInfoView>,
}

/// What became of the update of one kind of device.
#[derive(Debug, PartialEq, Eq)]
pub struct DeviceUpdateResult {
    pub device_id: String,
    pub device_type: String,
    pub success: bool,
    pub message: String,
    pub job_id: String,
    pub node_jobs: Vec<NodeJobInfo>,
}

pub struct DeviceUpdateResultView {
    pub device_id: Seq<char>,
    pub device_type: Seq<char>,
    pub success: bool,
    pub message: Seq<char>,
    pub job_id: Seq<char>,
    pub node_jobs: Seq<NodeJobInfoView>,
}

/// What an apply reports: one result for each kind of device that the rack
/// holds, and how many of them succeeded and failed.
#[derive(Debug, PartialEq, Eq)]
pub struct ApplyResponse {
    pub total_updates: i32,
    pub successful_updates: i32,
    pub failed_updates: i32,
    pub device_results: Vec<DeviceUpdateResult>,
}

pub struct ApplyResponseView {
    pub total_updates: i32,
    pub successful_updates: i32,
    pub failed_updates: i32,
    pub device_results: Seq<DeviceUpdateResultView>,
}

impl View for FirmwareTarget {
    type V = FirmwareTargetView;

    open spec fn view(&self) -> FirmwareTargetView {
        FirmwareTargetView { target: self.target@, filename: self.filename@ }
    }
}

impl DeepView for FirmwareTarget {
    type V = FirmwareTargetView;

    open spec fn deep_view(&self) -> FirmwareTargetView {
        self@
    }
}

impl View for UpdateRequest {
    type V = UpdateRequestView;

    open spec fn view(&self) -> UpdateRequestView {
        UpdateRequestView {
            node_type: self.node_type,
            rack_id: self.rack_id@,
            firmware_targets: self.firmware_targets.deep_view(),
            activate: self.activate,
        }
    }
}

impl DeepView for UpdateRequest {
    type V = UpdateRequestView;

    open spec fn deep_view(&self) -> UpdateRequestView {
        self@
    }
}

impl View for NodeJobInfo {
    type V = NodeJobInfoView;

    open spec fn view(&self) -> NodeJobInfoView {
        NodeJobInfoView { node_id: self.node_id@, job_id: self.job_id@ }
    }
}

impl DeepView for NodeJobInfo {
    type V = NodeJobInfoView;

    open spec fn deep_view(&self) -> NodeJobInfoView {
        self@
    }
}

impl View for UpdateResponse {
    type V = UpdateResponseView;

    open spec fn view(&self) -> UpdateResponseView {
        UpdateResponseView {
            status: self.status,
            job_id: self.job_id@,
            total_nodes: self.total_nodes,
            message: self.message@,
            node_jobs: self.node_jobs.deep_view(),
        }
    }
}

impl View for DeviceUpdateResult {
    type V = DeviceUpdateResultView;

    open spec fn view(&self) -> DeviceUpdateResultView {
        DeviceUpdateResultView {
            device_id: self.device_id@,
            device_type: self.device_type@,
            success: self.success,
            message: self.message@,
            job_id: self.job_id@,
            node_jobs: self.node_jobs.deep_view(),
        }
    }
}

impl DeepView for DeviceUpdateResult {
    type V = DeviceUpdateResultView;

    open spec fn deep_view(&self) -> DeviceUpdateResultView {
        self@
    }
}

impl View for ApplyResponse {
    type V = ApplyResponseView;

    open spec fn view(&self) -> ApplyResponseView {
        ApplyResponseView {
            total_updates: self.total_updates,
            successful_updates: self.successful_updates,
            failed_updates: self.failed_updates,
            device_results: self.device_results.deep_view(),
        }
    }
}

impl Clone for FirmwareTarget {
    fn clone(&self) -> (r: Self)
        ensures
            r@ == self@,
    {
        FirmwareTarget { target: self.target.clone(), filename: self.filename.clone() }
    }
}

impl Clone for NodeJobInfo {
    fn clone(&self) -> (r: Self)
        ensures
            r@ == self@,
    {
        NodeJobInfo { node_id: self.node_id.clone(), job_id: self.job_id.clone() }
    }
}

impl Clone for UpdateRequest {
    fn clone(&self) -> (r: Self)
        ensures
            r@ == self@,
    {
        let n: usize = self.firmware_targets.len();
        let mut targets: Vec<FirmwareTarget> = Vec::new();
        let mut i: usize = 0;
        while i < n
            invariant
                n == self.firmware_targets@.len(),
                i <= n,
                targets@.len() == i,
                forall|j: int| 0 <= j < i ==> targets@[j]@ == self.firmware_targets@[j]@,
            decreases n - i,
        {
            targets.push(self.firmware_targets[i].clone());
            i = i + 1;
        }
        proof {
            assert(targets.deep_view() =~= self.firmware_targets.deep_view());
        }
        UpdateRequest {
            node_type: self.node_type,
            rack_id: self.rack_id.clone(),
            firmware_targets: targets,
            activate: self.activate,
        }
    }
}

/// A copy of a list of node jobs.
pub fn clone_node_jobs(jobs: &Vec<NodeJobInfo>) -> (r: Vec<NodeJobInfo>)
    ensures
        r.deep_view() == jobs.deep_view(),
{
    let n: usize = jobs.len();
    let mut out: Vec<NodeJobInfo> = Vec::new();
    let mut i: usize = 0;
    while i < n
        invariant
            n == jobs@.len(),
            i <= n,
            out@.len() == i,
            forall|j: int| 0 <= j < i ==> out@[j]@ == jobs@[j]@,
        decreases n - i,
    {
        out.push(jobs[i].clone());
        i = i + 1;
    }
    proof {
        assert(out.deep_view() =~= jobs.deep_view());
    }
    out
}

impl Clone for DeviceUpdateResult {
    fn clone(&self) -> (r: Self)
        ensures
            r@ == self@,
    {
        DeviceUpdateResult {
            device_id: self.device_id.clone(),
            device_type: self.device_type.clone(),
            success: self.success,
            message: self.message.clone(),
            job_id: self.job_id.clone(),
            node_jobs: clone_node_jobs(&self.node_jobs),
        }
    }
}

/// The key under which the firmware of a kind of node is filed.
pub open spec fn lookup_key_of(node_type: NodeType) -> Seq<char> {
    match node_type {
        NodeType::Compute => "Compute Node"@,
        NodeType::PowerShelf => "Power Shelf"@,
        NodeType::Switch => "Switch Tray"@,
    }
}

/// The name by which a kind of node is reported.
pub open spec fn display_name_of(node_type: NodeType) -> Seq<char> {
    match node_type {
        NodeType::Compute => "Compute Node"@,
        NodeType::PowerShelf => "Power Shelf"@,
        NodeType::Switch => "Switch"@,
    }
}

/// Whether the nodes of a kind activate the firmware after flashing: only
/// compute nodes do; the others take it up when their power is cycled.
pub open spec fn activates(node_type: NodeType) -> bool {
    node_type == NodeType::Compute
}

/// Whether the rack holds a device of the kind.
pub open spec fn is_present(rack: RackInventory, node_type: NodeType) -> bool {
    match node_type {
        NodeType::Compute => rack.compute_trays > 0,
        NodeType::PowerShelf => rack.power_shelves > 0,
        NodeType::Switch => rack.switches > 0,
    }
}

/// Whether the rack holds any device at all.
pub open spec fn has_devices(rack: RackInventory) -> bool {
    rack.compute_trays > 0 || rack.power_shelves > 0 || rack.switches > 0
}

/// What the check of the firmware configuration says. `available` is
/// whether the configuration is marked as available, or nothing where there
/// is no configuration of the identifier: the configuration must exist and be
/// available.
pub open spec fn configuration_check(available: Option<bool>) -> Result<(), ApplyError> {
    match available {
        None => Err(ApplyError::NotFound),
        Some(false) => Err(ApplyError::NotAvailable),
        Some(true) => Ok(()),
    }
}

/// What the checks before dispatch say: the configuration must exist and be
/// available, and the rack must hold a device.
pub open spec fn preconditions(available: Option<bool>, rack: RackInventory) -> Result<
    (),
    ApplyError,
> {
    match configuration_check(available) {
        Err(e) => Err(e),
        Ok(_) => if !has_devices(rack) {
            Err(ApplyError::EmptyRack)
        } else {
            Ok(())
        },
    }
}

/// The files to flash for the items of a bucket: each with its path in the
/// cache of the firmware configuration, in the order of the items.
pub open spec fn targets_of(firmware_id: Seq<char>, items: Seq<RuleView>) -> Seq<
    FirmwareTargetView,
> {
    Seq::new(
        items.len(),
        |i: int|
            FirmwareTargetView {
                target: items[i].2,
                filename: cache_path(firmware_id, items[i].1),
            },
    )
}

/// The items to flash for a kind of node: what the table holds for it and the
/// build channel, in flashing order. Without a table there are none.
pub open spec fn items_to_flash(
    table: Option<TableView>,
    node_type: NodeType,
    variant: Seq<char>,
) -> Seq<RuleView> {
    match table {
        Some(t) => flash_sorted(
            components_for_device(t, lookup_key_of(node_type), variant),
            flash_order(lookup_key_of(node_type)),
        ),
        None => Seq::empty(),
    }
}

/// A result that reports a failure without a job.
pub open spec fn failure_result(
    rack_id: Seq<char>,
    node_type: NodeType,
    message: Seq<char>,
) -> DeviceUpdateResultView {
    DeviceUpdateResultView {
        device_id: rack_id,
        device_type: display_name_of(node_type),
        success: false,
        message,
        job_id: Seq::empty(),
        node_jobs: Seq::empty(),
    }
}

/// What is decided for one kind of node before anything is sent.
pub enum BucketPlanView {
    /// The rack holds no device of the kind: nothing is done or reported.
    Skip,
    /// Nothing can be sent; this is reported.
    Fail(DeviceUpdateResultView),
    /// This request is sent.
    Dispatch(UpdateRequestView),
}

/// What is decided for one kind of node before anything is sent.
#[derive(Debug, PartialEq, Eq)]
pub enum BucketPlan {
    /// The rack holds no device of the kind: nothing is done or reported.
    Skip,
    /// Nothing can be sent; this is reported.
    Fail(DeviceUpdateResult),
    /// This request is sent.
    Dispatch(UpdateRequest),
}

impl View for BucketPlan {
    type V = BucketPlanView;

    open spec fn view(&self) -> BucketPlanView {
        match self {
            BucketPlan::Skip => BucketPlanView::Skip,
            BucketPlan::Fail(r) => BucketPlanView::Fail(r@),
            BucketPlan::Dispatch(r) => BucketPlanView::Dispatch(r@),
        }
    }
}

impl DeepView for BucketPlan {
    type V = BucketPlanView;

    open spec fn deep_view(&self) -> BucketPlanView {
        self@
    }
}

/// The plan for one kind of node. A kind that the rack does not hold is
/// skipped. A kind without firmware of the build channel fails, and so does
/// any kind while no fleet manager is configured; neither sends anything.
/// Else one request goes out for all nodes of the kind, with the files in
/// flashing order.
pub open spec fn bucket_plan(
    table: Option<TableView>,
    rack: RackInventory,
    rack_id: Seq<char>,
    firmware_id: Seq<char>,
    variant: Seq<char>,
    client_configured: bool,
    node_type: NodeType,
) -> BucketPlanView {
    let items = items_to_flash(table, node_type, variant);
    if !is_present(rack, node_type) {
        BucketPlanView::Skip
    } else if items.len() == 0 {
        BucketPlanView::Fail(
            failure_result(
                rack_id,
                node_type,
                "No matching firmware found in config for "@ + display_name_of(node_type),
            ),
        )
    } else if !client_configured {
        BucketPlanView::Fail(failure_result(rack_id, node_type, "RMS client not configured"@))
    } else {
        BucketPlanView::Dispatch(
            UpdateRequestView {
                node_type,
                rack_id,
                firmware_targets: targets_of(firmware_id, items),
                activate: activates(node_type),
            },
        )
    }
}

/// What the fleet manager made of a request: its answer, or the text of the
/// error with which the call failed.
pub enum CallOutcome {
    Answered(UpdateResponse),
    Failed(String),
}

pub enum CallOutcomeView {
    Answered(UpdateResponseView),
    Failed(Seq<char>),
}

impl View for CallOutcome {
    type V = CallOutcomeView;

    open spec fn view(&self) -> CallOutcomeView {
        match self {
            CallOutcome::Answered(r) => CallOutcomeView::Answered(r@),
            CallOutcome::Failed(e) => CallOutcomeView::Failed(e@),
        }
    }
}

/// The result reported for a kind of node after its request was made. An
/// answer succeeds exactly when its status is `success_status`, and hands on
/// its job and its nodes' jobs; a failed call is a failure without a job.
pub open spec fn result_of_call(
    rack_id: Seq<char>,
    node_type: NodeType,
    success_status: i32,
    outcome: CallOutcomeView,
) -> DeviceUpdateResultView {
    match outcome {
        CallOutcomeView::Answered(response) => DeviceUpdateResultView {
            device_id: rack_id,
            device_type: display_name_of(node_type),
            success: response.status == success_status,
            message: "Async firmware update initiated for "@ + decimal(response.total_nodes as int)
                + " nodes: "@ + response.message,
            job_id: response.job_id,
            node_jobs: response.node_jobs,
        },
        CallOutcomeView::Failed(error) => failure_result(
            rack_id,
            node_type,
            "RMS API Error: "@ + error,
        ),
    }
}

/// The key under which the firmware of a kind of node is filed.
pub fn lookup_key(node_type: NodeType) -> (r: &'static str)
    ensures
        r@ == lookup_key_of(node_type),
{
    match node_type {
        NodeType::Compute => "Compute Node",
        NodeType::PowerShelf => "Power Shelf",
        NodeType::Switch => "Switch Tray",
    }
}

/// The name by which a kind of node is reported.
pub fn display_name(node_type: NodeType) -> (r: &'static str)
    ensures
        r@ == display_name_of(node_type),
{
    match node_type {
        NodeType::Compute => "Compute Node",
        NodeType::PowerShelf => "Power Shelf",
        NodeType::Switch => "Switch",
    }
}

/// Checks that the firmware configuration exists and is available. This is
/// the first of the checks before dispatch, and is made before the rack is
/// looked at.
pub fn check_available(available: Option<bool>) -> (r: Result<(), ApplyError>)
    ensures
        r == configuration_check(available),
{
    match available {
        None => Err(ApplyError::NotFound),
        Some(false) => Err(ApplyError::NotAvailable),
        Some(true) => Ok(()),
    }
}

/// Checks what must hold before anything is dispatched.
pub fn check_preconditions(available: Option<bool>, rack: &RackInventory) -> (r: Result<
    (),
    ApplyError,
>)
    ensures
        r == preconditions(available, *rack),
{
    match check_available(available) {
        Err(e) => Err(e),
        Ok(_) => {
            if rack.compute_trays == 0 && rack.power_shelves == 0 && rack.switches == 0 {
                Err(ApplyError::EmptyRack)
            } else {
                Ok(())
            }
        },
    }
}

/// The text of an error, for the firmware configuration and the rack that
/// the apply was asked for.
pub fn apply_error_message(error: ApplyError, firmware_id: &str, rack_id: &str) -> (r: String)
    ensures
        r@ == match error {
            ApplyError::NotFound => "Firmware configuration '"@ + firmware_id@ + "' not found"@,
            ApplyError::NotAvailable => "Firmware configuration '"@ + firmware_id@
                + "' is not marked as available"@,
            ApplyError::EmptyRack => "Rack '"@ + rack_id@ + "' contains no devices"@,
        },
{
    match error {
        ApplyError::NotFound => {
            let head = concat("Firmware configuration '", firmware_id);
            concat(head.as_str(), "' not found")
        },
        ApplyError::NotAvailable => {
            let head = concat("Firmware configuration '", firmware_id);
            concat(head.as_str(), "' is not marked as available")
        },
        ApplyError::EmptyRack => {
            let head = concat("Rack '", rack_id);
            concat(head.as_str(), "' contains no devices")
        },
    }
}

fn make_failure(rack_id: &str, node_type: NodeType, message: String) -> (r: DeviceUpdateResult)
    ensures
        r@ == failure_result(rack_id@, node_type, message@),
{
    let node_jobs: Vec<NodeJobInfo> = Vec::new();
    proof {
        assert(node_jobs.deep_view() =~= Seq::empty());
    }
    DeviceUpdateResult {
        device_id: rack_id.to_owned(),
        device_type: display_name(node_type).to_owned(),
        success: false,
        message,
        job_id: String::new(),
        node_jobs,
    }
}

/// The plan for one kind of node.
pub fn plan_bucket(
    table: Option<&FirmwareLookupTable>,
    rack: &RackInventory,
    rack_id: &str,
    firmware_id: &str,
    firmware_type: &str,
    client_configured: bool,
    node_type: NodeType,
) -> (r: BucketPlan)
    ensures
        r@ == bucket_plan(
            table.deep_view(),
            *rack,
            rack_id@,
            firmware_id@,
            firmware_type@,
            client_configured,
            node_type,
        ),
{
    let present = match node_type {
        NodeType::Compute => rack.compute_trays > 0,
        NodeType::PowerShelf => rack.power_shelves > 0,
        NodeType::Switch => rack.switches > 0,
    };
    if !present {
        return BucketPlan::Skip;
    }
    let key = lookup_key(node_type);
    let items: Vec<FlashItem> = match table {
        Some(t) => {
            let found = find_firmware_components_for_device(t, key, firmware_type);
            let order = get_firmware_flash_order(key);
            sort_for_flash(&found, &order)
        },
        None => {
            let none: Vec<FlashItem> = Vec::new();
            proof {
                assert(none.deep_view() =~= Seq::empty());
            }
            none
        },
    };
    let n: usize = items.len();
    if n == 0 {
        let message = concat("No matching firmware found in config for ", display_name(node_type));
        return BucketPlan::Fail(make_failure(rack_id, node_type, message));
    }
    if !client_configured {
        return BucketPlan::Fail(
            make_failure(rack_id, node_type, "RMS client not configured".to_owned()),
        );
    }
    let mut targets: Vec<FirmwareTarget> = Vec::new();
    let mut i: usize = 0;
    while i < n
        invariant
            n == items@.len(),
            i <= n,
            targets@.len() == i,
            forall|j: int|
                0 <= j < i ==> targets@[j]@ == (FirmwareTargetView {
                    target: items.deep_view()[j].2,
                    filename: cache_path(firmware_id@, items.deep_view()[j].1),
                }),
        decreases n - i,
    {
        let item = &items[i];
        proof {
            assert(items.deep_view()[i as int] == (item.0@, item.1@, item.2@));
        }
        targets.push(
            FirmwareTarget {
                target: item.2.clone(),
                filename: firmware_cache_path(firmware_id, item.1.as_str()),
            },
        );
        i = i + 1;
    }
    proof {
        assert(targets.deep_view() =~= targets_of(firmware_id@, items.deep_view()));
    }
    BucketPlan::Dispatch(
        UpdateRequest {
            node_type,
            rack_id: rack_id.to_owned(),
            firmware_targets: targets,
            activate: match node_type {
                NodeType::Compute => true,
                _ => false,
            },
        },
    )
}

/// The result reported for a kind of node after its request was made.
pub fn interpret_call(
    rack_id: &str,
    node_type: NodeType,
    success_status: i32,
    outcome: CallOutcome,
) -> (r: DeviceUpdateResult)
    ensures
        r@ == result_of_call(rack_id@, node_type, success_status, outcome@),
{
    match outcome {
        CallOutcome::Answered(response) => {
            let count = signed_decimal_text(response.total_nodes as i64);
            let a = concat("Async firmware update initiated for ", count.as_str());
            let b = concat(a.as_str(), " nodes: ");
            let message = concat(b.as_str(), response.message.as_str());
            DeviceUpdateResult {
                device_id: rack_id.to_owned(),
                device_type: display_name(node_type).to_owned(),
                success: response.status == success_status,
                message,
                job_id: response.job_id,
                node_jobs: response.node_jobs,
            }
        },
        CallOutcome::Failed(error) => {
            let message = concat("RMS API Error: ", error.as_str());
            make_failure(rack_id, node_type, message)
        },
    }
}

/// The state of one apply, as a mathematical value.
pub struct ApplyRunView {
    pub rack_id: Seq<char>,
    pub success_status: i32,
    /// The plans for compute nodes, power shelves and switches, in this order.
    pub plans: Seq<BucketPlanView>,
    /// The number of plans that are settled.
    pub position: int,
    /// Whether the request of the plan at `position` is out.
    pub awaiting: bool,
    pub results: Seq<DeviceUpdateResultView>,
    pub successful: int,
    pub failed: int,
}

/// What is reported to an apply.
pub enum ApplyEvent {
    /// Nothing happened yet: the apply is asked for its next action.
    Proceed,
    /// The request that was sent came to this end.
    Called(CallOutcome),
}

pub enum ApplyEventView {
    Proceed,
    Called(CallOutcomeView),
}

impl View for ApplyEvent {
    type V = ApplyEventView;

    open spec fn view(&self) -> ApplyEventView {
        match self {
            ApplyEvent::Proceed => ApplyEventView::Proceed,
            ApplyEvent::Called(o) => ApplyEventView::Called(o@),
        }
    }
}

/// What an apply does next.
#[derive(Debug, PartialEq, Eq)]
pub enum ApplyAction {
    /// Send this request to the fleet manager and report how the call ended.
    Send(UpdateRequest),
    /// Send nothing: the end of the request that is out was not reported yet.
    Wait,
    /// Stop, and return this.
    Finished(ApplyResponse),
}

pub enum ApplyActionView {
    Send(UpdateRequestView),
    Wait,
    Finished(ApplyResponseView),
}

impl View for ApplyAction {
    type V = ApplyActionView;

    open spec fn view(&self) -> ApplyActionView {
        match self {
            ApplyAction::Send(r) => ApplyActionView::Send(r@),
            ApplyAction::Wait => ApplyActionView::Wait,
            ApplyAction::Finished(r) => ApplyActionView::Finished(r@),
        }
    }
}

/// The kinds of node in the order in which they are updated.
pub open spec fn node_type_order() -> Seq<NodeType> {
    seq![NodeType::Compute, NodeType::PowerShelf, NodeType::Switch]
}

/// Whether a state can occur: it has a plan for each kind of node, each
/// result it holds stands for one settled plan and is counted once, and a
/// request is out only for a plan that sends one.
pub open spec fn run_wf(s: ApplyRunView) -> bool {
    &&& s.plans.len() == 3
    &&& 0 <= s.position <= 3
    &&& s.awaiting ==> s.position < 3 && s.plans[s.position] is Dispatch
    &&& 0 <= s.successful
    &&& 0 <= s.failed
    &&& s.successful + s.failed == s.results.len()
    &&& s.results.len() <= s.position
}

/// The state in which an apply starts.
pub open spec fn initial_run(
    table: Option<TableView>,
    rack: RackInventory,
    rack_id: Seq<char>,
    firmware_id: Seq<char>,
    variant: Seq<char>,
    client_configured: bool,
    success_status: i32,
) -> ApplyRunView {
    ApplyRunView {
        rack_id,
        success_status,
        plans: Seq::new(
            3,
            |i: int|
                bucket_plan(
                    table,
                    rack,
                    rack_id,
                    firmware_id,
                    variant,
                    client_configured,
                    node_type_order()[i],
                ),
        ),
        position: 0,
        awaiting: false,
        results: Seq::empty(),
        successful: 0,
        failed: 0,
    }
}

/// What a state reports when it is over.
pub open spec fn response_of(s: ApplyRunView) -> ApplyResponseView {
    ApplyResponseView {
        total_updates: s.results.len() as i32,
        successful_updates: s.successful as i32,
        failed_updates: s.failed as i32,
        device_results: s.results,
    }
}

/// `s` with the plan at its position settled by `result`.
pub open spec fn with_result(s: ApplyRunView, result: DeviceUpdateResultView) -> ApplyRunView {
    ApplyRunView {
        position: s.position + 1,
        awaiting: false,
        results: s.results.push(result),
        successful: if result.success {
            s.successful + 1
        } else {
            s.successful
        },
        failed: if result.success {
            s.failed
        } else {
            s.failed + 1
        },
        ..s
    }
}

/// Settles plans from the position of `s` on, in order, up to the first that
/// sends a request: that request is the action, and the state then waits for
/// its end. A skipped plan leaves no trace; a failed plan leaves its result.
/// Where no plan is left the apply is over.
pub open spec fn settle(s: ApplyRunView) -> (ApplyRunView, ApplyActionView)
    decreases s.plans.len() - s.position,
{
    if s.position < 0 || s.position >= s.plans.len() {
        (s, ApplyActionView::Finished(response_of(s)))
    } else {
        match s.plans[s.position] {
            BucketPlanView::Skip => settle(ApplyRunView { position: s.position + 1, ..s }),
            BucketPlanView::Fail(result) => settle(with_result(s, result)),
            BucketPlanView::Dispatch(request) => (
                ApplyRunView { awaiting: true, ..s },
                ApplyActionView::Send(request),
            ),
        }
    }
}

/// The state and the action that follow `event` in `s`.
///
/// While a request is out, nothing new is sent: the apply waits until the
/// end of the call is reported, files the result, and goes on with the next
/// kind of node. While none is out, it settles the plans that are left, in
/// order; an end of a call that nobody waits for is dropped.
pub open spec fn run_next(s: ApplyRunView, event: ApplyEventView) -> (ApplyRunView, ApplyActionView) {
    if s.awaiting && 0 <= s.position < s.plans.len() && s.plans[s.position] is Dispatch {
        match event {
            ApplyEventView::Proceed => (s, ApplyActionView::Wait),
            ApplyEventView::Called(outcome) => settle(
                with_result(
                    s,
                    result_of_call(
                        s.rack_id,
                        s.plans[s.position]->Dispatch_0.node_type,
                        s.success_status,
                        outcome,
                    ),
                ),
            ),
        }
    } else {
        settle(ApplyRunView { awaiting: false, ..s })
    }
}

/// One apply in progress.
#[derive(Debug)]
pub struct ApplyRun {
    rack_id: String,
    success_status: i32,
    plans: Vec<BucketPlan>,
    position: usize,
    awaiting: bool,
    results: Vec<DeviceUpdateResult>,
    successful: i32,
    failed: i32,
}

impl View for ApplyRun {
    type V = ApplyRunView;

    closed spec fn view(&self) -> ApplyRunView {
        ApplyRunView {
            rack_id: self.rack_id@,
            success_status: self.success_status,
            plans: self.plans.deep_view(),
            position: self.position as int,
            awaiting: self.awaiting,
            results: self.results.deep_view(),
            successful: self.successful as int,
            failed: self.failed as int,
        }
    }
}

/// A copy of a list of results.
fn clone_results(results: &Vec<DeviceUpdateResult>) -> (r: Vec<DeviceUpdateResult>)
    ensures
        r.deep_view() == results.deep_view(),
{
    let n: usize = results.len();
    let mut out: Vec<DeviceUpdateResult> = Vec::new();
    let mut i: usize = 0;
    while i < n
        invariant
            n == results@.len(),
            i <= n,
            out@.len() == i,
            forall|j: int| 0 <= j < i ==> out@[j]@ == results@[j]@,
        decreases n - i,
    {
        out.push(results[i].clone());
        i = i + 1;
    }
    proof {
        assert(out.deep_view() =~= results.deep_view());
    }
    out
}

impl ApplyRun {
    #[verifier::type_invariant]
    spec fn well_formed(&self) -> bool {
        run_wf(self@)
    }

    /// Starts an apply: checks what must hold before anything is dispatched
    /// and plans each kind of node. Where a check fails there is no apply,
    /// and so no request.
    pub fn start(
        available: Option<bool>,
        table: Option<&FirmwareLookupTable>,
        rack: &RackInventory,
        rack_id: &str,
        firmware_id: &str,
        firmware_type: &str,
        client_configured: bool,
        success_status: i32,
    ) -> (r: Result<ApplyRun, ApplyError>)
        ensures
            match r {
                Ok(run) => preconditions(available, *rack) is Ok && run@ == initial_run(
                    table.deep_view(),
                    *rack,
                    rack_id@,
                    firmware_id@,
                    firmware_type@,
                    client_configured,
                    success_status,
                ) && run_wf(run@),
                Err(e) => preconditions(available, *rack) == Err::<(), ApplyError>(e),
            },
    {
        match check_preconditions(available, rack) {
            Err(e) => {
                return Err(e);
            },
            Ok(_) => {},
        }
        let mut plans: Vec<BucketPlan> = Vec::new();
        plans.push(
            plan_bucket(
                table,
                rack,
                rack_id,
                firmware_id,
                firmware_type,
                client_configured,
                NodeType::Compute,
            ),
        );
        plans.push(
            plan_bucket(
                table,
                rack,
                rack_id,
                firmware_id,
                firmware_type,
                client_configured,
                NodeType::PowerShelf,
            ),
        );
        plans.push(
            plan_bucket(
                table,
                rack,
                rack_id,
                firmware_id,
                firmware_type,
                client_configured,
                NodeType::Switch,
            ),
        );
        let results: Vec<DeviceUpdateResult> = Vec::new();
        proof {
            assert(results.deep_view() =~= Seq::empty());
            let want = initial_run(
                table.deep_view(),
                *rack,
                rack_id@,
                firmware_id@,
                firmware_type@,
                client_configured,
                success_status,
            );
            assert(plans.deep_view() =~= want.plans);
        }
        Ok(
            ApplyRun {
                rack_id: rack_id.to_owned(),
                success_status,
                plans,
                position: 0,
                awaiting: false,
                results,
                successful: 0,
                failed: 0,
            },
        )
    }

    /// Whether the end of a request is awaited.
    pub fn is_awaiting(&self) -> (r: bool)
        ensures
            r == self@.awaiting,
            run_wf(self@),
    {
        proof {
            use_type_invariant(self);
        }
        self.awaiting
    }

    /// Takes the apply one step on: the state and the action that follow
    /// `event`.
    pub fn step(self, event: ApplyEvent) -> (r: (ApplyRun, ApplyAction))
        ensures
            (r.0@, r.1@) == run_next(self@, event@),
            run_wf(self@),
            run_wf(r.0@),
    {
        proof {
            use_type_invariant(&self);
        }
        let ghost before = self@;
        let ghost ev = event@;
        let ApplyRun {
            rack_id,
            success_status,
            plans,
            position,
            awaiting,
            results,
            successful,
            failed,
        } = self;
        let mut position = position;
        let mut results = results;
        let mut successful = successful;
        let mut failed = failed;
        if awaiting {
            match event {
                ApplyEvent::Proceed => {
                    let run = ApplyRun {
                        rack_id,
                        success_status,
                        plans,
                        position,
                        awaiting,
                        results,
                        successful,
                        failed,
                    };
                    return (run, ApplyAction::Wait);
                },
                ApplyEvent::Called(outcome) => {
                    let node_type = match &plans[position] {
                        BucketPlan::Dispatch(request) => request.node_type,
                        _ => NodeType::Compute,
                    };
                    let result = interpret_call(
                        rack_id.as_str(),
                        node_type,
                        success_status,
                        outcome,
                    );
                    if result.success {
                        successful = successful + 1;
                    } else {
                        failed = failed + 1;
                    }
                    let ghost prev = results.deep_view();
                    let ghost added = result@;
                    results.push(result);
                    position = position + 1;
                    proof {
                        assert(results.deep_view() =~= prev.push(added));
                    }
                },
            }
        }
        let ghost from = ApplyRunView {
            rack_id: rack_id@,
            success_status,
            plans: plans.deep_view(),
            position: position as int,
            awaiting: false,
            results: results.deep_view(),
            successful: successful as int,
            failed: failed as int,
        };
        proof {
            assert(run_next(before, ev) == settle(from));
        }
        while position < 3
            invariant
                before == self@,
                ev == event@,
                run_wf(before),
                run_next(before, ev) == settle(from),
                plans.deep_view() == from.plans,
                rack_id@ == from.rack_id,
                success_status == from.success_status,
                run_wf(from),
                !from.awaiting,
                run_wf(
                    ApplyRunView {
                        position: position as int,
                        results: results.deep_view(),
                        successful: successful as int,
                        failed: failed as int,
                        ..from
                    },
                ),
                settle(from) == settle(
                    ApplyRunView {
                        position: position as int,
                        results: results.deep_view(),
                        successful: successful as int,
                        failed: failed as int,
                        ..from
                    },
                ),
            decreases 3 - position,
        {
            let ghost here = ApplyRunView {
                position: position as int,
                results: results.deep_view(),
                successful: successful as int,
                failed: failed as int,
                ..from
            };
            proof {
                assert(plans.deep_view()[position as int] == plans@[position as int]@);
            }
            match &plans[position] {
                BucketPlan::Skip => {
                    position = position + 1;
                },
                BucketPlan::Fail(result) => {
                    let ghost prev = results.deep_view();
                    let copy = result.clone();
                    proof {
                        assert(!copy.success ==> with_result(here, copy@).failed == failed + 1);
                    }
                    if copy.success {
                        successful = successful + 1;
                    } else {
                        failed = failed + 1;
                    }
                    results.push(copy);
                    position = position + 1;
                    proof {
                        assert(results.deep_view() =~= prev.push(result@));
                    }
                },
                BucketPlan::Dispatch(request) => {
                    let action = ApplyAction::Send(request.clone());
                    let run = ApplyRun {
                        rack_id,
                        success_status,
                        plans,
                        position,
                        awaiting: true,
                        results,
                        successful,
                        failed,
                    };
                    return (run, action);
                },
            }
        }
        let response = ApplyResponse {
            total_updates: results.len() as i32,
            successful_updates: successful,
            failed_updates: failed,
            device_results: clone_results(&results),
        };
        let run = ApplyRun {
            rack_id,
            success_status,
            plans,
            position,
            awaiting: false,
            results,
            successful,
            failed,
        };
        (run, ApplyAction::Finished(response))
    }
}

/// The requests of the plans from position `from` on, in order.
pub open spec fn dispatches_from(plans: Seq<BucketPlanView>, from: int) -> Seq<UpdateRequestView>
    decreases plans.len() - from,
{
    if from < 0 || from >= plans.len() {
        Seq::empty()
    } else {
        match plans[from] {
            BucketPlanView::Dispatch(request) => seq![request] + dispatches_from(plans, from + 1),
            _ => dispatches_from(plans, from + 1),
        }
    }
}

/// The requests that a state has still to send.
pub open spec fn pending_requests(s: ApplyRunView) -> Seq<UpdateRequestView> {
    dispatches_from(
        s.plans,
        if s.awaiting {
            s.position + 1
        } else {
            s.position
        },
    )
}

/// The requests that an apply in state `s` sends as `events` are reported.
pub open spec fn run_sends(s: ApplyRunView, events: Seq<ApplyEventView>) -> Seq<UpdateRequestView>
    decreases events.len(),
{
    if events.len() == 0 {
        Seq::empty()
    } else {
        let step = run_next(s, events[0]);
        let sent = match step.1 {
            ApplyActionView::Send(request) => seq![request],
            _ => Seq::empty(),
        };
        sent + run_sends(step.0, events.drop_first())
    }
}

proof fn lemma_settle(s: ApplyRunView)
    requires
        run_wf(s),
        !s.awaiting,
    ensures
        run_wf(settle(s).0),
        match settle(s).1 {
            ApplyActionView::Send(request) => pending_requests(s) == seq![request]
                + pending_requests(settle(s).0),
            ApplyActionView::Wait => false,
            ApplyActionView::Finished(response) => pending_requests(s).len() == 0
                && pending_requests(settle(s).0).len() == 0 && response == response_of(
                settle(s).0,
            ),
        },
    decreases s.plans.len() - s.position,
{
    if s.position < s.plans.len() {
        match s.plans[s.position] {
            BucketPlanView::Skip => {
                lemma_settle(ApplyRunView { position: s.position + 1, ..s });
            },
            BucketPlanView::Fail(result) => {
                lemma_settle(with_result(s, result));
            },
            BucketPlanView::Dispatch(request) => {},
        }
    }
}

proof fn lemma_run_next(s: ApplyRunView, event: ApplyEventView)
    requires
        run_wf(s),
    ensures
        run_wf(run_next(s, event).0),
        match run_next(s, event).1 {
            ApplyActionView::Send(request) => pending_requests(s) == seq![request]
                + pending_requests(run_next(s, event).0),
            _ => pending_requests(s) == pending_requests(run_next(s, event).0),
        },
{
    if s.awaiting {
        match event {
            ApplyEventView::Proceed => {},
            ApplyEventView::Called(outcome) => {
                let result = result_of_call(
                    s.rack_id,
                    s.plans[s.position]->Dispatch_0.node_type,
                    s.success_status,
                    outcome,
                );
                lemma_settle(with_result(s, result));
            },
        }
    } else {
        assert((ApplyRunView { awaiting: false, ..s }) == s);
        lemma_settle(s);
    }
}

/// Every state that an apply reaches can occur: whatever is reported, the
/// counts stay those of the results, and a request is out only for a plan
/// that sends one.
pub proof fn lemma_run_stays_well_formed(s: ApplyRunView, event: ApplyEventView)
    requires
        run_wf(s),
    ensures
        run_wf(run_next(s, event).0),
{
    lemma_run_next(s, event);
}

/// Whatever is reported to an apply, and in whatever order, the requests it
/// sends are the first of those that its plans hold, in the plans' order:
/// compute nodes before power shelves before switches, none twice and none
/// that no plan holds.
pub proof fn lemma_requests_follow_plans(s: ApplyRunView, events: Seq<ApplyEventView>)
    requires
        run_wf(s),
    ensures
        run_sends(s, events).is_prefix_of(pending_requests(s)),
        run_sends(s, events).len() <= 3,
    decreases events.len(),
{
    lemma_dispatches_bounded(
        s.plans,
        if s.awaiting {
            s.position + 1
        } else {
            s.position
        },
    );
    if events.len() > 0 {
        let step = run_next(s, events[0]);
        lemma_run_next(s, events[0]);
        lemma_requests_follow_plans(step.0, events.drop_first());
        let later = run_sends(step.0, events.drop_first());
        let left = pending_requests(step.0);
        assert(later =~= left.subrange(0, later.len() as int));
        match step.1 {
            ApplyActionView::Send(request) => {
                let all = seq![request] + left;
                assert(seq![request] + later =~= all.subrange(0, later.len() as int + 1));
            },
            _ => {
                assert(Seq::<UpdateRequestView>::empty() + later =~= later);
            },
        }
    }
}

proof fn lemma_dispatches_bounded(plans: Seq<BucketPlanView>, from: int)
    requires
        0 <= from,
    ensures
        dispatches_from(plans, from).len() <= if from <= plans.len() {
            plans.len() - from
        } else {
            0
        },
    decreases plans.len() - from,
{
    if from < plans.len() {
        lemma_dispatches_bounded(plans, from + 1);
    }
}

/// What an apply reports when it is over counts every result once: the
/// total is the number of results, and each result is among the successes
/// or among the failures.
pub proof fn lemma_response_counts(s: ApplyRunView)
    requires
        run_wf(s),
    ensures
        response_of(s).total_updates == s.results.len(),
        response_of(s).successful_updates + response_of(s).failed_updates == response_of(
            s,
        ).total_updates,
        0 <= response_of(s).total_updates <= 3,
{
}

/// A plan that sends a request sends it for its own kind of node, with at
/// least one file, the files in flashing order, and asks for activation
/// exactly for compute nodes. A plan for a kind that the rack does not hold
/// sends and reports nothing.
pub proof fn lemma_bucket_plan(
    table: Option<TableView>,
    rack: RackInventory,
    rack_id: Seq<char>,
    firmware_id: Seq<char>,
    variant: Seq<char>,
    client_configured: bool,
    node_type: NodeType,
)
    ensures
        ({
            let plan = bucket_plan(
                table,
                rack,
                rack_id,
                firmware_id,
                variant,
                client_configured,
                node_type,
            );
            let items = items_to_flash(table, node_type, variant);
            &&& !is_present(rack, node_type) <==> plan is Skip
            &&& plan is Dispatch <==> is_present(rack, node_type) && items.len() > 0
                && client_configured
            &&& plan matches BucketPlanView::Dispatch(request) ==> request.node_type == node_type
                && request.activate == (node_type == NodeType::Compute)
                && request.firmware_targets.len() == items.len() && request.firmware_targets.len()
                > 0 && forall|i: int|
                0 <= i < items.len() ==> (#[trigger] request.firmware_targets[i]).target
                    == items[i].2
            &&& plan matches BucketPlanView::Fail(result) ==> !result.success
                && result.job_id.len() == 0 && result.node_jobs.len() == 0
        }),
{
}

/// A rack without devices fails the checks, whatever else holds; a
/// configuration that does not exist or is not available fails them for any
/// rack; and nothing else fails them.
pub proof fn lemma_preconditions(available: Option<bool>, rack: RackInventory)
    ensures
        !has_devices(rack) ==> preconditions(available, rack) is Err,
        available is None ==> preconditions(available, rack) == Err::<(), ApplyError>(
            ApplyError::NotFound,
        ),
        available == Some(false) ==> preconditions(available, rack) == Err::<(), ApplyError>(
            ApplyError::NotAvailable,
        ),
        preconditions(available, rack) is Ok <==> available == Some(true) && has_devices(rack),
{
}

} // verus!
