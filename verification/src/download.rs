//! The bookkeeping of the artifact download: which files a manifest asks for,
//! where each is cached, what one fetch does next after each thing that
//! happens to it, how the outcomes are counted, and when a firmware
//! configuration becomes available.

use crate::lookup::{build_firmware_lookup_table, lookup_table_of, FirmwareLookupTable, TableView};
use crate::manifest::{
    clone_text_option, FirmwareComponent, FirmwareComponentView, BoardSkuFirmwareView,
    ParsedFirmwareComponents, ParsedFirmwareComponentsView,
};
use crate::text::{concat, last_segment, last_segment_of};
use vstd::prelude::*;

verus! {

/// The seconds within which a connection must be made.
pub const CONNECT_TIMEOUT_SECS: u64 = 30;

/// The seconds within which one request must be over.
pub const TOTAL_TIMEOUT_SECS: u64 = 600;

/// One file to fetch: an address of a firmware component.
#[derive(Debug, PartialEq, Eq)]
pub struct DownloadTask {
    pub url: String,
    pub location_type: String,
    pub component: String,
    pub bundle: Option<String>,
}

pub struct DownloadTaskView {
    pub url: Seq<char>,
    pub location_type: Seq<char>,
    pub component: Seq<char>,
    pub bundle: Option<Seq<char>>,
}

impl View for DownloadTask {
    type V = DownloadTaskView;

    open spec fn view(&self) -> DownloadTaskView {
        DownloadTaskView {
            url: self.url@,
            location_type: self.location_type@,
            component: self.component@,
            bundle: self.bundle.deep_view(),
        }
    }
}

impl DeepView for DownloadTask {
    type V = DownloadTaskView;

    open spec fn deep_view(&self) -> DownloadTaskView {
        self@
    }
}

/// The tasks of one component: one for each of its locations, in order.
pub open spec fn tasks_of_component(c: FirmwareComponentView) -> Seq<DownloadTaskView> {
    Seq::new(
        c.locations.len(),
        |i: int|
            DownloadTaskView {
                url: c.locations[i].location,
                location_type: c.locations[i].location_type,
                component: c.component,
                bundle: c.bundle,
            },
    )
}

/// The tasks of a list of components, component by component.
pub open spec fn tasks_of_components(components: Seq<FirmwareComponentView>) -> Seq<
    DownloadTaskView,
>
    decreases components.len(),
{
    if components.len() == 0 {
        Seq::empty()
    } else {
        tasks_of_components(components.drop_last()) + tasks_of_component(components.last())
    }
}

/// The tasks of a list of boards, board by board.
pub open spec fn tasks_of_boards(boards: Seq<BoardSkuFirmwareView>) -> Seq<DownloadTaskView>
    decreases boards.len(),
{
    if boards.len() == 0 {
        Seq::empty()
    } else {
        tasks_of_boards(boards.drop_last()) + tasks_of_components(
            boards.last().firmware_components,
        )
    }
}

/// The tasks of a parsed manifest: one for every location of every component
/// of every board.
pub open spec fn download_tasks_of(parsed: ParsedFirmwareComponentsView) -> Seq<DownloadTaskView> {
    tasks_of_boards(parsed.board_skus)
}

/// The number of locations in a list of components.
pub open spec fn locations_in_components(components: Seq<FirmwareComponentView>) -> nat
    decreases components.len(),
{
    if components.len() == 0 {
        0
    } else {
        locations_in_components(components.drop_last()) + components.last().locations.len()
    }
}

/// The number of locations in a list of boards.
pub open spec fn locations_in_boards(boards: Seq<BoardSkuFirmwareView>) -> nat
    decreases boards.len(),
{
    if boards.len() == 0 {
        0
    } else {
        locations_in_boards(boards.drop_last()) + locations_in_components(
            boards.last().firmware_components,
        )
    }
}

proof fn lemma_component_task_count(components: Seq<FirmwareComponentView>)
    ensures
        tasks_of_components(components).len() == locations_in_components(components),
    decreases components.len(),
{
    if components.len() > 0 {
        lemma_component_task_count(components.drop_last());
    }
}

/// A manifest has as many download tasks as its boards' components have
/// locations.
pub proof fn lemma_task_count(parsed: ParsedFirmwareComponentsView)
    ensures
        download_tasks_of(parsed).len() == locations_in_boards(parsed.board_skus),
{
    lemma_board_task_count(parsed.board_skus);
}

proof fn lemma_board_task_count(boards: Seq<BoardSkuFirmwareView>)
    ensures
        tasks_of_boards(boards).len() == locations_in_boards(boards),
    decreases boards.len(),
{
    if boards.len() > 0 {
        lemma_board_task_count(boards.drop_last());
        lemma_component_task_count(boards.last().firmware_components);
    }
}

/// Appends the tasks of one component to `out`.
fn push_component_tasks(out: &mut Vec<DownloadTask>, component: &FirmwareComponent)
    ensures
        final(out).deep_view() == old(out).deep_view() + tasks_of_component(component@),
{
    let n: usize = component.locations.len();
    let mut i: usize = 0;
    let ghost start = out.deep_view();
    let ghost all = tasks_of_component(component@);
    proof {
        assert(start + all.take(0) =~= start);
    }
    while i < n
        invariant
            n == component.locations@.len(),
            i <= n,
            all == tasks_of_component(component@),
            out.deep_view() == start + all.take(i as int),
        decreases n - i,
    {
        let location = &component.locations[i];
        let task = DownloadTask {
            url: location.location.clone(),
            location_type: location.location_type.clone(),
            component: component.component.clone(),
            bundle: clone_text_option(&component.bundle),
        };
        let ghost prev = out.deep_view();
        out.push(task);
        proof {
            assert(component@.locations[i as int] == location@);
            assert(out.deep_view() =~= prev.push(all[i as int]));
            assert(prev.push(all[i as int]) =~= start + all.take(i + 1));
        }
        i = i + 1;
    }
    proof {
        assert(all.take(n as int) =~= all);
    }
}

/// The files that a parsed manifest asks for: one task for every location of
/// every component of every board, in the manifest's order.
pub fn plan_downloads(parsed: &ParsedFirmwareComponents) -> (r: Vec<DownloadTask>)
    ensures
        r.deep_view() == download_tasks_of(parsed@),
        r@.len() == locations_in_boards(parsed@.board_skus),
{
    let mut out: Vec<DownloadTask> = Vec::new();
    let boards = &parsed.board_skus;
    let n: usize = boards.len();
    let mut i: usize = 0;
    let ghost all = parsed@.board_skus;
    proof {
        assert(out.deep_view() =~= Seq::empty());
        assert(all.take(0) =~= Seq::empty());
    }
    while i < n
        invariant
            n == boards@.len(),
            i <= n,
            all == boards.deep_view(),
            out.deep_view() == tasks_of_boards(all.take(i as int)),
        decreases n - i,
    {
        let components = &boards[i].firmware_components;
        let m: usize = components.len();
        let mut j: usize = 0;
        let ghost before = out.deep_view();
        let ghost parts = components.deep_view();
        proof {
            assert(parts.take(0) =~= Seq::empty());
            assert(before + Seq::<DownloadTaskView>::empty() =~= before);
        }
        while j < m
            invariant
                m == components@.len(),
                j <= m,
                parts == components.deep_view(),
                out.deep_view() == before + tasks_of_components(parts.take(j as int)),
            decreases m - j,
        {
            proof {
                let upto = parts.take(j + 1);
                assert(upto.drop_last() =~= parts.take(j as int));
                assert(upto.last() == components@[j as int]@);
                assert(before + tasks_of_components(parts.take(j as int)) + tasks_of_component(
                    components@[j as int]@,
                ) =~= before + tasks_of_components(upto));
            }
            push_component_tasks(&mut out, &components[j]);
            j = j + 1;
        }
        proof {
            assert(parts.take(m as int) =~= parts);
            let upto = all.take(i + 1);
            assert(upto.drop_last() =~= all.take(i as int));
            assert(upto.last() == boards@[i as int]@);
        }
        i = i + 1;
    }
    proof {
        assert(all.take(n as int) =~= all);
        lemma_task_count(parsed@);
    }
    out
}

/// The cache directory of a firmware configuration.
pub open spec fn cache_dir(firmware_id: Seq<char>) -> Seq<char> {
    "/forge-boot-artifacts/blobs/internal/fw/rack_firmware/"@ + firmware_id
}

/// The path of a cached file: its directory, a `/`, and the file's name.
pub open spec fn cache_path(firmware_id: Seq<char>, filename: Seq<char>) -> Seq<char> {
    cache_dir(firmware_id) + "/"@ + filename
}

/// The cache directory of a firmware configuration.
pub fn firmware_cache_dir(firmware_id: &str) -> (r: String)
    ensures
        r@ == cache_dir(firmware_id@),
{
    concat("/forge-boot-artifacts/blobs/internal/fw/rack_firmware/", firmware_id)
}

/// The path under which a file of a firmware configuration is cached. The
/// fleet manager is handed the same path as the source to flash from.
pub fn firmware_cache_path(firmware_id: &str, filename: &str) -> (r: String)
    ensures
        r@ == cache_path(firmware_id@, filename@),
{
    let dir = firmware_cache_dir(firmware_id);
    let head = concat(dir.as_str(), "/");
    concat(head.as_str(), filename)
}

/// The name of the request header that carries the token.
pub fn token_header_name() -> (r: &'static str)
    ensures
        r@ == "X-JFrog-Art-Api"@,
{
    "X-JFrog-Art-Api"
}

/// A stored credential.
#[derive(Debug, PartialEq, Eq)]
pub struct Credentials {
    pub username: String,
    pub password: String,
}

/// The token to send along: the stored password, or the empty string where
/// nothing is stored.
pub fn artifactory_token(credentials: Option<&Credentials>) -> (r: String)
    ensures
        r@ == match credentials {
            Some(c) => c.password@,
            None => Seq::<char>::empty(),
        },
{
    match credentials {
        Some(c) => c.password.clone(),
        None => String::new(),
    }
}

/// Why one file was not fetched.
#[derive(Debug, Clone, Copy, PartialEq, Eq, Structural)]
pub enum FetchError {
    /// The address ends in `/`, or is empty: it names no file.
    EmptyFilename,
    /// No HTTP client could be made.
    ClientFailed,
    /// The server answered with this status, which is no success.
    Status(u16),
    /// The request with the token failed before any answer came.
    RetryFailed,
    /// The body of the answer could not be read.
    BodyFailed,
    /// The file could not be written.
    WriteFailed,
    /// Something was reported that the fetch was not waiting for.
    OutOfTurn,
}

/// How one fetch ended.
#[derive(Debug, Clone, Copy, PartialEq, Eq, Structural)]
pub enum FetchOutcome {
    /// The file was in the cache already; nothing was requested.
    Cached,
    /// The file was fetched and written.
    Downloaded,
    Failed(FetchError),
}

/// What a fetch is waiting for.
#[derive(Debug, Clone, Copy, PartialEq, Eq, Structural)]
pub enum FetchState {
    /// Whether the destination exists.
    CheckingCache,
    /// The answer to the request without the token.
    FirstAttempt,
    /// The answer to the request with the token.
    Retrying,
    /// The body to be read and written.
    Storing,
    /// Nothing: the fetch is over.
    Finished,
}

/// What happened to a fetch.
#[derive(Debug, Clone, Copy, PartialEq, Eq, Structural)]
pub enum FetchEvent {
    /// The destination exists.
    CacheHit,
    /// The destination does not exist.
    CacheMiss,
    /// No HTTP client could be made.
    ClientFailed,
    /// The server answered with this status.
    Status(u16),
    /// The request failed before any answer came.
    TransportFailed,
    /// The body could not be read.
    BodyFailed,
    /// The file could not be written.
    WriteFailed,
    /// The body was read and the file written.
    Stored,
}

/// What a fetch does next.
#[derive(Debug, Clone, Copy, PartialEq, Eq, Structural)]
pub enum FetchAction {
    /// Ask whether the destination exists.
    CheckCache,
    /// Request the address, with the token header or without it.
    Get { with_token: bool },
    /// Read the body of the answer and write it to the destination.
    Store,
    /// Stop, with this outcome.
    Finish(FetchOutcome),
}

/// Whether an HTTP status is a success.
pub open spec fn is_success_status(status: u16) -> bool {
    200 <= status <= 299
}

/// The status with which a server asks for credentials.
pub const STATUS_UNAUTHORIZED: u16 = 401;

/// The state and the action that follow `event` in `state`.
///
/// A file that is cached ends the fetch at once. The first request goes
/// without the token; only the status 401, or a failure before any answer,
/// is followed by a second request, which carries the token; whatever that
/// one brings is final.
pub open spec fn fetch_next(state: FetchState, event: FetchEvent) -> (FetchState, FetchAction) {
    match (state, event) {
        (FetchState::CheckingCache, FetchEvent::CacheHit) => (
            FetchState::Finished,
            FetchAction::Finish(FetchOutcome::Cached),
        ),
        (FetchState::CheckingCache, FetchEvent::CacheMiss) => (
            FetchState::FirstAttempt,
            FetchAction::Get { with_token: false },
        ),
        (FetchState::FirstAttempt, FetchEvent::ClientFailed) => (
            FetchState::Finished,
            FetchAction::Finish(FetchOutcome::Failed(FetchError::ClientFailed)),
        ),
        (FetchState::FirstAttempt, FetchEvent::Status(status)) => if is_success_status(status) {
            (FetchState::Storing, FetchAction::Store)
        } else if status == STATUS_UNAUTHORIZED {
            (FetchState::Retrying, FetchAction::Get { with_token: true })
        } else {
            (
                FetchState::Finished,
                FetchAction::Finish(FetchOutcome::Failed(FetchError::Status(status))),
            )
        },
        (FetchState::FirstAttempt, FetchEvent::TransportFailed) => (
            FetchState::Retrying,
            FetchAction::Get { with_token: true },
        ),
        (FetchState::Retrying, FetchEvent::Status(status)) => if is_success_status(status) {
            (FetchState::Storing, FetchAction::Store)
        } else {
            (
                FetchState::Finished,
                FetchAction::Finish(FetchOutcome::Failed(FetchError::Status(status))),
            )
        },
        (FetchState::Retrying, FetchEvent::TransportFailed) => (
            FetchState::Finished,
            FetchAction::Finish(FetchOutcome::Failed(FetchError::RetryFailed)),
        ),
        (FetchState::Storing, FetchEvent::Stored) => (
            FetchState::Finished,
            FetchAction::Finish(FetchOutcome::Downloaded),
        ),
        (FetchState::Storing, FetchEvent::BodyFailed) => (
            FetchState::Finished,
            FetchAction::Finish(FetchOutcome::Failed(FetchError::BodyFailed)),
        ),
        (FetchState::Storing, FetchEvent::WriteFailed) => (
            FetchState::Finished,
            FetchAction::Finish(FetchOutcome::Failed(FetchError::WriteFailed)),
        ),
        _ => (
            FetchState::Finished,
            FetchAction::Finish(FetchOutcome::Failed(FetchError::OutOfTurn)),
        ),
    }
}

/// The actions that a fetch in `state` takes as `events` happen to it.
pub open spec fn fetch_actions(state: FetchState, events: Seq<FetchEvent>) -> Seq<FetchAction>
    decreases events.len(),
{
    if events.len() == 0 {
        Seq::empty()
    } else {
        let step = fetch_next(state, events[0]);
        seq![step.1] + fetch_actions(step.0, events.drop_first())
    }
}

/// The number of requests among `actions`.
pub open spec fn requests_in(actions: Seq<FetchAction>) -> nat
    decreases actions.len(),
{
    if actions.len() == 0 {
        0
    } else {
        requests_in(actions.drop_last()) + if actions.last() is Get {
            1nat
        } else {
            0nat
        }
    }
}

/// The number of requests that carry the token among `actions`.
pub open spec fn token_requests_in(actions: Seq<FetchAction>) -> nat
    decreases actions.len(),
{
    if actions.len() == 0 {
        0
    } else {
        token_requests_in(actions.drop_last()) + if actions.last() == (FetchAction::Get {
            with_token: true,
        }) {
            1nat
        } else {
            0nat
        }
    }
}

/// The name under which the file at `url` is cached: what follows the last
/// `/`. An address that leaves nothing there names no file.
pub open spec fn filename_of_url(url: Seq<char>) -> Result<Seq<char>, FetchError> {
    if last_segment(url, '/').len() == 0 {
        Err(FetchError::EmptyFilename)
    } else {
        Ok(last_segment(url, '/'))
    }
}

/// The name under which the file at `url` is cached.
pub fn download_filename(url: &str) -> (r: Result<String, FetchError>)
    ensures
        match r {
            Ok(name) => filename_of_url(url@) == Ok::<Seq<char>, FetchError>(name@),
            Err(e) => filename_of_url(url@) == Err::<Seq<char>, FetchError>(e),
        },
{
    let name = last_segment_of(url, '/');
    if name.as_str().is_empty() {
        Err(FetchError::EmptyFilename)
    } else {
        Ok(name)
    }
}

/// How a fetch starts: the first action and the state in which its answer is
/// awaited. An address that names no file ends the fetch before anything is
/// asked.
pub fn begin_fetch(url: &str) -> (r: (FetchState, FetchAction))
    ensures
        r == match filename_of_url(url@) {
            Ok(_) => (FetchState::CheckingCache, FetchAction::CheckCache),
            Err(e) => (FetchState::Finished, FetchAction::Finish(FetchOutcome::Failed(e))),
        },
{
    match download_filename(url) {
        Ok(_) => (FetchState::CheckingCache, FetchAction::CheckCache),
        Err(e) => (FetchState::Finished, FetchAction::Finish(FetchOutcome::Failed(e))),
    }
}

/// The state and the action that follow `event` in `state`.
pub fn fetch_step(state: FetchState, event: FetchEvent) -> (r: (FetchState, FetchAction))
    ensures
        r == fetch_next(state, event),
{
    match state {
        FetchState::CheckingCache => match event {
            FetchEvent::CacheHit => (
                FetchState::Finished,
                FetchAction::Finish(FetchOutcome::Cached),
            ),
            FetchEvent::CacheMiss => (FetchState::FirstAttempt, FetchAction::Get { with_token: false }),
            _ => out_of_turn(),
        },
        FetchState::FirstAttempt => match event {
            FetchEvent::ClientFailed => (
                FetchState::Finished,
                FetchAction::Finish(FetchOutcome::Failed(FetchError::ClientFailed)),
            ),
            FetchEvent::Status(status) => {
                if 200 <= status && status <= 299 {
                    (FetchState::Storing, FetchAction::Store)
                } else if status == STATUS_UNAUTHORIZED {
                    (FetchState::Retrying, FetchAction::Get { with_token: true })
                } else {
                    (
                        FetchState::Finished,
                        FetchAction::Finish(FetchOutcome::Failed(FetchError::Status(status))),
                    )
                }
            },
            FetchEvent::TransportFailed => (
                FetchState::Retrying,
                FetchAction::Get { with_token: true },
            ),
            _ => out_of_turn(),
        },
        FetchState::Retrying => match event {
            FetchEvent::Status(status) => {
                if 200 <= status && status <= 299 {
                    (FetchState::Storing, FetchAction::Store)
                } else {
                    (
                        FetchState::Finished,
                        FetchAction::Finish(FetchOutcome::Failed(FetchError::Status(status))),
                    )
                }
            },
            FetchEvent::TransportFailed => (
                FetchState::Finished,
                FetchAction::Finish(FetchOutcome::Failed(FetchError::RetryFailed)),
            ),
            _ => out_of_turn(),
        },
        FetchState::Storing => match event {
            FetchEvent::Stored => (
                FetchState::Finished,
                FetchAction::Finish(FetchOutcome::Downloaded),
            ),
            FetchEvent::BodyFailed => (
                FetchState::Finished,
                FetchAction::Finish(FetchOutcome::Failed(FetchError::BodyFailed)),
            ),
            FetchEvent::WriteFailed => (
                FetchState::Finished,
                FetchAction::Finish(FetchOutcome::Failed(FetchError::WriteFailed)),
            ),
            _ => out_of_turn(),
        },
        FetchState::Finished => out_of_turn(),
    }
}

fn out_of_turn() -> (r: (FetchState, FetchAction))
    ensures
        r == (
            FetchState::Finished,
            FetchAction::Finish(FetchOutcome::Failed(FetchError::OutOfTurn)),
        ),
{
    (FetchState::Finished, FetchAction::Finish(FetchOutcome::Failed(FetchError::OutOfTurn)))
}

/// How one unit of the download ended: with a fetch's outcome, or by
/// crashing before it had one.
#[derive(Debug, Clone, Copy, PartialEq, Eq, Structural)]
pub enum UnitResult {
    Finished(FetchOutcome),
    Crashed,
}

/// Whether a unit counts as a failure: a failed fetch, or a crash.
pub open spec fn is_failure(result: UnitResult) -> bool {
    match result {
        UnitResult::Finished(FetchOutcome::Failed(_)) => true,
        UnitResult::Finished(_) => false,
        UnitResult::Crashed => true,
    }
}

/// The number of failures among `results`.
pub open spec fn failures_in(results: Seq<UnitResult>) -> nat
    decreases results.len(),
{
    if results.len() == 0 {
        0
    } else {
        failures_in(results.drop_last()) + if is_failure(results.last()) {
            1nat
        } else {
            0nat
        }
    }
}

/// The counts of one download run.
#[derive(Debug, Clone, Copy, PartialEq, Eq, Structural)]
pub struct DownloadTally {
    pub successful: usize,
    pub failed: usize,
}

/// Counts the units of a run that succeeded and those that failed. Every
/// unit is counted once, whatever the others did; a crash counts as a
/// failure.
pub fn tally_downloads(results: &Vec<UnitResult>) -> (r: DownloadTally)
    ensures
        r.failed == failures_in(results@),
        r.successful + r.failed == results@.len(),
{
    let n: usize = results.len();
    let mut successful: usize = 0;
    let mut failed: usize = 0;
    let mut i: usize = 0;
    proof {
        assert(results@.take(0) =~= Seq::empty());
    }
    while i < n
        invariant
            n == results@.len(),
            i <= n,
            failed == failures_in(results@.take(i as int)),
            successful + failed == i,
        decreases n - i,
    {
        proof {
            let upto = results@.take(i + 1);
            assert(upto.drop_last() =~= results@.take(i as int));
            assert(upto.last() == results@[i as int]);
        }
        let bad = match results[i] {
            UnitResult::Finished(FetchOutcome::Failed(_)) => true,
            UnitResult::Finished(_) => false,
            UnitResult::Crashed => true,
        };
        if bad {
            failed = failed + 1;
        } else {
            successful = successful + 1;
        }
        i = i + 1;
    }
    proof {
        assert(results@.take(n as int) =~= results@);
    }
    DownloadTally { successful, failed }
}

/// What is stored with a firmware configuration besides the manifest itself.
#[derive(Debug, PartialEq, Eq)]
pub enum StoredComponents {
    /// Nothing: the manifest could not be parsed.
    Missing,
    /// The parsed manifest, as stored when the configuration is created.
    Parsed(ParsedFirmwareComponents),
    /// The lookup table, as stored when the download has succeeded.
    Lookup(FirmwareLookupTable),
}

pub enum StoredComponentsView {
    Missing,
    Parsed(ParsedFirmwareComponentsView),
    Lookup(TableView),
}

impl View for StoredComponents {
    type V = StoredComponentsView;

    open spec fn view(&self) -> StoredComponentsView {
        match self {
            StoredComponents::Missing => StoredComponentsView::Missing,
            StoredComponents::Parsed(p) => StoredComponentsView::Parsed(p@),
            StoredComponents::Lookup(t) => StoredComponentsView::Lookup(t@),
        }
    }
}

/// A stored firmware configuration.
#[derive(Debug, PartialEq, Eq)]
pub struct FirmwareConfig {
    pub id: String,
    pub raw_manifest: String,
    pub parsed_components: StoredComponents,
    /// Whether the firmware can be applied: every file is cached and the
    /// lookup table is stored.
    pub available: bool,
    /// When the record was last written, in seconds.
    pub updated_at: u64,
}

pub struct FirmwareConfigView {
    pub id: Seq<char>,
    pub raw_manifest: Seq<char>,
    pub parsed_components: StoredComponentsView,
    pub available: bool,
    pub updated_at: u64,
}

impl View for FirmwareConfig {
    type V = FirmwareConfigView;

    open spec fn view(&self) -> FirmwareConfigView {
        FirmwareConfigView {
            id: self.id@,
            raw_manifest: self.raw_manifest@,
            parsed_components: self.parsed_components@,
            available: self.available,
            updated_at: self.updated_at,
        }
    }
}

/// The record after a download run with `failed` failures that ended at
/// `now`. Without failures it holds the lookup table of `parsed`, is
/// available, and was written at `now`; with any failure it is as it was.
pub open spec fn after_download_run(
    config: FirmwareConfigView,
    parsed: ParsedFirmwareComponentsView,
    failed: nat,
    now: u64,
) -> FirmwareConfigView {
    if failed == 0 {
        FirmwareConfigView {
            id: config.id,
            raw_manifest: config.raw_manifest,
            parsed_components: StoredComponentsView::Lookup(lookup_table_of(parsed)),
            available: true,
            updated_at: now,
        }
    } else {
        config
    }
}

/// The lookup table to store after the download run that `tally` counts: the
/// table of `parsed` where no unit failed, nothing where any did.
pub fn lookup_table_after_run(parsed: &ParsedFirmwareComponents, tally: &DownloadTally) -> (r:
    Option<FirmwareLookupTable>)
    ensures
        r.deep_view() == if tally.failed == 0 {
            Some(lookup_table_of(parsed@))
        } else {
            None
        },
{
    if tally.failed == 0 {
        Some(build_firmware_lookup_table(parsed))
    } else {
        None
    }
}

impl FirmwareConfig {
    /// The record of a configuration that was just created: not available.
    pub fn new(id: String, raw_manifest: String, parsed: Option<ParsedFirmwareComponents>, now: u64) -> (r:
        Self)
        ensures
            r@ == (FirmwareConfigView {
                id: id@,
                raw_manifest: raw_manifest@,
                parsed_components: match parsed {
                    Some(p) => StoredComponentsView::Parsed(p@),
                    None => StoredComponentsView::Missing,
                },
                available: false,
                updated_at: now,
            }),
    {
        let parsed_components = match parsed {
            Some(p) => StoredComponents::Parsed(p),
            None => StoredComponents::Missing,
        };
        FirmwareConfig { id, raw_manifest, parsed_components, available: false, updated_at: now }
    }

    /// The record after the download run that `tally` counts, ended at `now`.
    ///
    /// Where no unit failed, the lookup table of `parsed` takes the place of
    /// what was stored, the record becomes available and its time of writing
    /// becomes `now`, all at once. Where any unit failed, nothing changes.
    pub fn complete_download_run(
        self,
        parsed: &ParsedFirmwareComponents,
        tally: &DownloadTally,
        now: u64,
    ) -> (r: Self)
        ensures
            r@ == after_download_run(self@, parsed@, tally.failed as nat, now),
    {
        match lookup_table_after_run(parsed, tally) {
            Some(table) => FirmwareConfig {
                id: self.id,
                raw_manifest: self.raw_manifest,
                parsed_components: StoredComponents::Lookup(table),
                available: true,
                updated_at: now,
            },
            None => self,
        }
    }
}

/// A file that is in the cache is never requested: whatever is reported
/// after the cache was found to hold it, no request follows.
pub proof fn lemma_cached_file_is_not_requested(later: Seq<FetchEvent>)
    ensures
        requests_in(fetch_actions(FetchState::CheckingCache, seq![FetchEvent::CacheHit] + later))
            == 0,
        fetch_next(FetchState::CheckingCache, FetchEvent::CacheHit).1 == FetchAction::Finish(
            FetchOutcome::Cached,
        ),
{
    let events = seq![FetchEvent::CacheHit] + later;
    assert(events[0] == FetchEvent::CacheHit);
    assert(events.drop_first() =~= later);
    lemma_finished_requests_nothing(later);
    let rest = fetch_actions(FetchState::Finished, later);
    lemma_requests_prepend(FetchAction::Finish(FetchOutcome::Cached), rest);
}

/// The requests of an action followed by others.
proof fn lemma_requests_prepend(first: FetchAction, rest: Seq<FetchAction>)
    ensures
        requests_in(seq![first] + rest) == requests_in(rest) + if first is Get {
            1nat
        } else {
            0nat
        },
        token_requests_in(seq![first] + rest) == token_requests_in(rest) + if first == (
        FetchAction::Get { with_token: true }) {
            1nat
        } else {
            0nat
        },
    decreases rest.len(),
{
    let all = seq![first] + rest;
    if rest.len() == 0 {
        assert(all.drop_last() =~= rest);
        assert(all.last() == first);
    } else {
        assert(all.drop_last() =~= seq![first] + rest.drop_last());
        assert(all.last() == rest.last());
        lemma_requests_prepend(first, rest.drop_last());
    }
}

/// A fetch that is over requests nothing, whatever is reported to it.
pub proof fn lemma_finished_requests_nothing(events: Seq<FetchEvent>)
    ensures
        requests_in(fetch_actions(FetchState::Finished, events)) == 0,
        token_requests_in(fetch_actions(FetchState::Finished, events)) == 0,
    decreases events.len(),
{
    if events.len() > 0 {
        lemma_finished_requests_nothing(events.drop_first());
        let step = fetch_next(FetchState::Finished, events[0]);
        lemma_requests_prepend(step.1, fetch_actions(step.0, events.drop_first()));
    }
}

/// The most requests that can still follow in a state: all of them, and
/// those that carry the token.
pub open spec fn requests_left(state: FetchState) -> (nat, nat) {
    match state {
        FetchState::CheckingCache => (2, 1),
        FetchState::FirstAttempt => (1, 1),
        FetchState::Retrying => (0, 0),
        FetchState::Storing => (0, 0),
        FetchState::Finished => (0, 0),
    }
}

/// From any state and whatever is reported, a fetch makes no more requests
/// than its state leaves: in all at most two, of which at most one carries
/// the token, and none once the request with the token has been made.
pub proof fn lemma_requests_bounded(state: FetchState, events: Seq<FetchEvent>)
    ensures
        requests_in(fetch_actions(state, events)) <= requests_left(state).0,
        token_requests_in(fetch_actions(state, events)) <= requests_left(state).1,
    decreases events.len(),
{
    if events.len() > 0 {
        let step = fetch_next(state, events[0]);
        lemma_requests_bounded(step.0, events.drop_first());
        lemma_requests_prepend(step.1, fetch_actions(step.0, events.drop_first()));
    }
}

/// On the first request, the status 401 is answered by exactly one more
/// request, which carries the token; any other status that is no success
/// ends the fetch with no further request, whatever is reported later.
pub proof fn lemma_retry_only_after_unauthorized(status: u16, later: Seq<FetchEvent>)
    requires
        !is_success_status(status),
    ensures
        status == STATUS_UNAUTHORIZED ==> fetch_next(
            FetchState::FirstAttempt,
            FetchEvent::Status(status),
        ) == (FetchState::Retrying, FetchAction::Get { with_token: true }) && requests_in(
            fetch_actions(FetchState::FirstAttempt, seq![FetchEvent::Status(status)] + later),
        ) == 1 && token_requests_in(
            fetch_actions(FetchState::FirstAttempt, seq![FetchEvent::Status(status)] + later),
        ) == 1,
        status != STATUS_UNAUTHORIZED ==> fetch_next(
            FetchState::FirstAttempt,
            FetchEvent::Status(status),
        ).1 == FetchAction::Finish(FetchOutcome::Failed(FetchError::Status(status)))
            && requests_in(
            fetch_actions(FetchState::FirstAttempt, seq![FetchEvent::Status(status)] + later),
        ) == 0,
{
    let events = seq![FetchEvent::Status(status)] + later;
    assert(events[0] == FetchEvent::Status(status));
    assert(events.drop_first() =~= later);
    let step = fetch_next(FetchState::FirstAttempt, events[0]);
    lemma_requests_bounded(step.0, later);
    lemma_requests_prepend(step.1, fetch_actions(step.0, later));
}

/// A configuration that was not available becomes available by a download
/// run exactly when the run counted no failure; with any failure the record
/// stays as it was.
pub proof fn lemma_available_iff_no_failure(
    config: FirmwareConfigView,
    parsed: ParsedFirmwareComponentsView,
    failed: nat,
    now: u64,
)
    requires
        !config.available,
    ensures
        after_download_run(config, parsed, failed, now).available <==> failed == 0,
        failed > 0 ==> after_download_run(config, parsed, failed, now) == config,
        failed == 0 ==> after_download_run(config, parsed, failed, now).parsed_components
            == StoredComponentsView::Lookup(lookup_table_of(parsed)),
{
}

} // verus!
