//! The lookup table from kind of device and component key to firmware file:
//! how it is built from a parsed manifest, how it is read for one kind and
//! build channel, and how what was read is put in flashing order.

use crate::device::{
    device_key, device_type_key, device_type_of_sku, get_device_type_from_skuid,
    get_firmware_components_for_device_type, required_components, ComponentRule, DeviceType,
};
use crate::manifest::{
    clone_subcomponents, clone_text_option, BoardSkuFirmware, BoardSkuFirmwareView,
    FirmwareComponent, FirmwareComponentView, FirmwareLocation, FirmwareLocationView,
    FirmwareSubComponent, FirmwareSubComponentView, ParsedFirmwareComponents,
    ParsedFirmwareComponentsView,
};
use crate::text::{concat, last_segment, last_segment_of, lowercase, same};
use crate::textmap::{put, unique_keys, value_of, TextMap};
use vstd::prelude::*;

verus! {

/// One firmware file of the lookup table.
#[derive(Debug, PartialEq, Eq)]
pub struct FirmwareLookupEntry {
    /// The file's name inside the cache directory of its manifest.
    pub filename: String,
    /// The target that the fleet manager flashes the file to.
    pub target: String,
    /// The component name, as the manifest writes it.
    pub component: String,
    /// The bundle identifier, empty where the manifest gives none.
    pub bundle: String,
    /// The build channel in lower case, "prod" or "dev".
    pub firmware_type: String,
    pub version: Option<String>,
    pub subcomponents: Vec<FirmwareSubComponent>,
}

pub struct FirmwareLookupEntryView {
    pub filename: Seq<char>,
    pub target: Seq<char>,
    pub component: Seq<char>,
    pub bundle: Seq<char>,
    pub firmware_type: Seq<char>,
    pub version: Option<Seq<char>>,
    pub subcomponents: Seq<FirmwareSubComponentView>,
}

impl View for FirmwareLookupEntry {
    type V = FirmwareLookupEntryView;

    open spec fn view(&self) -> FirmwareLookupEntryView {
        FirmwareLookupEntryView {
            filename: self.filename@,
            target: self.target@,
            component: self.component@,
            bundle: self.bundle@,
            firmware_type: self.firmware_type@,
            version: self.version.deep_view(),
            subcomponents: self.subcomponents.deep_view(),
        }
    }
}

impl DeepView for FirmwareLookupEntry {
    type V = FirmwareLookupEntryView;

    open spec fn deep_view(&self) -> FirmwareLookupEntryView {
        self@
    }
}

/// The entries of one kind of device, each under its component key and build
/// channel, such as "HMC_prod".
pub type BucketView = Seq<(Seq<char>, FirmwareLookupEntryView)>;

/// The buckets of a lookup table, each under the key of its kind of device.
pub type TableView = Seq<(Seq<char>, BucketView)>;

/// A component rule by its three strings.
pub type RuleView = (Seq<char>, Seq<char>, Seq<char>);

/// A firmware file ready to flash: component key, file name and target.
pub type FlashItem = (String, String, String);

/// The lookup table: for each kind of device the firmware files found for it.
#[derive(Debug, PartialEq, Eq)]
pub struct FirmwareLookupTable {
    pub devices: TextMap<TextMap<FirmwareLookupEntry>>,
}

impl View for FirmwareLookupTable {
    type V = TableView;

    open spec fn view(&self) -> TableView {
        self.devices@
    }
}

impl DeepView for FirmwareLookupTable {
    type V = TableView;

    open spec fn deep_view(&self) -> TableView {
        self@
    }
}

/// The build channel of a component in lower case; "prod" where it names none.
pub open spec fn variant_of(c: FirmwareComponentView) -> Seq<char> {
    match c.component_type {
        Some(t) => lowercase(t),
        None => "prod"@,
    }
}

/// The bundle of a component; empty where it names none.
pub open spec fn bundle_of(c: FirmwareComponentView) -> Seq<char> {
    match c.bundle {
        Some(b) => b,
        None => Seq::empty(),
    }
}

/// The first of `rules` whose component name is `name`.
pub open spec fn matching_rule(rules: Seq<RuleView>, name: Seq<char>) -> Option<RuleView>
    decreases rules.len(),
{
    if rules.len() == 0 {
        None
    } else if rules[0].0 == name {
        Some(rules[0])
    } else {
        matching_rule(rules.drop_first(), name)
    }
}

/// The file name of the first location of type `Firmware`: what follows the
/// last `/` of its address.
pub open spec fn first_firmware_file(locations: Seq<FirmwareLocationView>) -> Option<Seq<char>>
    decreases locations.len(),
{
    if locations.len() == 0 {
        None
    } else if locations[0].firmware_type == Some("Firmware"@) {
        Some(last_segment(locations[0].location, '/'))
    } else {
        first_firmware_file(locations.drop_first())
    }
}

/// The key of an entry: the rule's key, an underscore and the build channel.
pub open spec fn typed_key(lookup_key: Seq<char>, variant: Seq<char>) -> Seq<char> {
    lookup_key + "_"@ + variant
}

/// The entry for component `c` under `rule`, with the file `filename`.
pub open spec fn entry_of(
    c: FirmwareComponentView,
    rule: RuleView,
    filename: Seq<char>,
) -> FirmwareLookupEntryView {
    FirmwareLookupEntryView {
        filename,
        target: rule.2,
        component: c.component,
        bundle: bundle_of(c),
        firmware_type: variant_of(c),
        version: c.version,
        subcomponents: c.subcomponents,
    }
}

/// `bucket` after component `c` was looked at: where the first rule of its
/// name exists and the component has a firmware file, the entry is put under
/// its key; else the bucket stays as it is.
pub open spec fn with_component(
    bucket: BucketView,
    rules: Seq<RuleView>,
    c: FirmwareComponentView,
) -> BucketView {
    match matching_rule(rules, c.component) {
        Some(rule) => match first_firmware_file(c.locations) {
            Some(filename) => put(
                bucket,
                typed_key(rule.1, variant_of(c)),
                entry_of(c, rule, filename),
            ),
            None => bucket,
        },
        None => bucket,
    }
}

/// The bucket that the components of one board give under `rules`.
pub open spec fn device_bucket(
    rules: Seq<RuleView>,
    components: Seq<FirmwareComponentView>,
) -> BucketView
    decreases components.len(),
{
    if components.len() == 0 {
        Seq::empty()
    } else {
        with_component(device_bucket(rules, components.drop_last()), rules, components.last())
    }
}

/// The rules of the second pass over a board: those of the power shelf for a
/// compute tray, none for any other kind.
pub open spec fn power_rules(device_type: DeviceType) -> Seq<RuleView> {
    if device_type == DeviceType::ComputeTray {
        required_components(DeviceType::PowerShelf)
    } else {
        Seq::empty()
    }
}

/// `table` after `board` was looked at. A board of unknown kind changes
/// nothing. Any other puts the bucket that its components give under the
/// rules of its kind under the key of its kind, and the bucket that the same
/// components give under the rules of the second pass under "Power Shelf",
/// each only where it is not empty.
pub open spec fn with_board(table: TableView, board: BoardSkuFirmwareView) -> TableView {
    let device_type = device_type_of_sku(board.sku_id);
    if device_type == DeviceType::Unknown {
        table
    } else {
        let own = device_bucket(required_components(device_type), board.firmware_components);
        let power = device_bucket(power_rules(device_type), board.firmware_components);
        let first = if own.len() > 0 {
            put(table, device_key(device_type)->Some_0, own)
        } else {
            table
        };
        if power.len() > 0 {
            put(first, "Power Shelf"@, power)
        } else {
            first
        }
    }
}

/// The table that a list of boards gives, taken in order.
pub open spec fn lookup_table_of_boards(boards: Seq<BoardSkuFirmwareView>) -> TableView
    decreases boards.len(),
{
    if boards.len() == 0 {
        Seq::empty()
    } else {
        with_board(lookup_table_of_boards(boards.drop_last()), boards.last())
    }
}

/// The lookup table of a parsed manifest.
pub open spec fn lookup_table_of(parsed: ParsedFirmwareComponentsView) -> TableView {
    lookup_table_of_boards(parsed.board_skus)
}

/// Whether an entry is of the build channel `variant`, letter case aside.
pub open spec fn is_of_variant(entry: FirmwareLookupEntryView, variant: Seq<char>) -> bool {
    lowercase(entry.firmware_type) == lowercase(variant)
}

/// The entries of `bucket` of the build channel `variant`, in the bucket's
/// order, each as component key, file name and target.
pub open spec fn selected_entries(bucket: BucketView, variant: Seq<char>) -> Seq<RuleView>
    decreases bucket.len(),
{
    if bucket.len() == 0 {
        Seq::empty()
    } else if is_of_variant(bucket.last().1, variant) {
        selected_entries(bucket.drop_last(), variant).push(
            (bucket.last().0, bucket.last().1.filename, bucket.last().1.target),
        )
    } else {
        selected_entries(bucket.drop_last(), variant)
    }
}

/// What `table` holds for the kind of device under `hardware_type` and the
/// build channel `variant`.
pub open spec fn components_for_device(
    table: TableView,
    hardware_type: Seq<char>,
    variant: Seq<char>,
) -> Seq<RuleView> {
    match value_of(table, hardware_type) {
        Some(bucket) => selected_entries(bucket, variant),
        None => Seq::empty(),
    }
}

/// The place of `target` in `order`; the length of `order` where it is absent.
pub open spec fn flash_rank(order: Seq<Seq<char>>, target: Seq<char>) -> int
    decreases order.len(),
{
    if order.len() == 0 {
        0
    } else if order[0] == target {
        0
    } else {
        1 + flash_rank(order.drop_first(), target)
    }
}

/// The items whose target has the rank `k`, in the order of `items`.
pub open spec fn items_of_rank(items: Seq<RuleView>, order: Seq<Seq<char>>, k: int) -> Seq<
    RuleView,
>
    decreases items.len(),
{
    if items.len() == 0 {
        Seq::empty()
    } else if flash_rank(order, items.last().2) == k {
        items_of_rank(items.drop_last(), order, k).push(items.last())
    } else {
        items_of_rank(items.drop_last(), order, k)
    }
}

/// The items of the ranks below `k`: rank by rank, each rank in the order of
/// `items`.
pub open spec fn items_below_rank(items: Seq<RuleView>, order: Seq<Seq<char>>, k: int) -> Seq<
    RuleView,
>
    decreases k,
{
    if k <= 0 {
        Seq::empty()
    } else {
        items_below_rank(items, order, k - 1) + items_of_rank(items, order, k - 1)
    }
}

/// `items` in flashing order: by the place of each target in `order`, targets
/// that `order` does not name last, and items of one rank as they came.
pub open spec fn flash_sorted(items: Seq<RuleView>, order: Seq<Seq<char>>) -> Seq<RuleView> {
    items_below_rank(items, order, order.len() as int + 1)
}

pub proof fn lemma_flash_rank_bounds(order: Seq<Seq<char>>, target: Seq<char>)
    ensures
        0 <= flash_rank(order, target) <= order.len(),
        flash_rank(order, target) < order.len() ==> order[flash_rank(order, target)] == target,
        flash_rank(order, target) == order.len() ==> !order.contains(target),
        forall|i: int| 0 <= i < flash_rank(order, target) ==> order[i] != target,
    decreases order.len(),
{
    if order.len() > 0 && order[0] != target {
        let rest = order.drop_first();
        lemma_flash_rank_bounds(rest, target);
        let r = flash_rank(rest, target);
        if r < rest.len() {
            assert(rest[r] == order[r + 1]);
        }
        assert forall|i: int| 0 <= i < r + 1 implies order[i] != target by {
            if i > 0 {
                assert(rest[i - 1] == order[i]);
            }
        }
        if r == rest.len() {
            assert forall|i: int| 0 <= i < order.len() implies order[i] != target by {
                if i > 0 {
                    assert(rest[i - 1] == order[i]);
                    assert(rest.contains(rest[i - 1]));
                }
            }
        }
    }
}

/// The first of `rules` whose component name is `name`, by its position.
fn find_rule(rules: &Vec<ComponentRule>, name: &str) -> (r: Option<usize>)
    ensures
        match r {
            Some(k) => k < rules@.len() && matching_rule(rules.deep_view(), name@) == Some(
                rules.deep_view()[k as int],
            ),
            None => matching_rule(rules.deep_view(), name@) is None,
        },
{
    let n: usize = rules.len();
    let mut i: usize = 0;
    let ghost all = rules.deep_view();
    proof {
        assert(all.skip(0) =~= all);
    }
    while i < n
        invariant
            n == rules@.len(),
            i <= n,
            all == rules.deep_view(),
            matching_rule(all, name@) == matching_rule(all.skip(i as int), name@),
        decreases n - i,
    {
        proof {
            assert(all.skip(i as int).len() > 0);
            assert(all.skip(i as int)[0] == all[i as int]);
            assert(all.skip(i as int).drop_first() =~= all.skip(i + 1));
        }
        if same(rules[i].0, name) {
            return Some(i);
        }
        i = i + 1;
    }
    None
}

/// The file name of the first location of type `Firmware`.
fn first_firmware_filename(locations: &Vec<FirmwareLocation>) -> (r: Option<String>)
    ensures
        r.deep_view() == first_firmware_file(locations.deep_view()),
{
    let n: usize = locations.len();
    let mut i: usize = 0;
    let ghost all = locations.deep_view();
    proof {
        assert(all.skip(0) =~= all);
    }
    while i < n
        invariant
            n == locations@.len(),
            i <= n,
            all == locations.deep_view(),
            first_firmware_file(all) == first_firmware_file(all.skip(i as int)),
        decreases n - i,
    {
        proof {
            assert(all.skip(i as int).len() > 0);
            assert(all.skip(i as int)[0] == all[i as int]);
            assert(all.skip(i as int).drop_first() =~= all.skip(i + 1));
        }
        let is_firmware = match &locations[i].firmware_type {
            Some(t) => same(t.as_str(), "Firmware"),
            None => false,
        };
        if is_firmware {
            return Some(last_segment_of(locations[i].location.as_str(), '/'));
        }
        i = i + 1;
    }
    None
}

/// The build channel of a component in lower case; "prod" where it names none.
fn component_variant(component: &FirmwareComponent) -> (r: String)
    ensures
        r@ == variant_of(component@),
{
    match &component.component_type {
        Some(t) => t.as_str().to_lowercase(),
        None => "prod".to_owned(),
    }
}

/// The entry for `component` under `rule`, with the file `filename`.
fn make_entry(component: &FirmwareComponent, rule: &ComponentRule, filename: String) -> (r:
    FirmwareLookupEntry)
    ensures
        r@ == entry_of(component@, rule.deep_view(), filename@),
{
    let bundle = match &component.bundle {
        Some(b) => b.clone(),
        None => String::new(),
    };
    FirmwareLookupEntry {
        filename,
        target: rule.2.to_owned(),
        component: component.component.clone(),
        bundle,
        firmware_type: component_variant(component),
        version: clone_text_option(&component.version),
        subcomponents: clone_subcomponents(&component.subcomponents),
    }
}

/// The key of an entry: the rule's key, an underscore and the build channel.
fn make_typed_key(lookup_key: &str, variant: &str) -> (r: String)
    ensures
        r@ == typed_key(lookup_key@, variant@),
{
    let head = concat(lookup_key, "_");
    concat(head.as_str(), variant)
}

/// The bucket that the components of one board give under `rules`.
fn board_bucket(board: &BoardSkuFirmware, rules: &Vec<ComponentRule>) -> (r: TextMap<
    FirmwareLookupEntry,
>)
    ensures
        r@ == device_bucket(rules.deep_view(), board@.firmware_components),
{
    let mut bucket: TextMap<FirmwareLookupEntry> = TextMap::new();
    let n: usize = board.firmware_components.len();
    let mut i: usize = 0;
    let ghost all = board@.firmware_components;
    proof {
        assert(all.take(0) =~= Seq::empty());
    }
    while i < n
        invariant
            n == board.firmware_components@.len(),
            i <= n,
            all == board.firmware_components.deep_view(),
            bucket@ == device_bucket(rules.deep_view(), all.take(i as int)),
        decreases n - i,
    {
        let component = &board.firmware_components[i];
        proof {
            let upto = all.take(i + 1);
            assert(upto.drop_last() =~= all.take(i as int));
            assert(upto.last() == component@);
        }
        match find_rule(rules, component.component.as_str()) {
            Some(k) => {
                match first_firmware_filename(&component.locations) {
                    Some(filename) => {
                        let variant = component_variant(component);
                        let key = make_typed_key(rules[k].1, variant.as_str());
                        let entry = make_entry(component, &rules[k], filename);
                        bucket.insert(key, entry);
                    },
                    None => {},
                }
            },
            None => {},
        }
        i = i + 1;
    }
    proof {
        assert(all.take(n as int) =~= all);
    }
    bucket
}

/// Builds the lookup table of a parsed manifest.
///
/// Boards are taken in order. A board whose SKU identifier names no known
/// kind of device is passed over. For any other, each component is held
/// against the rules of the board's kind: the first rule of the component's
/// name decides key and target, the component's first location of type
/// `Firmware` gives the file name, and the entry goes under the rule's key
/// joined to the build channel by an underscore; a component without such a
/// location gives no entry. A compute tray's components are held against the
/// power shelf's rules as well, in the same way, and what resolves goes into
/// a bucket of its own under "Power Shelf". A bucket that stayed empty is
/// not put into the table; a bucket put under a key that the table already
/// has takes the earlier one's place.
pub fn build_firmware_lookup_table(parsed_components: &ParsedFirmwareComponents) -> (r:
    FirmwareLookupTable)
    ensures
        r@ == lookup_table_of(parsed_components@),
        unique_keys(r@),
{
    let mut devices: TextMap<TextMap<FirmwareLookupEntry>> = TextMap::new();
    let n: usize = parsed_components.board_skus.len();
    let mut i: usize = 0;
    let ghost all = parsed_components@.board_skus;
    proof {
        assert(all.take(0) =~= Seq::empty());
    }
    while i < n
        invariant
            n == parsed_components.board_skus@.len(),
            i <= n,
            all == parsed_components.board_skus.deep_view(),
            devices@ == lookup_table_of_boards(all.take(i as int)),
        decreases n - i,
    {
        let board = &parsed_components.board_skus[i];
        proof {
            let upto = all.take(i + 1);
            assert(upto.drop_last() =~= all.take(i as int));
            assert(upto.last() == board@);
        }
        let device_type = get_device_type_from_skuid(board.sku_id.as_str());
        match device_type_key(&device_type) {
            Some(key) => {
                let rules = get_firmware_components_for_device_type(&device_type);
                let second_rules = match device_type {
                    DeviceType::ComputeTray => get_firmware_components_for_device_type(
                        &DeviceType::PowerShelf,
                    ),
                    _ => Vec::new(),
                };
                proof {
                    assert(second_rules.deep_view() =~= power_rules(device_type));
                }
                let own = board_bucket(board, &rules);
                let power = board_bucket(board, &second_rules);
                if !own.is_empty() {
                    devices.insert(key.to_owned(), own);
                }
                if !power.is_empty() {
                    devices.insert("Power Shelf".to_owned(), power);
                }
            },
            None => {},
        }
        i = i + 1;
    }
    proof {
        assert(all.take(n as int) =~= all);
    }
    proof {
        lemma_lookup_table_is_sound(parsed_components@);
    }
    FirmwareLookupTable { devices }
}

/// What the table holds for one kind of device and one build channel: the
/// entries of the bucket under `hardware_type` whose build channel is
/// `firmware_type`, letter case aside, in the bucket's order, each as
/// component key, file name and target.
pub fn find_firmware_components_for_device(
    table: &FirmwareLookupTable,
    hardware_type: &str,
    firmware_type: &str,
) -> (r: Vec<FlashItem>)
    ensures
        r.deep_view() == components_for_device(table@, hardware_type@, firmware_type@),
{
    let mut results: Vec<FlashItem> = Vec::new();
    proof {
        assert(results.deep_view() =~= Seq::empty());
    }
    let wanted = firmware_type.to_lowercase();
    match table.devices.get(hardware_type) {
        Some(bucket) => {
            let n: usize = bucket.len();
            let mut i: usize = 0;
            proof {
                assert(bucket@.take(0) =~= Seq::empty());
            }
            while i < n
                invariant
                    n == bucket@.len(),
                    i <= n,
                    wanted@ == lowercase(firmware_type@),
                    results.deep_view() == selected_entries(
                        bucket@.take(i as int),
                        firmware_type@,
                    ),
                decreases n - i,
            {
                let entry = bucket.value_at(i);
                proof {
                    let upto = bucket@.take(i + 1);
                    assert(upto.drop_last() =~= bucket@.take(i as int));
                    assert(upto.last() == bucket@[i as int]);
                }
                let have = entry.firmware_type.as_str().to_lowercase();
                if same(have.as_str(), wanted.as_str()) {
                    let ghost prev = results.deep_view();
                    let item: FlashItem = (
                        bucket.key_at(i).to_owned(),
                        entry.filename.clone(),
                        entry.target.clone(),
                    );
                    results.push(item);
                    proof {
                        assert(results.deep_view() =~= prev.push(
                            (bucket@[i as int].0, entry@.filename, entry@.target),
                        ));
                    }
                }
                i = i + 1;
            }
            proof {
                assert(bucket@.take(n as int) =~= bucket@);
            }
        },
        None => {},
    }
    results
}

/// The place of `target` in `order`; the length of `order` where it is absent.
pub fn flash_rank_of(order: &Vec<&'static str>, target: &str) -> (r: usize)
    ensures
        r == flash_rank(order.deep_view(), target@),
        r <= order@.len(),
{
    let n: usize = order.len();
    let mut i: usize = 0;
    let ghost all = order.deep_view();
    proof {
        assert(all.skip(0) =~= all);
        lemma_flash_rank_bounds(all, target@);
    }
    while i < n
        invariant
            n == order@.len(),
            i <= n,
            all == order.deep_view(),
            flash_rank(all, target@) == i + flash_rank(all.skip(i as int), target@),
        decreases n - i,
    {
        proof {
            assert(all.skip(i as int).len() > 0);
            assert(all.skip(i as int)[0] == all[i as int]);
            assert(all.skip(i as int).drop_first() =~= all.skip(i + 1));
        }
        if same(order[i], target) {
            return i;
        }
        i = i + 1;
    }
    proof {
        assert(all.skip(n as int) =~= Seq::empty());
    }
    n
}

/// Appends to `out` the items whose target has the rank `k`.
fn append_rank(out: &mut Vec<FlashItem>, items: &Vec<FlashItem>, order: &Vec<&'static str>, k: usize)
    ensures
        final(out).deep_view() == old(out).deep_view() + items_of_rank(
            items.deep_view(),
            order.deep_view(),
            k as int,
        ),
{
    let n: usize = items.len();
    let mut i: usize = 0;
    let ghost all = items.deep_view();
    let ghost start = out.deep_view();
    proof {
        assert(all.take(0) =~= Seq::empty());
        assert(start + Seq::<RuleView>::empty() =~= start);
    }
    while i < n
        invariant
            n == items@.len(),
            i <= n,
            all == items.deep_view(),
            out.deep_view() == start + items_of_rank(all.take(i as int), order.deep_view(), k as int),
        decreases n - i,
    {
        proof {
            let upto = all.take(i + 1);
            assert(upto.drop_last() =~= all.take(i as int));
            assert(upto.last() == all[i as int]);
        }
        if flash_rank_of(order, items[i].2.as_str()) == k {
            let ghost prev = out.deep_view();
            let item: FlashItem = (items[i].0.clone(), items[i].1.clone(), items[i].2.clone());
            out.push(item);
            proof {
                assert(out.deep_view() =~= prev.push(all[i as int]));
                assert(prev.push(all[i as int]) =~= start + items_of_rank(
                    all.take(i as int),
                    order.deep_view(),
                    k as int,
                ).push(all[i as int]));
            }
        }
        i = i + 1;
    }
    proof {
        assert(all.take(n as int) =~= all);
    }
}

/// Puts `items` in flashing order: by the place of each target in `order`,
/// targets that `order` does not name last, items of one rank as they came.
pub fn sort_for_flash(items: &Vec<FlashItem>, order: &Vec<&'static str>) -> (r: Vec<FlashItem>)
    ensures
        r.deep_view() == flash_sorted(items.deep_view(), order.deep_view()),
{
    let mut out: Vec<FlashItem> = Vec::new();
    let m: usize = order.len();
    let mut k: usize = 0;
    proof {
        assert(out.deep_view() =~= Seq::empty());
    }
    while k < m
        invariant
            m == order@.len(),
            k <= m,
            out.deep_view() == items_below_rank(items.deep_view(), order.deep_view(), k as int),
        decreases m - k,
    {
        append_rank(&mut out, items, order, k);
        k = k + 1;
    }
    append_rank(&mut out, items, order, m);
    out
}

/// Whether a table is as the builder leaves one: no key of a kind of device
/// occurs twice, and every bucket holds at least one entry and no key twice.
pub open spec fn table_is_sound(table: TableView) -> bool {
    &&& unique_keys(table)
    &&& forall|i: int|
        0 <= i < table.len() ==> unique_keys((#[trigger] table[i]).1) && table[i].1.len() > 0
}

proof fn lemma_device_bucket_unique(rules: Seq<RuleView>, components: Seq<FirmwareComponentView>)
    ensures
        unique_keys(device_bucket(rules, components)),
    decreases components.len(),
{
    if components.len() > 0 {
        let before = device_bucket(rules, components.drop_last());
        lemma_device_bucket_unique(rules, components.drop_last());
        let c = components.last();
        match matching_rule(rules, c.component) {
            Some(rule) => match first_firmware_file(c.locations) {
                Some(filename) => {
                    crate::textmap::lemma_put(
                        before,
                        typed_key(rule.1, variant_of(c)),
                        entry_of(c, rule, filename),
                    );
                },
                None => {},
            },
            None => {},
        }
    }
}

proof fn lemma_with_board_sound(table: TableView, board: BoardSkuFirmwareView)
    requires
        table_is_sound(table),
    ensures
        table_is_sound(with_board(table, board)),
{
    let device_type = device_type_of_sku(board.sku_id);
    if device_type != DeviceType::Unknown {
        let own = device_bucket(required_components(device_type), board.firmware_components);
        let power = device_bucket(power_rules(device_type), board.firmware_components);
        lemma_device_bucket_unique(required_components(device_type), board.firmware_components);
        lemma_device_bucket_unique(power_rules(device_type), board.firmware_components);
        let first = if own.len() > 0 {
            put(table, device_key(device_type)->Some_0, own)
        } else {
            table
        };
        if own.len() > 0 {
            crate::textmap::lemma_put(table, device_key(device_type)->Some_0, own);
        }
        assert(table_is_sound(first));
        if power.len() > 0 {
            crate::textmap::lemma_put(first, "Power Shelf"@, power);
        }
    }
}

proof fn lemma_boards_table_sound(boards: Seq<BoardSkuFirmwareView>)
    ensures
        table_is_sound(lookup_table_of_boards(boards)),
    decreases boards.len(),
{
    if boards.len() > 0 {
        lemma_boards_table_sound(boards.drop_last());
        lemma_with_board_sound(lookup_table_of_boards(boards.drop_last()), boards.last());
    }
}

/// In the lookup table of any manifest no kind of device has two buckets, no
/// bucket has two entries under one key, and no bucket is empty.
pub proof fn lemma_lookup_table_is_sound(parsed: ParsedFirmwareComponentsView)
    ensures
        table_is_sound(lookup_table_of(parsed)),
{
    lemma_boards_table_sound(parsed.board_skus);
}

/// The lookup table depends on the parsed manifest alone: manifests that
/// hold the same boards give the same table.
pub proof fn lemma_lookup_table_is_a_function(
    first: ParsedFirmwareComponents,
    second: ParsedFirmwareComponents,
)
    requires
        first@ == second@,
    ensures
        lookup_table_of(first@) == lookup_table_of(second@),
{
}

proof fn lemma_items_of_rank(items: Seq<RuleView>, order: Seq<Seq<char>>, k: int)
    ensures
        items_of_rank(items, order, k).len() <= items.len(),
        forall|i: int|
            0 <= i < items_of_rank(items, order, k).len() ==> flash_rank(
                order,
                (#[trigger] items_of_rank(items, order, k)[i]).2,
            ) == k,
    decreases items.len(),
{
    if items.len() > 0 {
        lemma_items_of_rank(items.drop_last(), order, k);
    }
}

proof fn lemma_items_below_rank(items: Seq<RuleView>, order: Seq<Seq<char>>, k: int)
    ensures
        forall|i: int|
            0 <= i < items_below_rank(items, order, k).len() ==> flash_rank(
                order,
                (#[trigger] items_below_rank(items, order, k)[i]).2,
            ) < k,
        forall|i: int, j: int|
            0 <= i < j < items_below_rank(items, order, k).len() ==> flash_rank(
                order,
                (#[trigger] items_below_rank(items, order, k)[i]).2,
            ) <= flash_rank(order, (#[trigger] items_below_rank(items, order, k)[j]).2),
    decreases k,
{
    if k > 0 {
        lemma_items_below_rank(items, order, k - 1);
        lemma_items_of_rank(items, order, k - 1);
        let head = items_below_rank(items, order, k - 1);
        let tail = items_of_rank(items, order, k - 1);
        let whole = items_below_rank(items, order, k);
        assert(whole == head + tail);
        assert forall|i: int| 0 <= i < whole.len() implies flash_rank(
            order,
            (#[trigger] whole[i]).2,
        ) < k && (i < head.len() ==> flash_rank(order, whole[i].2) < k - 1) && (i >= head.len()
            ==> flash_rank(order, whole[i].2) == k - 1) by {
            if i < head.len() {
                assert(whole[i] == head[i]);
            } else {
                assert(whole[i] == tail[i - head.len()]);
            }
        }
    }
}

/// The items whose target has a rank below `k`, in the order of `items`.
pub open spec fn items_ranked_below(items: Seq<RuleView>, order: Seq<Seq<char>>, k: int) -> Seq<
    RuleView,
>
    decreases items.len(),
{
    if items.len() == 0 {
        Seq::empty()
    } else if flash_rank(order, items.last().2) < k {
        items_ranked_below(items.drop_last(), order, k).push(items.last())
    } else {
        items_ranked_below(items.drop_last(), order, k)
    }
}

proof fn lemma_rank_split(items: Seq<RuleView>, order: Seq<Seq<char>>, k: int)
    ensures
        items_ranked_below(items, order, k + 1).to_multiset() == items_ranked_below(
            items,
            order,
            k,
        ).to_multiset().add(items_of_rank(items, order, k).to_multiset()),
    decreases items.len(),
{
    broadcast use vstd::multiset::group_multiset_axioms;

    let below = items_ranked_below(items, order, k);
    let next = items_ranked_below(items, order, k + 1);
    let at = items_of_rank(items, order, k);
    if items.len() == 0 {
        let none = Seq::<RuleView>::empty();
        assert(none + none =~= none);
        vstd::seq_lib::lemma_multiset_commutative(none, none);
        assert(next.to_multiset() =~= below.to_multiset().add(at.to_multiset()));
    } else {
        let rest = items.drop_last();
        let x = items.last();
        lemma_rank_split(rest, order, k);
        vstd::seq_lib::to_multiset_build(items_ranked_below(rest, order, k), x);
        vstd::seq_lib::to_multiset_build(items_ranked_below(rest, order, k + 1), x);
        vstd::seq_lib::to_multiset_build(items_of_rank(rest, order, k), x);
        assert(next.to_multiset() =~= below.to_multiset().add(at.to_multiset()));
    }
}

proof fn lemma_below_rank_multiset(items: Seq<RuleView>, order: Seq<Seq<char>>, k: int)
    requires
        0 <= k,
    ensures
        items_below_rank(items, order, k).to_multiset() == items_ranked_below(
            items,
            order,
            k,
        ).to_multiset(),
    decreases k,
{
    if k == 0 {
        lemma_none_ranked_below_zero(items, order);
    } else {
        lemma_below_rank_multiset(items, order, k - 1);
        vstd::seq_lib::lemma_multiset_commutative(
            items_below_rank(items, order, k - 1),
            items_of_rank(items, order, k - 1),
        );
        lemma_rank_split(items, order, k - 1);
    }
}

proof fn lemma_none_ranked_below_zero(items: Seq<RuleView>, order: Seq<Seq<char>>)
    ensures
        items_ranked_below(items, order, 0) == Seq::<RuleView>::empty(),
    decreases items.len(),
{
    if items.len() > 0 {
        lemma_none_ranked_below_zero(items.drop_last(), order);
        lemma_flash_rank_bounds(order, items.last().2);
    }
}

proof fn lemma_all_ranked_below(items: Seq<RuleView>, order: Seq<Seq<char>>)
    ensures
        items_ranked_below(items, order, order.len() as int + 1) == items,
    decreases items.len(),
{
    if items.len() > 0 {
        lemma_all_ranked_below(items.drop_last(), order);
        lemma_flash_rank_bounds(order, items.last().2);
        assert(items.drop_last().push(items.last()) =~= items);
    } else {
        assert(items =~= Seq::<RuleView>::empty());
    }
}

/// Flashing order holds the items it was given, each as often as it came,
/// and holds them by the place of their targets in `order`: an item never
/// stands before one whose target comes earlier in `order`, and an item
/// whose target `order` does not name stands behind every item whose target
/// it names.
pub proof fn lemma_flash_sorted(items: Seq<RuleView>, order: Seq<Seq<char>>)
    ensures
        flash_sorted(items, order).to_multiset() == items.to_multiset(),
        flash_sorted(items, order).len() == items.len(),
        forall|i: int, j: int|
            0 <= i < j < flash_sorted(items, order).len() ==> flash_rank(
                order,
                (#[trigger] flash_sorted(items, order)[i]).2,
            ) <= flash_rank(order, (#[trigger] flash_sorted(items, order)[j]).2),
        forall|i: int, j: int|
            0 <= i < j < flash_sorted(items, order).len() && !order.contains(
                (#[trigger] flash_sorted(items, order)[i]).2,
            ) ==> !order.contains((#[trigger] flash_sorted(items, order)[j]).2),
{
    let sorted = flash_sorted(items, order);
    lemma_items_below_rank(items, order, order.len() as int + 1);
    lemma_below_rank_multiset(items, order, order.len() as int + 1);
    lemma_all_ranked_below(items, order);
    sorted.to_multiset_ensures();
    items.to_multiset_ensures();
    assert forall|i: int, j: int|
        0 <= i < j < sorted.len() && !order.contains((#[trigger] sorted[i]).2) implies !order.contains(
        (#[trigger] sorted[j]).2,
    ) by {
        lemma_flash_rank_bounds(order, sorted[i].2);
        lemma_flash_rank_bounds(order, sorted[j].2);
        let r = flash_rank(order, sorted[i].2);
        if r < order.len() {
            assert(order.contains(order[r]));
        }
    }
}

} // verus!
