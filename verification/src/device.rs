//! The kinds of device in a rack, how a board's SKU identifier names one, and
//! the fixed tables that belong to each kind.

use crate::text::{same, split, split_on, trim, trimmed};
use vstd::prelude::*;

verus! {

/// The kinds of device that firmware is deployed to.
#[derive(Debug, Clone, Copy, PartialEq, Eq, Structural)]
pub enum DeviceType {
    /// A compute tray. Its manifest entry also carries the power shelf firmware.
    ComputeTray,
    /// A switch tray.
    SwitchTray,
    /// A power shelf.
    PowerShelf,
    /// None of the known kinds.
    Unknown,
}

/// One firmware component wanted for a kind of device: the component name as
/// the manifest writes it, the key it is filed under, and the target that the
/// fleet manager flashes it to.
pub type ComponentRule = (&'static str, &'static str, &'static str);

/// The SKU identifiers of compute trays.
pub open spec fn compute_tray_sku_list() -> Seq<Seq<char>> {
    seq!["699-24764-0001-TS3"@, "699-24764-0001-TS1"@]
}

/// The SKU identifiers of switch trays.
pub open spec fn switch_tray_sku_list() -> Seq<Seq<char>> {
    seq![
        "920-9K36F-00MV-QS1"@,
        "692-9K36F-00MV-JQS"@,
        "920-9K36F-B4MV-QS1"@,
        "692-9K36F-B4MV-JD0"@,
        "920-9K36F-A5MV-QS1"@,
        "692-9K36F-A5MV-JQS"@,
        "920-9K36N-00MV-QS1"@,
        "692-9K36N-00MV-JQS"@,
        "920-9K36N-09MV-QS1"@,
        "692-9K36N-09MV-JSO"@,
    ]
}

/// The kind that one SKU identifier names: the compute tray list is asked
/// first, then the switch tray list.
pub open spec fn token_device_type(token: Seq<char>) -> DeviceType {
    if compute_tray_sku_list().contains(token) {
        DeviceType::ComputeTray
    } else if switch_tray_sku_list().contains(token) {
        DeviceType::SwitchTray
    } else {
        DeviceType::Unknown
    }
}

/// The kind named by the first of `tokens` that, trimmed, names any.
pub open spec fn first_known_device_type(tokens: Seq<Seq<char>>) -> DeviceType
    decreases tokens.len(),
{
    if tokens.len() == 0 {
        DeviceType::Unknown
    } else if token_device_type(trim(tokens[0])) != DeviceType::Unknown {
        token_device_type(trim(tokens[0]))
    } else {
        first_known_device_type(tokens.drop_first())
    }
}

/// The kind of device that a board's SKU identifier names. The identifier may
/// hold several identifiers between commas.
pub open spec fn device_type_of_sku(sku_id: Seq<char>) -> DeviceType {
    first_known_device_type(split(sku_id, ','))
}

/// The components wanted for each kind of device, in the table's order.
pub open spec fn required_components(device_type: DeviceType) -> Seq<
    (Seq<char>, Seq<char>, Seq<char>),
> {
    match device_type {
        DeviceType::ComputeTray => seq![
            ("HMC"@, "HMC"@, "/redfish/v1/Chassis/HGX_Chassis_0"@),
            ("BMC"@, "BMC"@, "FW_BMC_0"@),
        ],
        DeviceType::SwitchTray => seq![
            ("BMC+FPGA+EROT"@, "BMC"@, "bmc"@),
            ("BMC+FPGA+EROT"@, "FPGA"@, "fpga"@),
            ("BMC+FPGA+EROT"@, "EROT"@, "erot"@),
            ("SBIOS+EROT"@, "BIOS"@, "bios"@),
        ],
        DeviceType::PowerShelf => seq![
            ("Power Shelf FW"@, "PowerShelfFW"@, "TODO_POWERSHELF_TARGET"@),
        ],
        DeviceType::Unknown => Seq::empty(),
    }
}

/// The key under which a kind of device is filed in a lookup table.
pub open spec fn device_key(device_type: DeviceType) -> Option<Seq<char>> {
    match device_type {
        DeviceType::ComputeTray => Some("Compute Node"@),
        DeviceType::SwitchTray => Some("Switch Tray"@),
        DeviceType::PowerShelf => Some("Power Shelf"@),
        DeviceType::Unknown => None,
    }
}

/// The order in which the targets of a kind of device must be flashed, by the
/// kind's key. A kind without a fixed order has the empty list.
pub open spec fn flash_order(device_type_key: Seq<char>) -> Seq<Seq<char>> {
    if device_type_key == "Switch Tray"@ {
        seq!["bmc"@, "fpga"@, "erot"@, "bios"@]
    } else if device_type_key == "Compute Node"@ {
        seq!["/redfish/v1/Chassis/HGX_Chassis_0"@, "FW_BMC_0"@]
    } else {
        Seq::empty()
    }
}

/// The SKU identifiers of compute trays.
pub fn compute_tray_skus() -> (r: Vec<&'static str>)
    ensures
        r.deep_view() == compute_tray_sku_list(),
{
    let r = vec!["699-24764-0001-TS3", "699-24764-0001-TS1"];
    proof {
        assert(r.deep_view() =~= compute_tray_sku_list());
    }
    r
}

/// The SKU identifiers of switch trays.
pub fn switch_tray_skus() -> (r: Vec<&'static str>)
    ensures
        r.deep_view() == switch_tray_sku_list(),
{
    let r = vec![
        "920-9K36F-00MV-QS1",
        "692-9K36F-00MV-JQS",
        "920-9K36F-B4MV-QS1",
        "692-9K36F-B4MV-JD0",
        "920-9K36F-A5MV-QS1",
        "692-9K36F-A5MV-JQS",
        "920-9K36N-00MV-QS1",
        "692-9K36N-00MV-JQS",
        "920-9K36N-09MV-QS1",
        "692-9K36N-09MV-JSO",
    ];
    proof {
        assert(r.deep_view() =~= switch_tray_sku_list());
    }
    r
}

/// Whether `list` holds `token`.
pub fn contains_text(list: &Vec<&'static str>, token: &str) -> (r: bool)
    ensures
        r == list.deep_view().contains(token@),
{
    let n: usize = list.len();
    let mut i: usize = 0;
    while i < n
        invariant
            n == list@.len(),
            i <= n,
            forall|j: int| 0 <= j < i ==> list.deep_view()[j] != token@,
        decreases n - i,
    {
        if same(list[i], token) {
            proof {
                assert(list.deep_view()[i as int] == token@);
            }
            return true;
        }
        i = i + 1;
    }
    false
}

/// The kind of device that a board's SKU identifier names.
///
/// The identifier is split at commas and each piece is trimmed. The pieces are
/// asked in order, each first against the compute tray list and then against
/// the switch tray list; the first piece found in either decides. Where none is
/// found the kind is `Unknown`.
pub fn get_device_type_from_skuid(sku_id: &str) -> (r: DeviceType)
    ensures
        r == device_type_of_sku(sku_id@),
{
    let compute = compute_tray_skus();
    let switch = switch_tray_skus();
    let tokens = split_on(sku_id, ',');
    let n: usize = tokens.len();
    let mut i: usize = 0;
    let ghost all = tokens.deep_view();
    proof {
        assert(all.skip(0) =~= all);
    }
    while i < n
        invariant
            n == tokens@.len(),
            i <= n,
            all == tokens.deep_view(),
            all == split(sku_id@, ','),
            compute.deep_view() == compute_tray_sku_list(),
            switch.deep_view() == switch_tray_sku_list(),
            first_known_device_type(all) == first_known_device_type(all.skip(i as int)),
        decreases n - i,
    {
        let token = trimmed(tokens[i].as_str());
        proof {
            assert(all.skip(i as int).len() > 0);
            assert(all.skip(i as int)[0] == tokens@[i as int]@);
            assert(all.skip(i as int).drop_first() =~= all.skip(i + 1));
        }
        if contains_text(&compute, token.as_str()) {
            return DeviceType::ComputeTray;
        }
        if contains_text(&switch, token.as_str()) {
            return DeviceType::SwitchTray;
        }
        i = i + 1;
    }
    DeviceType::Unknown
}

/// The components wanted for a kind of device, each as the component name to
/// match, the key to file it under, and the target to flash it to.
pub fn get_firmware_components_for_device_type(device_type: &DeviceType) -> (r: Vec<ComponentRule>)
    ensures
        r.deep_view() == required_components(*device_type),
{
    let r: Vec<ComponentRule> = match device_type {
        DeviceType::ComputeTray => vec![
            ("HMC", "HMC", "/redfish/v1/Chassis/HGX_Chassis_0"),
            ("BMC", "BMC", "FW_BMC_0"),
        ],
        DeviceType::SwitchTray => vec![
            ("BMC+FPGA+EROT", "BMC", "bmc"),
            ("BMC+FPGA+EROT", "FPGA", "fpga"),
            ("BMC+FPGA+EROT", "EROT", "erot"),
            ("SBIOS+EROT", "BIOS", "bios"),
        ],
        DeviceType::PowerShelf => vec![("Power Shelf FW", "PowerShelfFW", "TODO_POWERSHELF_TARGET")],
        DeviceType::Unknown => Vec::new(),
    };
    proof {
        assert(r.deep_view() =~= required_components(*device_type));
    }
    r
}

/// The key under which a kind of device is filed in a lookup table.
pub fn device_type_key(device_type: &DeviceType) -> (r: Option<&'static str>)
    ensures
        r.deep_view() == device_key(*device_type),
{
    match device_type {
        DeviceType::ComputeTray => Some("Compute Node"),
        DeviceType::SwitchTray => Some("Switch Tray"),
        DeviceType::PowerShelf => Some("Power Shelf"),
        DeviceType::Unknown => None,
    }
}

/// The order in which the targets of a kind of device must be flashed.
pub fn get_firmware_flash_order(device_type_key: &str) -> (r: Vec<&'static str>)
    ensures
        r.deep_view() == flash_order(device_type_key@),
{
    let r: Vec<&'static str> = if same(device_type_key, "Switch Tray") {
        vec!["bmc", "fpga", "erot", "bios"]
    } else if same(device_type_key, "Compute Node") {
        vec!["/redfish/v1/Chassis/HGX_Chassis_0", "FW_BMC_0"]
    } else {
        Vec::new()
    };
    proof {
        assert(r.deep_view() =~= flash_order(device_type_key@));
    }
    r
}

} // verus!
