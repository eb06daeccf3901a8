//! The typed component tree of a vendor manifest, and the parser that reads
//! it out of a JSON document.

use crate::json::{JsonTree, JsonValue};
use vstd::prelude::*;

verus! {

/// Where one file of a firmware component can be fetched.
#[derive(Debug, PartialEq, Eq)]
pub struct FirmwareLocation {
    pub location: String,
    pub location_type: String,
    pub firmware_type: Option<String>,
}

pub struct FirmwareLocationView {
    pub location: Seq<char>,
    pub location_type: Seq<char>,
    pub firmware_type: Option<Seq<char>>,
}

/// A part of a firmware component that carries a version of its own.
#[derive(Debug, PartialEq, Eq)]
pub struct FirmwareSubComponent {
    pub component: String,
    pub version: String,
    pub skuid: Option<String>,
}

pub struct FirmwareSubComponentView {
    pub component: Seq<char>,
    pub version: Seq<char>,
    pub skuid: Option<Seq<char>>,
}

/// One firmware component of a board.
#[derive(Debug, PartialEq, Eq)]
pub struct FirmwareComponent {
    pub component: String,
    pub bundle: Option<String>,
    pub version: Option<String>,
    /// The build channel, "Prod" or "Dev", as the manifest writes it.
    pub component_type: Option<String>,
    pub locations: Vec<FirmwareLocation>,
    pub subcomponents: Vec<FirmwareSubComponent>,
}

pub struct FirmwareComponentView {
    pub component: Seq<char>,
    pub bundle: Option<Seq<char>>,
    pub version: Option<Seq<char>>,
    pub component_type: Option<Seq<char>>,
    pub locations: Seq<FirmwareLocationView>,
    pub subcomponents: Seq<FirmwareSubComponentView>,
}

/// One board of a manifest with its firmware components.
#[derive(Debug, PartialEq, Eq)]
pub struct BoardSkuFirmware {
    pub sku_id: String,
    pub name: String,
    pub sku_type: String,
    pub firmware_components: Vec<FirmwareComponent>,
}

pub struct BoardSkuFirmwareView {
    pub sku_id: Seq<char>,
    pub name: Seq<char>,
    pub sku_type: Seq<char>,
    pub firmware_components: Seq<FirmwareComponentView>,
}

/// The boards of a manifest, in the manifest's order.
#[derive(Debug, PartialEq, Eq)]
pub struct ParsedFirmwareComponents {
    pub board_skus: Vec<BoardSkuFirmware>,
}

pub struct ParsedFirmwareComponentsView {
    pub board_skus: Seq<BoardSkuFirmwareView>,
}

/// Why a manifest was not accepted.
#[derive(Debug, PartialEq, Eq, Clone, Copy)]
pub enum ManifestError {
    /// The document has no `BoardSKUs` array at its top.
    MissingBoardSkus,
}

impl View for FirmwareLocation {
    type V = FirmwareLocationView;

    open spec fn view(&self) -> FirmwareLocationView {
        FirmwareLocationView {
            location: self.location@,
            location_type: self.location_type@,
            firmware_type: self.firmware_type.deep_view(),
        }
    }
}

impl DeepView for FirmwareLocation {
    type V = FirmwareLocationView;

    open spec fn deep_view(&self) -> FirmwareLocationView {
        self@
    }
}

impl View for FirmwareSubComponent {
    type V = FirmwareSubComponentView;

    open spec fn view(&self) -> FirmwareSubComponentView {
        FirmwareSubComponentView {
            component: self.component@,
            version: self.version@,
            skuid: self.skuid.deep_view(),
        }
    }
}

impl DeepView for FirmwareSubComponent {
    type V = FirmwareSubComponentView;

    open spec fn deep_view(&self) -> FirmwareSubComponentView {
        self@
    }
}

impl View for FirmwareComponent {
    type V = FirmwareComponentView;

    open spec fn view(&self) -> FirmwareComponentView {
        FirmwareComponentView {
            component: self.component@,
            bundle: self.bundle.deep_view(),
            version: self.version.deep_view(),
            component_type: self.component_type.deep_view(),
            locations: self.locations.deep_view(),
            subcomponents: self.subcomponents.deep_view(),
        }
    }
}

impl DeepView for FirmwareComponent {
    type V = FirmwareComponentView;

    open spec fn deep_view(&self) -> FirmwareComponentView {
        self@
    }
}

impl View for BoardSkuFirmware {
    type V = BoardSkuFirmwareView;

    open spec fn view(&self) -> BoardSkuFirmwareView {
        BoardSkuFirmwareView {
            sku_id: self.sku_id@,
            name: self.name@,
            sku_type: self.sku_type@,
            firmware_components: self.firmware_components.deep_view(),
        }
    }
}

impl DeepView for BoardSkuFirmware {
    type V = BoardSkuFirmwareView;

    open spec fn deep_view(&self) -> BoardSkuFirmwareView {
        self@
    }
}

impl View for ParsedFirmwareComponents {
    type V = ParsedFirmwareComponentsView;

    open spec fn view(&self) -> ParsedFirmwareComponentsView {
        ParsedFirmwareComponentsView { board_skus: self.board_skus.deep_view() }
    }
}

impl DeepView for ParsedFirmwareComponents {
    type V = ParsedFirmwareComponentsView;

    open spec fn deep_view(&self) -> ParsedFirmwareComponentsView {
        self@
    }
}

impl Clone for FirmwareLocation {
    fn clone(&self) -> (r: Self)
        ensures
            r@ == self@,
    {
        FirmwareLocation {
            location: self.location.clone(),
            location_type: self.location_type.clone(),
            firmware_type: clone_text_option(&self.firmware_type),
        }
    }
}

impl Clone for FirmwareSubComponent {
    fn clone(&self) -> (r: Self)
        ensures
            r@ == self@,
    {
        FirmwareSubComponent {
            component: self.component.clone(),
            version: self.version.clone(),
            skuid: clone_text_option(&self.skuid),
        }
    }
}

impl Clone for FirmwareComponent {
    fn clone(&self) -> (r: Self)
        ensures
            r@ == self@,
    {
        FirmwareComponent {
            component: self.component.clone(),
            bundle: clone_text_option(&self.bundle),
            version: clone_text_option(&self.version),
            component_type: clone_text_option(&self.component_type),
            locations: clone_locations(&self.locations),
            subcomponents: clone_subcomponents(&self.subcomponents),
        }
    }
}

impl Clone for BoardSkuFirmware {
    fn clone(&self) -> (r: Self)
        ensures
            r@ == self@,
    {
        let n: usize = self.firmware_components.len();
        let mut components: Vec<FirmwareComponent> = Vec::new();
        let mut i: usize = 0;
        while i < n
            invariant
                n == self.firmware_components@.len(),
                i <= n,
                components@.len() == i,
                forall|j: int| 0 <= j < i ==> components@[j]@ == self.firmware_components@[j]@,
            decreases n - i,
        {
            components.push(self.firmware_components[i].clone());
            i = i + 1;
        }
        proof {
            assert(components.deep_view() =~= self.firmware_components.deep_view());
        }
        BoardSkuFirmware {
            sku_id: self.sku_id.clone(),
            name: self.name.clone(),
            sku_type: self.sku_type.clone(),
            firmware_components: components,
        }
    }
}

impl Clone for ParsedFirmwareComponents {
    fn clone(&self) -> (r: Self)
        ensures
            r@ == self@,
    {
        let n: usize = self.board_skus.len();
        let mut boards: Vec<BoardSkuFirmware> = Vec::new();
        let mut i: usize = 0;
        while i < n
            invariant
                n == self.board_skus@.len(),
                i <= n,
                boards@.len() == i,
                forall|j: int| 0 <= j < i ==> boards@[j]@ == self.board_skus@[j]@,
            decreases n - i,
        {
            boards.push(self.board_skus[i].clone());
            i = i + 1;
        }
        proof {
            assert(boards.deep_view() =~= self.board_skus.deep_view());
        }
        ParsedFirmwareComponents { board_skus: boards }
    }
}

/// A copy of an optional string.
pub fn clone_text_option(s: &Option<String>) -> (r: Option<String>)
    ensures
        r.deep_view() == s.deep_view(),
{
    match s {
        Some(text) => Some(text.clone()),
        None => None,
    }
}

/// A copy of a list of locations.
pub fn clone_locations(v: &Vec<FirmwareLocation>) -> (r: Vec<FirmwareLocation>)
    ensures
        r.deep_view() == v.deep_view(),
{
    let n: usize = v.len();
    let mut out: Vec<FirmwareLocation> = Vec::new();
    let mut i: usize = 0;
    while i < n
        invariant
            n == v@.len(),
            i <= n,
            out@.len() == i,
            forall|j: int| 0 <= j < i ==> out@[j]@ == v@[j]@,
        decreases n - i,
    {
        out.push(v[i].clone());
        i = i + 1;
    }
    proof {
        assert(out.deep_view() =~= v.deep_view());
    }
    out
}

/// A copy of a list of subcomponents.
pub fn clone_subcomponents(v: &Vec<FirmwareSubComponent>) -> (r: Vec<FirmwareSubComponent>)
    ensures
        r.deep_view() == v.deep_view(),
{
    let n: usize = v.len();
    let mut out: Vec<FirmwareSubComponent> = Vec::new();
    let mut i: usize = 0;
    while i < n
        invariant
            n == v@.len(),
            i <= n,
            out@.len() == i,
            forall|j: int| 0 <= j < i ==> out@[j]@ == v@[j]@,
        decreases n - i,
    {
        out.push(v[i].clone());
        i = i + 1;
    }
    proof {
        assert(out.deep_view() =~= v.deep_view());
    }
    out
}

/// Whether a location entry declares itself a firmware file.
pub open spec fn is_firmware_location(j: JsonTree) -> bool {
    j.member_text("Type"@) == Some("Firmware"@)
}

/// The location that a location entry describes.
pub open spec fn location_of(j: JsonTree) -> FirmwareLocationView {
    FirmwareLocationView {
        location: j.member_text_or_empty("Location"@),
        location_type: j.member_text_or_empty("LocationType"@),
        firmware_type: j.member_text("Type"@),
    }
}

/// The locations kept from a list of entries: the firmware files, in order.
pub open spec fn locations_of(items: Seq<JsonTree>) -> Seq<FirmwareLocationView>
    decreases items.len(),
{
    if items.len() == 0 {
        Seq::empty()
    } else if is_firmware_location(items.last()) {
        locations_of(items.drop_last()).push(location_of(items.last()))
    } else {
        locations_of(items.drop_last())
    }
}

/// Whether a subcomponent entry names both a component and a version.
pub open spec fn is_named_subcomponent(j: JsonTree) -> bool {
    j.member_text_or_empty("Component"@).len() > 0 && j.member_text_or_empty("Version"@).len() > 0
}

/// The subcomponent that a subcomponent entry describes.
pub open spec fn subcomponent_of(j: JsonTree) -> FirmwareSubComponentView {
    FirmwareSubComponentView {
        component: j.member_text_or_empty("Component"@),
        version: j.member_text_or_empty("Version"@),
        skuid: j.member_text("SKUID"@),
    }
}

/// The subcomponents kept from a list of entries: the named ones, in order.
pub open spec fn subcomponents_of(items: Seq<JsonTree>) -> Seq<FirmwareSubComponentView>
    decreases items.len(),
{
    if items.len() == 0 {
        Seq::empty()
    } else if is_named_subcomponent(items.last()) {
        subcomponents_of(items.drop_last()).push(subcomponent_of(items.last()))
    } else {
        subcomponents_of(items.drop_last())
    }
}

/// The firmware component that a component entry describes.
pub open spec fn component_of(j: JsonTree) -> FirmwareComponentView {
    FirmwareComponentView {
        component: j.member_text_or_empty("Component"@),
        bundle: j.member_text("Bundle"@),
        version: j.member_text("Version"@),
        component_type: j.member_text("Type"@),
        locations: locations_of(j.member_items_or_empty("Locations"@)),
        subcomponents: subcomponents_of(j.member_items_or_empty("SubComponents"@)),
    }
}

/// The firmware component entries of a board entry: `Components.Firmware`,
/// or none where either level is missing.
pub open spec fn firmware_entries(j: JsonTree) -> Seq<JsonTree> {
    match j.member("Components"@) {
        Some(components) => components.member_items_or_empty("Firmware"@),
        None => Seq::empty(),
    }
}

/// The board that a board entry describes.
pub open spec fn board_of(j: JsonTree) -> BoardSkuFirmwareView {
    let entries = firmware_entries(j);
    BoardSkuFirmwareView {
        sku_id: j.member_text_or_empty("SKUID"@),
        name: j.member_text_or_empty("Name"@),
        sku_type: j.member_text_or_empty("Type"@),
        firmware_components: Seq::new(entries.len(), |i: int| component_of(entries[i])),
    }
}

/// What a manifest document parses to: its boards in order, or an error where
/// it has no `BoardSKUs` array.
pub open spec fn parsed_manifest(j: JsonTree) -> Result<
    ParsedFirmwareComponentsView,
    ManifestError,
> {
    match j.member_items("BoardSKUs"@) {
        Some(boards) => Ok(
            ParsedFirmwareComponentsView {
                board_skus: Seq::new(boards.len(), |i: int| board_of(boards[i])),
            },
        ),
        None => Err(ManifestError::MissingBoardSkus),
    }
}

/// The view of a parse result.
pub open spec fn parse_result_view(
    r: Result<ParsedFirmwareComponents, ManifestError>,
) -> Result<ParsedFirmwareComponentsView, ManifestError> {
    match r {
        Ok(p) => Ok(p@),
        Err(e) => Err(e),
    }
}

impl ManifestError {
    /// The text shown for this error.
    pub fn message(&self) -> (r: String)
        ensures
            r@ == "JSON must contain 'BoardSKUs' array"@,
    {
        "JSON must contain 'BoardSKUs' array".to_owned()
    }
}

/// The string under `key`, or the empty string.
fn text_or_empty(v: &JsonValue, key: &str) -> (r: String)
    ensures
        r@ == v@.member_text_or_empty(key@),
{
    match v.get_str(key) {
        Some(s) => s.to_owned(),
        None => String::new(),
    }
}

/// The string under `key`, where there is one.
fn optional_text(v: &JsonValue, key: &str) -> (r: Option<String>)
    ensures
        r.deep_view() == v@.member_text(key@),
{
    match v.get_str(key) {
        Some(s) => Some(s.to_owned()),
        None => None,
    }
}

fn parse_locations(items: &Vec<JsonValue>) -> (r: Vec<FirmwareLocation>)
    ensures
        r.deep_view() == locations_of(items.deep_view()),
{
    let n: usize = items.len();
    let mut out: Vec<FirmwareLocation> = Vec::new();
    let mut i: usize = 0;
    proof {
        assert(out.deep_view() =~= Seq::empty());
        assert(items.deep_view().take(0) =~= Seq::empty());
    }
    while i < n
        invariant
            n == items@.len(),
            i <= n,
            out.deep_view() == locations_of(items.deep_view().take(i as int)),
        decreases n - i,
    {
        let entry = &items[i];
        proof {
            let upto = items.deep_view().take(i + 1);
            assert(upto.drop_last() =~= items.deep_view().take(i as int));
            assert(upto.last() == entry@);
        }
        let firmware_type = optional_text(entry, "Type");
        let keep = match &firmware_type {
            Some(t) => crate::text::same(t.as_str(), "Firmware"),
            None => false,
        };
        if keep {
            let ghost prev = out.deep_view();
            let loc = FirmwareLocation {
                location: text_or_empty(entry, "Location"),
                location_type: text_or_empty(entry, "LocationType"),
                firmware_type,
            };
            out.push(loc);
            proof {
                assert(out.deep_view() =~= prev.push(location_of(entry@)));
            }
        }
        i = i + 1;
    }
    proof {
        assert(items.deep_view().take(n as int) =~= items.deep_view());
    }
    out
}

fn parse_subcomponents(items: &Vec<JsonValue>) -> (r: Vec<FirmwareSubComponent>)
    ensures
        r.deep_view() == subcomponents_of(items.deep_view()),
{
    let n: usize = items.len();
    let mut out: Vec<FirmwareSubComponent> = Vec::new();
    let mut i: usize = 0;
    proof {
        assert(out.deep_view() =~= Seq::empty());
        assert(items.deep_view().take(0) =~= Seq::empty());
    }
    while i < n
        invariant
            n == items@.len(),
            i <= n,
            out.deep_view() == subcomponents_of(items.deep_view().take(i as int)),
        decreases n - i,
    {
        let entry = &items[i];
        proof {
            let upto = items.deep_view().take(i + 1);
            assert(upto.drop_last() =~= items.deep_view().take(i as int));
            assert(upto.last() == entry@);
        }
        let component = text_or_empty(entry, "Component");
        let version = text_or_empty(entry, "Version");
        let skuid = optional_text(entry, "SKUID");
        if !component.as_str().is_empty() && !version.as_str().is_empty() {
            let ghost prev = out.deep_view();
            out.push(FirmwareSubComponent { component, version, skuid });
            proof {
                assert(out.deep_view() =~= prev.push(subcomponent_of(entry@)));
            }
        }
        i = i + 1;
    }
    proof {
        assert(items.deep_view().take(n as int) =~= items.deep_view());
    }
    out
}

fn parse_component(entry: &JsonValue) -> (r: FirmwareComponent)
    ensures
        r@ == component_of(entry@),
{
    let locations = match entry.get_array("Locations") {
        Some(items) => parse_locations(items),
        None => Vec::new(),
    };
    let subcomponents = match entry.get_array("SubComponents") {
        Some(items) => parse_subcomponents(items),
        None => Vec::new(),
    };
    proof {
        assert(entry@.member_items("Locations"@) is None ==> locations.deep_view()
            =~= locations_of(Seq::empty()));
        assert(entry@.member_items("SubComponents"@) is None ==> subcomponents.deep_view()
            =~= subcomponents_of(Seq::empty()));
    }
    FirmwareComponent {
        component: text_or_empty(entry, "Component"),
        bundle: optional_text(entry, "Bundle"),
        version: optional_text(entry, "Version"),
        component_type: optional_text(entry, "Type"),
        locations,
        subcomponents,
    }
}

fn parse_board(entry: &JsonValue) -> (r: BoardSkuFirmware)
    ensures
        r@ == board_of(entry@),
{
    let mut components: Vec<FirmwareComponent> = Vec::new();
    let firmware = match entry.get("Components") {
        Some(c) => c.get_array("Firmware"),
        None => None,
    };
    if let Some(items) = firmware {
        let n: usize = items.len();
        let mut i: usize = 0;
        while i < n
            invariant
                n == items@.len(),
                i <= n,
                components@.len() == i,
                forall|j: int| 0 <= j < i ==> components@[j]@ == component_of(items@[j]@),
            decreases n - i,
        {
            components.push(parse_component(&items[i]));
            i = i + 1;
        }
        proof {
            assert(firmware_entries(entry@) == items.deep_view());
        }
    }
    proof {
        let entries = firmware_entries(entry@);
        assert(components.deep_view() =~= Seq::new(
            entries.len(),
            |i: int| component_of(entries[i]),
        ));
    }
    BoardSkuFirmware {
        sku_id: text_or_empty(entry, "SKUID"),
        name: text_or_empty(entry, "Name"),
        sku_type: text_or_empty(entry, "Type"),
        firmware_components: components,
    }
}

/// Reads the boards and their firmware components out of a manifest document.
///
/// Fails only where the document has no `BoardSKUs` array at its top. Strings
/// that are missing, or are no strings, read as empty; lists that are missing
/// read as empty. Of a component's locations only those of type `Firmware` are
/// kept, of its subcomponents only those with a component name and a version.
pub fn parse_rack_firmware_json(config: &JsonValue) -> (r: Result<
    ParsedFirmwareComponents,
    ManifestError,
>)
    ensures
        parse_result_view(r) == parsed_manifest(config@),
{
    let boards = match config.get_array("BoardSKUs") {
        Some(boards) => boards,
        None => {
            return Err(ManifestError::MissingBoardSkus);
        },
    };
    let n: usize = boards.len();
    let mut parsed: Vec<BoardSkuFirmware> = Vec::new();
    let mut i: usize = 0;
    while i < n
        invariant
            n == boards@.len(),
            i <= n,
            parsed@.len() == i,
            forall|j: int| 0 <= j < i ==> parsed@[j]@ == board_of(boards@[j]@),
        decreases n - i,
    {
        parsed.push(parse_board(&boards[i]));
        i = i + 1;
    }
    proof {
        let items = boards.deep_view();
        assert(parsed.deep_view() =~= Seq::new(items.len(), |i: int| board_of(items[i])));
    }
    Ok(ParsedFirmwareComponents { board_skus: parsed })
}

} // verus!
