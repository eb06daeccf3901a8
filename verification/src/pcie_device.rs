//! The PCIe devices of a chassis as Redfish resources.

use crate::redfish::{Collection, CollectionView, Resource, ResourceView};
use crate::text::concat;
use vstd::prelude::*;

verus! {

/// The address of the collection of a chassis' PCIe devices.
pub open spec fn collection_address(chassis_id: Seq<char>) -> Seq<char> {
    "/redfish/v1/Chassis/"@ + chassis_id + "/PCIeDevices"@
}

/// The resource of the device `dev_id` of the chassis `chassis_id`.
pub fn chassis_resource(chassis_id: &str, dev_id: &str) -> (r: Resource)
    ensures
        r@ == (ResourceView {
            odata_id: collection_address(chassis_id@) + "/"@ + dev_id@,
            odata_type: "#PCIeDevice.v1_5_0.PCIeDevice"@,
            id: dev_id@,
            name: "PCIe Device"@,
        }),
{
    let a = concat("/redfish/v1/Chassis/", chassis_id);
    let b = concat(a.as_str(), "/PCIeDevices");
    let c = concat(b.as_str(), "/");
    Resource {
        odata_id: concat(c.as_str(), dev_id),
        odata_type: "#PCIeDevice.v1_5_0.PCIeDevice".to_owned(),
        id: dev_id.to_owned(),
        name: "PCIe Device".to_owned(),
    }
}

/// The collection of the PCIe devices of the chassis `chassis_id`.
pub fn chassis_collection(chassis_id: &str) -> (r: Collection)
    ensures
        r@ == (CollectionView {
            odata_id: collection_address(chassis_id@),
            odata_type: "#PCIeDeviceCollection.PCIeDeviceCollection"@,
            name: "PCIeDevice Collection"@,
        }),
{
    let a = concat("/redfish/v1/Chassis/", chassis_id);
    Collection {
        odata_id: concat(a.as_str(), "/PCIeDevices"),
        odata_type: "#PCIeDeviceCollection.PCIeDeviceCollection".to_owned(),
        name: "PCIeDevice Collection".to_owned(),
    }
}

} // verus!
