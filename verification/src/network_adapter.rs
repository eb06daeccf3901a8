//! The network adapters of a chassis as Redfish resources.

use crate::redfish::{Collection, CollectionView, Resource, ResourceView};
use crate::text::concat;
use vstd::prelude::*;

verus! {

/// The address of the collection of a chassis' network adapters.
pub open spec fn collection_address(chassis_id: Seq<char>) -> Seq<char> {
    "/redfish/v1/Chassis/"@ + chassis_id + "/NetworkAdapters"@
}

/// The resource of the adapter `adapter_id` of the chassis `chassis_id`.
pub fn chassis_resource(chassis_id: &str, adapter_id: &str) -> (r: Resource)
    ensures
        r@ == (ResourceView {
            odata_id: collection_address(chassis_id@) + "/"@ + adapter_id@,
            odata_type: "#NetworkAdapter.v1_7_0.NetworkAdapter"@,
            id: adapter_id@,
            name: "Network Adapter"@,
        }),
{
    let a = concat("/redfish/v1/Chassis/", chassis_id);
    let b = concat(a.as_str(), "/NetworkAdapters");
    let c = concat(b.as_str(), "/");
    Resource {
        odata_id: concat(c.as_str(), adapter_id),
        odata_type: "#NetworkAdapter.v1_7_0.NetworkAdapter".to_owned(),
        id: adapter_id.to_owned(),
        name: "Network Adapter".to_owned(),
    }
}

/// The collection of the network adapters of the chassis `chassis_id`.
pub fn chassis_collection(chassis_id: &str) -> (r: Collection)
    ensures
        r@ == (CollectionView {
            odata_id: collection_address(chassis_id@),
            odata_type: "#NetworkAdapterCollection.NetworkAdapterCollection"@,
            name: "Network Adapter Collection"@,
        }),
{
    let a = concat("/redfish/v1/Chassis/", chassis_id);
    Collection {
        odata_id: concat(a.as_str(), "/NetworkAdapters"),
        odata_type: "#NetworkAdapterCollection.NetworkAdapterCollection".to_owned(),
        name: "Network Adapter Collection".to_owned(),
    }
}

} // verus!
