//! The identity of a Redfish resource and of a collection of resources.

use vstd::prelude::*;

verus! {

/// What names one Redfish resource.
#[derive(Debug, Clone, PartialEq, Eq)]
pub struct Resource {
    pub odata_id: String,
    pub odata_type: String,
    pub id: String,
    pub name: String,
}

pub struct ResourceView {
    pub odata_id: Seq<char>,
    pub odata_type: Seq<char>,
    pub id: Seq<char>,
    pub name: Seq<char>,
}

/// What names one collection of Redfish resources.
#[derive(Debug, Clone, PartialEq, Eq)]
pub struct Collection {
    pub odata_id: String,
    pub odata_type: String,
    pub name: String,
}

pub struct CollectionView {
    pub odata_id: Seq<char>,
    pub odata_type: Seq<char>,
    pub name: Seq<char>,
}

impl View for Resource {
    type V = ResourceView;

    open spec fn view(&self) -> ResourceView {
        ResourceView {
            odata_id: self.odata_id@,
            odata_type: self.odata_type@,
            id: self.id@,
            name: self.name@,
        }
    }
}

impl View for Collection {
    type V = CollectionView;

    open spec fn view(&self) -> CollectionView {
        CollectionView {
            odata_id: self.odata_id@,
            odata_type: self.odata_type@,
            name: self.name@,
        }
    }
}

} // verus!
