//! Rack firmware deployment: manifest parsing, device classification, lookup
//! tables, download bookkeeping and ordered dispatch.

pub mod apply;
pub mod bmc_state;
pub mod device;
pub mod download;
pub mod idrac;
pub mod ipxe;
pub mod ipxe_check;
pub mod ipxe_hash;
pub mod ipxe_render;
pub mod job_status;
pub mod json;
pub mod lookup;
pub mod manifest;
pub mod network_adapter;
pub mod os;
pub mod pattern;
pub mod pcie_device;
pub mod redfish;
pub mod sorting;
pub mod submit;
pub mod text;
pub mod textmap;
