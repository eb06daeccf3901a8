use rack_firmware::idrac::{attributes_resource, job_state_name, Job, JobState};
use rack_firmware::network_adapter;
use rack_firmware::os::{ConfigValidationError, InlineIpxe, OperatingSystem, OperatingSystemVariant};
use rack_firmware::pcie_device;

#[test]
fn network_adapter_resources() {
    let resource = network_adapter::chassis_resource("Chassis_0", "NIC.Slot.1");
    assert_eq!(resource.odata_id, "/redfish/v1/Chassis/Chassis_0/NetworkAdapters/NIC.Slot.1");
    assert_eq!(resource.odata_type, "#NetworkAdapter.v1_7_0.NetworkAdapter");
    assert_eq!(resource.id, "NIC.Slot.1");
    assert_eq!(resource.name, "Network Adapter");
    let collection = network_adapter::chassis_collection("Chassis_0");
    assert_eq!(collection.odata_id, "/redfish/v1/Chassis/Chassis_0/NetworkAdapters");
    assert_eq!(collection.odata_type, "#NetworkAdapterCollection.NetworkAdapterCollection");
    assert_eq!(collection.name, "Network Adapter Collection");
}

#[test]
fn pcie_device_resources() {
    let resource = pcie_device::chassis_resource("Chassis_0", "dev-3");
    assert_eq!(resource.odata_id, "/redfish/v1/Chassis/Chassis_0/PCIeDevices/dev-3");
    assert_eq!(resource.odata_type, "#PCIeDevice.v1_5_0.PCIeDevice");
    assert_eq!(resource.id, "dev-3");
    assert_eq!(resource.name, "PCIe Device");
    let collection = pcie_device::chassis_collection("");
    assert_eq!(collection.odata_id, "/redfish/v1/Chassis//PCIeDevices");
    assert_eq!(collection.odata_type, "#PCIeDeviceCollection.PCIeDeviceCollection");
    assert_eq!(collection.name, "PCIeDevice Collection");
}

#[test]
fn idrac_attributes_and_jobs() {
    let resource = attributes_resource();
    assert_eq!(
        resource.odata_id,
        "/redfish/v1/Managers/iDRAC.Embedded.1/Oem/Dell/DellAttributes/iDRAC.Embedded.1"
    );
    assert_eq!(resource.odata_type, "#DellAttributes.v1_0_0.DellAttributes");
    assert_eq!(resource.id, "iDRACAttributes");
    assert_eq!(resource.name, "OEMAttributeRegistry");
    let mut job = Job {
        job_id: "JID_1".to_string(),
        job_state: JobState::Scheduled,
        job_type: "DellConfiguration".to_string(),
        start_time: 5,
        end_time: None,
    };
    assert!(job.is_dell_job());
    assert_eq!(job.percent_complete(), 0);
    job.job_state = JobState::Completed;
    job.job_type = "Other".to_string();
    assert!(!job.is_dell_job());
    assert_eq!(job.percent_complete(), 100);
    assert_eq!(job_state_name(JobState::Scheduled), "Scheduled");
    assert_eq!(job_state_name(JobState::Completed), "Completed");
}

#[test]
fn inline_ipxe_script_must_not_be_blank() {
    let empty = InlineIpxe { ipxe_script: " \n\t ".to_string() };
    assert_eq!(
        empty.validate(),
        Err(ConfigValidationError::InvalidValue("InlineIpxe::ipxe_script is empty".to_string()))
    );
    assert!(InlineIpxe { ipxe_script: String::new() }.validate().is_err());
    let script = InlineIpxe { ipxe_script: "#!ipxe\nboot".to_string() };
    assert_eq!(script.validate(), Ok(()));
    let os = OperatingSystem {
        user_data: None,
        variant: OperatingSystemVariant::Ipxe(empty),
        phone_home_enabled: false,
        run_provisioning_instructions_on_every_boot: false,
    };
    assert!(os.validate().is_err());
    let other = OperatingSystem {
        user_data: Some("data".to_string()),
        variant: OperatingSystemVariant::Ipxe(script),
        phone_home_enabled: true,
        run_provisioning_instructions_on_every_boot: true,
    };
    assert_eq!(other.validate(), Ok(()));
    assert_eq!(os.verify_update_allowed_to(&other), Ok(()));
}
