use tavoo::isdb::psi::desc::iso::{
    AccessControlDescriptor, BroadcastingSystem, BroadcastingType, ConditionalAccessDescriptor,
    DataComponentDescriptor, EmergencyInformationDescriptor, GuardInterval,
    PartialReceptionDescriptor, Polarization, SatelliteDeliverySystemDescriptor,
    ServiceListDescriptor, ServiceType, SignalType, SystemManagementDescriptor,
    TerrestrialDeliverySystemDescriptor, TransmissionMode,
};
use tavoo::isdb::psi::desc::Descriptor;

#[test]
fn conditional_access_reads_pid_and_private_data() {
    let d = ConditionalAccessDescriptor::read(&[0x00, 0x05, 0xE1, 0x01, 0xAA]).unwrap();
    assert_eq!(d.ca_system_id, 5);
    assert_eq!(d.ca_pid.0, 0x101);
    assert_eq!(d.private_data, &[0xAA]);
    assert!(ConditionalAccessDescriptor::read(&[0x00, 0x05, 0xE1]).is_none());
}

#[test]
fn access_control_reads_transmission_type() {
    let d = AccessControlDescriptor::read(&[0x00, 0x05, 0xE1, 0x01, 0xBB, 0xCC]).unwrap();
    assert_eq!(d.ca_system_id, 5);
    assert_eq!(d.transmission_type, 7);
    assert_eq!(d.pid.0, 0x101);
    assert_eq!(d.private_data, &[0xBB, 0xCC]);
    assert!(AccessControlDescriptor::read(&[]).is_none());
}

#[test]
fn service_list_reads_three_byte_entries() {
    let d = ServiceListDescriptor::read(&[0x04, 0x08, 0x01, 0x04, 0x09, 0xC0, 0xFF]).unwrap();
    assert_eq!(d.services.len(), 2);
    assert_eq!(d.services[0].service_id, 0x0408);
    assert_eq!(d.services[0].service_type, ServiceType(ServiceType::DIGITAL_TV));
    assert_eq!(d.services[1].service_id, 0x0409);
    assert_eq!(d.services[1].service_type, ServiceType(ServiceType::DATA));
    assert!(ServiceListDescriptor::read(&[]).unwrap().services.is_empty());
}

#[test]
fn satellite_delivery_reads_bcd_fields() {
    let data = [0x01, 0x17, 0x27, 0x48, 0x01, 0x10, 0b1_01_00001, 0x02, 0x88, 0x60, 0x03];
    let d = SatelliteDeliverySystemDescriptor::read(&data).unwrap();
    assert_eq!(d.frequency, 1172748);
    assert_eq!(d.orbital_position, 110);
    assert!(d.west_east_flag);
    assert_eq!(d.polarization, Polarization::LinearVertical);
    assert_eq!(d.modulation, 1);
    assert_eq!(d.symbol_rate, 288600);
    assert_eq!(d.fec_inner, 3);
    assert!(SatelliteDeliverySystemDescriptor::read(&data[..10]).is_none());
}

#[test]
fn terrestrial_delivery_reads_frequencies() {
    let d = TerrestrialDeliverySystemDescriptor::read(&[0x12, 0x3B, 0x1A, 0x2B, 0x3C, 0x4D, 0xFF])
        .unwrap();
    assert_eq!(d.area_code, 0x123);
    assert_eq!(d.guard_interval, GuardInterval::Guard1_8);
    assert_eq!(d.transmission_mode, TransmissionMode::Undefined);
    assert_eq!(d.frequencies, vec![0x1A2B, 0x3C4D]);

    let d = TerrestrialDeliverySystemDescriptor::read(&[0x00, 0x06]).unwrap();
    assert_eq!(d.guard_interval, GuardInterval::Guard1_16);
    assert_eq!(d.transmission_mode, TransmissionMode::Mode3);
    assert!(d.frequencies.is_empty());
    assert!(TerrestrialDeliverySystemDescriptor::read(&[0x12]).is_none());
}

#[test]
fn partial_reception_reads_service_ids() {
    let d = PartialReceptionDescriptor::read(&[0x04, 0x08, 0x04, 0x09, 0x01]).unwrap();
    assert_eq!(d.service_ids, vec![0x0408, 0x0409]);
}

#[test]
fn emergency_information_reads_area_codes() {
    let data = [0x04, 0x08, 0xC0, 2, 0x12, 0x3F, 0x45, 0x6F, 0x04, 0x09, 0x00, 0];
    let d = EmergencyInformationDescriptor::read(&data).unwrap();
    assert_eq!(d.emergencies.len(), 2);
    let e = &d.emergencies[0];
    assert_eq!(e.service_id, 0x0408);
    assert!(e.start_end_flag);
    assert_eq!(e.signal_level, SignalType::Second);
    assert_eq!(e.area_code, vec![0x123, 0x456]);
    let e = &d.emergencies[1];
    assert!(!e.start_end_flag);
    assert_eq!(e.signal_level, SignalType::First);
    assert!(e.area_code.is_empty());

    // the area codes run past the data
    assert!(EmergencyInformationDescriptor::read(&[0x04, 0x08, 0x80, 2, 0x12]).is_none());
    assert!(EmergencyInformationDescriptor::read(&[0x04, 0x08, 0x80]).is_none());
}

#[test]
fn data_component_reads_additional_info() {
    let d = DataComponentDescriptor::read(&[0x00, 0x0C, 0x01, 0x02]).unwrap();
    assert_eq!(d.data_component_id, 0x0C);
    assert_eq!(d.additional_data_component_info, &[0x01, 0x02]);
    assert!(DataComponentDescriptor::read(&[0x00]).is_none());
}

#[test]
fn system_management_reads_broadcasting_type() {
    let d = SystemManagementDescriptor::read(&[0x03, 0x01, 0x99]).unwrap();
    assert_eq!(d.broadcasting_flag, BroadcastingType::Broadcasting);
    assert_eq!(
        d.broadcasting_identifier,
        BroadcastingSystem(BroadcastingSystem::TERRESTRIAL_TELEVISION)
    );
    assert_eq!(d.additional_broadcasting_identification, 1);
    assert_eq!(d.additional_identification_info, &[0x99]);

    let d = SystemManagementDescriptor::read(&[0x82, 0x00]).unwrap();
    assert_eq!(d.broadcasting_flag, BroadcastingType::Nonbroadcasting);
    assert_eq!(d.broadcasting_identifier.0, 2);
    let d = SystemManagementDescriptor::read(&[0xC1, 0x00]).unwrap();
    assert_eq!(d.broadcasting_flag, BroadcastingType::Undefined);
    assert!(SystemManagementDescriptor::read(&[0x03]).is_none());
}
