use tavoo::isdb::lang::LangCode;
use tavoo::isdb::psi::desc::b10::{
    AudioComponentDescriptor, ComponentGroupDescriptor, DigitalCopyControlDescriptor,
    ExtendedBroadcasterDescriptor, EventGroup, EventGroupDescriptor,
    ExtendedEventDescriptor, HyperlinkDescriptor, QualityIndicator, SamplingFrequency,
    SelectorInfo, TsInformationDescriptor,
};
use tavoo::isdb::psi::desc::b21::{CompatibilityDescriptor, DownloadContentDescriptor};
use tavoo::isdb::psi::desc::Descriptor;

#[test]
fn digital_copy_control_with_components() {
    // recording control 2, bitrate flag, component flag, copy control type 1, aps 3
    let data = [0b10_1_1_01_11, 0x40, 5, 0x10, 0b01_1_0_01_10, 0x22, 0x11, 0b00_0_0_00_00];
    let d = DigitalCopyControlDescriptor::read(&data).unwrap();
    assert_eq!(d.digital_recording_control_data, 2);
    assert_eq!(d.copy_control_type, 1);
    assert_eq!(d.aps_control_data, Some(3));
    assert_eq!(d.maximum_bitrate, Some(0x40));
    let cc = d.component_controls.unwrap();
    assert_eq!(cc.len(), 2);
    assert_eq!(cc[0].component_tag, 0x10);
    assert_eq!(cc[0].digital_recording_control_data, 1);
    assert_eq!(cc[0].copy_control_type, 1);
    assert_eq!(cc[0].aps_control_data, Some(2));
    assert_eq!(cc[0].maximum_bitrate, Some(0x22));
    assert_eq!(cc[1].component_tag, 0x11);
    assert_eq!(cc[1].maximum_bitrate, None);

    let plain = DigitalCopyControlDescriptor::read(&[0b11_0_0_10_00]).unwrap();
    assert_eq!(plain.digital_recording_control_data, 3);
    assert_eq!(plain.copy_control_type, 2);
    assert_eq!(plain.aps_control_data, None);
    assert_eq!(plain.maximum_bitrate, None);
    assert!(plain.component_controls.is_none());

    assert!(DigitalCopyControlDescriptor::read(&[]).is_none());
    // bitrate flag without the bitrate byte
    assert!(DigitalCopyControlDescriptor::read(&[0b00_1_0_00_00]).is_none());
}

#[test]
fn ts_information_reads_transmission_types() {
    let data = [0x05, (3 << 2) | 2, b'N', b'H', b'K', 0x0F, 2, 0x04, 0x08, 0x04, 0x09, 0xAF, 0];
    let d = TsInformationDescriptor::read(&data).unwrap();
    assert_eq!(d.remote_control_key_id, 5);
    assert_eq!(d.ts_name.as_bytes(), b"NHK");
    assert_eq!(d.transmission_types.len(), 2);
    assert_eq!(d.transmission_types[0].transmission_type_info, 0x0F);
    assert_eq!(d.transmission_types[0].service_ids, vec![0x0408, 0x0409]);
    assert_eq!(d.transmission_types[1].transmission_type_info, 0xAF);
    assert!(d.transmission_types[1].service_ids.is_empty());

    assert!(TsInformationDescriptor::read(&[0x05, 0x00]).is_none());
    // a count of two service identifiers takes four bytes
    let d = TsInformationDescriptor::read(&[0x05, 0x01, 0x01, 0x02, 0x00, 0x10, 0x00, 0x20]).unwrap();
    assert_eq!(d.transmission_types[0].service_ids, vec![0x0010, 0x0020]);
    assert!(TsInformationDescriptor::read(&[0x05, 0x01, 0x01, 0x02, 0x00, 0x10]).is_none());
    // a transmission type announced but missing
    assert!(TsInformationDescriptor::read(&[0x05, 0x01, 0x00]).is_none());
}

#[test]
fn extended_event_reads_items_and_text() {
    let data = [
        0x12, b'j', b'p', b'n', 7, 2, b'a', b'b', 3, b'c', b'd', b'e', 2, b'x', b'y',
    ];
    let d = ExtendedEventDescriptor::read(&data).unwrap();
    assert_eq!(d.descriptor_number, 1);
    assert_eq!(d.last_descriptor_number, 2);
    assert_eq!(d.lang_code, LangCode(*b"jpn"));
    assert_eq!(d.items.len(), 1);
    assert_eq!(d.items[0].item_description.as_bytes(), b"ab");
    assert_eq!(d.items[0].item.as_bytes(), b"cde");
    assert_eq!(d.text.as_bytes(), b"xy");
    // item length running past the loop
    assert!(ExtendedEventDescriptor::read(&[0x12, b'j', b'p', b'n', 3, 5, b'a', b'b']).is_none());
}

#[test]
fn hyperlink_to_event() {
    let data = [0x01, 0x02, 8, 0x7F, 0xE1, 0x7F, 0xE2, 0x04, 0x08, 0x12, 0x34, 0xAA];
    let d = HyperlinkDescriptor::read(&data).unwrap();
    assert_eq!(d.hyper_linkage_type, 1);
    match d.selector {
        SelectorInfo::LinkEventInfo(e) => {
            assert_eq!(e.original_network_id.get(), 0x7FE1);
            assert_eq!(e.transport_stream_id.get(), 0x7FE2);
            assert_eq!(e.service_id.get(), 0x0408);
            assert_eq!(e.event_id.get(), 0x1234);
        },
        _ => panic!("not an event link"),
    }
    assert_eq!(d.private_data, &[0xAA]);

    // an event identifier of zero is refused
    let bad = [0x01, 0x02, 8, 0x7F, 0xE1, 0x7F, 0xE2, 0x04, 0x08, 0x00, 0x00];
    assert!(HyperlinkDescriptor::read(&bad).is_none());
    // an event link of the wrong length
    assert!(HyperlinkDescriptor::read(&[0x01, 0x02, 2, 0x7F, 0xE1]).is_none());
}

#[test]
fn audio_component_with_second_language() {
    let mut data = vec![0xF2, 0x03, 0x10, 0x0F, 0x01, 0b1_1_11_111_0];
    data.extend(b"jpn");
    data.extend(b"eng");
    data.extend(b"AB");
    let d = AudioComponentDescriptor::read(&data).unwrap();
    assert_eq!(d.stream_content, 2);
    assert_eq!(d.component_type, 3);
    assert_eq!(d.component_tag, 0x10);
    assert_eq!(d.stream_type.0, 0x0F);
    assert_eq!(d.simulcast_group_tag, 1);
    assert!(d.main_component_flag);
    assert_eq!(d.quality_indicator, QualityIndicator::Mode3);
    assert_eq!(d.sampling_rate, SamplingFrequency::SF48k);
    assert_eq!(d.lang_code, LangCode(*b"jpn"));
    assert_eq!(d.lang_code_2, Some(LangCode(*b"eng")));
    assert_eq!(d.text.as_bytes(), b"AB");

    let mut single = vec![0x02, 0x03, 0x10, 0x0F, 0x01, 0b0_0_01_100_0];
    single.extend(b"jpn");
    let d = AudioComponentDescriptor::read(&single).unwrap();
    assert_eq!(d.lang_code_2, None);
    assert_eq!(d.sampling_rate, SamplingFrequency::Reserved);
    assert_eq!(d.quality_indicator, QualityIndicator::Mode1);
    assert!(AudioComponentDescriptor::read(&single[..8]).is_none());
}

#[test]
fn event_group_common_and_relay() {
    let data = [0x11, 0x04, 0x08, 0x12, 0x34, 0xDE, 0xAD];
    let d = EventGroupDescriptor::read(&data).unwrap();
    assert_eq!(d.events.len(), 1);
    assert_eq!(d.events[0].service_id.get(), 0x0408);
    assert_eq!(d.events[0].event_id.get(), 0x1234);
    match d.group {
        EventGroup::Common(rest) => assert_eq!(rest, &[0xDE, 0xAD]),
        _ => panic!("not a common event group"),
    }

    let relay = [0x40, 0x7F, 0xE1, 0x7F, 0xE2, 0x04, 0x08, 0x12, 0x34];
    let d = EventGroupDescriptor::read(&relay).unwrap();
    assert!(d.events.is_empty());
    match d.group {
        EventGroup::RelayToOtherNetworks(v) => {
            assert_eq!(v.len(), 1);
            assert_eq!(v[0].original_network_id.get(), 0x7FE1);
            assert_eq!(v[0].event_id.get(), 0x1234);
        },
        _ => panic!("not a relay to other networks"),
    }
    // an actual event with a zero service identifier
    assert!(EventGroupDescriptor::read(&[0x11, 0, 0, 0x12, 0x34]).is_none());
}

#[test]
fn download_content_with_everything() {
    let mut data = vec![
        0xF8, 0x00, 0x01, 0x00, 0x00, 0x12, 0x34, 0x56, 0x78, 0x00, 0x00, 0x27, 0x10, 0xAB, 0xCD,
        0xEF, 0x07,
    ];
    // compatibility descriptor: length 15, one entry with one sub-descriptor
    data.extend([0x00, 0x0F, 0x00, 0x01]);
    data.extend([0x01, 0x0B, 0x01, 0xAA, 0xBB, 0xCC, 0x12, 0x34, 0x00, 0x01, 0x01, 0x02, 0x00]);
    // one module
    data.extend([0x00, 0x01, 0x00, 0x05, 0x00, 0x00, 0x01, 0x00, 0x02, 0xDE, 0xAD]);
    // private data, then the service description
    data.extend([0x01, 0x99]);
    data.extend(b"jpn");
    data.extend([0x02, b'a', b'b']);

    let d = DownloadContentDescriptor::read(&data).unwrap();
    assert!(d.reboot);
    assert!(d.add_on);
    assert_eq!(d.component_size, 65536);
    assert_eq!(d.download_id, 0x12345678);
    assert_eq!(d.time_out_value_dii, 10000);
    assert_eq!(d.leak_rate, 0xABCDEF07u32 >> 10);
    assert_eq!(d.component_tag, 0x07);
    let cd = d.compatibility_descriptors.as_ref().unwrap();
    assert_eq!(cd.len(), 1);
    assert_eq!(cd[0].descriptor_type, 0x01);
    assert_eq!(cd[0].specifier_type, 0x01);
    assert_eq!(cd[0].specifier_data, [0xAA, 0xBB, 0xCC]);
    assert_eq!(cd[0].model, 0x1234);
    assert_eq!(cd[0].version, 0x0001);
    assert_eq!(cd[0].sub_descriptors.len(), 1);
    assert_eq!(cd[0].sub_descriptors[0].sub_descriptor_type, 0x02);
    assert!(cd[0].sub_descriptors[0].additional_information.is_empty());
    let m = d.modules.as_ref().unwrap();
    assert_eq!(m.len(), 1);
    assert_eq!(m[0].module_id, 5);
    assert_eq!(m[0].module_size, 0x100);
    assert_eq!(m[0].module_info, &[0xDE, 0xAD]);
    assert_eq!(d.private_data, &[0x99]);
    let sd = d.service_descs.as_ref().unwrap();
    assert_eq!(sd.lang_code, LangCode(*b"jpn"));
    assert_eq!(sd.text.as_bytes(), b"ab");

    // a module announced but cut short
    let mut cut = data[..17].to_vec();
    cut[0] = 0x10;
    cut.extend([0x00, 0x01, 0x00, 0x05]);
    assert!(DownloadContentDescriptor::read(&cut).is_none());
}

#[test]
fn compatibility_descriptor_lengths() {
    let data = [0x00, 0x02, 0x00, 0x00, 0x77];
    let (entries, rest) = CompatibilityDescriptor::read(&data).unwrap();
    assert!(entries.is_empty());
    assert_eq!(rest, &[0x77]);
    // a length that cannot hold the entry count
    assert!(CompatibilityDescriptor::read(&[0x00, 0x01, 0x00, 0x00]).is_none());
    // an entry announced but missing
    assert!(CompatibilityDescriptor::read(&[0x00, 0x02, 0x00, 0x01]).is_none());
}

#[test]
fn extended_broadcaster_terrestrial_television() {
    let data = [0x1F, 0x12, 0x34, 0x21, 0xA0, 0x7F, 0xE1, 0x05, 0xEE];
    match ExtendedBroadcasterDescriptor::read(&data).unwrap() {
        ExtendedBroadcasterDescriptor::DigitalTerrestrialTelevisionBroadcast(b) => {
            assert_eq!(b.terrestrial_broadcaster_id, 0x1234);
            assert_eq!(b.affiliation_id, &[0xA0, 0x7F]);
            // the broadcaster loop takes the three bytes after the affiliations
            assert_eq!(b.broadcaster_ids.len(), 1);
            assert_eq!(b.broadcaster_ids[0].original_network_id.get(), 0xE105);
            assert_eq!(b.broadcaster_ids[0].broadcaster_id, 0xEE);
            assert!(b.private_data.is_empty());
        },
        _ => panic!("not a terrestrial television broadcaster"),
    }
    match ExtendedBroadcasterDescriptor::read(&[0x30, 1, 2]).unwrap() {
        ExtendedBroadcasterDescriptor::Unknown(rest) => assert_eq!(rest, &[1, 2]),
        _ => panic!("not unknown"),
    }
    assert!(ExtendedBroadcasterDescriptor::read(&[0x10, 0x12]).is_none());
    // a broadcaster with a zero original network identifier
    assert!(ExtendedBroadcasterDescriptor::read(&[0x10, 0x12, 0x34, 0x01, 0, 0, 5]).is_none());
}

#[test]
fn component_group_with_ca_unit() {
    let data = [0x11, 0x21, 0x32, 0xAA, 0x40, 0x02, b'o', b'k'];
    let d = ComponentGroupDescriptor::read(&data).unwrap();
    assert_eq!(d.component_group_type, 0);
    assert_eq!(d.groups.len(), 1);
    let g = &d.groups[0];
    assert_eq!(g.component_group_id, 2);
    assert_eq!(g.ca_units.len(), 1);
    assert_eq!(g.ca_units[0].ca_unit_id, 3);
    assert_eq!(g.ca_units[0].component_tag, &[0x32, 0xAA]);
    assert_eq!(g.total_bit_rate, Some(0x40));
    assert_eq!(g.text.as_bytes(), b"ok");
    // the text length is missing
    assert!(ComponentGroupDescriptor::read(&[0x01, 0x00]).is_none());
}
