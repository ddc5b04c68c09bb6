use tavoo::isdb::lang::LangCode;
use tavoo::isdb::psi::desc::b10::{
    BroadcasterNameDescriptor, CableDeliverySystemDescriptor, ComponentDescriptor,
    ContentDescriptor, DataContentDescriptor, HierarchicalTransmissionDescriptor,
    LdtLinkageDescriptor, LinkageDescriptor, LocalTimeOffsetDescriptor,
    LogoTransmissionDescriptor, NetworkNameDescriptor, PrefectureBitmap, ProgramPattern,
    SeriesDescriptor, ShortEventDescriptor, SiParameterDescriptor, StreamIdDescriptor, StreamType,
    TargetRegionDescriptor, TargetRegionSpec, VideoDecodeControlDescriptor, VideoEncodeFormat,
};
use tavoo::isdb::psi::desc::b25::{
    CaContractInfoDescriptor, CaEmmTsDescriptor, CaServiceDescriptor,
};
use tavoo::isdb::psi::desc::Descriptor;
use tavoo::isdb::time::MjdDate;

#[test]
fn names_take_all_bytes() {
    let d = NetworkNameDescriptor::read(b"NHK").unwrap();
    assert_eq!(d.network_name.as_bytes(), b"NHK");
    let d = BroadcasterNameDescriptor::read(b"BS").unwrap();
    assert_eq!(d.broadcaster_name.as_bytes(), b"BS");
    assert!(NetworkNameDescriptor::read(&[]).unwrap().network_name.is_empty());
}

#[test]
fn cable_delivery_reads_bcd_fields() {
    let data = [0x00, 0x05, 0x15, 0x00, 0xFF, 0xF2, 0x03, 0x00, 0x52, 0x74, 0x0F];
    let d = CableDeliverySystemDescriptor::read(&data).unwrap();
    assert_eq!(d.frequency, 51500);
    assert_eq!(d.frame_type, 0xF);
    assert_eq!(d.fec_outer, 2);
    assert_eq!(d.modulation, 3);
    assert_eq!(d.symbol_rate, 52740);
    assert_eq!(d.fec_inner, 0xF);
    assert!(CableDeliverySystemDescriptor::read(&data[..10]).is_none());
}

#[test]
fn short_event_reads_name_and_text() {
    let data = [b'j', b'p', b'n', 2, b'a', b'b', 3, b'x', b'y', b'z'];
    let d = ShortEventDescriptor::read(&data).unwrap();
    assert_eq!(d.lang_code, LangCode(*b"jpn"));
    assert_eq!(d.event_name.as_bytes(), b"ab");
    assert_eq!(d.text.as_bytes(), b"xyz");
    // the text length must match what is left
    assert!(ShortEventDescriptor::read(&[b'j', b'p', b'n', 2, b'a', b'b', 4, b'x']).is_none());
    assert!(ShortEventDescriptor::read(&[b'j', b'p', b'n', 3, b'a', b'b']).is_none());
}

#[test]
fn linkage_reads_identifiers() {
    let d = LinkageDescriptor::read(&[0x00, 0x10, 0x00, 0x04, 0x04, 0x08, 0x02, 0xAA]).unwrap();
    assert_eq!(d.transport_stream_id.get(), 0x10);
    assert_eq!(d.original_network_id.get(), 4);
    assert_eq!(d.service_id.get(), 0x0408);
    assert_eq!(d.linkage_type, 2);
    assert_eq!(d.private_data, &[0xAA]);
    assert!(LinkageDescriptor::read(&[0x00, 0x10, 0x00, 0x04, 0x00, 0x00, 0x02]).is_none());
    assert!(LinkageDescriptor::read(&[0x00, 0x10, 0x00, 0x04, 0x04, 0x08]).is_none());
}

#[test]
fn component_reads_text() {
    let d = ComponentDescriptor::read(&[0xF1, 0xB3, 0x00, b'j', b'p', b'n', b'H', b'D']).unwrap();
    assert_eq!(d.stream_content, 1);
    assert_eq!(d.component_type, 0xB3);
    assert_eq!(d.component_tag, 0);
    assert_eq!(d.lang_code, LangCode(*b"jpn"));
    assert_eq!(d.text.as_bytes(), b"HD");
    assert!(ComponentDescriptor::read(&[0xF1, 0xB3, 0x00, b'j', b'p']).is_none());
}

#[test]
fn stream_id_is_one_byte() {
    assert_eq!(StreamIdDescriptor::read(&[0x30]).unwrap().component_tag, 0x30);
    assert!(StreamIdDescriptor::read(&[]).is_none());
    assert!(StreamIdDescriptor::read(&[1, 2]).is_none());
}

#[test]
fn content_reads_up_to_seven_genres() {
    let d = ContentDescriptor::read(&[0x01, 0x23, 0x45, 0x67, 0x89]).unwrap();
    assert_eq!(d.genres.len(), 2);
    assert_eq!(d.genres[0].large_genre_classification, 0);
    assert_eq!(d.genres[0].middle_genre_classification, 1);
    assert_eq!(d.genres[0].user_genre_1, 2);
    assert_eq!(d.genres[0].user_genre_2, 3);
    assert_eq!(d.genres[1].large_genre_classification, 4);
    assert_eq!(d.genres[1].user_genre_2, 7);
    assert_eq!(ContentDescriptor::read(&[0u8; 14]).unwrap().genres.len(), 7);
    assert!(ContentDescriptor::read(&[0u8; 15]).is_none());
}

#[test]
fn local_time_offset_reads_entries() {
    let data = [
        b'J', b'P', b'N', 0x07, 0x09, 0x00, 0xB0, 0xA2, 0x12, 0x00, 0x00, 0x10, 0x00, 0xEE,
    ];
    let d = LocalTimeOffsetDescriptor::read(&data).unwrap();
    assert_eq!(d.time_offsets.len(), 1);
    let e = &d.time_offsets[0];
    assert_eq!(e.country_code, LangCode(*b"JPN"));
    assert_eq!(e.country_region_id, 1);
    assert!(e.local_time_offset_polarity);
    assert_eq!(e.local_time_offset, 0x0900);
    assert_eq!(e.time_of_change.date, MjdDate(0xB0A2));
    assert_eq!(e.time_of_change.hour, 12);
    assert_eq!(e.next_time_offset, 0x1000);
}

#[test]
fn hierarchical_transmission_reads_pid() {
    let d = HierarchicalTransmissionDescriptor::read(&[0xFF, 0xE1, 0x11]).unwrap();
    assert!(d.high_quality);
    assert_eq!(d.reference_pid.0, 0x111);
    assert!(!HierarchicalTransmissionDescriptor::read(&[0xFE, 0xE1, 0x11]).unwrap().high_quality);
    assert!(HierarchicalTransmissionDescriptor::read(&[0xFF, 0xE1]).is_none());
}

#[test]
fn video_decode_control_reads_format() {
    let d = VideoDecodeControlDescriptor::read(&[0x87]).unwrap();
    assert!(d.still_picture_flag);
    assert!(!d.sequence_end_code_flag);
    assert_eq!(d.video_encode_format, VideoEncodeFormat::Vef1080I);
    let d = VideoDecodeControlDescriptor::read(&[0x68]).unwrap();
    assert!(!d.still_picture_flag);
    assert!(d.sequence_end_code_flag);
    assert_eq!(d.video_encode_format, VideoEncodeFormat::Vef4320_60P);
    let d = VideoDecodeControlDescriptor::read(&[0x30]).unwrap();
    assert_eq!(d.video_encode_format, VideoEncodeFormat::Unknown);
    assert_eq!(VideoEncodeFormat::from(7), VideoEncodeFormat::Vef2160_60P);
    assert_eq!(VideoEncodeFormat::from(9), VideoEncodeFormat::Vef2160_120P);
    assert_eq!(VideoEncodeFormat::from(11), VideoEncodeFormat::Vef4320_120P);
    assert!(VideoDecodeControlDescriptor::read(&[0x87, 0x00]).is_none());
}

#[test]
fn target_region_reads_prefecture_bitmap() {
    let d = TargetRegionDescriptor::read(&[0x01, 0x01, 0x20, 0, 0, 0, 0, 0x02]).unwrap();
    let TargetRegionSpec::BsPrefectureSpec(spec) = d.target_region_spec else {
        panic!("not a prefecture designation");
    };
    let bitmap: PrefectureBitmap = spec.prefecture_bitmap;
    assert_eq!(bitmap.0, [0x01, 0x20, 0, 0, 0, 0, 0x02]);
    assert!(bitmap.has_east_hokkaido());
    assert!(!bitmap.has_west_hokkaido());
    assert!(bitmap.has_tokyo());
    assert!(!bitmap.has_chiba());
    assert!(bitmap.has_kagoshima_island());
    assert!(!bitmap.has_tokyo_island());

    let d = TargetRegionDescriptor::read(&[0x02, 0xAA]).unwrap();
    assert!(matches!(d.target_region_spec, TargetRegionSpec::Unknown(&[0xAA])));
    assert!(TargetRegionDescriptor::read(&[0x01, 1, 2, 3]).is_none());
    assert!(TargetRegionDescriptor::read(&[]).is_none());
}

#[test]
fn data_content_reads_selector_and_text() {
    let data = [
        0x00, 0x0C, 0x01, 2, 0xAA, 0xBB, 1, 0x40, b'j', b'p', b'n', 2, b'h', b'i',
    ];
    let d = DataContentDescriptor::read(&data).unwrap();
    assert_eq!(d.data_component_id, 0x0C);
    assert_eq!(d.entry_component, 1);
    assert_eq!(d.selector, &[0xAA, 0xBB]);
    assert_eq!(d.component_ref, &[0x40]);
    assert_eq!(d.lang_code, LangCode(*b"jpn"));
    assert_eq!(d.text.as_bytes(), b"hi");
    assert!(DataContentDescriptor::read(&data[..13]).is_none());
    assert!(DataContentDescriptor::read(&[0x00, 0x0C, 0x01, 5, 0xAA]).is_none());
}

#[test]
fn logo_transmission_reads_each_type() {
    let d = LogoTransmissionDescriptor::read(&[0x01, 0xFE, 0x05, 0xF0, 0x07, 0x00, 0x09]).unwrap();
    let LogoTransmissionDescriptor::Cdt1(c) = d else {
        panic!("not type 1");
    };
    assert_eq!((c.logo_id, c.logo_version, c.download_data_id), (0x005, 0x007, 9));
    let d = LogoTransmissionDescriptor::read(&[0x02, 0x01, 0x23]).unwrap();
    assert!(matches!(d, LogoTransmissionDescriptor::Cdt2(c) if c.logo_id == 0x123));
    let d = LogoTransmissionDescriptor::read(&[0x03, b'a']).unwrap();
    assert!(matches!(d, LogoTransmissionDescriptor::Simple(b"a")));
    let d = LogoTransmissionDescriptor::read(&[0x04, 1]).unwrap();
    assert!(matches!(d, LogoTransmissionDescriptor::Unknown(&[1])));
    assert!(LogoTransmissionDescriptor::read(&[0x01, 1, 2]).is_none());
    assert!(LogoTransmissionDescriptor::read(&[]).is_none());
}

#[test]
fn series_reads_episodes() {
    let data = [0x12, 0x34, 0b0011_010_1, 0xB0, 0xA2, 0x00, 0x50, 0x0A, b'S'];
    let d = SeriesDescriptor::read(&data).unwrap();
    assert_eq!(d.series_id, 0x1234);
    assert_eq!(d.repeat_label, 3);
    assert_eq!(d.program_pattern, ProgramPattern::OnceAWeek);
    assert_eq!(d.expire_date, Some(MjdDate(0xB0A2)));
    assert_eq!(d.episode_number, 5);
    assert_eq!(d.last_episode_number, 10);
    assert_eq!(d.series_name.as_bytes(), b"S");

    let mut no_expiry = data;
    no_expiry[2] = 0b0000_111_0;
    let d = SeriesDescriptor::read(&no_expiry).unwrap();
    assert_eq!(d.program_pattern, ProgramPattern::Undefined);
    assert_eq!(d.expire_date, None);
    assert!(SeriesDescriptor::read(&data[..7]).is_none());
}

#[test]
fn si_parameter_reads_tables() {
    let data = [0x01, 0xB0, 0xA2, 0x40, 2, 0xAA, 0xBB, 0x42, 0];
    let d = SiParameterDescriptor::read(&data).unwrap();
    assert_eq!(d.parameter_version, 1);
    assert_eq!(d.update_time, MjdDate(0xB0A2));
    assert_eq!(d.tables.len(), 2);
    assert_eq!(d.tables[0].table_id, 0x40);
    assert_eq!(d.tables[0].table_description, &[0xAA, 0xBB]);
    assert_eq!(d.tables[1].table_id, 0x42);
    assert!(d.tables[1].table_description.is_empty());
    assert!(SiParameterDescriptor::read(&data[..8]).is_none());
    assert!(SiParameterDescriptor::read(&[0x01, 0xB0]).is_none());
}

#[test]
fn ldt_linkage_reads_linked_descriptions() {
    let data = [0x04, 0x08, 0x00, 0x10, 0x00, 0x04, 0x00, 0x01, 0xF3, 0x07, 0xFF];
    let d = LdtLinkageDescriptor::read(&data).unwrap();
    assert_eq!(d.original_service_id.get(), 0x0408);
    assert_eq!(d.transport_stream_id.get(), 0x10);
    assert_eq!(d.original_network_id.get(), 4);
    assert_eq!(d.descriptors.len(), 1);
    assert_eq!(d.descriptors[0].description_id, 1);
    assert_eq!(d.descriptors[0].description_type, 3);
    assert_eq!(d.descriptors[0].user_defined, 7);
    assert!(LdtLinkageDescriptor::read(&[0x00, 0x00, 0x00, 0x10, 0x00, 0x04]).is_none());
}

#[test]
fn ca_emm_ts_reads_fixed_fields() {
    let d = CaEmmTsDescriptor::read(&[0x00, 0x05, 0x00, 0x10, 0x00, 0x04, 0x0A]).unwrap();
    assert_eq!(d.ca_system_id, 5);
    assert_eq!(d.transport_stream_id.get(), 0x10);
    assert_eq!(d.original_network_id.get(), 4);
    assert_eq!(d.power_supply_period, 10);
    assert!(CaEmmTsDescriptor::read(&[0x00, 0x05, 0x00, 0x10, 0x00, 0x04]).is_none());
    assert!(CaEmmTsDescriptor::read(&[0x00, 0x05, 0x00, 0x00, 0x00, 0x04, 0x0A]).is_none());
}

#[test]
fn ca_contract_info_reads_fee_name() {
    let data = [0x00, 0x05, 0x12, 0x30, 0x31, 2, 0xAA, 0xBB, 3, b'f', b'e', b'e', 0xFF];
    let d = CaContractInfoDescriptor::read(&data).unwrap();
    assert_eq!(d.ca_system_id, 5);
    assert_eq!(d.ca_unit_id, 1);
    assert_eq!(d.component_tag, &[0x30, 0x31]);
    assert_eq!(d.contract_verification_info, &[0xAA, 0xBB]);
    assert_eq!(d.fee_name.as_bytes(), b"fee");
    // a fee name longer than what is left
    assert!(CaContractInfoDescriptor::read(&data[..11]).is_none());
    assert!(CaContractInfoDescriptor::read(&[0x00, 0x05]).is_none());
}

#[test]
fn ca_service_reads_service_ids() {
    let d = CaServiceDescriptor::read(&[0x00, 0x05, 0x01, 0x02, 0x04, 0x08, 0x04, 0x09, 0x01])
        .unwrap();
    assert_eq!(d.ca_system_id, 5);
    assert_eq!(d.ca_broadcaster_group_id, 1);
    assert_eq!(d.message_control, 2);
    assert_eq!(d.service_ids, vec![0x0408, 0x0409]);
    assert!(CaServiceDescriptor::read(&[0x00, 0x05, 0x01]).is_none());
}

#[test]
fn stream_type_as_text() {
    assert_eq!(StreamType(0x1B).to_debug_string(), "StreamType(0x1B)");
    assert_eq!(StreamType(0x02).to_debug_string(), "StreamType(0x02)");
    assert_eq!(StreamType(0xFF).to_debug_string(), "StreamType(0xFF)");
}
