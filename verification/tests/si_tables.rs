use tavoo::isdb::crc::crc32;
use tavoo::isdb::psi::table::b10::{
    Bat, Bit, Ert, ErtCollectionMode, ErtRelationType, Itt, Ldt, Lit, Nbit,
    NbitDescriptionBodyLocation, NbitInformationType, Rst, RunningStatus, Sdt, Tot,
};
use tavoo::isdb::psi::table::b21::{Cdt, CdtDataType, Dit, Sit};
use tavoo::isdb::psi::table::iso::Cat;
use tavoo::isdb::psi::{PsiSection, PsiTable};
use tavoo::isdb::time::MjdDate;

fn long_section(table_id: u8, ext: u16, body: &[u8]) -> Vec<u8> {
    let len = 5 + body.len() + 4;
    let mut v = vec![
        table_id,
        0xB0 | (len >> 8) as u8,
        len as u8,
        (ext >> 8) as u8,
        ext as u8,
        0xC1,
        0x00,
        0x00,
    ];
    v.extend_from_slice(body);
    let crc = crc32(&v);
    v.extend_from_slice(&crc.to_be_bytes());
    v
}

fn short_section(table_id: u8, body: &[u8]) -> Vec<u8> {
    let len = body.len() + 4;
    let mut v = vec![table_id, 0x70 | (len >> 8) as u8, len as u8];
    v.extend_from_slice(body);
    let crc = crc32(&v);
    v.extend_from_slice(&crc.to_be_bytes());
    v
}

#[test]
fn sdt_reads_services() {
    let body = [
        0x00, 0x04, 0xFF, // network 4, reserved
        0x04, 0x08, 0b0001_0101, 0x90, 0x03, 0xAB, 0x01, 0x00, // running, scrambled
        0x04, 0x09, 0x00, 0x20, 0x00, // not running, no descriptors
    ];
    let bytes = long_section(0x42, 0x0010, &body);
    let (psi, _) = PsiSection::parse(&bytes).unwrap();
    let Some(Sdt::Actual(sdt)) = Sdt::read(&psi) else {
        panic!("not an actual SDT");
    };
    assert_eq!(sdt.transport_stream_id.get(), 0x0010);
    assert_eq!(sdt.original_network_id.get(), 4);
    assert_eq!(sdt.services.len(), 2);
    let s = &sdt.services[0];
    assert_eq!(s.service_id.get(), 0x0408);
    assert!(s.h_eit_flag && !s.m_eit_flag && s.l_eit_flag);
    assert!(!s.eit_schedule_flag && s.eit_present_following_flag);
    assert_eq!(s.running_status, RunningStatus::Running);
    assert!(s.free_ca_mode);
    assert_eq!(s.descriptors.as_bytes(), &[0xAB, 0x01, 0x00]);
    let s = &sdt.services[1];
    assert_eq!(s.service_id.get(), 0x0409);
    assert_eq!(s.running_status, RunningStatus::NotRunning);
    assert!(!s.free_ca_mode);
    assert!(s.descriptors.as_bytes().is_empty());

    let bytes = long_section(0x46, 0x0010, &body);
    let (psi, _) = PsiSection::parse(&bytes).unwrap();
    assert!(matches!(Sdt::read(&psi), Some(Sdt::Other(_))));

    let bytes = long_section(0x43, 0x0010, &body);
    let (psi, _) = PsiSection::parse(&bytes).unwrap();
    assert!(Sdt::read(&psi).is_none());

    // a service entry cut short
    let bytes = long_section(0x42, 0x0010, &body[..body.len() - 1]);
    let (psi, _) = PsiSection::parse(&bytes).unwrap();
    assert!(Sdt::read(&psi).is_none());

    // service identifier zero
    let bytes = long_section(0x42, 0x0010, &[0x00, 0x04, 0xFF, 0x00, 0x00, 0x00, 0x20, 0x00]);
    let (psi, _) = PsiSection::parse(&bytes).unwrap();
    assert!(Sdt::read(&psi).is_none());

    // transport stream identifier zero
    let bytes = long_section(0x42, 0x0000, &body);
    let (psi, _) = PsiSection::parse(&bytes).unwrap();
    assert!(Sdt::read(&psi).is_none());
}

#[test]
fn bat_reads_transport_streams() {
    let body = [
        0xF0, 0x02, 0xAA, 0x00, // bouquet descriptors
        0xF0, 0x08, // transport stream loop
        0x00, 0x10, 0x00, 0x04, 0xF0, 0x02, 0xBB, 0x00,
    ];
    let bytes = long_section(0x4A, 0x1234, &body);
    let (psi, _) = PsiSection::parse(&bytes).unwrap();
    let bat = Bat::read(&psi).unwrap();
    assert_eq!(bat.bouquet_id, 0x1234);
    assert_eq!(bat.bouquet_descriptors.as_bytes(), &[0xAA, 0x00]);
    assert_eq!(bat.transport_streams.len(), 1);
    assert_eq!(bat.transport_streams[0].transport_stream_id.get(), 0x10);
    assert_eq!(bat.transport_streams[0].original_network_id.get(), 4);
    assert_eq!(bat.transport_streams[0].transport_descriptors.as_bytes(), &[0xBB, 0x00]);

    // the loop length runs past the data
    let mut long = body;
    long[5] = 0x09;
    let bytes = long_section(0x4A, 0x1234, &long);
    let (psi, _) = PsiSection::parse(&bytes).unwrap();
    assert!(Bat::read(&psi).is_none());

    let bytes = long_section(0x4B, 0x1234, &body);
    let (psi, _) = PsiSection::parse(&bytes).unwrap();
    assert!(Bat::read(&psi).is_none());
}

#[test]
fn rst_reads_statuses() {
    let body = [
        0x00, 0x10, 0x00, 0x04, 0x04, 0x08, 0x12, 0x34, 0xF4, // running
        0x00, 0x11, 0x00, 0x05, 0x04, 0x09, 0x56, 0x78, 0xFF, // reserved value 7
        0xAA, 0xBB, // an incomplete entry is left aside
    ];
    let bytes = short_section(0x71, &body);
    let (psi, _) = PsiSection::parse(&bytes).unwrap();
    let rst = Rst::read(&psi).unwrap();
    assert_eq!(rst.statuses.len(), 2);
    let s = &rst.statuses[0];
    assert_eq!(s.transport_stream_id.get(), 0x10);
    assert_eq!(s.original_network_id.get(), 4);
    assert_eq!(s.service_id.get(), 0x0408);
    assert_eq!(s.event_id.get(), 0x1234);
    assert_eq!(s.running_status, RunningStatus::Running);
    assert_eq!(rst.statuses[1].running_status, RunningStatus::Reserved);

    // event identifier zero
    let bytes = short_section(0x71, &[0x00, 0x10, 0x00, 0x04, 0x04, 0x08, 0x00, 0x00, 0xF4]);
    let (psi, _) = PsiSection::parse(&bytes).unwrap();
    assert!(Rst::read(&psi).is_none());
}

#[test]
fn tot_reads_time_and_descriptors() {
    let body = [0xB0, 0xA2, 0x12, 0x34, 0x56, 0xF0, 0x03, 0x58, 0x01, 0x00];
    let bytes = short_section(0x73, &body);
    let (psi, _) = PsiSection::parse(&bytes).unwrap();
    let tot = Tot::read(&psi).unwrap();
    assert_eq!(tot.jst_time.date, MjdDate(0xB0A2));
    assert_eq!((tot.jst_time.hour, tot.jst_time.minute, tot.jst_time.second), (12, 34, 56));
    assert_eq!(tot.descriptors.as_bytes(), &[0x58, 0x01, 0x00]);

    let bytes = short_section(0x73, &body[..6]);
    let (psi, _) = PsiSection::parse(&bytes).unwrap();
    assert!(Tot::read(&psi).is_none());
}

#[test]
fn bit_reads_broadcasters() {
    let body = [0xF0, 0x02, 0xCC, 0x00, 0x01, 0xF0, 0x00, 0x02, 0xF0, 0x02, 0xDD, 0x00];
    let bytes = long_section(0xC4, 0x0004, &body);
    let (psi, _) = PsiSection::parse(&bytes).unwrap();
    let bit = Bit::read(&psi).unwrap();
    assert_eq!(bit.original_network_id.get(), 4);
    assert!(bit.broadcast_view_propriety);
    assert_eq!(bit.first_descriptors.as_bytes(), &[0xCC, 0x00]);
    assert_eq!(bit.broadcasters.len(), 2);
    assert_eq!(bit.broadcasters[0].broadcaster_id, 1);
    assert!(bit.broadcasters[0].broadcaster_descriptors.as_bytes().is_empty());
    assert_eq!(bit.broadcasters[1].broadcaster_id, 2);
    assert_eq!(bit.broadcasters[1].broadcaster_descriptors.as_bytes(), &[0xDD, 0x00]);

    let bytes = long_section(0xC4, 0x0004, &[0xE0, 0x00]);
    let (psi, _) = PsiSection::parse(&bytes).unwrap();
    let bit = Bit::read(&psi).unwrap();
    assert!(!bit.broadcast_view_propriety);
    assert!(bit.broadcasters.is_empty());

    // a broadcaster entry cut short
    let bytes = long_section(0xC4, 0x0004, &[0xE0, 0x00, 0x01, 0xF0]);
    let (psi, _) = PsiSection::parse(&bytes).unwrap();
    assert!(Bit::read(&psi).is_none());
}

#[test]
fn nbit_reads_informations() {
    let body = [
        0x00, 0x01, 0x15, 0x07, 2, 0x12, 0x34, 0x56, 0x78, 0xF0, 0x00, //
        0x00, 0x02, 0x3B, 0x00, 0, 0xF0, 0x02, 0xEE, 0x00,
    ];
    let bytes = long_section(0xC5, 0x0004, &body);
    let (psi, _) = PsiSection::parse(&bytes).unwrap();
    let Some(Nbit::Body(nbit)) = Nbit::read(&psi) else {
        panic!("not an NBIT body");
    };
    assert_eq!(nbit.original_network_id.get(), 4);
    assert_eq!(nbit.informations.len(), 2);
    let i = &nbit.informations[0];
    assert_eq!(i.information_id, 1);
    assert_eq!(i.information_type, NbitInformationType::Information);
    assert_eq!(i.description_body_location, NbitDescriptionBodyLocation::InActualTsTable);
    assert_eq!(i.user_defined, 7);
    assert_eq!(i.keys, vec![0x1234, 0x5678]);
    assert!(i.descriptors.as_bytes().is_empty());
    let i = &nbit.informations[1];
    assert_eq!(i.information_type, NbitInformationType::WithGenre);
    assert_eq!(i.description_body_location, NbitDescriptionBodyLocation::InSiPrimeTsTable);
    assert!(i.keys.is_empty());
    assert_eq!(i.descriptors.as_bytes(), &[0xEE, 0x00]);

    let bytes = long_section(0xC6, 0x0004, &[0x00, 0x01, 0x4C, 0x00, 0, 0xF0, 0x00]);
    let (psi, _) = PsiSection::parse(&bytes).unwrap();
    let Some(Nbit::Ref(nbit)) = Nbit::read(&psi) else {
        panic!("not an NBIT reference");
    };
    assert_eq!(nbit.informations[0].information_type, NbitInformationType::Reserved);
    assert_eq!(
        nbit.informations[0].description_body_location,
        NbitDescriptionBodyLocation::Reserved
    );

    // keys running past the data
    let bytes = long_section(0xC5, 0x0004, &[0x00, 0x01, 0x15, 0x07, 3, 0x12, 0x34, 0xF0, 0x00]);
    let (psi, _) = PsiSection::parse(&bytes).unwrap();
    assert!(Nbit::read(&psi).is_none());
}

#[test]
fn ldt_reads_descriptions() {
    let body = [0x00, 0x10, 0x00, 0x04, 0x00, 0x01, 0xFF, 0xF0, 0x02, 0xDD, 0x00];
    let bytes = long_section(0xC7, 0x0408, &body);
    let (psi, _) = PsiSection::parse(&bytes).unwrap();
    let ldt = Ldt::read(&psi).unwrap();
    assert_eq!(ldt.original_service_id.get(), 0x0408);
    assert_eq!(ldt.transport_stream_id.get(), 0x10);
    assert_eq!(ldt.original_network_id.get(), 4);
    assert_eq!(ldt.descriptions.len(), 1);
    assert_eq!(ldt.descriptions[0].description_id, 1);
    assert_eq!(ldt.descriptions[0].descriptors.as_bytes(), &[0xDD, 0x00]);

    let bytes = long_section(0xC7, 0x0408, &body[..10]);
    let (psi, _) = PsiSection::parse(&bytes).unwrap();
    assert!(Ldt::read(&psi).is_none());
}

#[test]
fn lit_reads_local_events() {
    let body = [0x04, 0x08, 0x00, 0x10, 0x00, 0x04, 0x00, 0x05, 0xF0, 0x02, 0xEE, 0x00];
    let bytes = long_section(0xD0, 0x1234, &body);
    let (psi, _) = PsiSection::parse(&bytes).unwrap();
    let lit = Lit::read(&psi).unwrap();
    assert_eq!(lit.event_id.get(), 0x1234);
    assert_eq!(lit.service_id.get(), 0x0408);
    assert_eq!(lit.transport_stream_id.get(), 0x10);
    assert_eq!(lit.original_network_id.get(), 4);
    assert_eq!(lit.local_events.len(), 1);
    assert_eq!(lit.local_events[0].local_event_id, 5);
    assert_eq!(lit.local_events[0].descriptors.as_bytes(), &[0xEE, 0x00]);

    let bytes = long_section(0xD0, 0x0000, &body);
    let (psi, _) = PsiSection::parse(&bytes).unwrap();
    assert!(Lit::read(&psi).is_none());
}

#[test]
fn ert_reads_nodes() {
    let body = [0x00, 0x02, 0x2F, 0x00, 0x01, 0x3F, 0x00, 0x00, 0x07, 0xF0, 0x00];
    let bytes = long_section(0xD1, 0x0101, &body);
    let (psi, _) = PsiSection::parse(&bytes).unwrap();
    let ert = Ert::read(&psi).unwrap();
    assert_eq!(ert.event_relation_id, 0x0101);
    assert_eq!(ert.information_provider_id, 2);
    assert_eq!(ert.relation_type, ErtRelationType::Navigation);
    assert_eq!(ert.nodes.len(), 1);
    let n = &ert.nodes[0];
    assert_eq!(n.node_id, 1);
    assert_eq!(n.collection_mode, ErtCollectionMode::Parallel);
    assert_eq!(n.parent_node_id, 0);
    assert_eq!(n.reference_number, 7);
    assert!(n.descriptors.as_bytes().is_empty());

    let bytes = long_section(0xD1, 0x0101, &[0x00, 0x02, 0x1F]);
    let (psi, _) = PsiSection::parse(&bytes).unwrap();
    let ert = Ert::read(&psi).unwrap();
    assert_eq!(ert.relation_type, ErtRelationType::ContentsDescription);
    assert!(ert.nodes.is_empty());

    // a node shorter than eight bytes
    let bytes = long_section(0xD1, 0x0101, &body[..10]);
    let (psi, _) = PsiSection::parse(&bytes).unwrap();
    assert!(Ert::read(&psi).is_none());
}

#[test]
fn itt_reads_descriptors() {
    let bytes = long_section(0xD2, 0x1234, &[0xF0, 0x02, 0xAA, 0x00]);
    let (psi, _) = PsiSection::parse(&bytes).unwrap();
    let itt = Itt::read(&psi).unwrap();
    assert_eq!(itt.event_id.get(), 0x1234);
    assert_eq!(itt.descriptors.as_bytes(), &[0xAA, 0x00]);

    let bytes = long_section(0xD2, 0x0000, &[0xF0, 0x02, 0xAA, 0x00]);
    let (psi, _) = PsiSection::parse(&bytes).unwrap();
    assert!(Itt::read(&psi).is_none());
}

#[test]
fn cat_takes_whole_data_as_descriptors() {
    let body = [0x09, 0x04, 0x00, 0x05, 0xE1, 0x00];
    let bytes = long_section(0x01, 0xFFFF, &body);
    let (psi, _) = PsiSection::parse(&bytes).unwrap();
    let cat = Cat::read(&psi).unwrap();
    assert_eq!(cat.descriptors.as_bytes(), &body);

    let bytes = long_section(0x02, 0xFFFF, &body);
    let (psi, _) = PsiSection::parse(&bytes).unwrap();
    assert!(Cat::read(&psi).is_none());
}

#[test]
fn dit_reads_transition_flag() {
    let bytes = short_section(0x7E, &[0x80]);
    let (psi, _) = PsiSection::parse(&bytes).unwrap();
    assert!(Dit::read(&psi).unwrap().transition_flag);
    let bytes = short_section(0x7E, &[0x7F]);
    let (psi, _) = PsiSection::parse(&bytes).unwrap();
    assert!(!Dit::read(&psi).unwrap().transition_flag);
    let bytes = short_section(0x7E, &[0x80, 0x00]);
    let (psi, _) = PsiSection::parse(&bytes).unwrap();
    assert!(Dit::read(&psi).is_none());
}

#[test]
fn sit_reads_services() {
    let body = [0xF0, 0x02, 0x63, 0x00, 0x04, 0x08, 0xB0, 0x02, 0xC3, 0x00];
    let bytes = long_section(0x7F, 0xFFFF, &body);
    let (psi, _) = PsiSection::parse(&bytes).unwrap();
    let sit = Sit::read(&psi).unwrap();
    assert_eq!(sit.descriptors.as_bytes(), &[0x63, 0x00]);
    assert_eq!(sit.services.len(), 1);
    assert_eq!(sit.services[0].service_id, 0x0408);
    assert_eq!(sit.services[0].running_status, RunningStatus::Pausing);
    assert_eq!(sit.services[0].descriptors.as_bytes(), &[0xC3, 0x00]);

    let bytes = short_section(0x7F, &body);
    let (psi, _) = PsiSection::parse(&bytes).unwrap();
    assert!(Sit::read(&psi).is_none());
}

#[test]
fn cdt_reads_data_module() {
    let body = [0x00, 0x04, 0x01, 0xF0, 0x02, 0xCF, 0x00, 0x89, 0x50, 0x4E, 0x47];
    let bytes = long_section(0xC8, 0x0123, &body);
    let (psi, _) = PsiSection::parse(&bytes).unwrap();
    let cdt = Cdt::read(&psi).unwrap();
    assert_eq!(cdt.download_data_id, 0x0123);
    assert_eq!(cdt.original_network_id, 4);
    assert_eq!(cdt.data_type, CdtDataType(CdtDataType::LOGO));
    assert_eq!(cdt.descriptors.as_bytes(), &[0xCF, 0x00]);
    assert_eq!(cdt.data_module, &[0x89, 0x50, 0x4E, 0x47]);

    let bytes = long_section(0xC8, 0x0123, &body[..4]);
    let (psi, _) = PsiSection::parse(&bytes).unwrap();
    assert!(Cdt::read(&psi).is_none());
}
