use tavoo::isdb::crc::crc32;
use tavoo::isdb::psi::desc::b10::ServiceDescriptor;
use tavoo::isdb::psi::table::b10::{Eit, Pcat, RunningStatus, Tdt, VersionIndicator};
use tavoo::isdb::psi::table::b21::Sdtt;
use tavoo::isdb::psi::table::iso::{Nit, Pmt};
use tavoo::isdb::psi::{PsiSection, PsiTable};
use tavoo::isdb::time::MjdDate;

fn with_syntax(table_id: u8, ext: u16, body: &[u8]) -> Vec<u8> {
    let len = 5 + body.len() + 4;
    let mut v = vec![
        table_id,
        0xB0 | (len >> 8) as u8,
        len as u8,
        (ext >> 8) as u8,
        ext as u8,
        0xC1,
        0x00,
        0x00,
    ];
    v.extend_from_slice(body);
    let crc = crc32(&v);
    v.extend_from_slice(&crc.to_be_bytes());
    v
}

fn without_syntax(table_id: u8, body: &[u8]) -> Vec<u8> {
    let len = body.len() + 4;
    let mut v = vec![table_id, 0x70 | (len >> 8) as u8, len as u8];
    v.extend_from_slice(body);
    let crc = crc32(&v);
    v.extend_from_slice(&crc.to_be_bytes());
    v
}

#[test]
fn pmt_reads_streams() {
    let body = [
        0xE1, 0x00, // PCR PID 0x100
        0xF0, 0x00, // no program descriptors
        0x02, 0xE1, 0x11, 0xF0, 0x00, // MPEG-2 video on 0x111
        0x0F, 0xE1, 0x12, 0xF0, 0x03, 0x52, 0x01, 0x10, // AAC on 0x112, one descriptor
    ];
    let bytes = with_syntax(0x02, 0x0408, &body);
    let (psi, _) = PsiSection::parse(&bytes).unwrap();
    let pmt = Pmt::read(&psi).unwrap();
    assert_eq!(pmt.program_number.get(), 0x0408);
    assert_eq!(pmt.pcr_pid.0, 0x100);
    assert!(pmt.descriptors.as_bytes().is_empty());
    assert_eq!(pmt.streams.len(), 2);
    assert_eq!(pmt.streams[0].stream_type.0, 0x02);
    assert_eq!(pmt.streams[0].elementary_pid.0, 0x111);
    assert_eq!(pmt.streams[1].stream_type.0, 0x0F);
    assert_eq!(pmt.streams[1].elementary_pid.0, 0x112);
    assert_eq!(pmt.streams[1].descriptors.as_bytes(), &[0x52, 0x01, 0x10]);

    // a stream entry cut short
    let bytes = with_syntax(0x02, 0x0408, &body[..body.len() - 1]);
    let (psi, _) = PsiSection::parse(&bytes).unwrap();
    assert!(Pmt::read(&psi).is_none());
    // another table identifier
    let bytes = with_syntax(0x03, 0x0408, &body);
    let (psi, _) = PsiSection::parse(&bytes).unwrap();
    assert!(Pmt::read(&psi).is_none());
}

#[test]
fn eit_reads_present_event() {
    let mut body = vec![
        0x7F, 0xE1, // transport stream
        0x7F, 0xE2, // original network
        0x01, 0x4E, // segment last section, last table
        0x12, 0x34, // event id
        0xB0, 0xA2, 0x12, 0x34, 0x56, // start time
        0x01, 0x30, 0x00, // duration 1:30:00
        0x90 | 0x00, 0x0A, // running, free CA, descriptors length 10
        0x48, 0x08, 0x01, 0x02, b'A', b'B', 0x03, b'N', b'H', b'K',
    ];
    let bytes = with_syntax(0x4E, 0x0408, &body);
    let (psi, _) = PsiSection::parse(&bytes).unwrap();
    let eit = Eit::read(&psi).unwrap();
    let common = match eit {
        Eit::ActualPf(c) => c,
        _ => panic!("not the present/following table of the actual stream"),
    };
    assert_eq!(common.service_id.get(), 0x0408);
    assert_eq!(common.transport_stream_id.get(), 0x7FE1);
    assert_eq!(common.original_network_id.get(), 0x7FE2);
    assert_eq!(common.segment_last_section_number, 1);
    assert_eq!(common.last_table_id, 0x4E);
    assert_eq!(common.events.len(), 1);
    let e = &common.events[0];
    assert_eq!(e.event_id.get(), 0x1234);
    assert_eq!(e.start_time.date, MjdDate(0xB0A2));
    assert_eq!((e.start_time.hour, e.start_time.minute, e.start_time.second), (12, 34, 56));
    assert_eq!(e.duration, 5400);
    assert_eq!(e.running_status, RunningStatus::Running);
    assert!(e.free_ca_mode);
    let sd = e.descriptors.get::<ServiceDescriptor>().unwrap();
    assert_eq!(sd.service_name.as_bytes(), b"NHK");

    // schedule tables of other streams
    let bytes = with_syntax(0x65, 0x0408, &body);
    let (psi, _) = PsiSection::parse(&bytes).unwrap();
    assert!(matches!(Eit::read(&psi), Some(Eit::OtherSchedule(_))));

    // an event identifier of zero
    body[6] = 0;
    body[7] = 0;
    let bytes = with_syntax(0x4E, 0x0408, &body);
    let (psi, _) = PsiSection::parse(&bytes).unwrap();
    assert!(Eit::read(&psi).is_none());
}

#[test]
fn tdt_reads_time() {
    let bytes = without_syntax(0x70, &[0xB0, 0xA2, 0x23, 0x59, 0x58]);
    let (psi, _) = PsiSection::parse(&bytes).unwrap();
    let tdt = Tdt::read(&psi).unwrap();
    assert_eq!(tdt.jst_time.date, MjdDate(0xB0A2));
    assert_eq!((tdt.jst_time.hour, tdt.jst_time.minute, tdt.jst_time.second), (23, 59, 58));
    let bytes = without_syntax(0x70, &[0xB0, 0xA2, 0x23, 0x59]);
    let (psi, _) = PsiSection::parse(&bytes).unwrap();
    assert!(Tdt::read(&psi).is_none());
}

#[test]
fn sdtt_reads_download_contents() {
    let body = [
        0x7F, 0xE1, 0x00, 0x04, 0x04, 0x08, 1, // stream, network, service, one content
        0x11, 0x23, 0x45, 0x69, 0x00, 0xB8, 0x00, 0x85, // content header
        0xB0, 0xA2, 0x12, 0x00, 0x00, 0x00, 0x30, 0x00, // one schedule
        0xC9, 0x01, 0x00, // descriptors
    ];
    let bytes = with_syntax(0xC3, 0xABCD, &body);
    let (psi, _) = PsiSection::parse(&bytes).unwrap();
    let sdtt = Sdtt::read(&psi).unwrap();
    assert_eq!(sdtt.maker_id, 0xAB);
    assert_eq!(sdtt.model_id, 0xCD);
    assert!(!sdtt.is_bs_common());
    assert_eq!(sdtt.transport_stream_id, 0x7FE1);
    assert_eq!(sdtt.original_network_id, 0x0004);
    assert_eq!(sdtt.service_id, 0x0408);
    assert_eq!(sdtt.contents.len(), 1);
    let c = &sdtt.contents[0];
    assert_eq!(c.group, 1);
    assert_eq!(c.target_version, 0x123);
    assert_eq!(c.new_version, 0x456);
    assert_eq!(c.download_level, 2);
    assert_eq!(c.version_indicator, VersionIndicator::After);
    assert!(c.marker_id_flag);
    assert_eq!(c.schedule_timeshift_information, 5);
    assert_eq!(c.schedules.len(), 1);
    assert_eq!(c.schedules[0].start_time.hour, 12);
    assert_eq!(c.schedules[0].duration, 1800);
    assert_eq!(c.descriptors.as_bytes(), &[0xC9, 0x01, 0x00]);

    let bytes = with_syntax(0xC3, 0xFFFE, &body);
    let (psi, _) = PsiSection::parse(&bytes).unwrap();
    assert!(Sdtt::read(&psi).unwrap().is_bs_common());

    // schedule description longer than the content description
    let mut bad = body;
    bad[11] = 0x00;
    bad[12] = 0x18;
    let bytes = with_syntax(0xC3, 0xABCD, &bad);
    let (psi, _) = PsiSection::parse(&bytes).unwrap();
    assert!(Sdtt::read(&psi).is_none());
}

#[test]
fn pcat_reads_content_versions() {
    let body = [
        0x7F, 0xE1, 0x7F, 0xE2, 0x00, 0x00, 0x00, 0x01, 2, // header, two contents
        0x00, 0x01, 0x00, 0x02, 0x40, 0x02, 0x00, 0x08, // version 1.2, after, 2 + 8 bytes
        0xB0, 0xA2, 0x01, 0x02, 0x03, 0x00, 0x00, 0x10, // one schedule
        0xAA, 0x00, // content descriptors
        0x00, 0x03, 0x00, 0x04, 0xC0, 0x00, 0x00, 0x0C, // version 3.4, only, 0 + 12 bytes
        0xB0, 0xA3, 0x00, 0x00, 0x00, 0x01, 0x00, 0x00, 0x11, 0x22, 0x33, 0x44,
    ];
    let bytes = with_syntax(0xC2, 0x0408, &body);
    let (psi, _) = PsiSection::parse(&bytes).unwrap();
    let pcat = Pcat::read(&psi).unwrap();
    assert_eq!(pcat.service_id.get(), 0x0408);
    assert_eq!(pcat.transport_stream_id.get(), 0x7FE1);
    assert_eq!(pcat.original_network_id.get(), 0x7FE2);
    assert_eq!(pcat.content_id, 1);
    assert_eq!(pcat.contents.len(), 2);
    let c0 = &pcat.contents[0];
    assert_eq!((c0.content_version, c0.content_minor_version), (1, 2));
    assert_eq!(c0.version_indicator, VersionIndicator::After);
    assert_eq!(c0.schedule_descriptions.len(), 1);
    let s = &c0.schedule_descriptions[0];
    assert_eq!((s.start_time.hour, s.start_time.minute, s.start_time.second), (1, 2, 3));
    assert_eq!(s.duration, 10);
    assert_eq!(c0.content_descriptors.as_bytes(), &[0xAA, 0x00]);
    let c1 = &pcat.contents[1];
    assert_eq!(c1.version_indicator, VersionIndicator::Only);
    // twelve bytes of schedules hold one whole schedule
    assert_eq!(c1.schedule_descriptions.len(), 1);
    assert_eq!(c1.schedule_descriptions[0].duration, 3600);
    assert!(c1.content_descriptors.as_bytes().is_empty());

    // a second content announced but missing
    let bytes = with_syntax(0xC2, 0x0408, &body[..27]);
    let (psi, _) = PsiSection::parse(&bytes).unwrap();
    assert!(Pcat::read(&psi).is_none());
}

#[test]
fn nit_reads_transport_streams() {
    let body = [
        0xF0, 0x03, 0x40, 0x01, b'N', // network name descriptor
        0xF0, 0x0C, // transport stream loop of twelve bytes
        0x7F, 0xE1, 0x7F, 0xE1, 0xF0, 0x00, // first stream, no descriptors
        0x7F, 0xE2, 0x7F, 0xE1, 0xF0, 0x00, // second stream
    ];
    let bytes = with_syntax(0x40, 0x7FE1, &body);
    let (psi, _) = PsiSection::parse(&bytes).unwrap();
    let nit = Nit::read(&psi).unwrap();
    assert_eq!(nit.network_id.get(), 0x7FE1);
    assert_eq!(nit.network_descriptors.as_bytes(), &[0x40, 0x01, b'N']);
    assert_eq!(nit.transport_streams.len(), 2);
    assert_eq!(nit.transport_streams[1].transport_stream_id.get(), 0x7FE2);
    assert_eq!(nit.transport_streams[1].original_network_id.get(), 0x7FE1);

    // the loop length runs past the data
    let mut bad = body;
    bad[6] = 0x0D;
    let bytes = with_syntax(0x40, 0x7FE1, &bad);
    let (psi, _) = PsiSection::parse(&bytes).unwrap();
    assert!(Nit::read(&psi).is_none());
}
