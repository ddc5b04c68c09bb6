use tavoo::isdb::crc::crc32;
use tavoo::isdb::psi::desc::b10::ServiceDescriptor;
use tavoo::isdb::psi::desc::DescriptorBlock;
use tavoo::isdb::psi::table::iso::Pat;
use tavoo::isdb::psi::{PsiError, PsiSection, PsiTable, Repository};

fn section(table_id: u8, ext: u16, version: u8, body: &[u8]) -> Vec<u8> {
    let len = 5 + body.len() + 4;
    let mut v = vec![
        table_id,
        0xB0 | (len >> 8) as u8,
        len as u8,
        (ext >> 8) as u8,
        ext as u8,
        0xC1 | (version << 1),
        0x00,
        0x00,
    ];
    v.extend_from_slice(body);
    let crc = crc32(&v);
    v.extend_from_slice(&crc.to_be_bytes());
    v
}

fn pat_bytes(version: u8) -> Vec<u8> {
    section(0x00, 0x7FE1, version, &[0x00, 0x00, 0xE0, 0x10, 0x04, 0x08, 0xE1, 0xF0])
}

#[test]
fn psi_section_parses_pat() {
    let bytes = pat_bytes(3);
    let (psi, n) = PsiSection::parse(&bytes).unwrap();
    assert_eq!(n, bytes.len());
    assert_eq!(psi.table_id, 0x00);
    let syntax = psi.syntax.unwrap();
    assert_eq!(syntax.table_id_extension, 0x7FE1);
    assert_eq!(syntax.version_number, 3);
    assert!(syntax.current_next_indicator);
    assert_eq!(psi.data, &[0x00, 0x00, 0xE0, 0x10, 0x04, 0x08, 0xE1, 0xF0]);

    let pat = Pat::read(&psi).unwrap();
    assert_eq!(pat.transport_stream_id.get(), 0x7FE1);
    assert_eq!(pat.network_pid.0, 0x0010);
    assert_eq!(pat.pmts.len(), 1);
    assert_eq!(pat.pmts[0].program_number.get(), 0x0408);
    assert_eq!(pat.pmts[0].program_map_pid.0, 0x01F0);
}

#[test]
fn psi_section_errors() {
    assert_eq!(PsiSection::parse(&[0x00, 0xB0]).err(), Some(PsiError::InsufficientLength));
    assert_eq!(PsiSection::parse(&[0xFF, 0xFF, 0xFF]).err(), Some(PsiError::EndOfPsi));
    let mut bytes = pat_bytes(0);
    let n = bytes.len();
    assert_eq!(
        PsiSection::parse(&bytes[..n - 1]).err(),
        Some(PsiError::InsufficientLength)
    );
    bytes[9] ^= 0x01;
    assert_eq!(PsiSection::parse(&bytes).err(), Some(PsiError::Crc32(n)));
}

#[test]
fn repository_tracks_versions() {
    let v3 = pat_bytes(3);
    let v4 = pat_bytes(4);
    let (psi3, _) = PsiSection::parse(&v3).unwrap();
    let (psi4, _) = PsiSection::parse(&v4).unwrap();

    let mut repo = Repository::new();
    assert!(repo.read::<Pat>(&psi3).is_some());
    assert!(repo.read::<Pat>(&psi3).is_none());
    assert!(repo.read::<Pat>(&psi4).is_some());
    assert!(repo.read::<Pat>(&psi4).is_none());

    repo.unset(&psi4);
    assert!(repo.read::<Pat>(&psi4).is_some());
    assert!(repo.read::<Pat>(&psi4).is_none());

    repo.clear();
    assert!(repo.read::<Pat>(&psi4).is_some());
    let mut fresh = Repository::default();
    assert!(fresh.read::<Pat>(&psi3).is_some());
}

#[test]
fn repository_rejects_section_past_last() {
    let mut bytes = pat_bytes(1);
    bytes[6] = 2; // section number above the last section number
    let n = bytes.len();
    let crc = crc32(&bytes[..n - 4]);
    bytes[n - 4..].copy_from_slice(&crc.to_be_bytes());
    let (psi, _) = PsiSection::parse(&bytes).unwrap();
    let mut repo = Repository::new();
    assert!(repo.read::<Pat>(&psi).is_none());
}

#[test]
fn descriptor_block_finds_service_descriptor() {
    let data = [0xF0, 0x08, 0x48, 0x06, 0x01, 0x01, b'A', 0x02, b'N', b'H', 0x99];
    let (block, rest) = DescriptorBlock::read(&data).unwrap();
    assert_eq!(rest, &[0x99]);
    let sd = block.get::<ServiceDescriptor>().unwrap();
    assert_eq!(sd.service_type.0, 0x01);
    assert_eq!(sd.service_provider_name.as_bytes(), b"A");
    assert_eq!(sd.service_name.as_bytes(), b"NH");
    assert_eq!(block.get_all::<ServiceDescriptor>().len(), 1);
    assert!(DescriptorBlock::read(&[0xF0, 0x09, 0x48]).is_none());
}

#[test]
fn repository_reads_section_of_full_subtable() {
    // last section number 0xFF: a subtable of 256 sections
    let mut bytes = pat_bytes(1);
    bytes[6] = 0xFE;
    bytes[7] = 0xFF;
    let n = bytes.len();
    let crc = crc32(&bytes[..n - 4]);
    bytes[n - 4..].copy_from_slice(&crc.to_be_bytes());
    let (psi, _) = PsiSection::parse(&bytes).unwrap();
    let mut repo = Repository::new();
    assert!(repo.read::<Pat>(&psi).is_some());
    assert!(repo.read::<Pat>(&psi).is_none());
    repo.unset(&psi);
    assert!(repo.read::<Pat>(&psi).is_some());
}
