use tavoo::bit::BitReader;

#[test]
fn bit_reader_counts() {
    let mut br = BitReader::new(&[0, 1, 2]);
    assert_eq!(br.bits(), 24);
    assert_eq!(br.len(), 3);
    br.skip(12);
    assert_eq!(br.bits(), 12);
    assert_eq!(br.len(), 2);
    br.skip(100);
    assert_eq!(br.bits(), 0);
    assert_eq!(br.len(), 0);

    let mut br = BitReader::new(&[0, 1, 2]);
    assert!(!br.is_empty());
    br.skip(23);
    assert!(!br.is_empty());
    br.skip(1);
    assert!(br.is_empty());
}

#[test]
fn bit_reader_as_bytes() {
    let mut br = BitReader::new(&[0, 1, 2]);
    assert_eq!(br.as_bytes(), &[0, 1, 2]);
    br.skip(7);
    assert_eq!(br.as_bytes(), &[0, 1, 2]);
    br.skip(1);
    assert_eq!(br.as_bytes(), &[1, 2]);
}

#[test]
fn bit_reader_read1() {
    let mut br = BitReader::new(&[0b10101010]);
    for i in 0..8 {
        assert_eq!(br.read1(), Some(i % 2 == 0));
    }
    assert_eq!(br.read1(), None);
    assert_eq!(br.read1(), None);
}

#[test]
fn bit_reader_read() {
    let mut br =
        BitReader::new(&[0b101000_01, 0b0100_0001, 0b0000_0001, 0x12, 0x34, 0x56, 0x78]);
    br.skip(6);
    assert_eq!(br.read::<6>(), Some(0b010100));
    assert_eq!(br.read::<12>(), Some(0b0001_0000_0001));
    assert_eq!(br.read::<24>(), Some(0x123456));

    // eight bits are left, but a read of 8 bits loads two bytes
    assert_eq!(br.bits(), 8);
    assert_eq!(br.read::<8>(), None);
    assert_eq!(br.bits(), 8);
    assert_eq!(br.read::<1>(), Some(0));
}

#[test]
fn bit_reader_read_inside() {
    let mut br =
        BitReader::new(&[0b101000_01, 0b01010101, 0b11111111, 0b11111111, 0b111111_00, 1, 2]);
    assert_eq!(br.read_inside::<6>(), Some(0b101000));
    assert_eq!(br.read_inside::<10>(), Some(0b01_01010101));
    assert_eq!(br.read_inside::<22>(), Some(0b11111111_11111111_111111));

    // 17 bits load four bytes, and only 18 bits are left
    assert_eq!(br.bits(), 18);
    assert_eq!(br.read_inside::<17>(), None);

    // enough bits, but they cross the loaded bytes
    let mut br = BitReader::new(&[0, 0, 0, 0, 0]);
    br.skip(6);
    assert_eq!(br.bits(), 34);
    assert_eq!(br.read_inside::<3>(), None);
    assert_eq!(br.read_inside::<11>(), None);
    assert_eq!(br.read_inside::<27>(), None);
}

#[test]
fn bit_reader_unchecked_reads() {
    let mut br = BitReader::new(&[0b000000_11, 0b11_000000]);
    br.skip(6);
    // only the first byte is loaded, so the last two bits read as zero
    assert_eq!(br.read_inside_unchecked::<4>(), 0b1100);

    let mut br = BitReader::new(&[0xA5, 0x0F]);
    assert!(br.read1_unchecked());
    assert_eq!(br.read_unchecked::<9>(), 0b0100_1010_0);
}
