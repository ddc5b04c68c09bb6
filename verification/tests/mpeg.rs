use tavoo::codec::video::mpeg::{ChromaFormat, Level, Profile, Sequence};
use tavoo::codec::Rational;

fn sequence_header() -> Vec<u8> {
    // 1440x1080, 16:9, 29.97 Hz, bit rate 0x12345 (units of 400 bit/s)
    let mut v = vec![0x47, 0x00, 0x00, 0x01, 0xB3];
    v.extend([0x5A, 0x04, 0x38, 0x34, 0x48, 0xD1, 0x40, 0x00]);
    v.extend([0x00, 0x00, 0x00]);
    v
}

#[test]
fn mpeg_sequence_without_extension() {
    let seq = Sequence::find(&sequence_header()).unwrap();
    assert_eq!(seq.horizontal_size, 1440);
    assert_eq!(seq.vertical_size, 1080);
    assert_eq!(seq.pixel_aspect_ratio, Rational::new(16, 9));
    assert_eq!(seq.frame_rate, Rational::new(30000, 1001));
    assert_eq!(seq.bit_rate, (0x48 << 10) | (0xD1 << 2) | (0x40 >> 6));
    assert!(seq.extension.is_none());
}

#[test]
fn mpeg_sequence_with_extension() {
    let mut buf = sequence_header();
    // sequence extension: profile Main (4), level High (4), progressive,
    // 4:2:0, size and bit rate extensions, frame rate 2/1
    buf.extend([0x00, 0x00, 0x01, 0xB5, 0x14, 0x4A, 0xA1, 0x03, 0x00, 0x21]);
    let seq = Sequence::find(&buf).unwrap();
    let ext = seq.extension.as_ref().unwrap();
    assert_eq!(ext.profile, Profile(Profile::MAIN));
    assert_eq!(ext.level, Level(Level::HIGH));
    assert!(ext.progressive);
    assert_eq!(ext.chroma_format, ChromaFormat::CF420);
    // horizontal extension (0 << 1) | 1, vertical extension the two bits
    // (0xA1 >> 5) & 3 = 1
    assert_eq!(seq.horizontal_size, 1440 | (1 << 12));
    assert_eq!(seq.vertical_size, 1080 | (1 << 12));
    let base = (0x48u32 << 10) | (0xD1 << 2) | (0x40 >> 6);
    let ext_rate = ((0xA1u32 & 0x1F) << 7) | (0x03 >> 1);
    assert_eq!(seq.bit_rate, base | (ext_rate << 18));
    assert_eq!(seq.frame_rate, Rational::new(30000 * 2, 1001 * 2));
}

#[test]
fn mpeg_sequence_not_found() {
    assert!(Sequence::find(&[0x00, 0x00, 0x01, 0xB5, 0, 0, 0, 0]).is_none());
    // a start code with fewer than twelve bytes from it
    assert!(Sequence::find(&[0x00, 0x00, 0x01, 0xB3, 0x5A, 0x04]).is_none());
}

#[test]
fn mpeg_short_extension_is_ignored() {
    let mut buf = sequence_header();
    buf.extend([0x00, 0x00, 0x01, 0xB5, 0x14]);
    let seq = Sequence::find(&buf).unwrap();
    assert!(seq.extension.is_none());
    assert_eq!(seq.horizontal_size, 1440);
}

#[test]
fn header_values_as_text() {
    assert_eq!(Profile(Profile::SIMPLE).to_debug_string(), "Simple");
    assert_eq!(Profile(Profile::SPATIALLY_SCALABLE).to_debug_string(), "Spatially Scalable");
    assert_eq!(Profile(7).to_debug_string(), "Profile(7)");
    assert_eq!(Level(Level::HIGH_1440).to_debug_string(), "High 1440");
    assert_eq!(Level(15).to_debug_string(), "Level(15)");
    assert_eq!(ChromaFormat::CF422.to_debug_string(), "4:2:2");
    assert_eq!(ChromaFormat::Unknown.to_debug_string(), "Unknown");
    assert_eq!(Rational::new(30000u32, 1001).to_debug_string(), "30000/1001");
    assert_eq!(Rational::new(0u32, 1).to_debug_string(), "0/1");
}

#[test]
fn mpeg_vertical_extension_is_two_bits() {
    let buf = [
        0, 0, 1, 0xB3, 0x78, 0x04, 0x38, 0x34, 0, 0, 0, 0, 0, 0, 1, 0xB5, 0x14, 0x82, 0x80, 0x01,
        0x00, 0x00,
    ];
    let s = Sequence::find(&buf).unwrap();
    assert_eq!(s.horizontal_size, 1920 | (1 << 12));
    assert_eq!(s.vertical_size, 1080);
    assert_eq!(s.pixel_aspect_ratio, Rational::new(16, 9));
    assert_eq!(s.frame_rate, Rational::new(30000, 1001));
    assert_eq!(s.bit_rate, 0);
    assert_eq!(s.extension.unwrap().chroma_format, ChromaFormat::CF420);
}
