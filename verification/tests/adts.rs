use tavoo::codec::audio::adts::{Address, CceAddress, Frame, SamplingFrequency};

struct Bits {
    bits: Vec<bool>,
}

impl Bits {
    fn new() -> Bits {
        Bits { bits: Vec::new() }
    }

    fn put(&mut self, n: u32, value: u32) -> &mut Bits {
        for i in (0..n).rev() {
            self.bits.push((value >> i) & 1 == 1);
        }
        self
    }

    fn bytes(&self) -> Vec<u8> {
        let mut out = vec![0u8; (self.bits.len() + 7) / 8];
        for (i, b) in self.bits.iter().enumerate() {
            if *b {
                out[i / 8] |= 0x80 >> (i % 8);
            }
        }
        out
    }
}

fn header(bits: &mut Bits, protection_absent: bool, profile: u32, sfi: u32, ch: u32, len: u32) {
    bits.put(12, 0xFFF)
        .put(1, 1)
        .put(2, 0)
        .put(1, protection_absent as u32)
        .put(2, profile)
        .put(4, sfi)
        .put(1, 0)
        .put(3, ch)
        .put(4, 0)
        .put(13, len)
        .put(11, 0x7FF)
        .put(2, 0);
}

#[test]
fn adts_finds_plain_header() {
    let mut bits = Bits::new();
    header(&mut bits, true, 1, 3, 2, 300);
    bits.put(3, 0).put(13, 0);
    let mut buf = vec![0x00, 0xFF, 0x00, 0x12];
    buf.extend(bits.bytes());
    let frame = Frame::find(&buf).unwrap();
    assert_eq!(frame.sampling_frequency, SamplingFrequency::SF48000);
    assert_eq!(frame.channel_configuration, 2);
    assert_eq!(frame.aac_frame_length, 300);
    assert_eq!(frame.crc, None);
    assert!(frame.program_config.is_none());
    assert_eq!(frame.num_channels(), 2);
}

#[test]
fn adts_reads_crc() {
    let mut bits = Bits::new();
    header(&mut bits, false, 1, 4, 1, 7);
    bits.put(16, 0xBEEF).put(3, 1).put(13, 0);
    let frame = Frame::find(&bits.bytes()).unwrap();
    assert_eq!(frame.sampling_frequency, SamplingFrequency::SF44100);
    assert_eq!(frame.crc, Some(0xBEEF));
    assert_eq!(frame.num_channels(), 1);
}

#[test]
fn adts_rejects_bad_fields() {
    // profile other than LC
    let mut bits = Bits::new();
    header(&mut bits, true, 2, 3, 2, 300);
    bits.put(16, 0);
    assert_eq!(Frame::find(&bits.bytes()), None);

    // unknown sampling frequency index
    let mut bits = Bits::new();
    header(&mut bits, true, 1, 1, 2, 300);
    bits.put(16, 0);
    assert_eq!(Frame::find(&bits.bytes()), None);

    // channel configuration 7
    let mut bits = Bits::new();
    header(&mut bits, true, 1, 3, 7, 300);
    bits.put(16, 0);
    assert_eq!(Frame::find(&bits.bytes()), None);

    // frame too short
    let mut bits = Bits::new();
    header(&mut bits, true, 1, 3, 2, 6);
    bits.put(16, 0);
    assert_eq!(Frame::find(&bits.bytes()), None);

    // channel configuration 0 without a program config element
    let mut bits = Bits::new();
    header(&mut bits, true, 1, 3, 0, 300);
    bits.put(16, 0);
    assert_eq!(Frame::find(&bits.bytes()), None);

    // no sync word at all, or a lone 0xFF at the end
    assert_eq!(Frame::find(&[0x00, 0x11, 0x22]), None);
    assert_eq!(Frame::find(&[0x00, 0xFF]), None);
    assert_eq!(Frame::find(&[]), None);
}

#[test]
fn adts_reads_program_config() {
    let mut bits = Bits::new();
    header(&mut bits, true, 1, 5, 0, 500);
    bits.put(3, 5) // ID_PCE
        .put(4, 0) // element_instance_tag
        .put(2, 1) // object type
        .put(4, 5) // sampling frequency index
        .put(4, 1) // front
        .put(4, 0) // side
        .put(4, 1) // back
        .put(2, 1) // lfe
        .put(3, 1) // assoc data
        .put(4, 1) // cc
        .put(1, 0)
        .put(1, 0)
        .put(1, 0)
        .put(1, 1)
        .put(4, 3) // front: CPE 3
        .put(1, 0)
        .put(4, 9) // back: SCE 9
        .put(4, 2) // lfe: 2
        .put(4, 6) // assoc data: 6
        .put(1, 1)
        .put(4, 4) // cc: ind_sw, 4
        .put(32, 0);
    let frame = Frame::find(&bits.bytes()).unwrap();
    assert_eq!(frame.sampling_frequency, SamplingFrequency::SF32000);
    let pc = frame.program_config.as_ref().unwrap();
    assert_eq!(pc.front_elements.as_slice(), &[Address::Cpe(3)]);
    assert!(pc.side_elements.is_empty());
    assert_eq!(pc.back_elements.as_slice(), &[Address::Sce(9)]);
    assert_eq!(pc.lfe_elements.as_slice(), &[2]);
    assert_eq!(pc.assoc_data_elements.as_slice(), &[6]);
    assert_eq!(pc.cc_elements.as_slice(), &[CceAddress { is_ind_sw: true, tag: 4 }]);
    assert_eq!(frame.num_channels(), 4);
}

#[test]
fn adts_program_config_must_match_sampling_index() {
    let mut bits = Bits::new();
    header(&mut bits, true, 1, 5, 0, 500);
    bits.put(3, 5).put(6, 0).put(4, 3).put(64, 0);
    assert_eq!(Frame::find(&bits.bytes()), None);
}

#[test]
fn sampling_frequency_round_trip() {
    for v in 0..16u8 {
        if let Some(sf) = SamplingFrequency::new(v) {
            assert_eq!(sf.index(), v);
        }
    }
    assert_eq!(SamplingFrequency::new(0).unwrap().to_u32(), 96000);
    assert_eq!(SamplingFrequency::new(4).unwrap().to_u32(), 44100);
    assert_eq!(SamplingFrequency::new(8).unwrap().to_u32(), 16000);
    assert_eq!(SamplingFrequency::new(1), None);
    assert_eq!(SamplingFrequency::new(9), None);
}

#[test]
fn sampling_frequency_as_text() {
    assert_eq!(SamplingFrequency::SF48000.to_debug_string(), "48kHZ");
    assert_eq!(SamplingFrequency::SF44100.to_debug_string(), "44.1kHZ");
    assert_eq!(SamplingFrequency::SF22050.to_debug_string(), "22.05kHZ");
    assert_eq!(SamplingFrequency::SF16000.to_debug_string(), "16KHz");
}

#[test]
fn adts_reads_header_with_nothing_after_it() {
    let buf = [0xFFu8, 0xF1, 0x4C, 0x80, 0x20, 0x1F, 0xFC];
    let frame = Frame::find(&buf).unwrap();
    assert_eq!(frame.sampling_frequency, SamplingFrequency::SF48000);
    assert_eq!(frame.channel_configuration, 2);
    assert_eq!(frame.aac_frame_length, 256);
    assert_eq!(frame.crc, None);
    assert!(frame.program_config.is_none());
    // the same header cut one byte short
    assert_eq!(Frame::find(&buf[..6]), None);
}

#[test]
fn adts_program_config_ending_the_buffer() {
    // the last element, a four-bit tag, ends on the last bit of the buffer
    let mut bits = Bits::new();
    header(&mut bits, true, 1, 3, 0, 500);
    bits.put(3, 5)
        .put(4, 0)
        .put(2, 1)
        .put(4, 3) // sampling frequency index, as in the header
        .put(4, 1) // front
        .put(4, 2) // side
        .put(4, 0) // back
        .put(2, 1) // lfe
        .put(3, 0)
        .put(4, 0)
        .put(1, 0)
        .put(1, 0)
        .put(1, 0)
        .put(1, 1)
        .put(4, 7) // front: CPE 7
        .put(1, 0)
        .put(4, 1) // side: SCE 1
        .put(1, 0)
        .put(4, 2) // side: SCE 2
        .put(4, 5); // lfe: 5
    assert_eq!(bits.bits.len(), 112);
    let frame = Frame::find(&bits.bytes()).unwrap();
    let pc = frame.program_config.as_ref().unwrap();
    assert_eq!(pc.front_elements.as_slice(), &[Address::Cpe(7)]);
    assert_eq!(pc.side_elements.as_slice(), &[Address::Sce(1), Address::Sce(2)]);
    assert_eq!(pc.lfe_elements.as_slice(), &[5]);
    assert_eq!(frame.num_channels(), 5);
}
