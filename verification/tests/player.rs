use tavoo::codec::audio::adts::{Frame, SamplingFrequency};
use tavoo::codec::video::mpeg::Sequence;
use tavoo::codec::Rational;
use tavoo::isdb::psi::desc::b10::StreamType;
use tavoo::player::{
    audio_codec_info, decide_stream_change, needs_audio_type_change, needs_es,
    needs_reset_by_video, prepare_streams_changing, video_codec_info, AudioCodecInfo,
    IncomingStream, StreamChange, UnknownStreamError, VideoCodecInfo,
};

fn mpeg2(width: u16, rate: Rational<u32>) -> VideoCodecInfo {
    VideoCodecInfo::Mpeg2(Sequence {
        horizontal_size: width,
        vertical_size: 1080,
        pixel_aspect_ratio: Rational::new(16, 9),
        frame_rate: rate,
        bit_rate: 0,
        extension: None,
    })
}

fn aac(ch: u8, sf: SamplingFrequency) -> AudioCodecInfo {
    AudioCodecInfo::Aac(Frame {
        sampling_frequency: sf,
        channel_configuration: ch,
        aac_frame_length: 100,
        crc: None,
        program_config: None,
    })
}

fn incoming<T>(immediate: bool, codec_info: Option<T>) -> Option<IncomingStream<T>> {
    Some(IncomingStream { immediate, codec_info })
}

#[test]
fn player_video_reset_rules() {
    let r = Rational::new(30000, 1001);
    assert!(!needs_reset_by_video(&mpeg2(1440, r), &mpeg2(1440, r)));
    assert!(needs_reset_by_video(&mpeg2(1440, r), &mpeg2(1920, r)));
    assert!(needs_reset_by_video(&mpeg2(1440, r), &mpeg2(1440, Rational::new(24, 1))));
    assert!(!needs_reset_by_video(&VideoCodecInfo::H264, &VideoCodecInfo::H264));
    assert!(needs_reset_by_video(&VideoCodecInfo::H264, &mpeg2(1440, r)));
}

#[test]
fn player_audio_type_rules() {
    let a = aac(2, SamplingFrequency::SF48000);
    assert!(!needs_audio_type_change(&a, &aac(2, SamplingFrequency::SF48000)));
    assert!(needs_audio_type_change(&a, &aac(1, SamplingFrequency::SF48000)));
    assert!(needs_audio_type_change(&a, &aac(2, SamplingFrequency::SF44100)));
}

#[test]
fn player_starts_when_both_codecs_known() {
    let v = incoming(false, Some(VideoCodecInfo::H264));
    let a = incoming(false, Some(aac(2, SamplingFrequency::SF48000)));
    assert_eq!(decide_stream_change(None, &v, &a), StreamChange::Start);
    let a_unknown = incoming::<AudioCodecInfo>(false, None);
    assert_eq!(decide_stream_change(None, &v, &a_unknown), StreamChange::Wait);
}

#[test]
fn player_switch_decisions() {
    let r = Rational::new(30000, 1001);
    let cur_v = mpeg2(1440, r);
    let cur_a = aac(2, SamplingFrequency::SF48000);
    let cur = Some((&cur_v, &cur_a));

    // a new resolution, not immediate: play out first
    let v = incoming(false, Some(mpeg2(1920, r)));
    let a = incoming(false, Some(aac(2, SamplingFrequency::SF48000)));
    assert_eq!(decide_stream_change(cur, &v, &a), StreamChange::EndStreamAndWait);

    // the same, immediate: switch
    let v = incoming(true, Some(mpeg2(1920, r)));
    assert_eq!(
        decide_stream_change(cur, &v, &a),
        StreamChange::Switch { video: true, audio: true }
    );

    // only the audio type changes
    let v = incoming(false, Some(mpeg2(1440, r)));
    let a = incoming(true, Some(aac(1, SamplingFrequency::SF48000)));
    assert_eq!(
        decide_stream_change(cur, &v, &a),
        StreamChange::Deliver {
            video: true,
            audio: true,
            clear_video: false,
            clear_audio: true,
            change_audio_type: true,
        }
    );

    // nothing changes
    let a = incoming(false, Some(aac(2, SamplingFrequency::SF48000)));
    assert_eq!(
        decide_stream_change(cur, &v, &a),
        StreamChange::Deliver {
            video: true,
            audio: true,
            clear_video: false,
            clear_audio: false,
            change_audio_type: false,
        }
    );

    // video alone, codec not yet known
    let none_a: Option<IncomingStream<AudioCodecInfo>> = None;
    let v = incoming::<VideoCodecInfo>(true, None);
    assert_eq!(decide_stream_change(cur, &v, &none_a), StreamChange::Wait);

    // audio alone, same type, immediate
    let none_v: Option<IncomingStream<VideoCodecInfo>> = None;
    let a = incoming(true, Some(aac(2, SamplingFrequency::SF48000)));
    assert_eq!(
        decide_stream_change(cur, &none_v, &a),
        StreamChange::Switch { video: false, audio: true }
    );
}

#[test]
fn player_codec_info_from_packets() {
    let h264 = video_codec_info(&StreamType(StreamType::H264), &[]);
    assert!(matches!(h264, Some(VideoCodecInfo::H264)));
    let none = video_codec_info(&StreamType(StreamType::MPEG2_VIDEO), &[0, 0, 1, 0xB5]);
    assert!(none.is_none());
    let mut seq = vec![0x00, 0x00, 0x01, 0xB3, 0x2D, 0x01, 0xE0, 0x24, 0x00, 0x00, 0x00, 0x00];
    seq.extend([0u8; 4]);
    match video_codec_info(&StreamType(StreamType::MPEG2_VIDEO), &seq) {
        Some(VideoCodecInfo::Mpeg2(s)) => {
            assert_eq!(s.horizontal_size, 720);
            assert_eq!(s.vertical_size, 480);
        },
        _ => panic!("no sequence header"),
    }
    assert!(audio_codec_info(&[0x00, 0x01, 0x02]).is_none());
    let adts = [0xFF, 0xF1, 0x4C, 0x80, 0x25, 0x9F, 0xFC, 0x00, 0x00];
    match audio_codec_info(&adts) {
        Some(AudioCodecInfo::Aac(f)) => {
            assert_eq!(f.sampling_frequency, SamplingFrequency::SF48000);
            assert_eq!(f.channel_configuration, 2);
        },
        _ => panic!("no ADTS header"),
    }
}

#[test]
fn player_needs_es() {
    let none_v: Option<IncomingStream<VideoCodecInfo>> = None;
    let none_a: Option<IncomingStream<AudioCodecInfo>> = None;
    assert!(needs_es(&none_v, &none_a, true));
    assert!(!needs_es(&none_v, &none_a, false));
    let v = incoming::<VideoCodecInfo>(false, None);
    assert!(needs_es(&v, &none_a, false));
    let v = incoming(false, Some(VideoCodecInfo::H264));
    let a = incoming::<AudioCodecInfo>(false, None);
    assert!(needs_es(&v, &a, false));
    assert!(!needs_es(&v, &none_a, true));
}

#[test]
fn player_prepares_stream_changes() {
    let (v, a, r) = prepare_streams_changing(
        None,
        None,
        true,
        true,
        StreamType(StreamType::H264),
        true,
        StreamType(StreamType::AAC),
    );
    assert_eq!(r, Ok(()));
    assert!(v.unwrap().immediate);
    assert!(a.unwrap().codec_info.is_none());

    let (v, a, r) = prepare_streams_changing(
        incoming(false, Some(VideoCodecInfo::H264)),
        None,
        false,
        false,
        StreamType(0x7F),
        true,
        StreamType(StreamType::MPEG2_VIDEO),
    );
    assert_eq!(r, Err(UnknownStreamError::Audio(StreamType(StreamType::MPEG2_VIDEO))));
    assert!(v.is_none() && a.is_none());

    let (_, _, r) = prepare_streams_changing(
        None,
        None,
        false,
        true,
        StreamType(StreamType::AAC),
        false,
        StreamType(StreamType::AAC),
    );
    assert_eq!(r, Err(UnknownStreamError::Video(StreamType(StreamType::AAC))));
}
