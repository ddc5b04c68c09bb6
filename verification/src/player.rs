//! What a playing session does when the streams of the selected service
//! change: it waits for the codec information of the incoming streams, then
//! either switches the presentation over or delivers their packets to it.
//!
//! The decisions are taken here from plain values; the media pipeline that
//! carries them out lies outside the library.

use vstd::prelude::*;

use crate::codec::audio::adts::{frame_in, Frame};
use crate::codec::video::mpeg::{sequence_of, Sequence};
use crate::isdb::psi::desc::b10::StreamType;

verus! {

/// How dual-mono audio is played.
#[derive(Debug, Clone, Copy, PartialEq, Eq, Hash, Structural)]
pub enum DualMonoMode {
    /// Channel 1 on both speakers.
    Left,
    /// Channel 2 on both speakers.
    Right,
    /// Channel 1 on the left speaker, channel 2 on the right one.
    Stereo,
    /// Channels 1 and 2 mixed on both speakers.
    Mix,
}

/// The codec of a video stream.
#[derive(Debug, Clone)]
pub enum VideoCodecInfo {
    /// MPEG-2 video, with its sequence header.
    Mpeg2(Sequence),
    /// H.264 video.
    H264,
}

/// The codec of an audio stream; ARIB TR-B14 and TR-B15 carry AAC only.
#[derive(Debug, Clone)]
pub enum AudioCodecInfo {
    /// AAC audio, with its ADTS header.
    Aac(Frame),
}

/// Whether moving from video `a` to video `b` needs the presentation reset:
/// two MPEG-2 streams differing in size or frame rate, or a change of codec.
pub open spec fn video_needs_reset(a: VideoCodecInfo, b: VideoCodecInfo) -> bool {
    match (a, b) {
        (VideoCodecInfo::Mpeg2(a), VideoCodecInfo::Mpeg2(b)) => a.horizontal_size
            != b.horizontal_size || a.vertical_size != b.vertical_size || a.frame_rate
            != b.frame_rate,
        (VideoCodecInfo::H264, VideoCodecInfo::H264) => false,
        _ => true,
    }
}

/// Whether moving from audio `a` to audio `b` changes the audio type: a
/// different channel configuration or sampling frequency.
pub open spec fn audio_type_changes(a: AudioCodecInfo, b: AudioCodecInfo) -> bool {
    match (a, b) {
        (AudioCodecInfo::Aac(a), AudioCodecInfo::Aac(b)) => a.channel_configuration
            != b.channel_configuration || a.sampling_frequency != b.sampling_frequency,
    }
}

/// Decides whether moving from video `a` to video `b` needs the presentation
/// reset.
pub fn needs_reset_by_video(a: &VideoCodecInfo, b: &VideoCodecInfo) -> (r: bool)
    ensures
        r == video_needs_reset(*a, *b),
{
    match (a, b) {
        (VideoCodecInfo::Mpeg2(a), VideoCodecInfo::Mpeg2(b)) => {
            a.horizontal_size != b.horizontal_size || a.vertical_size != b.vertical_size
                || a.frame_rate.numerator != b.frame_rate.numerator || a.frame_rate.denominator
                != b.frame_rate.denominator
        },
        (VideoCodecInfo::H264, VideoCodecInfo::H264) => false,
        _ => true,
    }
}

/// Decides whether moving from audio `a` to audio `b` changes the audio
/// type.
pub fn needs_audio_type_change(a: &AudioCodecInfo, b: &AudioCodecInfo) -> (r: bool)
    ensures
        r == audio_type_changes(*a, *b),
{
    match (a, b) {
        (AudioCodecInfo::Aac(a), AudioCodecInfo::Aac(b)) => {
            a.channel_configuration != b.channel_configuration || a.sampling_frequency.index()
                != b.sampling_frequency.index()
        },
    }
}

/// A stream that is to replace the presented one.
#[derive(Debug, Clone)]
pub struct IncomingStream<T> {
    /// Whether the switch is to happen at once rather than after the
    /// presented stream has played out.
    pub immediate: bool,
    /// The codec information, once found in the stream's packets.
    pub codec_info: Option<T>,
}

/// What the session does on a change of streams.
#[derive(Debug, Clone, Copy, PartialEq, Eq, Structural)]
pub enum StreamChange {
    /// Waits for the codec information of the incoming streams.
    Wait,
    /// Ends the presented stream and waits for it to play out.
    EndStreamAndWait,
    /// Starts presenting the incoming video and audio.
    Start,
    /// Switches the presentation over, to the incoming video if `video` (else
    /// keeping the presented codec) and the incoming audio if `audio`.
    Switch {
        /// Whether the incoming video is switched to.
        video: bool,
        /// Whether the incoming audio is switched to.
        audio: bool,
    },
    /// Keeps the presentation and delivers the packets of the incoming
    /// streams to it.
    Deliver {
        /// Whether the packets of the incoming video are delivered.
        video: bool,
        /// Whether the packets of the incoming audio are delivered.
        audio: bool,
        /// Whether the queued video packets are dropped first.
        clear_video: bool,
        /// Whether the queued audio packets are dropped first.
        clear_audio: bool,
        /// Whether the audio type is changed before the audio is delivered.
        change_audio_type: bool,
    },
}

/// What the session does on a change of streams, presenting `current` (or
/// nothing yet), with the incoming `video` and `audio` streams.
pub open spec fn stream_change(
    current: Option<(VideoCodecInfo, AudioCodecInfo)>,
    video: Option<IncomingStream<VideoCodecInfo>>,
    audio: Option<IncomingStream<AudioCodecInfo>>,
) -> StreamChange {
    match current {
        None => match (video, audio) {
            (Some(v), Some(a)) => if v.codec_info is Some && a.codec_info is Some {
                StreamChange::Start
            } else {
                StreamChange::Wait
            },
            _ => StreamChange::Wait,
        },
        Some((cur_video, cur_audio)) => match (video, audio) {
            (Some(v), Some(a)) => match (v.codec_info, a.codec_info) {
                (Some(vci), Some(aci)) => {
                    let reset = video_needs_reset(vci, cur_video);
                    let change = audio_type_changes(aci, cur_audio);
                    if !v.immediate && !a.immediate && reset {
                        StreamChange::EndStreamAndWait
                    } else if reset || (!change && (v.immediate || a.immediate)) {
                        StreamChange::Switch { video: true, audio: true }
                    } else if change {
                        StreamChange::Deliver {
                            video: true,
                            audio: true,
                            clear_video: v.immediate,
                            clear_audio: a.immediate,
                            change_audio_type: true,
                        }
                    } else {
                        StreamChange::Deliver {
                            video: true,
                            audio: true,
                            clear_video: false,
                            clear_audio: false,
                            change_audio_type: false,
                        }
                    }
                },
                _ => StreamChange::Wait,
            },
            (Some(v), None) => match v.codec_info {
                None => StreamChange::Wait,
                Some(vci) => if v.immediate || video_needs_reset(vci, cur_video) {
                    StreamChange::Switch { video: true, audio: false }
                } else {
                    StreamChange::Deliver {
                        video: true,
                        audio: false,
                        clear_video: false,
                        clear_audio: false,
                        change_audio_type: false,
                    }
                },
            },
            (None, Some(a)) => match a.codec_info {
                None => StreamChange::Wait,
                Some(aci) => {
                    let change = audio_type_changes(aci, cur_audio);
                    if !change && a.immediate {
                        StreamChange::Switch { video: false, audio: true }
                    } else {
                        StreamChange::Deliver {
                            video: false,
                            audio: true,
                            clear_video: false,
                            clear_audio: change && a.immediate,
                            change_audio_type: change,
                        }
                    }
                },
            },
            (None, None) => StreamChange::Wait,
        },
    }
}

/// Decides what the session does on a change of streams, presenting
/// `current` (or nothing yet), with the incoming `video` and `audio` streams.
///
/// A change is decided only while a stream is incoming, and a session that
/// presents nothing yet starts only with both streams incoming.
pub fn decide_stream_change(
    current: Option<(&VideoCodecInfo, &AudioCodecInfo)>,
    video: &Option<IncomingStream<VideoCodecInfo>>,
    audio: &Option<IncomingStream<AudioCodecInfo>>,
) -> (r: StreamChange)
    requires
        current is Some ==> video is Some || audio is Some,
        current is None ==> video is Some && audio is Some,
    ensures
        r == stream_change(
            match current {
                Some((v, a)) => Some((*v, *a)),
                None => None,
            },
            *video,
            *audio,
        ),
{
    match current {
        None => match (video, audio) {
            (Some(v), Some(a)) => {
                if v.codec_info.is_some() && a.codec_info.is_some() {
                    StreamChange::Start
                } else {
                    StreamChange::Wait
                }
            },
            _ => StreamChange::Wait,
        },
        Some((cur_video, cur_audio)) => match (video, audio) {
            (Some(v), Some(a)) => match (&v.codec_info, &a.codec_info) {
                (Some(vci), Some(aci)) => {
                    let reset = needs_reset_by_video(vci, cur_video);
                    let change = needs_audio_type_change(aci, cur_audio);
                    if !v.immediate && !a.immediate && reset {
                        StreamChange::EndStreamAndWait
                    } else if reset || (!change && (v.immediate || a.immediate)) {
                        StreamChange::Switch { video: true, audio: true }
                    } else if change {
                        StreamChange::Deliver {
                            video: true,
                            audio: true,
                            clear_video: v.immediate,
                            clear_audio: a.immediate,
                            change_audio_type: true,
                        }
                    } else {
                        StreamChange::Deliver {
                            video: true,
                            audio: true,
                            clear_video: false,
                            clear_audio: false,
                            change_audio_type: false,
                        }
                    }
                },
                _ => StreamChange::Wait,
            },
            (Some(v), None) => match &v.codec_info {
                None => StreamChange::Wait,
                Some(vci) => {
                    if v.immediate || needs_reset_by_video(vci, cur_video) {
                        StreamChange::Switch { video: true, audio: false }
                    } else {
                        StreamChange::Deliver {
                            video: true,
                            audio: false,
                            clear_video: false,
                            clear_audio: false,
                            change_audio_type: false,
                        }
                    }
                },
            },
            (None, Some(a)) => match &a.codec_info {
                None => StreamChange::Wait,
                Some(aci) => {
                    let change = needs_audio_type_change(aci, cur_audio);
                    if !change && a.immediate {
                        StreamChange::Switch { video: false, audio: true }
                    } else {
                        StreamChange::Deliver {
                            video: false,
                            audio: true,
                            clear_video: false,
                            clear_audio: change && a.immediate,
                            change_audio_type: change,
                        }
                    }
                },
            },
            (None, None) => StreamChange::Wait,
        },
    }
}

/// The video codec information that a packet of a stream of type
/// `stream_type` gives: for MPEG-2 video the sequence header found in it, if
/// any; for H.264 no more than the codec.
pub fn video_codec_info(stream_type: &StreamType, payload: &[u8]) -> (r: Option<VideoCodecInfo>)
    requires
        stream_type.0 == StreamType::MPEG2_VIDEO || stream_type.0 == StreamType::H264,
    ensures
        stream_type.0 == StreamType::H264 ==> r == Some(VideoCodecInfo::H264),
        stream_type.0 == StreamType::MPEG2_VIDEO ==> r == match sequence_of(payload@) {
            Some(seq) => Some(VideoCodecInfo::Mpeg2(seq)),
            None => None,
        },
{
    if stream_type.0 == StreamType::H264 {
        Some(VideoCodecInfo::H264)
    } else {
        match Sequence::find(payload) {
            Some(seq) => Some(VideoCodecInfo::Mpeg2(seq)),
            None => None,
        }
    }
}

/// The audio codec information that a packet of an AAC stream gives: the
/// ADTS header found in it, if any.
pub fn audio_codec_info(payload: &[u8]) -> (r: Option<AudioCodecInfo>)
    requires
        payload@.len() * 8 <= usize::MAX,
    ensures
        match frame_in(payload@) {
            None => r is None,
            Some(v) => r matches Some(AudioCodecInfo::Aac(f)) && f@ == v,
        },
{
    match Frame::find(payload) {
        Some(f) => Some(AudioCodecInfo::Aac(f)),
        None => None,
    }
}

/// Whether the session needs elementary stream packets: while the codec
/// information of an incoming stream is missing, or, with no stream
/// incoming, when the presented streams ask for data
/// (`presented_needs_data`).
pub fn needs_es(
    video: &Option<IncomingStream<VideoCodecInfo>>,
    audio: &Option<IncomingStream<AudioCodecInfo>>,
    presented_needs_data: bool,
) -> (r: bool)
    ensures
        r == match (*video, *audio) {
            (Some(v), Some(a)) => v.codec_info is None || a.codec_info is None,
            (Some(v), None) => v.codec_info is None,
            (None, Some(a)) => a.codec_info is None,
            (None, None) => presented_needs_data,
        },
{
    match (video, audio) {
        (Some(v), Some(a)) => v.codec_info.is_none() || a.codec_info.is_none(),
        (Some(v), None) => v.codec_info.is_none(),
        (None, Some(a)) => a.codec_info.is_none(),
        (None, None) => presented_needs_data,
    }
}

/// A stream of a type that the session cannot present.
#[derive(Debug, Clone, Copy, PartialEq, Eq)]
pub enum UnknownStreamError {
    /// A video stream of this type.
    Video(StreamType),
    /// An audio stream of this type.
    Audio(StreamType),
}

/// The incoming streams after the selected service's streams change: a
/// changed video stream (of type `video_type`) or audio stream (of type
/// `audio_type`) becomes incoming, with no codec information yet; a stream
/// of a type that cannot be presented drops both incoming streams and gives
/// the error.
pub fn prepare_streams_changing(
    video: Option<IncomingStream<VideoCodecInfo>>,
    audio: Option<IncomingStream<AudioCodecInfo>>,
    immediate: bool,
    video_changed: bool,
    video_type: StreamType,
    audio_changed: bool,
    audio_type: StreamType,
) -> (r: (
    Option<IncomingStream<VideoCodecInfo>>,
    Option<IncomingStream<AudioCodecInfo>>,
    Result<(), UnknownStreamError>,
))
    ensures
        video_changed && !(video_type.0 == StreamType::MPEG2_VIDEO || video_type.0
            == StreamType::H264) ==> r.0 is None && r.1 is None && r.2 == Err::<
            (),
            UnknownStreamError,
        >(UnknownStreamError::Video(video_type)),
        !(video_changed && !(video_type.0 == StreamType::MPEG2_VIDEO || video_type.0
            == StreamType::H264)) && audio_changed && audio_type.0 != StreamType::AAC ==> r.0 is None
            && r.1 is None && r.2 == Err::<(), UnknownStreamError>(
            UnknownStreamError::Audio(audio_type),
        ),
        !(video_changed && !(video_type.0 == StreamType::MPEG2_VIDEO || video_type.0
            == StreamType::H264)) && !(audio_changed && audio_type.0 != StreamType::AAC) ==> {
            &&& r.2 is Ok
            &&& r.0 == if video_changed {
                Some(IncomingStream { immediate, codec_info: None })
            } else {
                video
            }
            &&& r.1 == if audio_changed {
                Some(IncomingStream { immediate, codec_info: None })
            } else {
                audio
            }
        },
{
    let video = if video_changed {
        if !(video_type.0 == StreamType::MPEG2_VIDEO || video_type.0 == StreamType::H264) {
            return (None, None, Err(UnknownStreamError::Video(video_type)));
        }
        Some(IncomingStream { immediate, codec_info: None })
    } else {
        video
    };
    let audio = if audio_changed {
        if audio_type.0 != StreamType::AAC {
            return (None, None, Err(UnknownStreamError::Audio(audio_type)));
        }
        Some(IncomingStream { immediate, codec_info: None })
    } else {
        audio
    };
    (video, audio, Ok(()))
}

/// A change of streams never switches or starts before the codec
/// information of every incoming stream is known, and a change that needs a
/// reset is never answered by delivering packets.
pub proof fn law_no_switch_without_codecs(
    current: Option<(VideoCodecInfo, AudioCodecInfo)>,
    video: Option<IncomingStream<VideoCodecInfo>>,
    audio: Option<IncomingStream<AudioCodecInfo>>,
)
    ensures
        (video matches Some(v) && v.codec_info is None) || (audio matches Some(a)
            && a.codec_info is None) ==> stream_change(current, video, audio)
            == StreamChange::Wait,
        (current matches Some((cv, _)) && video matches Some(v) && v.codec_info matches Some(
            vci,
        ) && video_needs_reset(vci, cv)) ==> !(stream_change(current, video, audio) is Deliver),
{
}

/// The session changes the audio type exactly when it delivers incoming
/// audio of another type than the presented one: another channel
/// configuration or another sampling frequency. Delivering incoming audio of
/// another type always comes with the change, and audio of the same type
/// never does.
pub proof fn law_audio_type_change_signalled(
    current: Option<(VideoCodecInfo, AudioCodecInfo)>,
    video: Option<IncomingStream<VideoCodecInfo>>,
    audio: Option<IncomingStream<AudioCodecInfo>>,
)
    ensures
        (stream_change(current, video, audio) matches StreamChange::Deliver { audio: true, .. })
            ==> current is Some && (audio matches Some(a) && a.codec_info is Some),
        match (current, audio) {
            (Some((_, AudioCodecInfo::Aac(old))), Some(a)) => match a.codec_info {
                Some(AudioCodecInfo::Aac(new)) => stream_change(current, video, audio) matches
                StreamChange::Deliver { audio: true, change_audio_type: c, .. } ==> (c
                    == (new.channel_configuration != old.channel_configuration
                    || new.sampling_frequency != old.sampling_frequency)),
                None => true,
            },
            _ => true,
        },
{
}

/// Incoming video is delivered to the presentation only when it keeps the
/// presented codec and, for MPEG-2 video, the presented width, height and
/// frame rate; any other incoming video is switched to.
pub proof fn law_video_delivered_only_unchanged(
    current: Option<(VideoCodecInfo, AudioCodecInfo)>,
    video: Option<IncomingStream<VideoCodecInfo>>,
    audio: Option<IncomingStream<AudioCodecInfo>>,
)
    ensures
        match (current, video) {
            (Some((cv, _)), Some(v)) => match v.codec_info {
                Some(vci) => (stream_change(current, video, audio) matches StreamChange::Deliver {
                    video: true,
                    ..
                }) ==> match (vci, cv) {
                    (VideoCodecInfo::Mpeg2(a), VideoCodecInfo::Mpeg2(b)) => a.horizontal_size
                        == b.horizontal_size && a.vertical_size == b.vertical_size && a.frame_rate
                        == b.frame_rate,
                    (VideoCodecInfo::H264, VideoCodecInfo::H264) => true,
                    _ => false,
                },
                None => true,
            },
            _ => true,
        },
{
}

} // verus!
