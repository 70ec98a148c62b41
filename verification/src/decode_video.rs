//! The frame source's bookkeeping: decoded pictures become the ordered frame
//! list that the store takes over.

use vstd::prelude::*;
use crate::video::{FrameKind, FrameMap};

verus! {

/// Why a video could not be decoded.
#[derive(Debug, Clone, PartialEq, Eq)]
pub enum VideoDecoderError {
    /// The codec library reported an error.
    FFMpegError(String),
    /// No usable codec.
    CodecError(String),
}

/// A decoded picture: RGB24 pixels, frame kind, presentation timestamp.
pub type DecodedFrame = (Vec<u8>, FrameKind, Option<i64>);

/// Whether a packet belongs to the video stream that is being decoded.
pub fn is_video_packet(packet_stream: usize, video_stream_index: usize) -> (b: bool)
    ensures
        b == (packet_stream == video_stream_index),
{
    packet_stream == video_stream_index
}

/// Appends freshly decoded pictures to the frame list, in the order the
/// decoder gave them and each with its output unset.
pub fn push_decoded(frames: &mut Vec<FrameMap>, decoded: Vec<DecodedFrame>)
    ensures
        final(frames).len() == old(frames).len() + decoded.len(),
        forall|i: int| 0 <= i < old(frames).len() ==> final(frames)[i] == old(frames)[i],
        forall|i: int|
            0 <= i < decoded.len() ==> {
                let f = #[trigger] final(frames)[old(frames).len() + i];
                &&& f.input_frame == decoded[i].0
                &&& f.frame_type == decoded[i].1
                &&& f.timestamp == decoded[i].2
                &&& f.output_frame is None
            },
{
    let ghost before = frames@;
    let mut decoded = decoded;
    let ghost all = decoded@;
    let mut tail: Vec<FrameMap> = Vec::new();
    // Pictures are taken from the back, so `tail` holds them last to first.
    while decoded.len() > 0
        invariant
            decoded@ == all.subrange(0, decoded.len() as int),
            tail.len() == all.len() - decoded.len(),
            forall|k: int|
                0 <= k < tail.len() ==> {
                    let f = #[trigger] tail[k];
                    let d = all[all.len() - 1 - k];
                    &&& f.input_frame == d.0
                    &&& f.frame_type == d.1
                    &&& f.timestamp == d.2
                    &&& f.output_frame is None
                },
        decreases decoded.len(),
    {
        match decoded.pop() {
            Some((pixels, kind, timestamp)) => tail.push(FrameMap::new(pixels, kind, timestamp)),
            None => {},
        }
    }
    while tail.len() > 0
        invariant
            frames.len() + tail.len() == before.len() + all.len(),
            frames.len() >= before.len(),
            forall|i: int| 0 <= i < before.len() ==> frames[i] == before[i],
            forall|k: int|
                0 <= k < tail.len() ==> {
                    let f = #[trigger] tail[k];
                    let d = all[all.len() - 1 - k];
                    &&& f.input_frame == d.0
                    &&& f.frame_type == d.1
                    &&& f.timestamp == d.2
                    &&& f.output_frame is None
                },
            forall|i: int|
                0 <= i < frames.len() - before.len() ==> {
                    let f = #[trigger] frames[before.len() + i];
                    &&& f.input_frame == all[i].0
                    &&& f.frame_type == all[i].1
                    &&& f.timestamp == all[i].2
                    &&& f.output_frame is None
                },
        decreases tail.len(),
    {
        match tail.pop() {
            Some(frame) => frames.push(frame),
            None => {},
        }
    }
}

} // verus!
