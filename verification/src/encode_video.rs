//! The frame sink's decisions: frame rate, bit rate, frame duration, and how
//! long to keep draining the encoder. Encoding itself happens elsewhere.

use vstd::prelude::*;
use crate::time::{nanos_to_micros, duration_base, Time};
use crate::video::{FrameKind, FrameRate, Rational, VideoInfo};

verus! {

/// Maximum number of attempts to drain the encoder after the last frame.
pub const MAX_DRAIN_ITERATIONS: u32 = 100;

/// Frames per second assumed for a stream that does not state its own.
pub const FALLBACK_FRAME_RATE: i32 = 30;

/// Why encoding could not be set up or carried out.
#[derive(Debug, Clone, PartialEq, Eq)]
pub enum VideoEncoderError {
    /// The codec library reported an error.
    FFMpegError(String),
    /// No usable codec.
    CodecError(String),
    /// The frame rate is not a positive fraction.
    BadFrameRate,
}

/// The frame rate to encode with: the stream's own, or the fallback.
pub open spec fn frame_rate_or_fallback(frame_rate: FrameRate) -> Rational {
    match frame_rate.0 {
        Some(rate) => rate,
        None => Rational(FALLBACK_FRAME_RATE, 1),
    }
}

/// Half the bit rate of the uncompressed stream: three bytes per pixel,
/// eight bits per byte, `rate` frames per second, rounded down.
pub open spec fn target_bit_rate(width: u32, height: u32, rate: Rational) -> int
    recommends
        rate.1 > 0,
{
    (12 * width * height * rate.0) / (rate.1 as int)
}

/// Nanoseconds that one frame lasts at `rate`, rounded down.
pub open spec fn frame_nanos(rate: Rational) -> int
    recommends
        rate.0 > 0,
{
    (1_000_000_000 * rate.1) / (rate.0 as int)
}

/// The frame rate to encode with, and whether it had to be assumed because
/// the stream states none. An assumed rate is worth a warning, not a failure.
pub fn effective_frame_rate(frame_rate: &FrameRate) -> (r: (Rational, bool))
    ensures
        r.0 == frame_rate_or_fallback(*frame_rate),
        r.1 == (frame_rate.0 is None),
{
    match frame_rate.0 {
        Some(rate) => (rate, false),
        None => (Rational(FALLBACK_FRAME_RATE, 1), true),
    }
}

/// The encoder's target bit rate for a stream: half of what the stream
/// takes uncompressed. `None` when the frame rate is not a positive
/// fraction or the rate does not fit the machine word.
pub fn encoder_bit_rate(v_info: &VideoInfo) -> (r: Option<usize>)
    ensures
        ({
            let rate = frame_rate_or_fallback(v_info.frame_rate);
            let bits = target_bit_rate(v_info.width.0, v_info.height.0, rate);
            r == if rate.0 > 0 && rate.1 > 0 && bits <= usize::MAX {
                Some(bits as usize)
            } else {
                None::<usize>
            }
        }),
{
    let (rate, _) = effective_frame_rate(&v_info.frame_rate);
    if rate.0 <= 0 || rate.1 <= 0 {
        return None;
    }
    let (w, h, n) = (v_info.width.0 as u128, v_info.height.0 as u128, rate.0 as u128);
    assert(12 * w * h <= 12 * 0xffff_ffff * 0xffff_ffff && 12 * w * h * n <= 12 * 0xffff_ffff
        * 0xffff_ffff * 0x7fff_ffff) by (nonlinear_arith)
        requires
            0 <= w <= 0xffff_ffff,
            0 <= h <= 0xffff_ffff,
            0 <= n <= 0x7fff_ffff,
    ;
    let bits: u128 = 12 * w * h * n / (rate.1 as u128);
    if bits <= usize::MAX as u128 {
        Some(bits as usize)
    } else {
        None
    }
}

/// How long one frame lasts, on the duration clock. Refused when the frame
/// rate is not a positive fraction.
pub fn frame_duration(rate: Rational) -> (r: Result<Time, VideoEncoderError>)
    ensures
        match r {
            Ok(t) => rate.0 > 0 && rate.1 > 0 && t == (Time {
                time: Some(nanos_to_micros(frame_nanos(rate) as u64) as i64),
                time_base: duration_base(),
            }),
            Err(e) => e == VideoEncoderError::BadFrameRate && (rate.0 <= 0 || rate.1 <= 0),
        },
{
    if rate.0 <= 0 || rate.1 <= 0 {
        return Err(VideoEncoderError::BadFrameRate);
    }
    let nanos: u64 = 1_000_000_000u64 * (rate.1 as u64) / (rate.0 as u64);
    Ok(Time::from_nanos(nanos))
}

/// The kind every encoded frame is given: processing may change pixels in
/// ways that frames predicted from their neighbours could not follow, so
/// each frame is coded on its own.
pub fn encoded_kind(_source: FrameKind) -> (k: FrameKind)
    ensures
        k == FrameKind::I,
{
    FrameKind::I
}

/// What the encoder answered when asked for a packet.
#[derive(Debug, Clone, Copy, PartialEq, Eq, Structural)]
pub enum ReceiveStatus {
    /// A packet came out.
    Packet,
    /// Nothing is ready yet; the encoder wants more input first.
    Again,
    /// The encoder failed.
    Failed,
}

/// What to do with the encoder's answer.
#[derive(Debug, Clone, Copy, PartialEq, Eq, Structural)]
pub enum PacketStep {
    /// Rescale the packet's timestamps and write it out.
    Write,
    /// Go on without a packet.
    Skip,
    /// Give up on the whole video.
    Abort,
}

/// After a frame has been sent: a packet is written, "not ready yet" is
/// passed over, and any other failure ends the job.
pub fn after_send(status: ReceiveStatus) -> (step: PacketStep)
    ensures
        step == match status {
            ReceiveStatus::Packet => PacketStep::Write,
            ReceiveStatus::Again => PacketStep::Skip,
            ReceiveStatus::Failed => PacketStep::Abort,
        },
{
    match status {
        ReceiveStatus::Packet => PacketStep::Write,
        ReceiveStatus::Again => PacketStep::Skip,
        ReceiveStatus::Failed => PacketStep::Abort,
    }
}

/// While flushing: whether the answer to drain attempt number `attempt`
/// (counted from zero) is a packet to write. Draining ends with the first
/// answer that is no packet, and in any case after the maximum number of
/// attempts.
pub fn drain_writes(attempt: u32, status: ReceiveStatus) -> (write: bool)
    ensures
        write == (attempt < MAX_DRAIN_ITERATIONS && status == ReceiveStatus::Packet),
{
    attempt < MAX_DRAIN_ITERATIONS && status == ReceiveStatus::Packet
}

} // verus!
