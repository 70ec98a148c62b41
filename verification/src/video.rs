//! The frame store behind the buffer boundary.
//!
//! A video is decoded once into an ordered list of raw RGB24 frames. Each
//! frame is then fetched, processed elsewhere, and written back; when every
//! frame has been written back the list is handed on for encoding. Buffers
//! cross the boundary as borrowed slices and vectors, so the caller keeps
//! ownership and nothing is released twice or not at all.

use vstd::prelude::*;

verus! {

#[derive(Debug, Copy, Clone, PartialEq, Eq, Structural)]
pub struct Width(pub u32);

#[derive(Debug, Copy, Clone, PartialEq, Eq, Structural)]
pub struct Height(pub u32);

/// A fraction `numerator / denominator`, as codecs use for rates and clocks.
#[derive(Debug, Copy, Clone, PartialEq, Eq, Structural)]
pub struct Rational(pub i32, pub i32);

#[derive(Debug, Copy, Clone, PartialEq, Eq, Structural)]
pub struct AspectRatio(pub Rational);

/// Frames per second, where the container states it.
#[derive(Debug, Copy, Clone, PartialEq, Eq, Structural)]
pub struct FrameRate(pub Option<Rational>);

#[derive(Debug, Copy, Clone, PartialEq, Eq, Structural)]
pub struct BitRate(pub usize);

#[derive(Debug, Copy, Clone, PartialEq, Eq, Structural)]
pub struct MaxBitRate(pub usize);

/// The codec library's number for a pixel layout.
#[derive(Debug, Copy, Clone, PartialEq, Eq, Structural)]
pub struct PixelFormat(pub i32);

/// How a frame was coded in its source stream.
#[derive(Debug, Copy, Clone, PartialEq, Eq, Structural)]
pub enum FrameKind {
    Unspecified,
    I,
    P,
    B,
    S,
    SI,
    SP,
    BI,
}

/// What is known of a video stream once it has been opened.
#[derive(Debug, Clone)]
pub struct VideoInfo {
    pub codec: String,
    pub format: PixelFormat,
    pub width: Width,
    pub height: Height,
    pub aspect_ratio: AspectRatio,
    pub frame_rate: FrameRate,
    pub input_stream_meta_data: Vec<(String, String)>,
    pub itcx_number_streams: u32,
    pub bitrate: BitRate,
    pub max_bitrate: MaxBitRate,
}

impl VideoInfo {
    pub fn new(
        codec: String,
        format: PixelFormat,
        width: Width,
        height: Height,
        aspect_ratio: AspectRatio,
        frame_rate: FrameRate,
        input_stream_meta_data: Vec<(String, String)>,
        itcx_number_streams: u32,
        bitrate: BitRate,
        max_bitrate: MaxBitRate,
    ) -> (info: Self)
        ensures
            info == (VideoInfo {
                codec,
                format,
                width,
                height,
                aspect_ratio,
                frame_rate,
                input_stream_meta_data,
                itcx_number_streams,
                bitrate,
                max_bitrate,
            }),
    {
        VideoInfo {
            codec,
            format,
            width,
            height,
            aspect_ratio,
            frame_rate,
            input_stream_meta_data,
            itcx_number_streams,
            bitrate,
            max_bitrate,
        }
    }

    pub fn width(&self) -> (w: u32)
        ensures
            w == self.width.0,
    {
        self.width.0
    }

    pub fn height(&self) -> (h: u32)
        ensures
            h == self.height.0,
    {
        self.height.0
    }

    /// Bytes in one RGB24 frame of this stream.
    pub open spec fn frame_bytes(self) -> int {
        self.width.0 * self.height.0 * 3
    }

    /// Whether a buffer of `len` bytes holds exactly one RGB24 frame.
    pub fn is_frame_len(&self, len: usize) -> (b: bool)
        ensures
            b == (len == self.frame_bytes()),
    {
        assert(self.width.0 * self.height.0 <= 0xffff_ffff * 0xffff_ffff) by (nonlinear_arith)
            requires
                self.width.0 <= 0xffff_ffff,
                self.height.0 <= 0xffff_ffff,
        ;
        let pixels: u64 = self.width.0 as u64 * self.height.0 as u64;
        pixels as u128 * 3 == len as u128
    }
}

/// Why a call across the buffer boundary was refused.
#[derive(Debug, Copy, Clone, PartialEq, Eq, Structural)]
pub enum VideoProcessingPluginError {
    /// The decoded video holds no frame at all.
    NoFrames,
    /// No video has been loaded yet.
    NoVideoLoaded,
    /// The frame index is past the last frame.
    FrameIndexOutOfRange,
    /// A pixel buffer does not have the size of one frame.
    BufferSize,
    /// Some frame has not been written back yet.
    MissingFrames,
}

impl VideoProcessingPluginError {
    /// The status code of each refusal.
    pub open spec fn spec_code(self) -> int {
        match self {
            VideoProcessingPluginError::FrameIndexOutOfRange => 1,
            VideoProcessingPluginError::NoFrames => 2,
            VideoProcessingPluginError::NoVideoLoaded => 3,
            VideoProcessingPluginError::BufferSize => 4,
            VideoProcessingPluginError::MissingFrames => 5,
        }
    }

    /// The status code reported across the boundary; zero is kept for
    /// success, and an index out of range has a code of its own.
    pub fn code(&self) -> (c: i32)
        ensures
            c == self.spec_code(),
    {
        match self {
            VideoProcessingPluginError::FrameIndexOutOfRange => 1,
            VideoProcessingPluginError::NoFrames => 2,
            VideoProcessingPluginError::NoVideoLoaded => 3,
            VideoProcessingPluginError::BufferSize => 4,
            VideoProcessingPluginError::MissingFrames => 5,
        }
    }
}

/// The status code of a finished call: zero for success, else the error's.
pub fn status_code<T>(outcome: &Result<T, VideoProcessingPluginError>) -> (c: i32)
    ensures
        c == match outcome {
            Ok(_) => 0,
            Err(e) => e.spec_code(),
        },
        (c == 0) == outcome.is_ok(),
{
    match outcome {
        Ok(_) => 0,
        Err(e) => e.code(),
    }
}

/// One decoded frame and, once it has been processed, its replacement.
#[derive(Debug, Clone)]
pub struct FrameMap {
    /// RGB24 pixels as decoded.
    pub input_frame: Vec<u8>,
    pub frame_type: FrameKind,
    /// Presentation timestamp in the source stream's time base.
    pub timestamp: Option<i64>,
    /// RGB24 pixels to encode; unset until the frame has been written back.
    pub output_frame: Option<Vec<u8>>,
}

impl FrameMap {
    /// A freshly decoded frame, not yet written back.
    pub fn new(input_frame: Vec<u8>, frame_type: FrameKind, timestamp: Option<i64>) -> (f: Self)
        ensures
            f.input_frame == input_frame,
            f.frame_type == frame_type,
            f.timestamp == timestamp,
            f.output_frame is None,
    {
        FrameMap { input_frame, frame_type, timestamp, output_frame: None }
    }

    /// Input and (if set) output both have the size of one frame of `info`.
    pub open spec fn sized_for(self, info: VideoInfo) -> bool {
        &&& self.input_frame.len() == info.frame_bytes()
        &&& self.output_frame matches Some(out) ==> out.len() == info.frame_bytes()
    }
}

/// The frames of the loaded video, in presentation order, with the stream
/// they came from.
#[derive(Debug, Clone)]
pub struct FramesMap {
    pub frames: Vec<FrameMap>,
    pub video_info: Option<VideoInfo>,
}

/// A frame ready for encoding: pixels, source frame kind, source timestamp.
pub type WrittenFrame = (Vec<u8>, FrameKind, Option<i64>);

/// A copy of the bytes.
pub fn copy_bytes(src: &[u8]) -> (v: Vec<u8>)
    ensures
        v@ == src@,
{
    let mut v: Vec<u8> = Vec::new();
    for i in 0..src.len()
        invariant
            v@ == src@.subrange(0, i as int),
    {
        v.push(src[i]);
    }
    assert(src@.subrange(0, src.len() as int) == src@);
    v
}

/// Every frame has the size that the stream prescribes.
pub open spec fn all_sized(frames: Seq<FrameMap>, info: VideoInfo) -> bool {
    forall|i: int| 0 <= i < frames.len() ==> (#[trigger] frames[i]).sized_for(info)
}

/// The positions among the first `n` frames that have not been written back.
pub open spec fn missing_before(frames: Seq<FrameMap>, n: int) -> Seq<usize>
    decreases n,
{
    if n <= 0 {
        Seq::empty()
    } else if frames[n - 1].output_frame is None {
        missing_before(frames, n - 1).push((n - 1) as usize)
    } else {
        missing_before(frames, n - 1)
    }
}

/// Every frame has been written back.
pub open spec fn all_written(frames: Seq<FrameMap>) -> bool {
    forall|i: int| 0 <= i < frames.len() ==> (#[trigger] frames[i]).output_frame is Some
}

/// No position is missing exactly when every frame has been written back.
pub proof fn lemma_missing_none(frames: Seq<FrameMap>, n: int)
    requires
        0 <= n <= frames.len(),
    ensures
        (missing_before(frames, n).len() == 0) == all_written(frames.subrange(0, n)),
    decreases n,
{
    if n > 0 {
        lemma_missing_none(frames, n - 1);
        let head = frames.subrange(0, n - 1);
        let all = frames.subrange(0, n);
        assert(all[n - 1] == frames[n - 1]);
        assert forall|i: int| 0 <= i < n - 1 implies #[trigger] all[i] == head[i] by {}
        if all_written(all) {
            assert forall|i: int| 0 <= i < head.len() implies (#[trigger] head[i]).output_frame
                is Some by {
                assert(all[i] == head[i]);
            }
        }
    }
}

impl FramesMap {
    /// The store before any video has been loaded.
    pub fn new() -> (s: Self)
        ensures
            s.frames@.len() == 0,
            s.video_info is None,
            s.wf(),
    {
        FramesMap { frames: Vec::new(), video_info: None }
    }

    /// Without a video there are no frames; with one there is at least one
    /// frame and every buffer has the stream's frame size.
    pub open spec fn wf(self) -> bool {
        match self.video_info {
            Some(info) => self.frames.len() > 0 && all_sized(self.frames@, info),
            None => self.frames.len() == 0,
        }
    }

    /// Takes over a decoded video and reports `(width, height, frame count)`.
    /// A video without frames is refused, and so is one with a frame of the
    /// wrong size; a refused video leaves the store as it was.
    pub fn load_video(&mut self, frames: Vec<FrameMap>, video_info: VideoInfo) -> (r: Result<
        (u32, u32, usize),
        VideoProcessingPluginError,
    >)
        ensures
            match r {
                Ok(dims) => {
                    &&& frames.len() > 0
                    &&& all_sized(frames@, video_info)
                    &&& final(self).frames == frames
                    &&& final(self).video_info == Some(video_info)
                    &&& dims == (video_info.width.0, video_info.height.0, frames.len())
                    &&& final(self).wf()
                },
                Err(e) => {
                    &&& *final(self) == *old(self)
                    &&& e == if frames.len() == 0 {
                        VideoProcessingPluginError::NoFrames
                    } else {
                        VideoProcessingPluginError::BufferSize
                    }
                    &&& frames.len() == 0 || !all_sized(frames@, video_info)
                },
            },
    {
        if frames.len() == 0 {
            return Err(VideoProcessingPluginError::NoFrames);
        }
        for i in 0..frames.len()
            invariant
                forall|k: int| 0 <= k < i ==> (#[trigger] frames[k]).sized_for(video_info),
                *self == *old(self),
        {
            let frame = &frames[i];
            let fits = video_info.is_frame_len(frame.input_frame.len()) && match &frame.output_frame {
                Some(out) => video_info.is_frame_len(out.len()),
                None => true,
            };
            if !fits {
                assert(!frames[i as int].sized_for(video_info));
                return Err(VideoProcessingPluginError::BufferSize);
            }
        }
        let dims = (video_info.width.0, video_info.height.0, frames.len());
        self.frames = frames;
        self.video_info = Some(video_info);
        Ok(dims)
    }

    /// Copies the decoded pixels of frame `idx` into `dest`, which must
    /// already have their length. On refusal `dest` is left untouched.
    pub fn get_frame(&self, idx: usize, dest: &mut Vec<u8>) -> (r: Result<
        (),
        VideoProcessingPluginError,
    >)
        ensures
            match r {
                Ok(_) => idx < self.frames.len() && final(dest)@ == self.frames[idx as int].input_frame@
                    && old(dest).len() == final(dest).len(),
                Err(e) => {
                    &&& final(dest)@ == old(dest)@
                    &&& e == if idx >= self.frames.len() {
                        VideoProcessingPluginError::FrameIndexOutOfRange
                    } else {
                        VideoProcessingPluginError::BufferSize
                    }
                    &&& idx >= self.frames.len() || old(dest).len()
                        != self.frames[idx as int].input_frame.len()
                },
            },
    {
        if idx >= self.frames.len() {
            return Err(VideoProcessingPluginError::FrameIndexOutOfRange);
        }
        let source = &self.frames[idx].input_frame;
        if dest.len() != source.len() {
            return Err(VideoProcessingPluginError::BufferSize);
        }
        let n = source.len();
        for i in 0..n
            invariant
                n == source.len(),
                dest.len() == n,
                forall|k: int| 0 <= k < i ==> dest[k] == source[k],
        {
            dest[i] = source[i];
        }
        assert(dest@ =~= source@);
        Ok(())
    }

    /// Stores `src` as the processed pixels of frame `idx`, replacing what
    /// was stored for it before. Nothing else changes, and a refused call
    /// changes nothing.
    pub fn write_frame(&mut self, idx: usize, src: &[u8]) -> (r: Result<
        (),
        VideoProcessingPluginError,
    >)
        ensures
            old(self).wf() ==> final(self).wf(),
            final(self).video_info == old(self).video_info,
            final(self).frames.len() == old(self).frames.len(),
            match r {
                Ok(_) => {
                    &&& idx < old(self).frames.len()
                    &&& old(self).video_info matches Some(info) && src.len() == info.frame_bytes()
                    &&& final(self).frames@ == old(self).frames@.update(
                        idx as int,
                        FrameMap {
                            output_frame: Some(final(self).frames[idx as int].output_frame.unwrap()),
                            ..old(self).frames[idx as int]
                        },
                    )
                    &&& final(self).frames[idx as int].output_frame matches Some(out) && out@
                        == src@
                },
                Err(e) => {
                    &&& *final(self) == *old(self)
                    &&& e == match old(self).video_info {
                        None => VideoProcessingPluginError::NoVideoLoaded,
                        Some(info) => if idx >= old(self).frames.len() {
                            VideoProcessingPluginError::FrameIndexOutOfRange
                        } else {
                            VideoProcessingPluginError::BufferSize
                        },
                    }
                    &&& old(self).video_info matches Some(info) ==> idx >= old(self).frames.len()
                        || src.len() != info.frame_bytes()
                },
            },
    {
        let fits = match &self.video_info {
            None => {
                return Err(VideoProcessingPluginError::NoVideoLoaded);
            },
            Some(info) => info.is_frame_len(src.len()),
        };
        if idx >= self.frames.len() {
            return Err(VideoProcessingPluginError::FrameIndexOutOfRange);
        }
        if !fits {
            return Err(VideoProcessingPluginError::BufferSize);
        }
        let pixels = copy_bytes(src);
        self.frames[idx].output_frame = Some(pixels);
        proof {
            let info = old(self).video_info.unwrap();
            if old(self).wf() {
                assert forall|i: int| 0 <= i < self.frames.len() implies (
                #[trigger] self.frames[i]).sized_for(info) by {
                    assert(old(self).frames[i].sized_for(info));
                }
            }
        }
        Ok(())
    }

    /// The positions of the frames that have not been written back,
    /// ascending.
    pub fn missing_frames(&self) -> (missing: Vec<usize>)
        ensures
            missing@ == missing_before(self.frames@, self.frames.len() as int),
            (missing.len() == 0) == all_written(self.frames@),
    {
        let mut missing: Vec<usize> = Vec::new();
        for i in 0..self.frames.len()
            invariant
                missing@ == missing_before(self.frames@, i as int),
        {
            if self.frames[i].output_frame.is_none() {
                missing.push(i);
            }
        }
        proof {
            lemma_missing_none(self.frames@, self.frames.len() as int);
            assert(self.frames@.subrange(0, self.frames.len() as int) == self.frames@);
        }
        missing
    }

    /// The processed frames in order, ready for encoding. This is refused
    /// while no video is loaded and while any frame has not been written
    /// back; a partly written video is never handed on.
    pub fn assemble_output_frames(&self) -> (r: Result<
        Vec<WrittenFrame>,
        VideoProcessingPluginError,
    >)
        ensures
            match r {
                Ok(out) => {
                    &&& self.video_info is Some
                    &&& all_written(self.frames@)
                    &&& out.len() == self.frames.len()
                    &&& forall|i: int|
                        0 <= i < out.len() ==> {
                            &&& (#[trigger] out[i]).0@ == self.frames[i].output_frame.unwrap()@
                            &&& out[i].1 == self.frames[i].frame_type
                            &&& out[i].2 == self.frames[i].timestamp
                        }
                },
                Err(e) => {
                    &&& e == if self.video_info is None {
                        VideoProcessingPluginError::NoVideoLoaded
                    } else {
                        VideoProcessingPluginError::MissingFrames
                    }
                    &&& self.video_info is None || !all_written(self.frames@)
                },
            },
    {
        if self.video_info.is_none() {
            return Err(VideoProcessingPluginError::NoVideoLoaded);
        }
        let mut out: Vec<WrittenFrame> = Vec::new();
        for i in 0..self.frames.len()
            invariant
                self.video_info is Some,
                out.len() == i,
                forall|k: int| 0 <= k < i ==> (#[trigger] self.frames[k]).output_frame is Some,
                forall|k: int|
                    0 <= k < i ==> {
                        &&& (#[trigger] out[k]).0@ == self.frames[k].output_frame.unwrap()@
                        &&& out[k].1 == self.frames[k].frame_type
                        &&& out[k].2 == self.frames[k].timestamp
                    },
        {
            let frame = &self.frames[i];
            match &frame.output_frame {
                Some(pixels) => {
                    out.push((copy_bytes(pixels.as_slice()), frame.frame_type, frame.timestamp));
                },
                None => {
                    assert(self.frames[i as int].output_frame is None);
                    return Err(VideoProcessingPluginError::MissingFrames);
                },
            }
        }
        Ok(out)
    }
}

} // verus!
