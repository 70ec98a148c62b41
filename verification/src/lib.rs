//! Detection post-processing and video frame bookkeeping for a single-scale
//! object-detection head.
//!
//! Scores and confidences are IEEE-754 binary32 values carried as their bit
//! patterns (`u32`) and ordered by the IEEE total order; this crate holds no
//! floating-point value of its own. Overlap ratios are exact fractions of
//! integer areas, and overlap thresholds are fractions as well.

use vstd::prelude::*;

pub mod decode_video;
pub mod encode_video;
pub mod matrix;
pub mod pipeline;
pub mod prepare;
pub mod process;
pub mod rect;
pub mod tensor;
pub mod time;
pub mod video;

verus! {

/// Number of class scores in every candidate row.
pub const OUTPUT_CLASSES: usize = 80;

/// Side length of the square model input.
pub const INPUT_SIZE: u32 = 640;

/// Which family of post-processing a model head needs.
pub enum YoloType {
    Pose,
    Segment,
    Detection,
}

/// Why post-processing of a model output failed.
#[derive(Debug, Clone, Copy, PartialEq, Eq, Structural)]
pub enum PostProcessingError {
    /// Two box matrices do not have shapes that can be paired up.
    BroadcastArrayDims,
    /// A candidate row cannot be decoded into a detection.
    RowShape,
}

impl PostProcessingError {
    /// A one-line description of the failure.
    pub fn message(&self) -> (s: &'static str)
        ensures
            s@ == match self {
                PostProcessingError::BroadcastArrayDims => "Cannot broadcast to Array dimension"@,
                PostProcessingError::RowShape => "Cannot decode candidate row"@,
            },
    {
        match self {
            PostProcessingError::BroadcastArrayDims => "Cannot broadcast to Array dimension",
            PostProcessingError::RowShape => "Cannot decode candidate row",
        }
    }
}

/// What can go wrong once a detector is running.
#[derive(Debug, Clone, Copy, PartialEq, Eq, Structural)]
pub enum YoloRuntimeError {
    /// An image could not be decoded.
    ImageError,
    /// A file could not be read.
    FileError,
    /// The inference engine reported an error.
    GraphError,
    /// The model output could not be post-processed.
    PostProcessingError(PostProcessingError),
    /// The video could not be loaded.
    VideoLoad,
    /// The processed frames could not be assembled into a video.
    VideoAssemble,
    /// A frame's pixels did not come back in the video's size.
    VideoPluginImageWriteError,
}

impl YoloRuntimeError {
    /// A one-line description of the failure.
    pub fn message(&self) -> (s: &'static str)
        ensures
            s@ == match self {
                YoloRuntimeError::ImageError => "image error"@,
                YoloRuntimeError::FileError => "file error"@,
                YoloRuntimeError::GraphError => "graph error"@,
                YoloRuntimeError::PostProcessingError(_) => "result processing error"@,
                YoloRuntimeError::VideoLoad => "video plugin: load video"@,
                YoloRuntimeError::VideoAssemble => "video plugin: assemble frames"@,
                YoloRuntimeError::VideoPluginImageWriteError =>
                    "video plugin: Video plugin did not write image bytes back to main memory"@,
            },
    {
        match self {
            YoloRuntimeError::ImageError => "image error",
            YoloRuntimeError::FileError => "file error",
            YoloRuntimeError::GraphError => "graph error",
            YoloRuntimeError::PostProcessingError(_) => "result processing error",
            YoloRuntimeError::VideoLoad => "video plugin: load video",
            YoloRuntimeError::VideoAssemble => "video plugin: assemble frames",
            YoloRuntimeError::VideoPluginImageWriteError =>
                "video plugin: Video plugin did not write image bytes back to main memory",
        }
    }
}

/// Why a font could not be loaded.
#[derive(Debug, Clone, Copy, PartialEq, Eq, Structural)]
pub enum FontLoadError {
    /// The bytes are not a font.
    InvalidFontData,
    /// The file could not be read.
    FileError,
}

/// Why a detector could not be built.
#[derive(Debug, Clone, Copy, PartialEq, Eq, Structural)]
pub enum BuildError {
    /// No class names were given before building.
    MissingClasses,
    /// The inference engine refused the model.
    GraphError,
    /// The file of class names could not be read.
    FileError,
}

/// Position of a binary32 bit pattern in the IEEE total order: patterns with
/// a clear sign bit ascend with their value, patterns with the sign bit set
/// lie below all of them and descend.
pub open spec fn score_rank(bits: u32) -> int {
    if bits < 0x8000_0000 {
        bits as int
    } else {
        0x7fff_ffff - bits
    }
}

/// Computes `score_rank`.
pub fn rank_of(bits: u32) -> (r: i64)
    ensures
        r == score_rank(bits),
{
    if bits < 0x8000_0000 {
        bits as i64
    } else {
        0x7fff_ffff - bits as i64
    }
}

/// Minimum class score, as a binary32 bit pattern, that a candidate must
/// reach to be reported.
#[derive(Clone, Copy, Debug)]
pub struct ConfThresh(pub u32);

impl ConfThresh {
    pub fn new(conf: u32) -> (t: Self)
        ensures
            t.0 == conf,
    {
        Self(conf)
    }
}

/// Overlap ratio `numerator / denominator` above which the weaker of two
/// detections of one class is dropped.
#[derive(Clone, Copy, Debug)]
pub struct IOUThresh {
    pub numerator: u32,
    pub denominator: u32,
}

impl IOUThresh {
    /// A threshold in the range `(0, 1]`.
    pub fn new(numerator: u32, denominator: u32) -> (t: Self)
        requires
            0 < numerator <= denominator,
        ensures
            t.numerator == numerator,
            t.denominator == denominator,
    {
        IOUThresh { numerator, denominator }
    }
}

/// One reported object: where it is in the source image, what it is, and
/// how sure the model was (a binary32 bit pattern).
#[derive(Debug, Clone)]
pub struct InferenceResult {
    pub b_box: rect::Rect,
    pub class: String,
    pub confidence: u32,
}

impl InferenceResult {
    /// A detection equal to this one.
    pub fn duplicate(&self) -> (r: Self)
        ensures
            r == *self,
    {
        InferenceResult {
            b_box: self.b_box,
            class: self.class.clone(),
            confidence: self.confidence,
        }
    }
}

/// How a model file is encoded.
#[derive(Debug, Clone, Copy, PartialEq, Eq, Structural)]
pub enum GraphEncoding {
    Openvino,
    Onnx,
    Tensorflow,
    Pytorch,
    TensorflowLite,
    Autodetect,
}

/// Where the model is to run.
#[derive(Debug, Clone, Copy, PartialEq, Eq, Structural)]
pub enum ExecutionTarget {
    CPU,
    GPU,
    TPU,
    AUTO,
}

/// Collects what a detector is built from.
#[derive(Debug, Clone)]
pub struct YoloBuilder {
    pub graph_encoding: GraphEncoding,
    pub execution_target: ExecutionTarget,
    pub classes: Option<Vec<String>>,
}

impl YoloBuilder {
    /// A builder for a PyTorch model on the CPU, without class names yet.
    pub fn new() -> (b: Self)
        ensures
            b.graph_encoding == GraphEncoding::Pytorch,
            b.execution_target == ExecutionTarget::CPU,
            b.classes is None,
    {
        YoloBuilder {
            graph_encoding: GraphEncoding::Pytorch,
            execution_target: ExecutionTarget::CPU,
            classes: None,
        }
    }

    pub fn execution_target(self, execution_target: ExecutionTarget) -> (b: Self)
        ensures
            b == (YoloBuilder { execution_target, ..self }),
    {
        let mut b = self;
        b.execution_target = execution_target;
        b
    }

    pub fn graph_encoding(self, graph_encoding: GraphEncoding) -> (b: Self)
        ensures
            b == (YoloBuilder { graph_encoding, ..self }),
    {
        let mut b = self;
        b.graph_encoding = graph_encoding;
        b
    }

    pub fn classes(self, classes: Vec<String>) -> (b: Self)
        ensures
            b == (YoloBuilder { classes: Some(classes), ..self }),
    {
        let mut b = self;
        b.classes = Some(classes);
        b
    }

    /// What the detector is to be built from, or the reason it cannot be
    /// built: class names must have been given.
    pub fn into_parts(self) -> (r: Result<
        (GraphEncoding, ExecutionTarget, Vec<String>),
        BuildError,
    >)
        ensures
            r == match self.classes {
                Some(classes) => Ok::<(GraphEncoding, ExecutionTarget, Vec<String>), BuildError>(
                    (self.graph_encoding, self.execution_target, classes),
                ),
                None => Err::<(GraphEncoding, ExecutionTarget, Vec<String>), BuildError>(
                    BuildError::MissingClasses,
                ),
            },
    {
        match self.classes {
            Some(classes) => Ok((self.graph_encoding, self.execution_target, classes)),
            None => Err(BuildError::MissingClasses),
        }
    }
}

} // verus!
