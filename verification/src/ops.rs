//! The operations a pipeline is made of, and the nodes that carry them.

use vstd::prelude::*;
use crate::frame::{FrameEstimate, PixelFormat};
use crate::sizing::{Constraint, ConstraintResamplingHints, Filter};

verus! {

/// The dialect in which a command string is written.
#[derive(Clone, Copy, Debug, PartialEq, Eq, Structural)]
pub enum CommandStringKind {
    ImageResizer4,
}

/// The colour space in which samples are blended while scaling.
#[derive(Clone, Copy, Debug, PartialEq, Eq, Structural)]
pub enum ScalingFloatspace {
    Srgb,
    Linear,
}

/// The parameters of a node: which operation it stands for, and with what
/// arguments.
#[derive(Debug, PartialEq, Eq)]
pub enum NodeParams {
    Decode { io_id: i32 },
    Encode { io_id: i32 },
    CommandString { kind: CommandStringKind, value: String, decode: Option<i32>, encode: Option<i32> },
    Constrain(Constraint),
    Resample2D {
        w: u32,
        h: u32,
        down_filter: Option<Filter>,
        up_filter: Option<Filter>,
        scaling_colorspace: Option<ScalingFloatspace>,
        hints: Option<ConstraintResamplingHints>,
    },
    Crop { x1: u32, y1: u32, x2: u32, y2: u32 },
    FlipV,
    FlipH,
    Rotate90,
    Rotate180,
    Rotate270,
    Transpose,
}

impl Clone for NodeParams {
    fn clone(&self) -> (r: Self)
        ensures
            r == *self,
    {
        match self {
            NodeParams::Decode { io_id } => NodeParams::Decode { io_id: *io_id },
            NodeParams::Encode { io_id } => NodeParams::Encode { io_id: *io_id },
            NodeParams::CommandString { kind, value, decode, encode } => NodeParams::CommandString {
                kind: *kind,
                value: value.clone(),
                decode: *decode,
                encode: *encode,
            },
            NodeParams::Constrain(constraint) => NodeParams::Constrain(*constraint),
            NodeParams::Resample2D { w, h, down_filter, up_filter, scaling_colorspace, hints } => {
                NodeParams::Resample2D {
                    w: *w,
                    h: *h,
                    down_filter: *down_filter,
                    up_filter: *up_filter,
                    scaling_colorspace: *scaling_colorspace,
                    hints: *hints,
                }
            },
            NodeParams::Crop { x1, y1, x2, y2 } => NodeParams::Crop {
                x1: *x1,
                y1: *y1,
                x2: *x2,
                y2: *y2,
            },
            NodeParams::FlipV => NodeParams::FlipV,
            NodeParams::FlipH => NodeParams::FlipH,
            NodeParams::Rotate90 => NodeParams::Rotate90,
            NodeParams::Rotate180 => NodeParams::Rotate180,
            NodeParams::Rotate270 => NodeParams::Rotate270,
            NodeParams::Transpose => NodeParams::Transpose,
        }
    }
}

/// The definition that handles a node: one per operation, and one more for a
/// command string whose source has been settled.
#[derive(Clone, Copy, Debug, PartialEq, Eq, Structural)]
pub enum NodeKind {
    Decoder,
    Encoder,
    CommandString,
    ExpandingCommandString,
    Constrain,
    Scale,
    Crop,
    FlipV,
    FlipH,
    Rotate90,
    Rotate180,
    Rotate270,
    Transpose,
}

impl NodeParams {
    /// The definition that handles these parameters when nothing else is said.
    pub open spec fn spec_kind(&self) -> NodeKind {
        match self {
            NodeParams::Decode { .. } => NodeKind::Decoder,
            NodeParams::Encode { .. } => NodeKind::Encoder,
            NodeParams::CommandString { .. } => NodeKind::CommandString,
            NodeParams::Constrain(_) => NodeKind::Constrain,
            NodeParams::Resample2D { .. } => NodeKind::Scale,
            NodeParams::Crop { .. } => NodeKind::Crop,
            NodeParams::FlipV => NodeKind::FlipV,
            NodeParams::FlipH => NodeKind::FlipH,
            NodeParams::Rotate90 => NodeKind::Rotate90,
            NodeParams::Rotate180 => NodeKind::Rotate180,
            NodeParams::Rotate270 => NodeKind::Rotate270,
            NodeParams::Transpose => NodeKind::Transpose,
        }
    }

    /// The definition that handles these parameters when nothing else is said.
    #[verifier::when_used_as_spec(spec_kind)]
    pub fn kind(&self) -> (r: NodeKind)
        ensures
            r == self.spec_kind(),
    {
        match self {
            NodeParams::Decode { .. } => NodeKind::Decoder,
            NodeParams::Encode { .. } => NodeKind::Encoder,
            NodeParams::CommandString { .. } => NodeKind::CommandString,
            NodeParams::Constrain(_) => NodeKind::Constrain,
            NodeParams::Resample2D { .. } => NodeKind::Scale,
            NodeParams::Crop { .. } => NodeKind::Crop,
            NodeParams::FlipV => NodeKind::FlipV,
            NodeParams::FlipH => NodeKind::FlipH,
            NodeParams::Rotate90 => NodeKind::Rotate90,
            NodeParams::Rotate180 => NodeKind::Rotate180,
            NodeParams::Rotate270 => NodeKind::Rotate270,
            NodeParams::Transpose => NodeKind::Transpose,
        }
    }
}

/// A vertex of the pipeline graph.
#[derive(Debug, PartialEq, Eq)]
pub struct Node {
    pub def: NodeKind,
    pub params: NodeParams,
    pub frame_est: FrameEstimate,
}

impl Clone for Node {
    fn clone(&self) -> (r: Self)
        ensures
            r == *self,
    {
        Node { def: self.def, params: self.params.clone(), frame_est: self.frame_est }
    }
}

impl Node {
    /// A node of the given definition that has not been estimated yet.
    pub open spec fn spec_n(def: NodeKind, params: NodeParams) -> Node {
        Node { def, params, frame_est: FrameEstimate::InvalidateGraph }
    }

    /// A node for `params` under its usual definition, not estimated yet.
    pub open spec fn spec_from(params: NodeParams) -> Node {
        Node { def: params.spec_kind(), params, frame_est: FrameEstimate::InvalidateGraph }
    }

    /// A node of the given definition that has not been estimated yet.
    #[verifier::when_used_as_spec(spec_n)]
    pub fn n(def: NodeKind, params: NodeParams) -> (r: Node)
        ensures
            r == Self::spec_n(def, params),
    {
        Node { def, params, frame_est: FrameEstimate::InvalidateGraph }
    }

    /// A node for `params` under its usual definition, not estimated yet.
    #[verifier::when_used_as_spec(spec_from)]
    pub fn from(params: NodeParams) -> (r: Node)
        ensures
            r == Self::spec_from(params),
    {
        let def = params.kind();
        Node { def, params, frame_est: FrameEstimate::InvalidateGraph }
    }
}

/// A command in one of the dialects that the translation service reads.
#[derive(Debug, PartialEq, Eq)]
pub enum Command {
    QueryString(String),
}

/// What the translation service is told of the frame that a command is
/// applied to.
#[derive(Debug, PartialEq, Eq)]
pub struct SourceFrameInfo {
    pub w: i32,
    pub h: i32,
    pub fmt: PixelFormat,
    pub original_mime: Option<String>,
}

/// Everything the translation service needs to turn a command into decode
/// hints or into primitive steps.
#[derive(Debug, PartialEq, Eq)]
pub struct ExpandRequest {
    pub command: Command,
    pub encode_id: Option<i32>,
    pub source: SourceFrameInfo,
}

/// What the translation service needs to synthesise a decode node.
#[derive(Debug, PartialEq, Eq)]
pub struct DecodeRequest {
    pub command: Command,
    pub decode_id: i32,
}

/// How a JPEG decoder may downscale while it decodes.
#[derive(Clone, Copy, Debug, PartialEq, Eq, Structural)]
pub struct JpegDownscaleHints {
    pub width: i64,
    pub height: i64,
    pub scale_luma_spatially: Option<bool>,
    pub gamma_correct_for_srgb_during_spatial_luma_scaling: Option<bool>,
}

/// An instruction sent to a decoder ahead of decoding.
#[derive(Clone, Copy, Debug, PartialEq, Eq, Structural)]
pub enum DecoderCommand {
    JpegDownscaleHints(JpegDownscaleHints),
    DiscardColorProfile,
}

/// One delivery: a command for the decoder behind an IO identifier.
#[derive(Clone, Copy, Debug, PartialEq, Eq, Structural)]
pub struct DecoderTell {
    pub io_id: i32,
    pub command: DecoderCommand,
}

} // verus!
