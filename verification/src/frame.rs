//! What is known of a node's output frame while a pipeline is being planned.

use vstd::prelude::*;

verus! {

/// The layout of one pixel of a frame.
#[derive(Clone, Copy, Debug, PartialEq, Eq, Structural)]
pub enum PixelFormat {
    Gray8,
    Bgr24,
    Bgra32,
    Bgr32,
}

/// Width, height and pixel layout of a frame, without any pixel data.
#[derive(Clone, Copy, Debug, PartialEq, Eq, Structural)]
pub struct FrameInfo {
    pub w: i32,
    pub h: i32,
    pub fmt: PixelFormat,
}

/// The state of a node's estimate.
///
/// A fresh node starts as `InvalidateGraph`: nothing is known and the node
/// has to be estimated. `Impossible` says that the output cannot be told in
/// advance. `Known` holds the metadata that an estimation arrived at.
#[derive(Clone, Copy, Debug, PartialEq, Eq, Structural)]
pub enum FrameEstimate {
    Impossible,
    InvalidateGraph,
    Known(FrameInfo),
}

/// A signed dimension read as an unsigned one, bit for bit. A dimension that
/// is not negative keeps its value.
pub open spec fn as_unsigned(v: i32) -> int {
    if v >= 0 {
        v as int
    } else {
        v + 0x1_0000_0000
    }
}

/// An unsigned dimension read as a signed one, bit for bit. A dimension that
/// a signed number can hold keeps its value.
pub open spec fn as_signed(v: u32) -> int {
    if v <= i32::MAX {
        v as int
    } else {
        v - 0x1_0000_0000
    }
}

/// Reads a signed dimension as an unsigned one, bit for bit.
pub fn to_unsigned(v: i32) -> (r: u32)
    ensures
        r as int == as_unsigned(v),
{
    if v >= 0 {
        v as u32
    } else {
        ((v as i64) + 0x1_0000_0000) as u32
    }
}

/// Reads an unsigned dimension as a signed one, bit for bit.
pub fn to_signed(v: u32) -> (r: i32)
    ensures
        r as int == as_signed(v),
{
    if v <= 0x7FFF_FFFF {
        v as i32
    } else {
        ((v as i64) - 0x1_0000_0000) as i32
    }
}

impl FrameEstimate {
    /// The estimate of a node that has just been created.
    pub open spec fn spec_fresh() -> FrameEstimate {
        FrameEstimate::InvalidateGraph
    }

    /// The estimate of a node that has just been created.
    #[verifier::when_used_as_spec(spec_fresh)]
    pub fn fresh() -> (r: FrameEstimate)
        ensures
            r == Self::spec_fresh(),
    {
        FrameEstimate::InvalidateGraph
    }

    /// The frame metadata, where the estimate holds any.
    pub open spec fn frame(self) -> Option<FrameInfo> {
        match self {
            FrameEstimate::Known(info) => Some(info),
            _ => None,
        }
    }

    /// The estimate after something upstream of the node has changed: what
    /// was known is no longer relied on, what was impossible stays so.
    pub open spec fn spec_invalidated(self) -> FrameEstimate {
        match self {
            FrameEstimate::Impossible => FrameEstimate::Impossible,
            _ => FrameEstimate::InvalidateGraph,
        }
    }

    /// Whether the step from `self` to `next` is one that planning may take:
    /// an invalid estimate may become known or impossible, a known one may
    /// be invalidated, and nothing leaves `Impossible`.
    pub open spec fn may_become(self, next: FrameEstimate) -> bool {
        match self {
            FrameEstimate::Impossible => next == FrameEstimate::Impossible,
            FrameEstimate::InvalidateGraph => true,
            FrameEstimate::Known(info) => next == FrameEstimate::InvalidateGraph
                || next == FrameEstimate::Known(info),
        }
    }

    /// Whether the estimate holds concrete frame metadata.
    pub fn is_known(&self) -> (r: bool)
        ensures
            r == (self.frame() is Some),
    {
        match self {
            FrameEstimate::Known(_) => true,
            _ => false,
        }
    }

    /// The frame metadata, where the estimate holds any.
    pub fn known_frame(&self) -> (r: Option<FrameInfo>)
        ensures
            r == self.frame(),
    {
        match self {
            FrameEstimate::Known(info) => Some(*info),
            _ => None,
        }
    }

    /// Withdraws trust in the estimate because something upstream changed.
    #[verifier::when_used_as_spec(spec_invalidated)]
    pub fn invalidated(self) -> (r: FrameEstimate)
        ensures
            r == self.spec_invalidated(),
            self.may_become(r),
    {
        match self {
            FrameEstimate::Impossible => FrameEstimate::Impossible,
            _ => FrameEstimate::InvalidateGraph,
        }
    }
}

} // verus!
