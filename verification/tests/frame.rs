use imageflow_core::error::{ErrorKind, FlowError, LayoutError, Site};
use imageflow_core::frame::{to_signed, to_unsigned, FrameEstimate, FrameInfo, PixelFormat};

#[test]
fn a_fresh_estimate_is_invalid() {
    assert_eq!(FrameEstimate::fresh(), FrameEstimate::InvalidateGraph);
    assert!(!FrameEstimate::fresh().is_known());
}

#[test]
fn only_a_known_estimate_holds_a_frame() {
    let info = FrameInfo { w: 3, h: 4, fmt: PixelFormat::Gray8 };
    assert!(FrameEstimate::Known(info).is_known());
    assert_eq!(FrameEstimate::Known(info).known_frame(), Some(info));
    assert!(!FrameEstimate::Impossible.is_known());
    assert_eq!(FrameEstimate::Impossible.known_frame(), None);
    assert_eq!(FrameEstimate::InvalidateGraph.known_frame(), None);
}

#[test]
fn invalidation_never_leaves_impossible() {
    let info = FrameInfo { w: 3, h: 4, fmt: PixelFormat::Bgr24 };
    assert_eq!(FrameEstimate::Known(info).invalidated(), FrameEstimate::InvalidateGraph);
    assert_eq!(FrameEstimate::InvalidateGraph.invalidated(), FrameEstimate::InvalidateGraph);
    assert_eq!(FrameEstimate::Impossible.invalidated(), FrameEstimate::Impossible);
}

#[test]
fn dimensions_are_reread_bit_for_bit() {
    assert_eq!(to_unsigned(0), 0);
    assert_eq!(to_unsigned(7), 7);
    assert_eq!(to_unsigned(i32::MAX), 2147483647);
    assert_eq!(to_unsigned(-1), 4294967295);
    assert_eq!(to_unsigned(i32::MIN), 2147483648);
    assert_eq!(to_signed(0), 0);
    assert_eq!(to_signed(7), 7);
    assert_eq!(to_signed(2147483647), i32::MAX);
    assert_eq!(to_signed(2147483648), i32::MIN);
    assert_eq!(to_signed(4294967295), -1);
}

#[test]
fn a_new_error_has_passed_nowhere() {
    let e = FlowError::new(ErrorKind::InvalidNodeParams, "no source");
    assert_eq!(e.kind, ErrorKind::InvalidNodeParams);
    assert_eq!(e.message, "no source");
    assert_eq!(e.at, vec![]);
}

#[test]
fn handing_an_error_on_keeps_its_identity() {
    let e = FlowError::new(ErrorKind::NodeParamsMismatch, "other").at(Site::Estimate).at(Site::Expand);
    assert_eq!(e.kind, ErrorKind::NodeParamsMismatch);
    assert_eq!(e.message, "other");
    assert_eq!(e.at, vec![Site::Estimate, Site::Expand]);
}

#[test]
fn a_layout_failure_keeps_its_detail() {
    let e = FlowError::from_layout(LayoutError { detail: String::from("aspect ratio mismatch") });
    assert_eq!(e.kind, ErrorKind::LayoutError);
    assert_eq!(e.message, "aspect ratio mismatch");
    assert_eq!(e.at, vec![]);
}
