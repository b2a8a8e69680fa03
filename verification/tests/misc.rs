use csg::flipbook::{next_frame, FlipbookOrMissing};
use csg::gpu_matrix::{IntoGPUMatrix, Matrix4};
use csg::layer::RenderLayer;
use csg::surface::{preferred_format, surface_dim};
use csg::window::{frame_action, window_action, FrameAction, SurfaceStatus, WindowAction, WindowEventKind};

#[test]
fn frames_wrap_around() {
    assert_eq!(next_frame(0, 1, 4), 1);
    assert_eq!(next_frame(3, 1, 4), 0);
    assert_eq!(next_frame(2, 9, 4), 3);
    assert_eq!(next_frame(0, 0, 1), 0);
    assert_eq!(next_frame(usize::MAX, usize::MAX, 7), ((usize::MAX as u128 * 2) % 7) as usize);
    assert_eq!(next_frame(5, usize::MAX, usize::MAX), 5);
}

#[test]
fn flipbook_or_missing_inner() {
    assert_eq!(FlipbookOrMissing::Flipbook(1).inner(), 1);
    assert_eq!(FlipbookOrMissing::Missing(2).inner(), 2);
}

#[test]
fn gpu_matrix_is_column_major() {
    let m = Matrix4 { rows: [[1, 2, 3, 4], [5, 6, 7, 8], [9, 10, 11, 12], [13, 14, 15, 16]] };
    let raw = m.into_gmat();
    assert_eq!(raw, [[1, 5, 9, 13], [2, 6, 10, 14], [3, 7, 11, 15], [4, 8, 12, 16]]);
}

#[test]
fn layers() {
    assert_eq!(RenderLayer::COUNT, 2);
    assert_eq!(RenderLayer::CLEAR.as_u8(), 0);
    assert_eq!(RenderLayer::TOP.as_u8(), 1);
}

#[test]
fn surface_never_zero_sized() {
    assert_eq!(surface_dim((704, 318)), (704, 318));
    assert_eq!(surface_dim((0, 0)), (1, 1));
    assert_eq!(surface_dim((-5, 3)), (1, 3));
}

#[test]
fn first_srgb_format_preferred() {
    assert_eq!(preferred_format(&vec![false, true, true]), 1);
    assert_eq!(preferred_format(&vec![false, false]), 0);
    assert_eq!(preferred_format(&vec![true]), 0);
}

#[test]
fn window_events() {
    assert_eq!(window_action(WindowEventKind::Close), WindowAction::RequestClose);
    assert_eq!(window_action(WindowEventKind::FramebufferSize), WindowAction::Resize);
    assert_eq!(window_action(WindowEventKind::Size), WindowAction::Nothing);
    assert_eq!(window_action(WindowEventKind::Refresh), WindowAction::Nothing);
    assert_eq!(window_action(WindowEventKind::Other), WindowAction::ReportUnhandled);
}

#[test]
fn frame_draws_skips_or_fails_on_surface_status() {
    assert_eq!(frame_action(SurfaceStatus::Success), FrameAction::Draw);
    assert_eq!(frame_action(SurfaceStatus::Occluded), FrameAction::Skip);
    assert_eq!(frame_action(SurfaceStatus::Timeout), FrameAction::Skip);
    assert_eq!(frame_action(SurfaceStatus::Suboptimal), FrameAction::Fail);
    assert_eq!(frame_action(SurfaceStatus::Outdated), FrameAction::Fail);
    assert_eq!(frame_action(SurfaceStatus::Lost), FrameAction::Fail);
    assert_eq!(frame_action(SurfaceStatus::Validation), FrameAction::Fail);
}
