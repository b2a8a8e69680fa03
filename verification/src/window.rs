use vstd::prelude::*;

verus! {

/// The kinds of window event the game tells apart.
#[derive(Clone, Copy, Debug, PartialEq, Eq, Structural)]
pub enum WindowEventKind {
    /// The user asked to close the window.
    Close,
    /// The framebuffer changed size.
    FramebufferSize,
    /// The window changed size.
    Size,
    /// The window asked to be redrawn.
    Refresh,
    /// Any other event.
    Other,
}

/// What the window does about an event.
#[derive(Clone, Copy, Debug, PartialEq, Eq, Structural)]
pub enum WindowAction {
    /// Mark the window to be closed.
    RequestClose,
    /// Read the framebuffer size and resize the surface, the depth buffer and
    /// the projection to it.
    Resize,
    /// Nothing: a framebuffer resize already covers a window resize, and
    /// every frame is redrawn anyway.
    Nothing,
    /// Report the event as unhandled.
    ReportUnhandled,
}

/// The action taken for an event of kind `event`.
pub fn window_action(event: WindowEventKind) -> (a: WindowAction)
    ensures
        a == match event {
            WindowEventKind::Close => WindowAction::RequestClose,
            WindowEventKind::FramebufferSize => WindowAction::Resize,
            WindowEventKind::Size => WindowAction::Nothing,
            WindowEventKind::Refresh => WindowAction::Nothing,
            WindowEventKind::Other => WindowAction::ReportUnhandled,
        },
{
    match event {
        WindowEventKind::Close => WindowAction::RequestClose,
        WindowEventKind::FramebufferSize => WindowAction::Resize,
        WindowEventKind::Size => WindowAction::Nothing,
        WindowEventKind::Refresh => WindowAction::Nothing,
        WindowEventKind::Other => WindowAction::ReportUnhandled,
    }
}

/// What acquiring the next surface texture came back with.
#[derive(Clone, Copy, Debug, PartialEq, Eq, Structural)]
pub enum SurfaceStatus {
    /// A texture that matches the surface.
    Success,
    /// A texture that no longer matches the surface's properties.
    Suboptimal,
    /// Acquiring the next frame timed out.
    Timeout,
    /// The window is hidden, minimised or covered.
    Occluded,
    /// The surface's configuration is out of date.
    Outdated,
    /// The surface was lost.
    Lost,
    /// A validation error was raised while acquiring.
    Validation,
}

/// What a frame does with the surface texture it asked for.
#[derive(Clone, Copy, Debug, PartialEq, Eq, Structural)]
pub enum FrameAction {
    /// Draw the frame into the texture.
    Draw,
    /// Skip this frame and try again on the next one.
    Skip,
    /// Stop: the texture cannot be had.
    Fail,
}

/// The decision a frame takes on `status`: draw into a texture that matches
/// the surface, skip the frame while the window is occluded or acquiring timed
/// out, and fail on anything else.
pub fn frame_action(status: SurfaceStatus) -> (a: FrameAction)
    ensures
        a == match status {
            SurfaceStatus::Success => FrameAction::Draw,
            SurfaceStatus::Occluded => FrameAction::Skip,
            SurfaceStatus::Timeout => FrameAction::Skip,
            _ => FrameAction::Fail,
        },
{
    match status {
        SurfaceStatus::Success => FrameAction::Draw,
        SurfaceStatus::Occluded => FrameAction::Skip,
        SurfaceStatus::Timeout => FrameAction::Skip,
        _ => FrameAction::Fail,
    }
}

} // verus!
