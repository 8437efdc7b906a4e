//! Decisions of the render loop: what a window event does to the loop, when
//! the swapchain is rebuilt, and the viewport rectangle of a swapchain.

use vstd::prelude::*;

verus! {

/// A rectangle of the render target, in the graphics API's 16-bit units.
#[derive(Clone, Copy, Debug, PartialEq, Eq)]
pub struct Rect {
    pub x: i16,
    pub y: i16,
    pub w: i16,
    pub h: i16,
}

/// The viewport rectangle of a swapchain image of `width` x `height`: at
/// the origin, with the extent taken as 16-bit values.
pub fn viewport_rect(width: u32, height: u32) -> (rect: Rect)
    ensures
        rect.x == 0,
        rect.y == 0,
        rect.w == width as i16,
        rect.h == height as i16,
{
    Rect { x: 0, y: 0, w: width as i16, h: height as i16 }
}

/// The window events that the render loop reacts to.
#[derive(Clone, Copy, Debug, PartialEq, Eq)]
pub enum WindowEvent {
    /// The Escape key was pressed.
    EscapePressed,
    /// The window was asked to close.
    CloseRequested,
    /// The window was resized.
    Resized,
    /// Any other event.
    Other,
}

/// How a frame ended, as seen by the renderer.
#[derive(Clone, Copy, Debug, PartialEq, Eq)]
pub enum FrameEvent {
    /// There was no swapchain to acquire an image from.
    NoSwapchain,
    /// Acquiring the next swapchain image failed.
    AcquireFailed,
    /// Presenting the rendered image failed.
    PresentFailed,
    /// The frame was rendered and presented.
    Presented,
}

/// The state of the render loop: whether it keeps running, and whether the
/// swapchain must be rebuilt before the next frame.
#[derive(Clone, Copy, Debug, PartialEq, Eq)]
pub struct LoopState {
    pub running: bool,
    pub rebuild_swapchain: bool,
}

pub open spec fn spec_handle_window_event(state: LoopState, event: WindowEvent) -> LoopState {
    match event {
        WindowEvent::EscapePressed => LoopState { running: false, ..state },
        WindowEvent::CloseRequested => LoopState { running: false, ..state },
        WindowEvent::Resized => LoopState { rebuild_swapchain: true, ..state },
        WindowEvent::Other => state,
    }
}

pub open spec fn spec_after_frame(state: LoopState, event: FrameEvent) -> LoopState {
    match event {
        FrameEvent::Presented => state,
        _ => LoopState { rebuild_swapchain: true, ..state },
    }
}

impl LoopState {
    /// A running loop with a fresh swapchain.
    pub fn new() -> (state: LoopState)
        ensures
            state.running,
            !state.rebuild_swapchain,
    {
        LoopState { running: true, rebuild_swapchain: false }
    }

    /// Escape and a close request stop the loop; a resize asks for a new
    /// swapchain; other events change nothing.
    pub fn handle_window_event(self, event: WindowEvent) -> (next: LoopState)
        ensures
            next == spec_handle_window_event(self, event),
            next.running == (self.running && event != WindowEvent::EscapePressed && event != WindowEvent::CloseRequested),
            next.rebuild_swapchain == (self.rebuild_swapchain || event == WindowEvent::Resized),
    {
        match event {
            WindowEvent::EscapePressed => LoopState { running: false, ..self },
            WindowEvent::CloseRequested => LoopState { running: false, ..self },
            WindowEvent::Resized => LoopState { rebuild_swapchain: true, ..self },
            WindowEvent::Other => self,
        }
    }

    /// A frame that could not acquire or present an image asks for a new
    /// swapchain.
    pub fn after_frame(self, event: FrameEvent) -> (next: LoopState)
        ensures
            next == spec_after_frame(self, event),
            next.running == self.running,
            next.rebuild_swapchain == (self.rebuild_swapchain || event != FrameEvent::Presented),
    {
        match event {
            FrameEvent::Presented => self,
            _ => LoopState { rebuild_swapchain: true, ..self },
        }
    }

    /// Whether the swapchain is rebuilt now; the request is then cleared.
    pub fn try_rebuild_swapchain(&mut self) -> (rebuild: bool)
        ensures
            rebuild == old(self).rebuild_swapchain,
            !final(self).rebuild_swapchain,
            final(self).running == old(self).running,
    {
        let rebuild = self.rebuild_swapchain;
        self.rebuild_swapchain = false;
        rebuild
    }
}

/// A stopped loop stays stopped: no window event and no frame outcome
/// starts it again.
pub proof fn law_stopped_loop_stays_stopped(state: LoopState, event: WindowEvent, frame: FrameEvent)
    requires
        !state.running,
    ensures
        !spec_handle_window_event(state, event).running,
        !spec_after_frame(state, frame).running,
{
}

/// Escape and a close request always stop the loop.
pub proof fn law_escape_and_close_stop(state: LoopState)
    ensures
        !spec_handle_window_event(state, WindowEvent::EscapePressed).running,
        !spec_handle_window_event(state, WindowEvent::CloseRequested).running,
{
}

/// A request for a new swapchain, from a resize or a failed frame, is kept
/// by every later event and frame until the swapchain is rebuilt.
pub proof fn law_rebuild_request_is_kept(state: LoopState, event: WindowEvent, frame: FrameEvent)
    ensures
        spec_handle_window_event(state, WindowEvent::Resized).rebuild_swapchain,
        frame != FrameEvent::Presented ==> spec_after_frame(state, frame).rebuild_swapchain,
        state.rebuild_swapchain ==> spec_handle_window_event(state, event).rebuild_swapchain,
        state.rebuild_swapchain ==> spec_after_frame(state, frame).rebuild_swapchain,
        !state.rebuild_swapchain && event != WindowEvent::Resized ==> !spec_handle_window_event(
            state,
            event,
        ).rebuild_swapchain,
{
}


/// A frame outcome never starts or stops the loop: only window events do.
/// A frame that was not presented asks for a new swapchain; a presented one
/// keeps the request as it was.
pub proof fn law_frame_outcome_keeps_loop_running(state: LoopState, frame: FrameEvent)
    ensures
        spec_after_frame(state, frame).running == state.running,
        spec_after_frame(state, frame).rebuild_swapchain == (state.rebuild_swapchain || frame
            != FrameEvent::Presented),
{
}

/// Only Escape and a close request stop a running loop; a resize and any
/// other event leave it running.
pub proof fn law_only_escape_and_close_stop(state: LoopState, event: WindowEvent)
    ensures
        spec_handle_window_event(state, event).running == (state.running && event != WindowEvent::EscapePressed
            && event != WindowEvent::CloseRequested),
        spec_handle_window_event(state, event).rebuild_swapchain == (state.rebuild_swapchain || event
            == WindowEvent::Resized),
{
}

} // verus!
