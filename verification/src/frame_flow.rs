//! The order of Vulkan calls in a frame, and what happens when one fails.
//!
//! The fence and the semaphores of a frame are shared between frames: a frame that
//! is skipped must leave them as it found them.

use vstd::prelude::*;

use crate::render_loop::Extent;

verus! {

/// A call of a frame.
#[derive(Clone, Copy, Debug, PartialEq, Eq, Structural)]
pub enum FrameCall {
    /// Wait until the previous frame has been rendered.
    WaitForFence,
    /// Bring the textures of all sources up to date.
    SynchronizeTextures,
    /// Acquire an image of the program swapchain.
    AcquireProgram,
    /// Acquire an image of the preview swapchain.
    AcquirePreview,
    /// Reset the fence.
    ResetFence,
    /// Reset, begin, fill and end the command buffer.
    Record,
    /// Submit the commands; they wait for both images and signal the fence.
    Submit,
    /// Note which imported images were taken over for the first time.
    CommitAcquired,
    /// Present the program image.
    PresentProgram,
    /// Present the preview image.
    PresentPreview,
    /// Wait until this frame has been rendered.
    WaitForFrame,
    /// The preview timed out: reset the fence.
    ResetFenceForSkip,
    /// The preview timed out: submit nothing, but wait for the program image and
    /// signal the fence.
    SubmitForSkip,
    /// The preview timed out: present the program image untouched.
    PresentForSkip,
}

/// The result of a call.
#[derive(Clone, Copy, Debug, PartialEq, Eq, Structural)]
pub enum CallResult {
    Done,
    /// No image became free in time.
    Timeout,
    Failed,
}

/// Where a frame stands.
#[derive(Clone, Copy, Debug, PartialEq, Eq, Structural)]
pub enum FrameProgress {
    /// The next call.
    Call(FrameCall),
    /// The frame is shown.
    Rendered,
    /// The program image timed out; the frame is skipped with an error.
    TimedOut,
    /// A call failed.
    Failed,
    /// The project has no active scene.
    NoScene,
}

/// The first call of a frame.
pub fn begin_frame(has_scene: bool) -> (r: FrameProgress)
    ensures
        r == (if has_scene {
            FrameProgress::Call(FrameCall::WaitForFence)
        } else {
            FrameProgress::NoScene
        }),
{
    if has_scene {
        FrameProgress::Call(FrameCall::WaitForFence)
    } else {
        FrameProgress::NoScene
    }
}

/// What follows a call that was done.
pub open spec fn following(call: FrameCall) -> FrameProgress {
    match call {
        FrameCall::WaitForFence => FrameProgress::Call(FrameCall::SynchronizeTextures),
        FrameCall::SynchronizeTextures => FrameProgress::Call(FrameCall::AcquireProgram),
        FrameCall::AcquireProgram => FrameProgress::Call(FrameCall::AcquirePreview),
        FrameCall::AcquirePreview => FrameProgress::Call(FrameCall::ResetFence),
        FrameCall::ResetFence => FrameProgress::Call(FrameCall::Record),
        FrameCall::Record => FrameProgress::Call(FrameCall::Submit),
        FrameCall::Submit => FrameProgress::Call(FrameCall::CommitAcquired),
        FrameCall::CommitAcquired => FrameProgress::Call(FrameCall::PresentProgram),
        FrameCall::PresentProgram => FrameProgress::Call(FrameCall::PresentPreview),
        FrameCall::PresentPreview => FrameProgress::Call(FrameCall::WaitForFrame),
        FrameCall::WaitForFrame => FrameProgress::Rendered,
        FrameCall::ResetFenceForSkip => FrameProgress::Call(FrameCall::SubmitForSkip),
        FrameCall::SubmitForSkip => FrameProgress::Call(FrameCall::PresentForSkip),
        FrameCall::PresentForSkip => FrameProgress::Rendered,
    }
}

/// What follows a call. Only acquiring an image can time out.
pub open spec fn next_of(call: FrameCall, result: CallResult) -> FrameProgress {
    match result {
        CallResult::Done => following(call),
        CallResult::Timeout => match call {
            FrameCall::AcquireProgram => FrameProgress::TimedOut,
            FrameCall::AcquirePreview => FrameProgress::Call(FrameCall::ResetFenceForSkip),
            _ => FrameProgress::Failed,
        },
        CallResult::Failed => FrameProgress::Failed,
    }
}

/// What follows a call.
pub fn next_call(call: FrameCall, result: CallResult) -> (r: FrameProgress)
    ensures
        r == next_of(call, result),
{
    match result {
        CallResult::Done => match call {
            FrameCall::WaitForFence => FrameProgress::Call(FrameCall::SynchronizeTextures),
            FrameCall::SynchronizeTextures => FrameProgress::Call(FrameCall::AcquireProgram),
            FrameCall::AcquireProgram => FrameProgress::Call(FrameCall::AcquirePreview),
            FrameCall::AcquirePreview => FrameProgress::Call(FrameCall::ResetFence),
            FrameCall::ResetFence => FrameProgress::Call(FrameCall::Record),
            FrameCall::Record => FrameProgress::Call(FrameCall::Submit),
            FrameCall::Submit => FrameProgress::Call(FrameCall::CommitAcquired),
            FrameCall::CommitAcquired => FrameProgress::Call(FrameCall::PresentProgram),
            FrameCall::PresentProgram => FrameProgress::Call(FrameCall::PresentPreview),
            FrameCall::PresentPreview => FrameProgress::Call(FrameCall::WaitForFrame),
            FrameCall::WaitForFrame => FrameProgress::Rendered,
            FrameCall::ResetFenceForSkip => FrameProgress::Call(FrameCall::SubmitForSkip),
            FrameCall::SubmitForSkip => FrameProgress::Call(FrameCall::PresentForSkip),
            FrameCall::PresentForSkip => FrameProgress::Rendered,
        },
        CallResult::Timeout => match call {
            FrameCall::AcquireProgram => FrameProgress::TimedOut,
            FrameCall::AcquirePreview => FrameProgress::Call(FrameCall::ResetFenceForSkip),
            _ => FrameProgress::Failed,
        },
        CallResult::Failed => FrameProgress::Failed,
    }
}

/// A frame runs through its calls in one order where each is done: nothing is drawn
/// before the previous frame is through and both images are there, what is drawn is
/// submitted before it is shown, the program image is shown before the preview, and the
/// frame counts as rendered only when the device is through with it.
pub proof fn law_frame_runs_in_order()
    ensures
        next_of(FrameCall::WaitForFence, CallResult::Done) == FrameProgress::Call(
            FrameCall::SynchronizeTextures,
        ),
        next_of(FrameCall::SynchronizeTextures, CallResult::Done) == FrameProgress::Call(
            FrameCall::AcquireProgram,
        ),
        next_of(FrameCall::AcquireProgram, CallResult::Done) == FrameProgress::Call(
            FrameCall::AcquirePreview,
        ),
        next_of(FrameCall::AcquirePreview, CallResult::Done) == FrameProgress::Call(
            FrameCall::ResetFence,
        ),
        next_of(FrameCall::ResetFence, CallResult::Done) == FrameProgress::Call(FrameCall::Record),
        next_of(FrameCall::Record, CallResult::Done) == FrameProgress::Call(FrameCall::Submit),
        next_of(FrameCall::Submit, CallResult::Done) == FrameProgress::Call(
            FrameCall::CommitAcquired,
        ),
        next_of(FrameCall::CommitAcquired, CallResult::Done) == FrameProgress::Call(
            FrameCall::PresentProgram,
        ),
        next_of(FrameCall::PresentProgram, CallResult::Done) == FrameProgress::Call(
            FrameCall::PresentPreview,
        ),
        next_of(FrameCall::PresentPreview, CallResult::Done) == FrameProgress::Call(
            FrameCall::WaitForFrame,
        ),
        next_of(FrameCall::WaitForFrame, CallResult::Done) == FrameProgress::Rendered,
{
}

/// A call that fails ends the frame, and only the two images may be late: without the
/// program image the frame is skipped, without the preview's the program image is still
/// shown, untouched.
pub proof fn law_late_preview_spares_the_program(call: FrameCall)
    ensures
        next_of(call, CallResult::Failed) == FrameProgress::Failed,
        call != FrameCall::AcquireProgram && call != FrameCall::AcquirePreview ==> next_of(
            call,
            CallResult::Timeout,
        ) == FrameProgress::Failed,
        next_of(FrameCall::AcquireProgram, CallResult::Timeout) == FrameProgress::TimedOut,
        next_of(FrameCall::AcquirePreview, CallResult::Timeout) == FrameProgress::Call(
            FrameCall::ResetFenceForSkip,
        ),
        next_of(FrameCall::ResetFenceForSkip, CallResult::Done) == FrameProgress::Call(
            FrameCall::SubmitForSkip,
        ),
        next_of(FrameCall::SubmitForSkip, CallResult::Done) == FrameProgress::Call(
            FrameCall::PresentForSkip,
        ),
        next_of(FrameCall::PresentForSkip, CallResult::Done) == FrameProgress::Rendered,
{
}

/// What the device still has to do for a frame.
#[derive(Clone, Copy, Debug, PartialEq, Eq, Structural)]
pub struct FrameSync {
    /// The fence is signalled, or a submitted frame will signal it.
    pub fence_comes: bool,
    /// The program image was acquired and nothing waits for its semaphore yet.
    pub program_open: bool,
    /// The preview image was acquired and nothing waits for its semaphore yet.
    pub preview_open: bool,
    /// Imported images were noted as taken over.
    pub committed: bool,
    /// The commands that take them over were submitted.
    pub submitted: bool,
}

/// What a call that was done changes.
pub open spec fn sync_after(s: FrameSync, call: FrameCall) -> FrameSync {
    match call {
        FrameCall::AcquireProgram => FrameSync { program_open: true, ..s },
        FrameCall::AcquirePreview => FrameSync { preview_open: true, ..s },
        FrameCall::ResetFence => FrameSync { fence_comes: false, ..s },
        FrameCall::ResetFenceForSkip => FrameSync { fence_comes: false, ..s },
        FrameCall::Submit => FrameSync {
            fence_comes: true,
            program_open: false,
            preview_open: false,
            submitted: true,
            ..s
        },
        FrameCall::SubmitForSkip => FrameSync { fence_comes: true, program_open: false, ..s },
        FrameCall::CommitAcquired => FrameSync { committed: true, ..s },
        _ => s,
    }
}

/// Nothing is left over from earlier frames, and the next frame will not wait in
/// vain.
pub open spec fn settled(s: FrameSync) -> bool {
    s.fence_comes && !s.program_open && !s.preview_open
}

/// What holds before each call of a frame.
pub open spec fn in_step(call: FrameCall, s: FrameSync) -> bool {
    let fresh = !s.committed && !s.submitted;
    match call {
        FrameCall::WaitForFence => settled(s) && fresh,
        FrameCall::SynchronizeTextures => settled(s) && fresh,
        FrameCall::AcquireProgram => settled(s) && fresh,
        FrameCall::AcquirePreview => s.fence_comes && s.program_open && !s.preview_open && fresh,
        FrameCall::ResetFence => s.fence_comes && s.program_open && s.preview_open && fresh,
        FrameCall::Record => s.program_open && s.preview_open && fresh,
        FrameCall::Submit => s.program_open && s.preview_open && fresh,
        FrameCall::CommitAcquired => settled(s) && s.submitted && !s.committed,
        FrameCall::PresentProgram => settled(s) && s.submitted,
        FrameCall::PresentPreview => settled(s) && s.submitted,
        FrameCall::WaitForFrame => settled(s) && s.submitted,
        FrameCall::ResetFenceForSkip => {
            s.fence_comes && s.program_open && !s.preview_open && fresh
        },
        FrameCall::SubmitForSkip => s.program_open && !s.preview_open && fresh,
        FrameCall::PresentForSkip => settled(s) && fresh,
    }
}

/// What the device has to do once a call has returned; a call that timed out or
/// failed changed nothing.
pub open spec fn sync_with(s: FrameSync, call: FrameCall, result: CallResult) -> FrameSync {
    if result == CallResult::Done {
        sync_after(s, call)
    } else {
        s
    }
}

/// A frame that is shown or skipped leaves the fence and both semaphores as the
/// next frame needs them, and imported images are noted as taken over only after
/// the commands that take them over were submitted.
pub proof fn law_skipped_frame_stays_in_step(s: FrameSync, call: FrameCall, result: CallResult)
    requires
        in_step(call, s),
    ensures
        ({
            let then = sync_with(s, call, result);
            &&& match next_of(call, result) {
                FrameProgress::Call(next) => in_step(next, then),
                FrameProgress::Rendered => settled(then),
                FrameProgress::TimedOut => settled(then),
                FrameProgress::Failed => true,
                FrameProgress::NoScene => true,
            }
            &&& then.committed ==> then.submitted
        }),
{
}

/// Whether the scene target must be made anew for an output size.
pub fn scene_target_outdated(current: Extent, wanted: Extent) -> (r: bool)
    ensures
        r == (current != wanted),
{
    current.width != wanted.width || current.height != wanted.height
}

} // verus!
