//! The frame loop: the synchronisation objects and command buffers a frame
//! uses, and the frame counter.

use vstd::prelude::*;

use crate::PixelEngine;

verus! {

/// How many of each synchronisation object the engine creates: image
/// available semaphores, render finished semaphores and in-flight fences.
pub const SYNC_OBJECT_SETS: usize = 2;

/// The frame counter runs modulo this.
pub const FRAME_COUNTER_WRAP: usize = 60;

/// The objects one frame uses, each as a position in its list.
#[derive(Clone, Copy, Debug, PartialEq, Eq, Structural)]
pub struct FrameSlots {
    pub in_flight_fence: usize,
    pub image_available: usize,
    pub render_finished: usize,
    pub command_buffer: usize,
}

/// The frame counter after `steps` frames from `frame`.
pub open spec fn frame_after(frame: nat, steps: nat) -> nat
    decreases steps,
{
    if steps == 0 {
        frame
    } else {
        ((frame_after(frame, (steps - 1) as nat) + 1) % (FRAME_COUNTER_WRAP as nat)) as nat
    }
}

/// The counter after `steps` frames is the start plus `steps`, modulo the wrap.
pub proof fn lemma_frame_after(frame: nat, steps: nat)
    requires
        frame < FRAME_COUNTER_WRAP,
    ensures
        frame_after(frame, steps) == (frame + steps) as int % (FRAME_COUNTER_WRAP as int),
    decreases steps,
{
    if steps > 0 {
        lemma_frame_after(frame, (steps - 1) as nat);
        let w = FRAME_COUNTER_WRAP as int;
        let a = (frame + steps - 1) as int;
        assert(((a % w) + 1) % w == (a + 1) % w) by (nonlinear_arith)
            requires
                w == 60,
                a >= 0,
        ;
    }
}

/// The frame counter comes back to where it started after a full cycle.
pub proof fn lemma_frame_counter_period(frame: nat)
    requires
        frame < FRAME_COUNTER_WRAP,
    ensures
        frame_after(frame, FRAME_COUNTER_WRAP as nat) == frame,
{
    lemma_frame_after(frame, FRAME_COUNTER_WRAP as nat);
    assert((frame + 60) as int % 60 == frame as int) by (nonlinear_arith)
        requires
            frame < 60,
    ;
}

impl PixelEngine {
    /// The objects the frame `current_frame` uses once the swapchain has
    /// handed out image `image_index`: the fence and the two semaphores at
    /// position `current_frame`, and the command buffer recorded for that image.
    pub fn frame_slots(
        current_frame: usize,
        image_index: u32,
        fences: usize,
        image_available_semaphores: usize,
        render_finished_semaphores: usize,
        command_buffers: usize,
    ) -> (slots: FrameSlots)
        requires
            current_frame < fences,
            current_frame < image_available_semaphores,
            current_frame < render_finished_semaphores,
            image_index < command_buffers,
        ensures
            slots.in_flight_fence == current_frame,
            slots.image_available == current_frame,
            slots.render_finished == current_frame,
            slots.command_buffer == image_index,
            slots.in_flight_fence < fences,
            slots.image_available < image_available_semaphores,
            slots.render_finished < render_finished_semaphores,
            slots.command_buffer < command_buffers,
    {
        FrameSlots {
            in_flight_fence: current_frame,
            image_available: current_frame,
            render_finished: current_frame,
            command_buffer: image_index as usize,
        }
    }

    /// The frame counter after `current_frame`.
    pub fn next_frame(current_frame: usize) -> (next: usize)
        requires
            current_frame < usize::MAX,
        ensures
            next == (current_frame + 1) % (FRAME_COUNTER_WRAP as int),
            next < FRAME_COUNTER_WRAP,
            current_frame < FRAME_COUNTER_WRAP ==> next == frame_after(current_frame as nat, 1),
    {
        assert(frame_after(current_frame as nat, 0) == current_frame);
        (current_frame + 1) % FRAME_COUNTER_WRAP
    }

    /// How many command buffers are allocated for `framebuffers`
    /// framebuffers: the count, cut to 32 bits.
    pub fn command_buffer_count(framebuffers: usize) -> (count: u32)
        ensures
            count == framebuffers as u32,
    {
        framebuffers as u32
    }
}

} // verus!
