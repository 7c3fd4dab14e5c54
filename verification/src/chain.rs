//! The chain of frames that a memory holds, as a mathematical object.
//!
//! A memory is a function from addresses to words.  From a frame pointer the
//! saved frame pointers lead from frame to frame; the chain is what a walk
//! over that memory must give.

use vstd::prelude::*;
use crate::frame::Frame;
use crate::frame::return_slot;

verus! {

/// The frame that `memory` holds at `frame_pointer`.
pub open spec fn frame_at(memory: spec_fn(u64) -> u64, frame_pointer: u64) -> Frame {
    Frame {
        frame_pointer,
        saved_frame_pointer: memory(frame_pointer),
        return_address: memory(return_slot(frame_pointer)),
    }
}

/// The frame pointer reached from `frame_pointer` by following `steps` saved
/// frame pointers.
pub open spec fn pointer_after(memory: spec_fn(u64) -> u64, frame_pointer: u64, steps: nat) -> u64
    decreases steps,
{
    if steps == 0 {
        frame_pointer
    } else {
        pointer_after(memory, memory(frame_pointer), (steps - 1) as nat)
    }
}

/// The frames from `frame_pointer` on, newest first, up to the first zero
/// frame pointer and at most `max_depth` of them.
pub open spec fn chain(memory: spec_fn(u64) -> u64, frame_pointer: u64, max_depth: nat) -> Seq<
    Frame,
>
    decreases max_depth,
{
    if frame_pointer == 0 || max_depth == 0 {
        Seq::empty()
    } else {
        seq![frame_at(memory, frame_pointer)] + chain(
            memory,
            memory(frame_pointer),
            (max_depth - 1) as nat,
        )
    }
}

/// At least `count` frames follow one another from `frame_pointer`: none of
/// the first `count` frame pointers is zero.
pub open spec fn linked(memory: spec_fn(u64) -> u64, frame_pointer: u64, count: nat) -> bool {
    forall|i: nat| i < count ==> #[trigger] pointer_after(memory, frame_pointer, i) != 0
}

/// Following one link and then `steps` more is following `steps + 1` links.
proof fn lemma_pointer_after_first(memory: spec_fn(u64) -> u64, frame_pointer: u64, steps: nat)
    ensures
        pointer_after(memory, memory(frame_pointer), steps) == pointer_after(
            memory,
            frame_pointer,
            steps + 1,
        ),
{
}

/// A chain whose first `count` frame pointers are not zero, and which then
/// meets the bound or a zero frame pointer, has exactly `count` frames.
pub proof fn lemma_chain_length(
    memory: spec_fn(u64) -> u64,
    frame_pointer: u64,
    count: nat,
    max_depth: nat,
)
    requires
        count <= max_depth,
        linked(memory, frame_pointer, count),
        count == max_depth || pointer_after(memory, frame_pointer, count) == 0,
    ensures
        chain(memory, frame_pointer, max_depth).len() == count,
    decreases count,
{
    if count > 0 {
        assert(pointer_after(memory, frame_pointer, 0) != 0);
        let next = memory(frame_pointer);
        assert(linked(memory, next, (count - 1) as nat)) by {
            assert forall|i: nat| i < count - 1 implies #[trigger] pointer_after(memory, next, i)
                != 0 by {
                lemma_pointer_after_first(memory, frame_pointer, i);
            }
        }
        lemma_pointer_after_first(memory, frame_pointer, (count - 1) as nat);
        lemma_chain_length(memory, next, (count - 1) as nat, (max_depth - 1) as nat);
    }
}

/// The bound is never passed: a chain has at most `max_depth` frames, also
/// where the frame pointers run in a circle.
pub proof fn lemma_chain_bounded(memory: spec_fn(u64) -> u64, frame_pointer: u64, max_depth: nat)
    ensures
        chain(memory, frame_pointer, max_depth).len() <= max_depth,
    decreases max_depth,
{
    if frame_pointer != 0 && max_depth != 0 {
        lemma_chain_bounded(memory, memory(frame_pointer), (max_depth - 1) as nat);
    }
}

/// From a zero frame pointer the chain is empty, whatever the bound.
pub proof fn lemma_chain_from_zero(memory: spec_fn(u64) -> u64, max_depth: nat)
    ensures
        chain(memory, 0, max_depth) == Seq::<Frame>::empty(),
{
}

/// Where at least `max_depth` frames follow one another, the chain stops at
/// the bound: it has exactly `max_depth` frames.
pub proof fn lemma_long_chain_fills_bound(
    memory: spec_fn(u64) -> u64,
    frame_pointer: u64,
    max_depth: nat,
)
    requires
        linked(memory, frame_pointer, max_depth),
    ensures
        chain(memory, frame_pointer, max_depth).len() == max_depth,
{
    lemma_chain_length(memory, frame_pointer, max_depth, max_depth);
}

/// Where `count` frames follow one another, the last of them saved a zero
/// frame pointer, and the bound is larger than `count`, the chain ends by
/// itself: it has exactly `count` frames.
pub proof fn lemma_short_chain_ends_at_zero(
    memory: spec_fn(u64) -> u64,
    frame_pointer: u64,
    count: nat,
    max_depth: nat,
)
    requires
        count < max_depth,
        linked(memory, frame_pointer, count),
        pointer_after(memory, frame_pointer, count) == 0,
    ensures
        chain(memory, frame_pointer, max_depth).len() == count,
{
    lemma_chain_length(memory, frame_pointer, count, max_depth);
}

/// The chain keeps the order of the links: its frame at position `i` is the
/// frame that memory holds `i` links after the start, so the newest frame
/// comes first and each return address stands where its frame stands.
pub proof fn lemma_chain_order(
    memory: spec_fn(u64) -> u64,
    frame_pointer: u64,
    max_depth: nat,
    i: nat,
)
    requires
        i < chain(memory, frame_pointer, max_depth).len(),
    ensures
        chain(memory, frame_pointer, max_depth)[i as int] == frame_at(
            memory,
            pointer_after(memory, frame_pointer, i),
        ),
        chain(memory, frame_pointer, max_depth)[i as int].return_address == memory(
            return_slot(pointer_after(memory, frame_pointer, i)),
        ),
        pointer_after(memory, frame_pointer, i) != 0,
    decreases i,
{
    if i > 0 {
        lemma_chain_order(memory, memory(frame_pointer), (max_depth - 1) as nat, (i - 1) as nat);
    }
}

} // verus!
