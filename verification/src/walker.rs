//! The frame walker: from a frame pointer, follow the saved frame pointers
//! towards older frames, up to a bound.
//!
//! Memory is read through a word reader, a function from an address to the
//! word stored there.  The reader's precondition says which addresses may be
//! read; its postcondition says which words a read may give.  Nothing here
//! checks that a frame pointer lies on the stack: a walk is only as sound as
//! the frame layout of the code it inspects.

use vstd::prelude::*;
use crate::chain::chain;
use crate::chain::frame_at;
use crate::chain::lemma_chain_order;
use crate::chain::lemma_long_chain_fills_bound;
use crate::chain::lemma_short_chain_ends_at_zero;
use crate::chain::linked;
use crate::chain::pointer_after;
use crate::frame::Frame;
use crate::frame::return_slot;
use crate::frame::return_address_slot;

verus! {

/// The bound on the number of frames that a stack trace follows.
pub const STACKFRAME_DEPTH: usize = 7;

/// A walk in progress: the frame pointer to read next and the count of frames
/// already given.  It never goes back.
#[derive(Debug, PartialEq, Eq, Structural)]
pub struct FrameWalker {
    /// Frame pointer of the next frame; zero once the chain has ended.
    pub frame_pointer: u64,
    /// Number of frames given so far.
    pub depth: usize,
    /// Number of frames after which the walk stops whatever memory holds.
    pub max_depth: usize,
}

/// The reader may give `frame` when asked for the two words of the frame at
/// `frame.frame_pointer`, and that frame pointer is not the chain's end.
pub open spec fn reads_frame<F: Fn(u64) -> u64>(read_word: &F, frame: Frame) -> bool {
    &&& frame.frame_pointer != 0
    &&& read_word.ensures((frame.frame_pointer,), frame.saved_frame_pointer)
    &&& read_word.ensures((return_slot(frame.frame_pointer),), frame.return_address)
}

/// The frame pointer at position `i` of a walk that starts at `start` and has
/// given `frames`: the start itself, then what each frame saved.
pub open spec fn pointer_at(start: u64, frames: Seq<Frame>, i: int) -> u64 {
    if i <= 0 {
        start
    } else {
        frames[i - 1].saved_frame_pointer
    }
}

/// `frames` is a complete walk from `start` under the bound `max_depth`:
/// every frame was read at the pointer its predecessor saved, newest first,
/// and the walk stopped only at the bound or at a zero frame pointer.
pub open spec fn is_walk<F: Fn(u64) -> u64>(
    read_word: &F,
    start: u64,
    max_depth: nat,
    frames: Seq<Frame>,
) -> bool {
    &&& frames.len() <= max_depth
    &&& forall|i: int|
        0 <= i < frames.len() ==> (#[trigger] frames[i]).frame_pointer == pointer_at(
            start,
            frames,
            i,
        )
    &&& forall|i: int| 0 <= i < frames.len() ==> reads_frame(read_word, #[trigger] frames[i])
    &&& (frames.len() == max_depth || pointer_at(start, frames, frames.len() as int) == 0)
}

/// Every frame that a walk from `frame_pointer` can reach within `max_depth`
/// steps may be read: the reader accepts both of its addresses, whatever the
/// earlier reads gave.
pub open spec fn may_walk<F: Fn(u64) -> u64>(
    read_word: &F,
    frame_pointer: u64,
    max_depth: nat,
) -> bool
    decreases max_depth,
{
    frame_pointer == 0 || max_depth == 0 || {
        &&& read_word.requires((frame_pointer,))
        &&& read_word.requires((return_slot(frame_pointer),))
        &&& forall|saved: u64|
            #[trigger] read_word.ensures((frame_pointer,), saved) ==> may_walk(
                read_word,
                saved,
                (max_depth - 1) as nat,
            )
    }
}

/// The reader is faithful to `memory`: whatever it gives for an address is
/// the word that `memory` holds there.
pub open spec fn reads_memory<F: Fn(u64) -> u64>(
    read_word: &F,
    memory: spec_fn(u64) -> u64,
) -> bool {
    forall|address: u64, word: u64| #[trigger]
        read_word.ensures((address,), word) ==> word == memory(address)
}

impl FrameWalker {
    /// The walk gives no further frame: the chain has ended or the bound is
    /// reached.
    pub open spec fn finished(&self) -> bool {
        self.frame_pointer == 0 || self.depth >= self.max_depth
    }

    /// Number of frames that the walk may still give.
    pub open spec fn remaining(&self) -> nat {
        if self.depth >= self.max_depth {
            0
        } else {
            (self.max_depth - self.depth) as nat
        }
    }

    /// A walk that starts at `frame_pointer` and gives at most `max_depth`
    /// frames.
    pub fn new(frame_pointer: u64, max_depth: usize) -> (walker: FrameWalker)
        ensures
            walker == (FrameWalker { frame_pointer, depth: 0, max_depth }),
    {
        FrameWalker { frame_pointer, depth: 0, max_depth }
    }

    /// Whether the walk has ended.
    pub fn is_finished(&self) -> (done: bool)
        ensures
            done == self.finished(),
    {
        self.frame_pointer == 0 || self.depth >= self.max_depth
    }

    /// One step of the walk.  A finished walk gives nothing and stays as it
    /// is.  Otherwise the two words of the current frame are read, the frame
    /// is given, and the walk moves on to the frame pointer that was saved.
    pub fn next_frame<F: Fn(u64) -> u64>(&mut self, read_word: &F) -> (next: Option<Frame>)
        requires
            !old(self).finished() ==> read_word.requires((old(self).frame_pointer,))
                && read_word.requires((return_slot(old(self).frame_pointer),)),
        ensures
            old(self).finished() ==> next is None && *final(self) == *old(self),
            !old(self).finished() ==> {
                &&& next matches Some(frame)
                &&& frame.frame_pointer == old(self).frame_pointer
                &&& reads_frame(read_word, frame)
                &&& *final(self) == (FrameWalker {
                    frame_pointer: frame.saved_frame_pointer,
                    depth: (old(self).depth + 1) as usize,
                    max_depth: old(self).max_depth,
                })
                &&& final(self).remaining() < old(self).remaining()
            },
    {
        if self.is_finished() {
            return None;
        }
        let frame_pointer = self.frame_pointer;
        let saved_frame_pointer = read_word(frame_pointer);
        let return_address = read_word(return_address_slot(frame_pointer));
        self.frame_pointer = saved_frame_pointer;
        self.depth = self.depth + 1;
        Some(Frame { frame_pointer, saved_frame_pointer, return_address })
    }
}

/// Walks from `frame_pointer` until the chain ends or `max_depth` frames were
/// read, and gives the frames, newest first.
pub fn walk<F: Fn(u64) -> u64>(read_word: &F, frame_pointer: u64, max_depth: usize) -> (frames:
    Vec<Frame>)
    requires
        may_walk(read_word, frame_pointer, max_depth as nat),
    ensures
        is_walk(read_word, frame_pointer, max_depth as nat, frames@),
        frames@.len() <= max_depth,
        frame_pointer == 0 ==> frames@.len() == 0,
        forall|memory: spec_fn(u64) -> u64| #[trigger]
            reads_memory(read_word, memory) ==> frames@ == chain(
                memory,
                frame_pointer,
                max_depth as nat,
            ),
{
    let mut walker = FrameWalker::new(frame_pointer, max_depth);
    let mut frames: Vec<Frame> = Vec::new();
    while !walker.is_finished()
        invariant
            walker.max_depth == max_depth,
            walker.depth == frames@.len(),
            walker.depth <= max_depth,
            walker.frame_pointer == pointer_at(frame_pointer, frames@, frames@.len() as int),
            forall|i: int|
                0 <= i < frames@.len() ==> (#[trigger] frames@[i]).frame_pointer == pointer_at(
                    frame_pointer,
                    frames@,
                    i,
                ),
            forall|i: int| 0 <= i < frames@.len() ==> reads_frame(read_word, #[trigger] frames@[i]),
            may_walk(read_word, walker.frame_pointer, walker.remaining()),
        decreases walker.remaining(),
    {
        if let Some(frame) = walker.next_frame(read_word) {
            frames.push(frame);
        }
    }
    assert(frame_pointer == 0 ==> frames@.len() == 0) by {
        if frames@.len() > 0 {
            assert(reads_frame(read_word, frames@[0]));
        }
    }
    assert forall|memory: spec_fn(u64) -> u64| #[trigger]
        reads_memory(read_word, memory) implies frames@ == chain(
        memory,
        frame_pointer,
        max_depth as nat,
    ) by {
        lemma_walk_is_chain(read_word, memory, frame_pointer, max_depth as nat, frames@);
    }
    frames
}

/// Over a reader that is faithful to a memory there is one walk only: the
/// chain that the memory holds.
pub proof fn lemma_walk_is_chain<F: Fn(u64) -> u64>(
    read_word: &F,
    memory: spec_fn(u64) -> u64,
    start: u64,
    max_depth: nat,
    frames: Seq<Frame>,
)
    requires
        reads_memory(read_word, memory),
        is_walk(read_word, start, max_depth, frames),
    ensures
        frames == chain(memory, start, max_depth),
    decreases max_depth,
{
    if frames.len() > 0 {
        let first = frames[0];
        let rest = frames.subrange(1, frames.len() as int);
        assert(is_walk(read_word, first.saved_frame_pointer, (max_depth - 1) as nat, rest)) by {
            assert(pointer_at(first.saved_frame_pointer, rest, rest.len() as int) == pointer_at(
                start,
                frames,
                frames.len() as int,
            ));
            assert forall|i: int| 0 <= i < rest.len() implies (#[trigger] rest[i]).frame_pointer
                == pointer_at(first.saved_frame_pointer, rest, i) by {
                assert(rest[i] == frames[i + 1]);
            }
        }
        lemma_walk_is_chain(
            read_word,
            memory,
            first.saved_frame_pointer,
            (max_depth - 1) as nat,
            rest,
        );
        assert(frames =~= seq![first] + rest);
    }
}

/// A walk over a memory in which at least `max_depth` frames follow one
/// another stops at the bound: it gives exactly `max_depth` frames.
pub proof fn lemma_walk_fills_bound<F: Fn(u64) -> u64>(
    read_word: &F,
    memory: spec_fn(u64) -> u64,
    start: u64,
    max_depth: nat,
    frames: Seq<Frame>,
)
    requires
        reads_memory(read_word, memory),
        is_walk(read_word, start, max_depth, frames),
        linked(memory, start, max_depth),
    ensures
        frames.len() == max_depth,
{
    lemma_walk_is_chain(read_word, memory, start, max_depth, frames);
    lemma_long_chain_fills_bound(memory, start, max_depth);
}

/// A walk over a memory in which `count` frames follow one another and the
/// last of them saved a zero frame pointer ends by itself below a larger
/// bound: it gives exactly `count` frames.
pub proof fn lemma_walk_ends_at_zero<F: Fn(u64) -> u64>(
    read_word: &F,
    memory: spec_fn(u64) -> u64,
    start: u64,
    count: nat,
    max_depth: nat,
    frames: Seq<Frame>,
)
    requires
        reads_memory(read_word, memory),
        is_walk(read_word, start, max_depth, frames),
        count < max_depth,
        linked(memory, start, count),
        pointer_after(memory, start, count) == 0,
    ensures
        frames.len() == count,
{
    lemma_walk_is_chain(read_word, memory, start, max_depth, frames);
    lemma_short_chain_ends_at_zero(memory, start, count, max_depth);
}

/// A walk gives the frames in the order of the links, newest first: its
/// frame at position `i` is the frame that memory holds `i` links after the
/// start, with the return address stored there.
pub proof fn lemma_walk_keeps_order<F: Fn(u64) -> u64>(
    read_word: &F,
    memory: spec_fn(u64) -> u64,
    start: u64,
    max_depth: nat,
    frames: Seq<Frame>,
    i: nat,
)
    requires
        reads_memory(read_word, memory),
        is_walk(read_word, start, max_depth, frames),
        i < frames.len(),
    ensures
        frames[i as int] == frame_at(memory, pointer_after(memory, start, i)),
        frames[i as int].return_address == memory(return_slot(pointer_after(memory, start, i))),
{
    lemma_walk_is_chain(read_word, memory, start, max_depth, frames);
    lemma_chain_order(memory, start, max_depth, i);
}

/// A reader that accepts every address lets a walk start anywhere.
pub proof fn lemma_total_reader_may_walk<F: Fn(u64) -> u64>(
    read_word: &F,
    frame_pointer: u64,
    max_depth: nat,
)
    requires
        forall|address: u64| #[trigger] read_word.requires((address,)),
    ensures
        may_walk(read_word, frame_pointer, max_depth),
    decreases max_depth,
{
    if frame_pointer != 0 && max_depth != 0 {
        assert forall|saved: u64| #[trigger]
            read_word.ensures((frame_pointer,), saved) implies may_walk(
            read_word,
            saved,
            (max_depth - 1) as nat,
        ) by {
            lemma_total_reader_may_walk(read_word, saved, (max_depth - 1) as nat);
        }
    }
}

} // verus!
