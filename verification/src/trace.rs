//! A stack trace of the running thread: the walk from the current frame
//! pointer, with the names of the symbols at each return address.

use vstd::prelude::*;
use crate::frame::Frame;
use crate::report::format_frame;
use crate::report::frame_lines;
use crate::walker::is_walk;
use crate::walker::lemma_total_reader_may_walk;
use crate::walker::may_walk;
use crate::walker::walk;
use crate::walker::STACKFRAME_DEPTH;

verus! {

/// A frame together with what symbol resolution found at its return address.
#[derive(Clone, Debug, PartialEq, Eq)]
pub struct TracedFrame {
    /// The frame as the walk read it.
    pub frame: Frame,
    /// One entry for each symbol found at the return address, in the order
    /// found: its name, or `None` for a symbol without a name.  Empty where no
    /// symbol was found.
    pub names: Vec<Option<String>>,
}

/// The frames of a trace, without the names.
pub open spec fn frames_of(trace: Seq<TracedFrame>) -> Seq<Frame> {
    Seq::new(trace.len(), |i: int| trace[i].frame)
}

/// All lines shown for a trace: those of each frame, newest frame first.
pub open spec fn trace_lines(trace: Seq<TracedFrame>) -> Seq<Seq<char>>
    decreases trace.len(),
{
    if trace.len() == 0 {
        Seq::empty()
    } else {
        trace_lines(trace.drop_last()) + frame_lines(
            trace.last().frame,
            trace.last().names.deep_view(),
        )
    }
}

/// `trace` holds a complete walk, under the bound [`STACKFRAME_DEPTH`], from
/// some frame pointer: the one that the register held when the trace was
/// taken.
pub open spec fn is_captured<F: Fn(u64) -> u64>(read_word: &F, trace: Seq<TracedFrame>) -> bool {
    exists|start: u64|
        #[trigger] is_walk(read_word, start, STACKFRAME_DEPTH as nat, frames_of(trace))
}

/// `x86::bits64::registers::rbp` reads the frame-pointer register of the
/// running thread.  Nothing is claimed of the value: it is whatever the
/// register holds at the call.
pub assume_specification[ x86::bits64::registers::rbp ]() -> (frame_pointer: u64)
;

/// Calls `backtrace::resolve` for `address` and collects, for each symbol
/// that it reports, the symbol's name in its debug form, or `None` where the
/// symbol has no name.  Nothing is claimed of the result: it depends on the
/// symbol tables of the running program, and may be empty.
#[verifier::external_body]
fn resolve_names(address: u64) -> (names: Vec<Option<String>>) {
    let mut names = Vec::new();
    backtrace::resolve(address as _, |symbol| {
        names.push(symbol.name().map(|name| format!("{:?}", name)));
    });
    names
}

/// Walks from `frame_pointer` as [`walk`] does and resolves the symbols at
/// each frame's return address.
pub fn trace_from<F: Fn(u64) -> u64>(read_word: &F, frame_pointer: u64, max_depth: usize) -> (trace:
    Vec<TracedFrame>)
    requires
        may_walk(read_word, frame_pointer, max_depth as nat),
    ensures
        is_walk(read_word, frame_pointer, max_depth as nat, frames_of(trace@)),
        trace@.len() <= max_depth,
        frame_pointer == 0 ==> trace@.len() == 0,
{
    let frames = walk(read_word, frame_pointer, max_depth);
    let mut trace: Vec<TracedFrame> = Vec::new();
    let mut i: usize = 0;
    while i < frames.len()
        invariant
            i <= frames.len(),
            trace@.len() == i,
            forall|j: int| 0 <= j < i ==> (#[trigger] trace@[j]).frame == frames@[j],
        decreases frames.len() - i,
    {
        let frame = frames[i];
        let names = resolve_names(frame.return_address);
        trace.push(TracedFrame { frame, names });
        i = i + 1;
    }
    assert(frames_of(trace@) =~= frames@);
    trace
}

/// The stack trace of the caller: the walk from the frame pointer that the
/// register holds now, at most [`STACKFRAME_DEPTH`] frames deep.
///
/// `read_word` reads the thread's memory.  The trace is only meaningful where
/// the running code keeps frame pointers.
pub fn capture_stackframe<F: Fn(u64) -> u64>(read_word: &F) -> (trace: Vec<TracedFrame>)
    requires
        forall|address: u64| #[trigger] read_word.requires((address,)),
    ensures
        trace@.len() <= STACKFRAME_DEPTH,
        is_captured(read_word, trace@),
{
    let frame_pointer = x86::bits64::registers::rbp();
    proof {
        lemma_total_reader_may_walk(read_word, frame_pointer, STACKFRAME_DEPTH as nat);
    }
    trace_from(read_word, frame_pointer, STACKFRAME_DEPTH)
}

/// The lines that show a trace, as [`trace_lines`] gives them.
pub fn format_trace(trace: &Vec<TracedFrame>) -> (lines: Vec<String>)
    ensures
        lines.deep_view() == trace_lines(trace@),
{
    let mut lines: Vec<String> = Vec::new();
    let mut i: usize = 0;
    while i < trace.len()
        invariant
            i <= trace.len(),
            lines.deep_view() == trace_lines(trace@.take(i as int)),
        decreases trace.len() - i,
    {
        let ghost before = lines.deep_view();
        let mut shown = format_frame(&trace[i].frame, &trace[i].names);
        let ghost added = shown.deep_view();
        lines.append(&mut shown);
        proof {
            let prefix = trace@.take(i + 1);
            assert(prefix.drop_last() =~= trace@.take(i as int));
            assert(prefix.last() == trace@[i as int]);
            assert(lines.deep_view() =~= before + added);
        }
        i = i + 1;
    }
    assert(trace@.take(trace.len() as int) =~= trace@);
    lines
}

/// Innermost of three nested calls that give the trace something to show.
pub fn func3<F: Fn(u64) -> u64>(read_word: &F) -> (trace: Vec<TracedFrame>)
    requires
        forall|address: u64| #[trigger] read_word.requires((address,)),
    ensures
        trace@.len() <= STACKFRAME_DEPTH,
        is_captured(read_word, trace@),
{
    capture_stackframe(read_word)
}

/// Middle of the three nested calls.
pub fn func2<F: Fn(u64) -> u64>(read_word: &F) -> (trace: Vec<TracedFrame>)
    requires
        forall|address: u64| #[trigger] read_word.requires((address,)),
    ensures
        trace@.len() <= STACKFRAME_DEPTH,
        is_captured(read_word, trace@),
{
    func3(read_word)
}

/// Outermost of the three nested calls; it is inlined into its caller, so it
/// adds no frame of its own.
#[inline(always)]
pub fn func1_inlined<F: Fn(u64) -> u64>(read_word: &F) -> (trace: Vec<TracedFrame>)
    requires
        forall|address: u64| #[trigger] read_word.requires((address,)),
    ensures
        trace@.len() <= STACKFRAME_DEPTH,
        is_captured(read_word, trace@),
{
    func2(read_word)
}

} // verus!
