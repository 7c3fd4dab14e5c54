//! One stack frame and the layout that locates its two saved words.

use vstd::prelude::*;

verus! {

/// Size of a machine word in bytes: the distance between the two saved words.
pub const WORD_SIZE: u64 = 8;

/// What a frame-pointer walk learns of one active call.
#[derive(Clone, Copy, Debug, PartialEq, Eq, Structural)]
pub struct Frame {
    /// Address of the frame's saved state; never zero in a frame that was read.
    pub frame_pointer: u64,
    /// The caller's frame pointer, read at `frame_pointer`.
    pub saved_frame_pointer: u64,
    /// Where the caller resumes, read one word above `frame_pointer`.
    pub return_address: u64,
}

/// Address of the word that holds the return address of the frame at
/// `frame_pointer`.  Addresses are machine words, so the sum wraps at the top
/// of the address space.
pub open spec fn return_slot(frame_pointer: u64) -> u64 {
    ((frame_pointer + WORD_SIZE) % 0x1_0000_0000_0000_0000) as u64
}

/// Computes [`return_slot`].
pub fn return_address_slot(frame_pointer: u64) -> (slot: u64)
    ensures
        slot == return_slot(frame_pointer),
{
    frame_pointer.wrapping_add(WORD_SIZE)
}

} // verus!
