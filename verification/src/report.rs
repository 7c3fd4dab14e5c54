//! The text shown for a frame: its frame pointer, its return address, and the
//! name of the code that the return address lies in, or the address itself
//! where no name is known.

use vstd::prelude::*;
use vstd::string::StrSliceExecFns;
use vstd::string::StringExecFns;
use crate::frame::Frame;

verus! {

/// The sixteen hexadecimal digits, in order.
pub open spec fn hex_alphabet() -> Seq<char> {
    "0123456789abcdef"@
}

/// The digits of `value` in base sixteen, most significant first, with no
/// leading zero but for zero itself.
pub open spec fn hex_digits(value: nat) -> Seq<char>
    decreases value,
{
    if value < 16 {
        seq![hex_alphabet()[value as int]]
    } else {
        hex_digits(value / 16).push(hex_alphabet()[(value % 16) as int])
    }
}

/// An address as text: `0x` and its hexadecimal digits.
pub open spec fn hex_text(address: u64) -> Seq<char> {
    "0x"@ + hex_digits(address as nat)
}

/// The label shown for the caller at `address`: the resolved name, or the
/// address as text where there is none.
pub open spec fn caller_label(address: u64, name: Option<Seq<char>>) -> Seq<char> {
    match name {
        Some(text) => text,
        None => hex_text(address),
    }
}

/// The line that shows a frame's frame pointer.
pub open spec fn frame_pointer_line(frame: Frame) -> Seq<char> {
    "In stack frame: fp = "@ + hex_text(frame.frame_pointer)
}

/// The line that shows a frame's return address.
pub open spec fn return_address_line(frame: Frame) -> Seq<char> {
    "    ra = "@ + hex_text(frame.return_address)
}

/// The line that shows one caller of a frame.
pub open spec fn caller_line(address: u64, name: Option<Seq<char>>) -> Seq<char> {
    "    From caller: "@ + caller_label(address, name)
}

/// The caller lines of a return address: one for each symbol found there, in
/// the order found; one with the address itself where none was found.
pub open spec fn caller_lines(address: u64, names: Seq<Option<Seq<char>>>) -> Seq<Seq<char>> {
    if names.len() == 0 {
        seq![caller_line(address, None)]
    } else {
        Seq::new(names.len(), |i: int| caller_line(address, names[i]))
    }
}

/// All lines shown for a frame.
pub open spec fn frame_lines(frame: Frame, names: Seq<Option<Seq<char>>>) -> Seq<Seq<char>> {
    seq![frame_pointer_line(frame), return_address_line(frame)] + caller_lines(
        frame.return_address,
        names,
    )
}

/// Appends the hexadecimal digits of `value` to `text`.
fn append_hex_digits(text: &mut String, value: u64)
    ensures
        final(text)@ == old(text)@ + hex_digits(value as nat),
    decreases value,
{
    if value >= 16 {
        append_hex_digits(text, value / 16);
    }
    let digit: usize = (value % 16) as usize;
    let alphabet = "0123456789abcdef";
    proof {
        reveal_strlit("0123456789abcdef");
    }
    let digit_text = alphabet.substring_ascii(digit, digit + 1);
    text.append(digit_text);
    assert(digit_text@ =~= seq![hex_alphabet()[digit as int]]);
}

/// An address as text, as [`hex_text`] gives it.
pub fn format_address(address: u64) -> (text: String)
    ensures
        text@ == hex_text(address),
{
    let mut text = String::from_str("0x");
    append_hex_digits(&mut text, address);
    text
}

/// The label of the caller at `address`: its name where one was resolved,
/// else the address as text.
pub fn format_caller(address: u64, name: &Option<String>) -> (label: String)
    ensures
        label@ == caller_label(address, name.deep_view()),
        name is None ==> label@ == hex_text(address),
{
    match name {
        Some(text) => text.clone(),
        None => format_address(address),
    }
}

/// The caller line for one resolved symbol, or for none.
fn format_caller_line(address: u64, name: &Option<String>) -> (line: String)
    ensures
        line@ == caller_line(address, name.deep_view()),
{
    let label = format_caller(address, name);
    let mut line = String::from_str("    From caller: ");
    line.append(label.as_str());
    line
}

/// The lines shown for `frame`, given the names of the symbols found at its
/// return address: the frame pointer, the return address, then the callers.
/// A frame with no symbol still gets a caller line, with the address.
pub fn format_frame(frame: &Frame, names: &Vec<Option<String>>) -> (lines: Vec<String>)
    ensures
        lines.deep_view() == frame_lines(*frame, names.deep_view()),
        names@.len() == 0 ==> lines.deep_view() == seq![
            frame_pointer_line(*frame),
            return_address_line(*frame),
            "    From caller: "@ + hex_text(frame.return_address),
        ],
{
    let mut lines: Vec<String> = Vec::new();
    let mut first = String::from_str("In stack frame: fp = ");
    first.append(format_address(frame.frame_pointer).as_str());
    lines.push(first);
    let mut second = String::from_str("    ra = ");
    second.append(format_address(frame.return_address).as_str());
    lines.push(second);
    if names.len() == 0 {
        lines.push(format_caller_line(frame.return_address, &None));
    } else {
        let mut i: usize = 0;
        while i < names.len()
            invariant
                i <= names.len(),
                lines@.len() == 2 + i,
                lines@[0]@ == frame_pointer_line(*frame),
                lines@[1]@ == return_address_line(*frame),
                forall|j: int|
                    0 <= j < i ==> (#[trigger] lines@[2 + j])@ == caller_line(
                        frame.return_address,
                        names@[j].deep_view(),
                    ),
            decreases names.len() - i,
        {
            lines.push(format_caller_line(frame.return_address, &names[i]));
            i = i + 1;
        }
    }
    assert(lines.deep_view() =~= frame_lines(*frame, names.deep_view())) by {
        assert forall|k: int| 2 <= k < lines@.len() && names@.len() > 0 implies lines@[k]@
            == caller_line(frame.return_address, names@[k - 2].deep_view()) by {
            assert(lines@[2 + (k - 2)]@ == caller_line(
                frame.return_address,
                names@[k - 2].deep_view(),
            ));
        }
    }
    lines
}

} // verus!
