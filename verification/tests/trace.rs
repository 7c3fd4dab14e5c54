use std::collections::HashMap;

use frame_walker::frame::Frame;
use frame_walker::report::format_frame;
use frame_walker::trace::capture_stackframe;
use frame_walker::trace::format_trace;
use frame_walker::trace::func1_inlined;
use frame_walker::trace::func2;
use frame_walker::trace::func3;
use frame_walker::trace::trace_from;
use frame_walker::trace::TracedFrame;
use frame_walker::walker::walk;

fn two_frames() -> HashMap<u64, u64> {
    let mut memory = HashMap::new();
    memory.insert(0x1000, 0x2000);
    memory.insert(0x1008, 0xAAAA);
    memory.insert(0x2000, 0);
    memory.insert(0x2008, 0xBBBB);
    memory
}

fn landmark(seed: u64) -> u64 {
    seed.wrapping_mul(31).wrapping_add(7)
}

#[test]
fn trace_holds_the_frames_of_the_walk() {
    let memory = two_frames();
    let reader = |address: u64| memory[&address];
    let trace = trace_from(&reader, 0x1000, 7);
    let frames: Vec<Frame> = trace.iter().map(|traced| traced.frame).collect();
    assert_eq!(frames, walk(&reader, 0x1000, 7));
    assert_eq!(frames.len(), 2);
    assert_eq!(frames[0].return_address, 0xAAAA);
    assert_eq!(frames[1].return_address, 0xBBBB);
}

#[test]
fn trace_from_zero_is_empty() {
    let trace = trace_from(&|_address: u64| 1u64, 0, 7);
    assert!(trace.is_empty());
    assert!(format_trace(&trace).is_empty());
}

#[test]
fn unknown_return_address_is_shown_as_address() {
    let memory = two_frames();
    let trace = trace_from(&|address: u64| memory[&address], 0x2000, 7);
    assert_eq!(trace.len(), 1);
    let lines = format_trace(&trace);
    assert_eq!(lines[0], "In stack frame: fp = 0x2000");
    assert_eq!(lines[1], "    ra = 0xbbbb");
    assert!(lines.len() >= 3);
    if trace[0].names.is_empty() {
        assert_eq!(lines, vec!["In stack frame: fp = 0x2000", "    ra = 0xbbbb", "    From caller: 0xbbbb"]);
    }
}

#[test]
fn return_address_inside_a_function_resolves_to_its_name() {
    assert_eq!(landmark(1), 38);
    let inside = landmark as usize as u64 + 1;
    let mut memory = HashMap::new();
    memory.insert(0x5000u64, 0u64);
    memory.insert(0x5008u64, inside);
    let trace = trace_from(&|address: u64| memory[&address], 0x5000, 7);
    assert_eq!(trace.len(), 1);
    assert_eq!(trace[0].frame.return_address, inside);
    let named = trace[0]
        .names
        .iter()
        .any(|name| matches!(name, Some(text) if text.contains("landmark")));
    assert!(named, "names found: {:?}", trace[0].names);
    let lines = format_trace(&trace);
    assert!(lines.iter().any(|line| line.starts_with("    From caller: ") && line.contains("landmark")));
}

#[test]
fn trace_lines_are_the_frame_lines_in_order() {
    let trace = vec![
        TracedFrame {
            frame: Frame { frame_pointer: 0x1000, saved_frame_pointer: 0x2000, return_address: 0xAAAA },
            names: vec![Some(String::from("demo::func3"))],
        },
        TracedFrame {
            frame: Frame { frame_pointer: 0x2000, saved_frame_pointer: 0, return_address: 0xBBBB },
            names: Vec::new(),
        },
    ];
    let lines = format_trace(&trace);
    assert_eq!(
        lines,
        vec![
            "In stack frame: fp = 0x1000",
            "    ra = 0xaaaa",
            "    From caller: demo::func3",
            "In stack frame: fp = 0x2000",
            "    ra = 0xbbbb",
            "    From caller: 0xbbbb",
        ]
    );
    let mut joined = format_frame(&trace[0].frame, &trace[0].names);
    joined.extend(format_frame(&trace[1].frame, &trace[1].names));
    assert_eq!(lines, joined);
}

#[test]
fn captured_trace_over_empty_memory_has_at_most_one_frame() {
    let trace = capture_stackframe(&|_address: u64| 0u64);
    assert!(trace.len() <= 1);
    for traced in &trace {
        assert_ne!(traced.frame.frame_pointer, 0);
        assert_eq!(traced.frame.saved_frame_pointer, 0);
        assert_eq!(traced.frame.return_address, 0);
    }
}

#[test]
fn captured_trace_over_circular_memory_stops_at_seven() {
    let trace = func1_inlined(&|address: u64| if address % 16 == 0 { 0x10 } else { 0x77 });
    assert!(trace.len() <= 7);
    if !trace.is_empty() {
        assert_eq!(trace.len(), 7);
        for traced in &trace[1..] {
            let repeated = if trace[0].frame.frame_pointer % 16 == 0 { 0x10 } else { 0x77 };
            assert_eq!(traced.frame.frame_pointer, repeated);
            assert_eq!(traced.frame.saved_frame_pointer, repeated);
        }
    }
}

#[test]
fn nested_calls_give_linked_frames() {
    for trace in [func3(&|address: u64| address / 2), func2(&|address: u64| address / 2)] {
        assert!(trace.len() <= 7);
        for pair in trace.windows(2) {
            assert_eq!(pair[1].frame.frame_pointer, pair[0].frame.saved_frame_pointer);
        }
        for traced in &trace {
            assert_ne!(traced.frame.frame_pointer, 0);
            assert_eq!(traced.frame.saved_frame_pointer, traced.frame.frame_pointer / 2);
        }
    }
}
