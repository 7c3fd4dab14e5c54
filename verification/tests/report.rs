use frame_walker::frame::Frame;
use frame_walker::report::format_address;
use frame_walker::report::format_caller;
use frame_walker::report::format_frame;

#[test]
fn address_text_is_lower_case_hex_with_prefix() {
    assert_eq!(format_address(0), "0x0");
    assert_eq!(format_address(9), "0x9");
    assert_eq!(format_address(10), "0xa");
    assert_eq!(format_address(15), "0xf");
    assert_eq!(format_address(16), "0x10");
    assert_eq!(format_address(0xAAAA), "0xaaaa");
    assert_eq!(format_address(0x1000), "0x1000");
    assert_eq!(format_address(0x7ffd_1234_abcd), "0x7ffd1234abcd");
    assert_eq!(format_address(u64::MAX), "0xffffffffffffffff");
}

#[test]
fn address_text_agrees_with_std() {
    let mut value: u64 = 1;
    for _ in 0..200 {
        assert_eq!(format_address(value), format!("{:#x}", value));
        value = value.wrapping_mul(6364136223846793005).wrapping_add(1442695040888963407);
    }
    for shift in 0..64 {
        assert_eq!(format_address(1u64 << shift), format!("{:#x}", 1u64 << shift));
    }
}

#[test]
fn resolved_caller_shows_its_name() {
    assert_eq!(format_caller(0xBBBB, &Some(String::from("demo::func2"))), "demo::func2");
}

#[test]
fn unresolved_caller_falls_back_to_the_address() {
    assert_eq!(format_caller(0xBBBB, &None), "0xbbbb");
    assert_eq!(format_caller(0, &None), "0x0");
}

#[test]
fn frame_with_one_symbol_has_three_lines() {
    let frame = Frame { frame_pointer: 0x1000, saved_frame_pointer: 0x2000, return_address: 0xAAAA };
    let lines = format_frame(&frame, &vec![Some(String::from("demo::func3"))]);
    assert_eq!(
        lines,
        vec![
            String::from("In stack frame: fp = 0x1000"),
            String::from("    ra = 0xaaaa"),
            String::from("    From caller: demo::func3"),
        ]
    );
}

#[test]
fn frame_without_symbol_shows_the_raw_address() {
    let frame = Frame { frame_pointer: 0x2000, saved_frame_pointer: 0, return_address: 0xBBBB };
    let lines = format_frame(&frame, &Vec::new());
    assert_eq!(
        lines,
        vec![
            String::from("In stack frame: fp = 0x2000"),
            String::from("    ra = 0xbbbb"),
            String::from("    From caller: 0xbbbb"),
        ]
    );
}

#[test]
fn frame_with_inlined_callers_has_one_line_each() {
    let frame = Frame { frame_pointer: 0x3000, saved_frame_pointer: 0, return_address: 0xC0DE };
    let names = vec![Some(String::from("demo::inner")), None, Some(String::from("demo::outer"))];
    let lines = format_frame(&frame, &names);
    assert_eq!(
        lines,
        vec![
            String::from("In stack frame: fp = 0x3000"),
            String::from("    ra = 0xc0de"),
            String::from("    From caller: demo::inner"),
            String::from("    From caller: 0xc0de"),
            String::from("    From caller: demo::outer"),
        ]
    );
}
