use oxidelink::numeric::{i16_le, push_le16, push_le32, push_le64, u16_le, u32_le, Ratio, Real32};
use oxidelink::state::{ConnectionType, ControllerState};
use oxidelink::subcmd::{
    build_request, check_user_cal_magic, default_imu_calibration, default_stick_calibration,
    merge_stick_calibration, parse_device_info_reply, parse_imu_calibration,
    parse_left_stick_calibration, parse_right_stick_calibration, read_triple, Request,
};
use oxidelink::text;

fn chars(s: &str) -> Vec<char> {
    text::chars_of(s)
}

#[test]
fn numbers_are_written_low_byte_first() {
    let mut out = Vec::new();
    push_le16(&mut out, 0x1234);
    push_le32(&mut out, 0x89AB_CDEF);
    push_le64(&mut out, 0x0102_0304_0506_0708);
    assert_eq!(&out[..6], &[0x34, 0x12, 0xEF, 0xCD, 0xAB, 0x89]);
    assert_eq!(&out[6..], &[8, 7, 6, 5, 4, 3, 2, 1]);
    assert_eq!(u16_le(out[0], out[1]), 0x1234);
    assert_eq!(u32_le(out[2], out[3], out[4], out[5]), 0x89AB_CDEF);
    assert_eq!(i16_le(0xFE, 0xFF), -2);
}

#[test]
fn quotients_are_held_to_the_unit_range() {
    assert_eq!(Ratio::clamped(5, 4), Ratio { num: 1, den: 1 });
    assert_eq!(Ratio::clamped(-9, 4), Ratio { num: -1, den: 1 });
    assert_eq!(Ratio::clamped(3, 4), Ratio { num: 3, den: 4 });
    let q = Ratio::quotient(3, -4);
    assert_eq!(q.num * 4, -3 * q.den);
    assert!(q.den > 0);
}

#[test]
fn numbers_are_limited() {
    let r = |v: f32| Real32::from_bits(v.to_bits());
    assert_eq!(r(2.0).limit(r(-1.0), r(1.0)), r(1.0));
    assert_eq!(r(-2.0).limit(r(-1.0), r(1.0)), r(-1.0));
    assert_eq!(r(0.25).limit(r(-1.0), r(1.0)), r(0.25));
    assert_eq!(r(-3.0).abs(), r(3.0));
    assert!(r(f32::INFINITY).abs() == r(f32::INFINITY) && !r(f32::INFINITY).is_finite());
    assert!(r(-0.0).is_zero() && r(-0.0).is_negative());
}

#[test]
fn text_is_searched_and_trimmed() {
    let s = chars("  ab|cd|ef ");
    assert_eq!(text::string_of(&text::trim(&s)), "ab|cd|ef");
    assert_eq!(text::find(&s, &chars("cd")), Some(5));
    assert_eq!(text::find(&s, &chars("zz")), None);
    assert!(text::contains(&s, &chars("|ef")));
    assert!(text::starts_with(&s, &chars("  a")));
    assert!(text::ends_with(&s, &chars("f ")));
    assert_eq!(text::position(&s, '|'), 4);
    assert_eq!(text::position(&s, '#'), s.len());
    assert_eq!(text::string_of(&text::trim_end_matches(&chars("a//"), '/')), "a");
}

#[test]
fn lines_end_at_newlines_with_or_without_return() {
    let lines: Vec<String> = text::lines(&chars("a\r\nb\n\nc"))
        .iter()
        .map(|l| text::string_of(l))
        .collect();
    assert_eq!(lines, "a\r\nb\n\nc".lines().collect::<Vec<&str>>());
    assert_eq!(text::lines(&chars("")).len(), 0);
    assert_eq!(text::lines(&chars("x\n")).len(), 1);
}

#[test]
fn numbers_are_read_as_the_standard_library_reads_them() {
    for s in ["0", "+7", "-7", "007", "", "-", "+", "1 ", "2147483647", "2147483648",
        "-2147483648", "-2147483649", "9223372036854775807", "9223372036854775808",
        "-9223372036854775808", "1_0", "\u{661}"]
    {
        assert_eq!(text::parse_i32(&chars(s)), s.parse::<i32>().ok(), "{}", s);
        assert_eq!(text::parse_i64(&chars(s)), s.parse::<i64>().ok(), "{}", s);
    }
}

#[test]
fn whitespace_is_what_the_standard_library_takes_for_it() {
    for c in (0..0x3100u32).filter_map(char::from_u32) {
        assert_eq!(text::is_whitespace(c), c.is_whitespace(), "{:?}", c);
    }
}

#[test]
fn numbers_are_written_out() {
    let mut out = String::new();
    text::push_decimal(&mut out, 0);
    text::push_decimal(&mut out, u64::MAX);
    text::push_hex(&mut out, 0xA7);
    assert_eq!(out, "018446744073709551615A7");
    assert_eq!(text::hex_join(&[0, 255], ' '), "00 FF");
    assert_eq!(text::hex_join(&[], ' '), "");
    assert_eq!(text::to_ascii_lower('Q'), 'q');
    assert_eq!(text::to_ascii_lower('\u{c4}'), '\u{c4}');
}

#[test]
fn utf16_is_written_and_read() {
    let s = "a\u{1F3AE}\u{fffd}";
    let mut units = Vec::new();
    text::push_utf16(&mut units, &chars(s));
    assert_eq!(units, s.encode_utf16().collect::<Vec<u16>>());
    assert_eq!(text::from_utf16(&units), s);
    let broken = [0xD83C, 0x0041, 0xDFAE, 0xD83C];
    assert_eq!(text::from_utf16(&broken), String::from_utf16_lossy(&broken));
}

#[test]
fn requests_are_subcommand_reports() {
    let q = build_request(7, Request::SpiFlashRead { addr: 0x603D, len: 9 });
    assert_eq!(q[0], 0x01);
    assert_eq!(q[1], 7);
    assert_eq!(q[10], 0x10);
    assert_eq!(&q[11..16], &[0x3D, 0x60, 0, 0, 9]);
    let imu = build_request(0, Request::EnableImu { on: true });
    assert_eq!(&imu[10..12], &[0x40, 1]);
    let mode = build_request(0, Request::SetReportMode { mode: 0x30 });
    assert_eq!(&mode[10..12], &[0x03, 0x30]);
}

#[test]
fn device_information_is_read() {
    let data = [4, 33, 3, 2, 0x98, 0xB6, 0xE9, 1, 2, 3, 1, 1];
    let info = parse_device_info_reply(&data).unwrap();
    assert_eq!(info.firmware_version, "4.33");
    assert_eq!(info.controller_type, 3);
    assert_eq!(info.mac_address, "98:B6:E9:01:02:03");
    assert!(info.colors_from_spi);
    assert!(parse_device_info_reply(&data[..11]).is_none());
}

#[test]
fn calibrations_are_read_and_merged() {
    let left = parse_left_stick_calibration(&[0x00, 0x04, 0x40, 0x00, 0x08, 0x80, 0x00, 0x04, 0x40])
        .unwrap();
    assert_eq!((left.min_x, left.center_x, left.max_x), (1024, 2048, 3072));
    let right =
        parse_right_stick_calibration(&[0x00, 0x08, 0x80, 0x00, 0x04, 0x40, 0x00, 0x04, 0x40])
            .unwrap();
    assert_eq!((right.min_y, right.center_y, right.max_y), (1024, 2048, 3072));
    let both = merge_stick_calibration(left, right);
    assert!(both.valid);
    assert_eq!(both.left_center_x, 2048);
    assert!(parse_left_stick_calibration(&[0; 8]).is_none());
    assert!(check_user_cal_magic(&[0xB2, 0xA1, 0]));
    assert!(!check_user_cal_magic(&[0xA1, 0xB2]));
    assert_eq!(read_triple(&[0, 0, 1, 0, 0xFF, 0xFF, 0, 1], 2), [1, -1, 256]);
    assert!(parse_imu_calibration(&[0; 23]).is_none());
    assert!(parse_imu_calibration(&[1; 24]).is_some());
    assert_eq!(default_imu_calibration().accel_origin, [0, 0, 0]);
    assert!(default_stick_calibration().left_center_x > 0);
}

#[test]
fn fresh_controller_is_in_its_slot() {
    let c = ControllerState::in_slot(2);
    assert_eq!(c.slot_index, 2);
    assert!(!c.connected);
    assert_eq!(ConnectionType::Usb.name(), "USB");
    assert_eq!(ConnectionType::Bluetooth.name(), "Bluetooth");
}
