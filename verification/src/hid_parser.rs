//! Parsing of the input reports of a Pro Controller and building of output
//! reports.

use vstd::prelude::*;

use crate::numeric;
use crate::numeric::{i16_le, Ratio};
use crate::state;
use crate::state::{ButtonState, DeviceInfo, StickCalibration, StickState};
use crate::subcmd;
use crate::subcmd::{parse_device_info_reply, parse_stick_calibration_reply};
use crate::text;
use crate::text::hex_join;

verus! {

pub const NINTENDO_VID: u16 = 0x057E;

pub const PRO_CONTROLLER_PID: u16 = 0x2009;

pub const REPORT_ID_STANDARD: u8 = 0x30;

pub const REPORT_ID_SUBCMD_REPLY: u8 = 0x21;

pub const REPORT_ID_NFC_IR: u8 = 0x31;

/// The report a controller sends over Bluetooth until it is told to send
/// standard reports.
pub const REPORT_ID_DEFAULT_BT: u8 = 0x3F;

/// The reply of the USB bridge to a USB command.
pub const REPORT_ID_USB_REPLY: u8 = 0x81;

pub const STICK_CENTER: u16 = 0x800;

pub const STICK_MAX: u16 = 0xFFF;

pub const STICK_MIN: u16 = 0x000;

/// The battery byte of a report, taken apart. The high nibble holds the level
/// (0 empty, 2 critical, 4 low, 6 medium, 8 full) and, in its lowest bit,
/// whether the battery is charging.
#[derive(Clone, Copy, Debug, PartialEq, Eq, Structural)]
pub struct BatteryInfo {
    pub raw: u8,
    pub charging: bool,
    pub connection_type: u8,
}

impl Default for BatteryInfo {
    fn default() -> (r: Self)
        ensures
            r == (BatteryInfo { raw: 0, charging: false, connection_type: 0 }),
    {
        BatteryInfo { raw: 0, charging: false, connection_type: 0 }
    }
}

/// One reading of the motion sensor: three axes of acceleration and three of
/// rotation.
#[derive(Clone, Copy, Debug, PartialEq, Eq, Structural)]
pub struct ImuFrame {
    pub accel_x: i16,
    pub accel_y: i16,
    pub accel_z: i16,
    pub gyro_x: i16,
    pub gyro_y: i16,
    pub gyro_z: i16,
}

/// A reading of zero on every axis.
pub open spec fn still_frame() -> ImuFrame {
    ImuFrame { accel_x: 0, accel_y: 0, accel_z: 0, gyro_x: 0, gyro_y: 0, gyro_z: 0 }
}

impl Default for ImuFrame {
    fn default() -> (r: Self)
        ensures
            r == still_frame(),
    {
        ImuFrame { accel_x: 0, accel_y: 0, accel_z: 0, gyro_x: 0, gyro_y: 0, gyro_z: 0 }
    }
}

/// The three readings of the motion sensor in one report.
#[derive(Clone, Copy, Debug, PartialEq, Eq)]
pub struct ImuData {
    pub frames: [ImuFrame; 3],
}

impl Default for ImuData {
    fn default() -> (r: Self)
        ensures
            r.frames@ == seq![still_frame(), still_frame(), still_frame()],
    {
        ImuData { frames: [ImuFrame::default(), ImuFrame::default(), ImuFrame::default()] }
    }
}

/// What a standard report or a default Bluetooth report says.
#[derive(Clone, Copy, Debug, PartialEq, Eq)]
pub struct ParsedInput {
    pub buttons: ButtonState,
    pub left_stick: StickState,
    pub right_stick: StickState,
    pub timer: u8,
    pub report_id: u8,
    pub battery: BatteryInfo,
    pub imu: Option<ImuData>,
    /// The vibrator byte of a standard report.
    pub vibrator: u8,
}

// ---------------------------------------------------------------------------
// Battery and buttons
// ---------------------------------------------------------------------------

/// The battery byte of a report, taken apart.
pub open spec fn battery_of(byte: u8) -> BatteryInfo {
    BatteryInfo { raw: byte / 16, charging: byte / 16 % 2 == 1, connection_type: byte % 16 }
}

/// Takes the battery byte of a report apart: the high nibble with level and
/// charging flag, and the low nibble with the connection.
pub fn parse_battery_info(byte2: u8) -> (r: BatteryInfo)
    ensures
        r == battery_of(byte2),
{
    let raw: u8 = byte2 / 16;
    BatteryInfo { raw, charging: raw % 2 == 1, connection_type: byte2 % 16 }
}

/// The battery level of a raw value, without the charging flag.
pub open spec fn battery_level(raw: u8) -> int {
    (raw / 2 % 8) as int
}

/// The percentage for a raw battery value.
pub open spec fn percent_of(raw: u8) -> u8 {
    let level = battery_level(raw);
    if level == 0 {
        0
    } else if level == 1 {
        10
    } else if level == 2 {
        25
    } else if level == 3 {
        50
    } else {
        100
    }
}

/// The percentage for a raw battery value: 0 empty, 10 critical, 25 low,
/// 50 medium, 100 full. The charging flag does not count.
pub fn battery_raw_to_percent(raw: u8) -> (r: u8)
    ensures
        r == percent_of(raw),
{
    let level: u8 = raw / 2 % 8;
    match level {
        0 => 0,
        1 => 10,
        2 => 25,
        3 => 50,
        _ => 100,
    }
}

/// The charging flag of a raw battery value does not change the percentage.
pub proof fn law_charging_does_not_change_percent(raw: u8)
    requires
        raw % 2 == 0,
    ensures
        percent_of((raw + 1) as u8) == percent_of(raw),
{
}

/// The buttons of a standard report or of a subcommand reply.
#[verifier::opaque]
pub open spec fn buttons_of(right: u8, shared: u8, left: u8) -> ButtonState {
    ButtonState {
        x: right & 0x01 != 0,
        y: right & 0x02 != 0,
        a: right & 0x04 != 0,
        b: right & 0x08 != 0,
        sr_right: right & 0x10 != 0,
        sl_right: right & 0x20 != 0,
        r: right & 0x40 != 0,
        zr: right & 0x80 != 0,
        minus: shared & 0x01 != 0,
        plus: shared & 0x02 != 0,
        stick_r: shared & 0x04 != 0,
        stick_l: shared & 0x08 != 0,
        home: shared & 0x10 != 0,
        capture: shared & 0x20 != 0,
        dpad_down: left & 0x01 != 0,
        dpad_up: left & 0x02 != 0,
        dpad_right: left & 0x04 != 0,
        dpad_left: left & 0x08 != 0,
        sr_left: left & 0x10 != 0,
        sl_left: left & 0x20 != 0,
        l: left & 0x40 != 0,
        zl: left & 0x80 != 0,
    }
}

/// The buttons of a standard report or of a subcommand reply.
pub fn parse_buttons(right_btn: u8, shared_btn: u8, left_btn: u8) -> (r: ButtonState)
    ensures
        r == buttons_of(right_btn, shared_btn, left_btn),
{
    proof {
        reveal(buttons_of);
    }
    ButtonState {
        x: right_btn & 0x01 != 0,
        y: right_btn & 0x02 != 0,
        a: right_btn & 0x04 != 0,
        b: right_btn & 0x08 != 0,
        sr_right: right_btn & 0x10 != 0,
        sl_right: right_btn & 0x20 != 0,
        r: right_btn & 0x40 != 0,
        zr: right_btn & 0x80 != 0,
        minus: shared_btn & 0x01 != 0,
        plus: shared_btn & 0x02 != 0,
        stick_r: shared_btn & 0x04 != 0,
        stick_l: shared_btn & 0x08 != 0,
        home: shared_btn & 0x10 != 0,
        capture: shared_btn & 0x20 != 0,
        dpad_down: left_btn & 0x01 != 0,
        dpad_up: left_btn & 0x02 != 0,
        dpad_right: left_btn & 0x04 != 0,
        dpad_left: left_btn & 0x08 != 0,
        sr_left: left_btn & 0x10 != 0,
        sl_left: left_btn & 0x20 != 0,
        l: left_btn & 0x40 != 0,
        zl: left_btn & 0x80 != 0,
    }
}

// ---------------------------------------------------------------------------
// Motion sensor
// ---------------------------------------------------------------------------

/// The reading that starts at a position; zero on every axis where the data
/// ends before it does.
pub open spec fn frame_at(data: Seq<u8>, off: int) -> ImuFrame {
    if off + 12 <= data.len() {
        ImuFrame {
            accel_x: numeric::from_le16_signed(data[off], data[off + 1]),
            accel_y: numeric::from_le16_signed(data[off + 2], data[off + 3]),
            accel_z: numeric::from_le16_signed(data[off + 4], data[off + 5]),
            gyro_x: numeric::from_le16_signed(data[off + 6], data[off + 7]),
            gyro_y: numeric::from_le16_signed(data[off + 8], data[off + 9]),
            gyro_z: numeric::from_le16_signed(data[off + 10], data[off + 11]),
        }
    } else {
        still_frame()
    }
}

/// The three readings at the start of the data.
pub open spec fn imu_of(data: Seq<u8>) -> ImuData {
    ImuData { frames: [frame_at(data, 0), frame_at(data, 12), frame_at(data, 24)] }
}

fn parse_frame(data: &[u8], off: usize) -> (r: ImuFrame)
    requires
        off <= 24,
    ensures
        r == frame_at(data@, off as int),
{
    if off + 12 > data.len() {
        return ImuFrame::default();
    }
    ImuFrame {
        accel_x: i16_le(data[off], data[off + 1]),
        accel_y: i16_le(data[off + 2], data[off + 3]),
        accel_z: i16_le(data[off + 4], data[off + 5]),
        gyro_x: i16_le(data[off + 6], data[off + 7]),
        gyro_y: i16_le(data[off + 8], data[off + 9]),
        gyro_z: i16_le(data[off + 10], data[off + 11]),
    }
}

/// The three readings of twelve bytes each at the start of the data. One that
/// the data does not hold in full is zero on every axis.
pub fn parse_imu(data: &[u8]) -> (r: ImuData)
    ensures
        r == imu_of(data@),
{
    ImuData { frames: [parse_frame(data, 0), parse_frame(data, 12), parse_frame(data, 24)] }
}

// ---------------------------------------------------------------------------
// Sticks
// ---------------------------------------------------------------------------

/// Where a 12-bit reading lies between -1 and 1 by the default center and
/// maximum.
pub open spec fn stick_12(raw: u16) -> Ratio {
    if raw == STICK_CENTER {
        numeric::zero_ratio()
    } else {
        numeric::unit_ratio(raw - STICK_CENTER, STICK_MAX - STICK_CENTER)
    }
}

/// Where a 12-bit reading lies between -1 and 1 by the default center and
/// maximum.
pub fn normalize_stick(raw: u16) -> (r: Ratio)
    ensures
        r == stick_12(raw),
        r.in_unit(),
{
    if raw == STICK_CENTER {
        return Ratio::zero();
    }
    Ratio::clamped(raw as i64 - 0x800, 0x7FF)
}

/// Where a reading lies between -1 and 1: below the center in parts of the
/// distance to `min`, above it in parts of the distance to `max`, and 0 where
/// that distance is not positive.
pub open spec fn stick_between(raw: u16, center: u16, min: u16, max: u16) -> Ratio {
    if raw < center {
        if min < center {
            numeric::unit_ratio(raw - center, center - min)
        } else {
            numeric::zero_ratio()
        }
    } else if center < max {
        numeric::unit_ratio(raw - center, max - center)
    } else {
        numeric::zero_ratio()
    }
}

/// Where a reading lies between -1 and 1 by a calibrated center, minimum and
/// maximum.
pub fn normalize_stick_calibrated(raw: u16, center: u16, min: u16, max: u16) -> (r: Ratio)
    ensures
        r == stick_between(raw, center, min, max),
        r.in_unit(),
{
    if raw < center {
        if min < center {
            Ratio::clamped(raw as i64 - center as i64, center as i64 - min as i64)
        } else {
            Ratio::zero()
        }
    } else if center < max {
        Ratio::clamped(raw as i64 - center as i64, max as i64 - center as i64)
    } else {
        Ratio::zero()
    }
}

/// A calibrated reading at the minimum, center or maximum of its range is
/// exactly -1, 0 or 1.
pub proof fn law_calibrated_extremes(center: u16, min: u16, max: u16)
    requires
        min < center < max,
    ensures
        stick_between(min, center, min, max).num == -stick_between(min, center, min, max).den,
        stick_between(center, center, min, max).num == 0,
        stick_between(max, center, min, max).num == stick_between(max, center, min, max).den,
{
}

/// Of two calibrated readings the greater one lies no further to the left.
pub proof fn law_calibrated_is_monotone(a: u16, b: u16, center: u16, min: u16, max: u16)
    requires
        min < center < max,
        a <= b,
    ensures
        ({
            let p = stick_between(a, center, min, max);
            let q = stick_between(b, center, min, max);
            p.num * q.den <= q.num * p.den
        }),
{
    let p = stick_between(a, center, min, max);
    let q = stick_between(b, center, min, max);
    if b < center || a >= center {
        assert(p.den == q.den);
        assert(p.num <= q.num);
        assert(p.num * q.den <= q.num * p.den) by (nonlinear_arith)
            requires
                p.den == q.den,
                p.den > 0,
                p.num <= q.num,
        ;
    } else {
        assert(p.num <= 0 <= q.num);
        assert(p.num * q.den <= 0 <= q.num * p.den) by (nonlinear_arith)
            requires
                p.num <= 0 <= q.num,
                p.den > 0,
                q.den > 0,
        ;
    }
}

/// The first 12-bit number of a packed pair.
pub open spec fn packed_first(b0: u8, b1: u8) -> u16 {
    (b0 + 256 * (b1 % 16)) as u16
}

/// The second 12-bit number of a packed pair.
pub open spec fn packed_second(b1: u8, b2: u8) -> u16 {
    (b1 / 16 + 16 * b2) as u16
}

/// The two 12-bit numbers that three bytes hold.
pub fn unpack_pair(b0: u8, b1: u8, b2: u8) -> (r: (u16, u16))
    ensures
        r == (packed_first(b0, b1), packed_second(b1, b2)),
        r.0 <= 0xFFF,
        r.1 <= 0xFFF,
{
    (b0 as u16 + 256 * ((b1 % 16) as u16), (b1 / 16) as u16 + 16 * (b2 as u16))
}

/// Two 12-bit numbers packed into three bytes come back when they are
/// unpacked.
pub proof fn law_packed_pair_round_trip(x: u16, y: u16)
    requires
        x <= 0xFFF,
        y <= 0xFFF,
    ensures
        ({
            let b0 = (x % 256) as u8;
            let b1 = (x / 256 + 16 * (y % 16)) as u8;
            let b2 = (y / 16) as u8;
            packed_first(b0, b1) == x && packed_second(b1, b2) == y
        }),
{
}

/// A stick of three bytes with two packed 12-bit readings.
pub open spec fn stick_of(data: Seq<u8>) -> StickState {
    if data.len() < 3 {
        state::empty_stick()
    } else {
        let raw_x = packed_first(data[0], data[1]);
        let raw_y = packed_second(data[1], data[2]);
        StickState { x: stick_12(raw_x), y: stick_12(raw_y), raw_x, raw_y }
    }
}

/// A stick of three bytes with two packed 12-bit readings.
pub fn parse_stick(data: &[u8]) -> (r: StickState)
    ensures
        r == stick_of(data@),
{
    if data.len() < 3 {
        return StickState::default();
    }
    let (raw_x, raw_y) = unpack_pair(data[0], data[1], data[2]);
    StickState { x: normalize_stick(raw_x), y: normalize_stick(raw_y), raw_x, raw_y }
}

/// A stick of three bytes, by the calibration of its two axes where that is
/// valid and by the default center and maximum where it is not.
#[allow(clippy::too_many_arguments)]
pub fn parse_stick_calibrated(
    data: &[u8],
    center_x: u16,
    min_x: u16,
    max_x: u16,
    center_y: u16,
    min_y: u16,
    max_y: u16,
    cal_valid: bool,
) -> (r: StickState)
    ensures
        data@.len() < 3 ==> r == state::empty_stick(),
        data@.len() >= 3 ==> r == ({
            let raw_x = packed_first(data@[0], data@[1]);
            let raw_y = packed_second(data@[1], data@[2]);
            StickState {
                x: if cal_valid {
                    stick_between(raw_x, center_x, min_x, max_x)
                } else {
                    stick_12(raw_x)
                },
                y: if cal_valid {
                    stick_between(raw_y, center_y, min_y, max_y)
                } else {
                    stick_12(raw_y)
                },
                raw_x,
                raw_y,
            }
        }),
{
    if data.len() < 3 {
        return StickState::default();
    }
    let (raw_x, raw_y) = unpack_pair(data[0], data[1], data[2]);
    if cal_valid {
        StickState {
            x: normalize_stick_calibrated(raw_x, center_x, min_x, max_x),
            y: normalize_stick_calibrated(raw_y, center_y, min_y, max_y),
            raw_x,
            raw_y,
        }
    } else {
        StickState { x: normalize_stick(raw_x), y: normalize_stick(raw_y), raw_x, raw_y }
    }
}

/// Where a 16-bit reading lies between -1 and 1 around a center.
pub open spec fn stick_16(raw: u16, center: u16) -> Ratio {
    if raw == center {
        numeric::zero_ratio()
    } else if raw < center {
        numeric::unit_ratio(raw - center, center as int)
    } else {
        numeric::unit_ratio(raw - center, 0xFFFF - center)
    }
}

/// Where a 16-bit reading lies between -1 and 1 around a center.
pub fn normalize_stick_16(raw: u16, center: u16) -> (r: Ratio)
    ensures
        r == stick_16(raw, center),
        r.in_unit(),
{
    if raw == center {
        return Ratio::zero();
    }
    if raw < center {
        Ratio::clamped(raw as i64 - center as i64, center as i64)
    } else {
        Ratio::clamped(raw as i64 - center as i64, 0xFFFF - center as i64)
    }
}

/// A stick of four bytes with two big-endian 16-bit readings around 0x8000.
pub open spec fn simple_stick_of(data: Seq<u8>) -> StickState {
    if data.len() < 4 {
        state::empty_stick()
    } else {
        let raw_x = (256 * data[0] + data[1]) as u16;
        let raw_y = (256 * data[2] + data[3]) as u16;
        StickState { x: stick_16(raw_x, 0x8000), y: stick_16(raw_y, 0x8000), raw_x, raw_y }
    }
}

/// A stick of four bytes with two big-endian 16-bit readings around 0x8000.
pub fn parse_simple_stick(data: &[u8]) -> (r: StickState)
    ensures
        r == simple_stick_of(data@),
{
    if data.len() < 4 {
        return StickState::default();
    }
    let raw_x: u16 = 256 * (data[0] as u16) + data[1] as u16;
    let raw_y: u16 = 256 * (data[2] as u16) + data[3] as u16;
    StickState {
        x: normalize_stick_16(raw_x, 0x8000),
        y: normalize_stick_16(raw_y, 0x8000),
        raw_x,
        raw_y,
    }
}

// ---------------------------------------------------------------------------
// Input reports
// ---------------------------------------------------------------------------

/// The buttons of a default Bluetooth report, from its two button bytes and
/// its hat switch.
#[verifier::opaque]
pub open spec fn simple_buttons(b1: u8, b2: u8, hat: u8) -> ButtonState {
    ButtonState {
        a: b1 & 0x01 != 0,
        b: b1 & 0x02 != 0,
        x: b1 & 0x04 != 0,
        y: b1 & 0x08 != 0,
        l: b1 & 0x10 != 0,
        r: b1 & 0x20 != 0,
        zl: b1 & 0x40 != 0,
        zr: b1 & 0x80 != 0,
        minus: b2 & 0x01 != 0,
        plus: b2 & 0x02 != 0,
        home: b2 & 0x04 != 0,
        capture: b2 & 0x08 != 0,
        stick_l: b2 & 0x10 != 0,
        stick_r: b2 & 0x20 != 0,
        sr_right: false,
        sl_right: false,
        sr_left: false,
        sl_left: false,
        dpad_up: hat == 0 || hat == 1 || hat == 7,
        dpad_down: 3 <= hat <= 5,
        dpad_left: 5 <= hat <= 7,
        dpad_right: 1 <= hat <= 3,
    }
}

/// What a default Bluetooth report says. `None` for any other report and for
/// one of fewer than twelve bytes.
pub open spec fn simple_report(data: Seq<u8>) -> Option<ParsedInput> {
    if data.len() < 12 || data[0] != REPORT_ID_DEFAULT_BT {
        None
    } else {
        Some(
            ParsedInput {
                buttons: simple_buttons(data[1], data[2], data[3]),
                left_stick: simple_stick_of(data.subrange(4, 8)),
                right_stick: simple_stick_of(data.subrange(8, 12)),
                timer: data[1],
                report_id: data[0],
                battery: battery_of(data[2]),
                imu: None,
                vibrator: 0,
            },
        )
    }
}

fn parse_simple_buttons(b1: u8, b2: u8, hat: u8) -> (r: ButtonState)
    ensures
        r == simple_buttons(b1, b2, hat),
{
    proof {
        reveal(simple_buttons);
    }
    ButtonState {
        a: b1 & 0x01 != 0,
        b: b1 & 0x02 != 0,
        x: b1 & 0x04 != 0,
        y: b1 & 0x08 != 0,
        l: b1 & 0x10 != 0,
        r: b1 & 0x20 != 0,
        zl: b1 & 0x40 != 0,
        zr: b1 & 0x80 != 0,
        minus: b2 & 0x01 != 0,
        plus: b2 & 0x02 != 0,
        home: b2 & 0x04 != 0,
        capture: b2 & 0x08 != 0,
        stick_l: b2 & 0x10 != 0,
        stick_r: b2 & 0x20 != 0,
        sr_right: false,
        sl_right: false,
        sr_left: false,
        sl_left: false,
        dpad_up: hat == 0 || hat == 1 || hat == 7,
        dpad_down: 3 <= hat && hat <= 5,
        dpad_left: 5 <= hat && hat <= 7,
        dpad_right: 1 <= hat && hat <= 3,
    }
}

/// Parses a default Bluetooth report. It has the layout of an ordinary HID
/// gamepad: two button bytes, a hat switch and two sticks of 16-bit readings.
pub fn parse_simple_hid_report(data: &[u8]) -> (r: Option<ParsedInput>)
    ensures
        r == simple_report(data@),
{
    if data.len() < 12 {
        return None;
    }
    if data[0] != REPORT_ID_DEFAULT_BT {
        return None;
    }
    Some(
        ParsedInput {
            buttons: parse_simple_buttons(data[1], data[2], data[3]),
            left_stick: parse_simple_stick(&data[4..8]),
            right_stick: parse_simple_stick(&data[8..12]),
            timer: data[1],
            report_id: data[0],
            battery: parse_battery_info(data[2]),
            imu: None,
            vibrator: 0,
        },
    )
}

/// The hat switch never holds two opposite directions down.
pub proof fn law_hat_has_no_opposites(b1: u8, b2: u8, hat: u8)
    ensures
        !(simple_buttons(b1, b2, hat).dpad_up && simple_buttons(b1, b2, hat).dpad_down),
        !(simple_buttons(b1, b2, hat).dpad_left && simple_buttons(b1, b2, hat).dpad_right),
{
    reveal(simple_buttons);
}

/// What a standard report or a default Bluetooth report says. `None` for any
/// other report and for one of fewer than twelve bytes.
pub open spec fn standard_report(data: Seq<u8>) -> Option<ParsedInput> {
    if data.len() < 12 {
        None
    } else if data[0] == REPORT_ID_DEFAULT_BT {
        simple_report(data)
    } else if data[0] != REPORT_ID_STANDARD {
        None
    } else {
        Some(
            ParsedInput {
                buttons: buttons_of(data[3], data[4], data[5]),
                left_stick: stick_of(data.subrange(6, 9)),
                right_stick: stick_of(data.subrange(9, 12)),
                timer: data[1],
                report_id: data[0],
                battery: battery_of(data[2]),
                imu: if data.len() >= 49 {
                    Some(imu_of(data.subrange(13, 49)))
                } else {
                    None
                },
                vibrator: if data.len() > 12 {
                    data[12]
                } else {
                    0
                },
            },
        )
    }
}

/// Parses a standard report or a default Bluetooth report. Motion readings
/// come with a standard report of at least 49 bytes only.
pub fn parse_standard_report(data: &[u8]) -> (r: Option<ParsedInput>)
    ensures
        r == standard_report(data@),
{
    if data.len() < 12 {
        return None;
    }
    let report_id: u8 = data[0];
    if report_id != REPORT_ID_STANDARD && report_id != REPORT_ID_DEFAULT_BT {
        return None;
    }
    if report_id == REPORT_ID_DEFAULT_BT {
        return parse_simple_hid_report(data);
    }
    let imu: Option<ImuData> = if data.len() >= 49 {
        Some(parse_imu(&data[13..49]))
    } else {
        None
    };
    let vibrator: u8 = if data.len() > 12 { data[12] } else { 0 };
    Some(
        ParsedInput {
            buttons: parse_buttons(data[3], data[4], data[5]),
            left_stick: parse_stick(&data[6..9]),
            right_stick: parse_stick(&data[9..12]),
            timer: data[1],
            report_id,
            battery: parse_battery_info(data[2]),
            imu,
            vibrator,
        },
    )
}

// ---------------------------------------------------------------------------
// Subcommand replies
// ---------------------------------------------------------------------------

/// The reply to a subcommand.
#[derive(Debug)]
pub struct SubcmdReply {
    pub battery: BatteryInfo,
    pub buttons: ButtonState,
    pub ack: u8,
    /// The data type in the acknowledgement, without its highest bit.
    pub ack_data_type: u8,
    pub subcmd_id: u8,
    pub reply_data: Vec<u8>,
}

/// What a `SubcmdReply` holds.
#[verifier::ext_equal]
pub struct SubcmdReplyModel {
    pub battery: BatteryInfo,
    pub buttons: ButtonState,
    pub ack: u8,
    pub ack_data_type: u8,
    pub subcmd_id: u8,
    pub reply_data: Seq<u8>,
}

impl DeepView for SubcmdReply {
    type V = SubcmdReplyModel;

    open spec fn deep_view(&self) -> SubcmdReplyModel {
        SubcmdReplyModel {
            battery: self.battery,
            buttons: self.buttons,
            ack: self.ack,
            ack_data_type: self.ack_data_type,
            subcmd_id: self.subcmd_id,
            reply_data: self.reply_data@,
        }
    }
}

/// What a subcommand reply says. `None` for any other report and for one of
/// fewer than 15 bytes.
pub open spec fn subcmd_reply_of(data: Seq<u8>) -> Option<SubcmdReplyModel> {
    if data.len() < 15 || data[0] != REPORT_ID_SUBCMD_REPLY {
        None
    } else {
        Some(
            SubcmdReplyModel {
                battery: battery_of(data[2]),
                buttons: buttons_of(data[3], data[4], data[5]),
                ack: data[13],
                ack_data_type: data[13] % 128,
                subcmd_id: data[14],
                reply_data: data.skip(15),
            },
        )
    }
}

/// A copy of the bytes from a position on.
pub fn bytes_from(data: &[u8], from: usize) -> (r: Vec<u8>)
    requires
        from <= data@.len(),
    ensures
        r@ == data@.skip(from as int),
{
    let mut out: Vec<u8> = Vec::new();
    let mut i: usize = from;
    while i < data.len()
        invariant
            from <= i <= data@.len(),
            out@ == data@.subrange(from as int, i as int),
        decreases data@.len() - i,
    {
        out.push(data[i]);
        i += 1;
    }
    assert(data@.skip(from as int) =~= data@.subrange(from as int, data@.len() as int));
    out
}

/// Parses a subcommand reply.
pub fn parse_subcmd_reply(data: &[u8]) -> (r: Option<SubcmdReply>)
    ensures
        r.deep_view() == subcmd_reply_of(data@),
{
    if data.len() < 15 {
        return None;
    }
    if data[0] != REPORT_ID_SUBCMD_REPLY {
        return None;
    }
    let ack: u8 = data[13];
    Some(
        SubcmdReply {
            battery: parse_battery_info(data[2]),
            buttons: parse_buttons(data[3], data[4], data[5]),
            ack,
            ack_data_type: ack % 128,
            subcmd_id: data[14],
            reply_data: bytes_from(data, 15),
        },
    )
}

/// The device information in the data of a subcommand reply.
pub fn parse_device_info_from_reply(reply: &SubcmdReply) -> (r: Option<DeviceInfo>)
    ensures
        r.deep_view() == subcmd::device_info_of(reply.reply_data@),
{
    parse_device_info_reply(&reply.reply_data)
}

/// The stick calibration in the data of a subcommand reply.
pub fn parse_stick_calibration_from_reply(reply: &SubcmdReply) -> (r: Option<StickCalibration>)
    ensures
        r == subcmd::stick_calibration_of(reply.reply_data@),
{
    parse_stick_calibration_reply(&reply.reply_data)
}

// ---------------------------------------------------------------------------
// NFC and IR reports
// ---------------------------------------------------------------------------

/// An NFC tag that lies on the controller.
#[derive(Clone, Copy, Debug, PartialEq, Eq)]
pub struct NfcTagData {
    pub uid: [u8; 7],
    pub tag_type: u8,
    pub is_amiibo: bool,
}

/// A fragment of an IR camera picture.
#[derive(Debug)]
pub struct IrCameraData {
    pub data: Vec<u8>,
}

impl DeepView for IrCameraData {
    type V = Seq<u8>;

    open spec fn deep_view(&self) -> Seq<u8> {
        self.data@
    }
}

/// What an NFC/IR report says: the standard part, and either a tag or a
/// fragment of a picture behind it.
#[derive(Debug)]
pub struct ParsedNfcReport {
    pub standard: ParsedInput,
    pub nfc_tag: Option<NfcTagData>,
    pub ir_frame: Option<IrCameraData>,
}

/// What a `ParsedNfcReport` holds.
#[verifier::ext_equal]
pub struct ParsedNfcModel {
    pub standard: ParsedInput,
    pub nfc_tag: Option<NfcTagData>,
    pub ir_frame: Option<Seq<u8>>,
}

impl DeepView for ParsedNfcReport {
    type V = ParsedNfcModel;

    open spec fn deep_view(&self) -> ParsedNfcModel {
        ParsedNfcModel {
            standard: self.standard,
            nfc_tag: self.nfc_tag,
            ir_frame: self.ir_frame.deep_view(),
        }
    }
}

/// The tag that a report announces: the mark 1, an identifier of seven bytes
/// and the type of the tag, of which 2 is an amiibo.
pub open spec fn nfc_tag_of(data: Seq<u8>) -> Option<NfcTagData> {
    if data.len() >= 58 && data[49] == 0x01 {
        Some(
            NfcTagData {
                uid: [data[50], data[51], data[52], data[53], data[54], data[55], data[56]],
                tag_type: data[57],
                is_amiibo: data[57] == 0x02,
            },
        )
    } else {
        None
    }
}

/// Parses the tag that a report announces.
pub fn parse_nfc_tag_data(data: &[u8]) -> (r: Option<NfcTagData>)
    ensures
        r == nfc_tag_of(data@),
{
    if data.len() >= 58 && data[49] == 0x01 {
        Some(
            NfcTagData {
                uid: [data[50], data[51], data[52], data[53], data[54], data[55], data[56]],
                tag_type: data[57],
                is_amiibo: data[57] == 0x02,
            },
        )
    } else {
        None
    }
}

/// The bytes behind the standard part, where there are any and they do not
/// announce a tag.
pub open spec fn ir_frame_of(data: Seq<u8>) -> Option<Seq<u8>> {
    if data.len() > 49 && nfc_tag_of(data) is None {
        Some(data.skip(49))
    } else {
        None
    }
}

/// What an NFC/IR report says. Its first 49 bytes are read as those of a
/// standard report. `None` for any other report and for one whose standard
/// part cannot be read.
pub open spec fn nfc_report(data: Seq<u8>) -> Option<ParsedNfcModel> {
    if data.len() == 0 || data[0] != REPORT_ID_NFC_IR {
        None
    } else {
        let head = if data.len() >= 49 {
            data.take(49)
        } else {
            data
        };
        match standard_report(head.update(0, REPORT_ID_STANDARD)) {
            Some(standard) => Some(
                ParsedNfcModel {
                    standard,
                    nfc_tag: nfc_tag_of(data),
                    ir_frame: ir_frame_of(data),
                },
            ),
            None => None,
        }
    }
}

/// Parses an NFC/IR report.
pub fn parse_nfc_ir_report(data: &[u8]) -> (r: Option<ParsedNfcReport>)
    ensures
        r.deep_view() == nfc_report(data@),
{
    if data.len() == 0 {
        return None;
    }
    if data[0] != REPORT_ID_NFC_IR {
        return None;
    }
    let mut head: Vec<u8> = bytes_from(data, 0);
    assert(data@.skip(0) =~= data@);
    if head.len() >= 49 {
        head.truncate(49);
        assert(head@ =~= data@.take(49));
    }
    head.set(0, REPORT_ID_STANDARD);
    match parse_standard_report(&head) {
        Some(standard) => {
            let nfc_tag: Option<NfcTagData> = parse_nfc_tag_data(data);
            let ir_frame: Option<IrCameraData> = if data.len() > 49 && nfc_tag.is_none() {
                Some(IrCameraData { data: bytes_from(data, 49) })
            } else {
                None
            };
            Some(ParsedNfcReport { standard, nfc_tag, ir_frame })
        },
        None => None,
    }
}

/// An NFC/IR report is read if and only if it has that number and at least
/// twelve bytes.
pub proof fn law_nfc_report_is_read(data: Seq<u8>)
    ensures
        nfc_report(data) is Some <==> data.len() >= 12 && data[0] == REPORT_ID_NFC_IR,
{
}

// ---------------------------------------------------------------------------
// Output reports
// ---------------------------------------------------------------------------

/// A rumble report of 49 bytes: its last two bytes drive the left and the
/// right motor.
pub fn build_rumble_report(left: u8, right: u8) -> (r: Vec<u8>)
    ensures
        r@.len() == 49,
        r@[0] == 0x10,
        forall|i: int| 1 <= i < 47 ==> r@[i] == 0,
        r@[47] == (if left > 0 { 0x20u8 } else { 0u8 }),
        r@[48] == (if right > 0 { 0x20u8 } else { 0u8 }),
{
    let mut report: Vec<u8> = vec![0u8; 49];
    report.set(0, 0x10);
    report.set(47, if left > 0 { 0x20 } else { 0x00 });
    report.set(48, if right > 0 { 0x20 } else { 0x00 });
    report
}

/// A rumble report that stops both motors.
pub fn build_zero_rumble() -> (r: Vec<u8>)
    ensures
        r@ == seq![0x10u8, 0, 0, 0, 0, 0, 0, 0, 0, 0],
{
    let mut report: Vec<u8> = vec![0u8; 10];
    report.set(0, 0x10);
    assert(report@ =~= seq![0x10u8, 0, 0, 0, 0, 0, 0, 0, 0, 0]);
    report
}

/// The subcommand that asks for the controller state.
pub fn build_get_state_subcmd() -> (r: Vec<u8>)
    ensures
        r@ == seq![0x01u8, 0, 0, 0, 0, 0, 0, 0, 0, 0, 0],
{
    let mut report: Vec<u8> = vec![0u8; 11];
    report.set(0, 0x01);
    assert(report@ =~= seq![0x01u8, 0, 0, 0, 0, 0, 0, 0, 0, 0, 0]);
    report
}

/// The subcommand that makes the controller send standard reports.
pub fn build_set_report_mode_subcmd() -> (r: Vec<u8>)
    ensures
        r@ == seq![0x01u8, 0x01, 0, 0, 0, 0, 0, 0, 0, 0, 0x03, 0x30],
{
    let mut report: Vec<u8> = vec![0u8; 12];
    report.set(0, 0x01);
    report.set(1, 0x01);
    report.set(10, 0x03);
    report.set(11, 0x30);
    assert(report@ =~= seq![0x01u8, 0x01, 0, 0, 0, 0, 0, 0, 0, 0, 0x03, 0x30]);
    report
}

/// Bytes as pairs of hexadecimal digits with spaces between them.
pub fn hex_string(data: &[u8]) -> (r: String)
    ensures
        r@ == text::hex_joined(data@, ' '),
{
    hex_join(data, ' ')
}

// ---------------------------------------------------------------------------
// Laws
// ---------------------------------------------------------------------------

proof fn lemma_masks(x: u8)
    ensures
        (x & 0x01 != 0) == (x % 2 == 1),
        (x & 0x02 != 0) == (x / 2 % 2 == 1),
        (x & 0x04 != 0) == (x / 4 % 2 == 1),
        (x & 0x08 != 0) == (x / 8 % 2 == 1),
        (x & 0x10 != 0) == (x / 16 % 2 == 1),
        (x & 0x20 != 0) == (x / 32 % 2 == 1),
        (x & 0x40 != 0) == (x / 64 % 2 == 1),
        (x & 0x80 != 0) == (x / 128 % 2 == 1),
{
    assert((x & 0x01 != 0) == (x % 2 == 1)) by (bit_vector);
    assert((x & 0x02 != 0) == (x / 2 % 2 == 1)) by (bit_vector);
    assert((x & 0x04 != 0) == (x / 4 % 2 == 1)) by (bit_vector);
    assert((x & 0x08 != 0) == (x / 8 % 2 == 1)) by (bit_vector);
    assert((x & 0x10 != 0) == (x / 16 % 2 == 1)) by (bit_vector);
    assert((x & 0x20 != 0) == (x / 32 % 2 == 1)) by (bit_vector);
    assert((x & 0x40 != 0) == (x / 64 % 2 == 1)) by (bit_vector);
    assert((x & 0x80 != 0) == (x / 128 % 2 == 1)) by (bit_vector);
}

/// Each button of a standard report has a bit of its own: those of the right
/// half in byte 3, the shared ones in byte 4, those of the left half in byte
/// 5, and each is held exactly if its bit is set.
pub proof fn law_standard_report_buttons(data: Seq<u8>)
    requires
        data.len() >= 12,
        data[0] == 0x30,
    ensures
        standard_report(data) is Some,
        ({
            let b = standard_report(data)->0.buttons;
            &&& b.x == (data[3] % 2 == 1)
            &&& b.y == (data[3] / 2 % 2 == 1)
            &&& b.a == (data[3] / 4 % 2 == 1)
            &&& b.b == (data[3] / 8 % 2 == 1)
            &&& b.sr_right == (data[3] / 16 % 2 == 1)
            &&& b.sl_right == (data[3] / 32 % 2 == 1)
            &&& b.r == (data[3] / 64 % 2 == 1)
            &&& b.zr == (data[3] / 128 % 2 == 1)
            &&& b.minus == (data[4] % 2 == 1)
            &&& b.plus == (data[4] / 2 % 2 == 1)
            &&& b.stick_r == (data[4] / 4 % 2 == 1)
            &&& b.stick_l == (data[4] / 8 % 2 == 1)
            &&& b.home == (data[4] / 16 % 2 == 1)
            &&& b.capture == (data[4] / 32 % 2 == 1)
            &&& b.dpad_down == (data[5] % 2 == 1)
            &&& b.dpad_up == (data[5] / 2 % 2 == 1)
            &&& b.dpad_right == (data[5] / 4 % 2 == 1)
            &&& b.dpad_left == (data[5] / 8 % 2 == 1)
            &&& b.sr_left == (data[5] / 16 % 2 == 1)
            &&& b.sl_left == (data[5] / 32 % 2 == 1)
            &&& b.l == (data[5] / 64 % 2 == 1)
            &&& b.zl == (data[5] / 128 % 2 == 1)
        }),
{
    reveal(buttons_of);
    lemma_masks(data[3]);
    lemma_masks(data[4]);
    lemma_masks(data[5]);
}

/// Each button of a default Bluetooth report has a bit of its own in byte 1 or
/// 2, and is held exactly if it is set. The four small buttons at the rails are
/// not in it.
pub proof fn law_default_report_buttons(data: Seq<u8>)
    requires
        data.len() >= 12,
        data[0] == 0x3F,
    ensures
        standard_report(data) is Some,
        standard_report(data) == simple_report(data),
        ({
            let b = standard_report(data)->0.buttons;
            &&& b.a == (data[1] % 2 == 1)
            &&& b.b == (data[1] / 2 % 2 == 1)
            &&& b.x == (data[1] / 4 % 2 == 1)
            &&& b.y == (data[1] / 8 % 2 == 1)
            &&& b.l == (data[1] / 16 % 2 == 1)
            &&& b.r == (data[1] / 32 % 2 == 1)
            &&& b.zl == (data[1] / 64 % 2 == 1)
            &&& b.zr == (data[1] / 128 % 2 == 1)
            &&& b.minus == (data[2] % 2 == 1)
            &&& b.plus == (data[2] / 2 % 2 == 1)
            &&& b.home == (data[2] / 4 % 2 == 1)
            &&& b.capture == (data[2] / 8 % 2 == 1)
            &&& b.stick_l == (data[2] / 16 % 2 == 1)
            &&& b.stick_r == (data[2] / 32 % 2 == 1)
            &&& !b.sr_left && !b.sl_left && !b.sr_right && !b.sl_right
        }),
{
    reveal(simple_buttons);
    lemma_masks(data[1]);
    lemma_masks(data[2]);
}

/// The hat switch turns clockwise in eighths from straight up. A direction is
/// held within an eighth of it, a quarter turn takes each direction to the
/// next, and from eight on nothing is held.
pub proof fn law_hat_turns_clockwise(b1: u8, b2: u8, hat: u8)
    ensures
        ({
            let at = |h: int| simple_buttons(b1, b2, h as u8);
            &&& at(0).dpad_up && !at(0).dpad_right && !at(0).dpad_down && !at(0).dpad_left
            &&& at(1).dpad_up && at(1).dpad_right && !at(1).dpad_down && !at(1).dpad_left
            &&& hat < 8 ==> at((hat + 2) % 8).dpad_right == at(hat as int).dpad_up
            &&& hat < 8 ==> at((hat + 2) % 8).dpad_down == at(hat as int).dpad_right
            &&& hat < 8 ==> at((hat + 2) % 8).dpad_left == at(hat as int).dpad_down
            &&& hat < 8 ==> at((hat + 2) % 8).dpad_up == at(hat as int).dpad_left
            &&& hat >= 8 ==> !at(hat as int).dpad_up && !at(hat as int).dpad_right && !at(
                hat as int,
            ).dpad_down && !at(hat as int).dpad_left
        }),
{
    reveal(simple_buttons);
}

/// The sticks of a standard report: each in three bytes, the left one in front,
/// with twelve bits for the horizontal reading and twelve for the vertical one.
pub proof fn law_standard_report_sticks(data: Seq<u8>, lx: u16, ly: u16, rx: u16, ry: u16)
    requires
        data.len() >= 12,
        data[0] == 0x30,
        lx < 4096 && ly < 4096 && rx < 4096 && ry < 4096,
        data[6] + 256 * data[7] + 65536 * data[8] == lx + 4096 * ly,
        data[9] + 256 * data[10] + 65536 * data[11] == rx + 4096 * ry,
    ensures
        ({
            let p = standard_report(data)->0;
            &&& p.left_stick.raw_x == lx
            &&& p.left_stick.raw_y == ly
            &&& p.right_stick.raw_x == rx
            &&& p.right_stick.raw_y == ry
        }),
{
}

/// Without a calibration a reading of a standard report counts by its distance
/// from 2048 in parts of 2047, on each axis for itself, and not beyond -1.
pub proof fn law_standard_report_axes(data: Seq<u8>)
    requires
        data.len() >= 12,
        data[0] == 0x30,
    ensures
        ({
            let p = standard_report(data)->0;
            let lies = |raw: u16, at: Ratio|
                at.den > 0 && (raw > 0 ==> at.num * 2047 == (raw - 2048) * at.den) && (raw == 0
                    ==> at.num == -at.den);
            &&& lies(p.left_stick.raw_x, p.left_stick.x)
            &&& lies(p.left_stick.raw_y, p.left_stick.y)
            &&& lies(p.right_stick.raw_x, p.right_stick.x)
            &&& lies(p.right_stick.raw_y, p.right_stick.y)
        }),
{
}

/// The sticks of a default Bluetooth report: sixteen bits for each reading,
/// the high byte first, the left stick and the horizontal reading in front.
/// A reading counts by its distance from 32768, in parts of 32768 below it and
/// of 32767 above it.
pub proof fn law_default_report_sticks(data: Seq<u8>)
    requires
        data.len() >= 12,
        data[0] == 0x3F,
    ensures
        ({
            let p = standard_report(data)->0;
            let lies = |raw: u16, at: Ratio|
                at.den > 0 && (raw <= 0x8000 ==> at.num * 32768 == (raw - 0x8000) * at.den) && (raw
                    >= 0x8000 ==> at.num * 32767 == (raw - 0x8000) * at.den);
            &&& p.left_stick.raw_x == 256 * data[4] + data[5]
            &&& p.left_stick.raw_y == 256 * data[6] + data[7]
            &&& p.right_stick.raw_x == 256 * data[8] + data[9]
            &&& p.right_stick.raw_y == 256 * data[10] + data[11]
            &&& lies(p.left_stick.raw_x, p.left_stick.x)
            &&& lies(p.left_stick.raw_y, p.left_stick.y)
            &&& lies(p.right_stick.raw_x, p.right_stick.x)
            &&& lies(p.right_stick.raw_y, p.right_stick.y)
        }),
{
    let left = data.subrange(4, 8);
    let right = data.subrange(8, 12);
    assert(left[0] == data[4] && left[1] == data[5] && left[2] == data[6] && left[3] == data[7]);
    assert(right[0] == data[8] && right[1] == data[9] && right[2] == data[10] && right[3]
        == data[11]);
    lemma_stick_16((256 * left[0] + left[1]) as u16);
    lemma_stick_16((256 * left[2] + left[3]) as u16);
    lemma_stick_16((256 * right[0] + right[1]) as u16);
    lemma_stick_16((256 * right[2] + right[3]) as u16);
}

proof fn lemma_stick_16(raw: u16)
    ensures
        ({
            let at = stick_16(raw, 0x8000);
            &&& at.den > 0
            &&& raw <= 0x8000 ==> at.num * 32768 == (raw - 0x8000) * at.den
            &&& raw >= 0x8000 ==> at.num * 32767 == (raw - 0x8000) * at.den
        }),
{
    if raw < 0x8000 {
        assert(stick_16(raw, 0x8000).den == 32768);
        assert(stick_16(raw, 0x8000).num == raw - 0x8000);
    } else if raw > 0x8000 {
        assert(stick_16(raw, 0x8000).den == 32767);
        assert(stick_16(raw, 0x8000).num == raw - 0x8000);
    }
}

/// A signed number stands at a position in two bytes, the low one first.
pub open spec fn stands_at(data: Seq<u8>, at: int, v: i16) -> bool {
    data[at] + 256 * data[at + 1] == (if v < 0 {
        v + 65536
    } else {
        v as int
    })
}

/// The motion readings of a standard report: three times twelve bytes from
/// byte 13 on, each with acceleration before rotation and the axes in the order
/// X, Y, Z. A shorter report has none, and neither has a default Bluetooth
/// report.
pub proof fn law_standard_report_motion(data: Seq<u8>, i: int)
    requires
        data.len() >= 12,
        data[0] == 0x30,
        0 <= i < 3,
    ensures
        (standard_report(data)->0.imu is Some) == (data.len() >= 49),
        data.len() >= 49 ==> ({
            let f = standard_report(data)->0.imu->0.frames@[i];
            let at = 13 + 12 * i;
            &&& stands_at(data, at, f.accel_x)
            &&& stands_at(data, at + 2, f.accel_y)
            &&& stands_at(data, at + 4, f.accel_z)
            &&& stands_at(data, at + 6, f.gyro_x)
            &&& stands_at(data, at + 8, f.gyro_y)
            &&& stands_at(data, at + 10, f.gyro_z)
        }),
        simple_report(data.update(0, 0x3F))->0.imu is None,
{
    if data.len() >= 49 {
        let part = data.subrange(13, 49);
        assert(forall|k: int| 0 <= k < 36 ==> part[k] == data[13 + k]);
        let frames = standard_report(data)->0.imu->0.frames@;
        assert(frames[0] == frame_at(part, 0));
        assert(frames[1] == frame_at(part, 12));
        assert(frames[2] == frame_at(part, 24));
        assert(frames[i] == frame_at(part, 12 * i));
    }
}

/// The rest of a standard report: its timer in byte 1, its battery in byte 2,
/// its number in byte 0, and its vibrator in byte 12.
pub proof fn law_standard_report_rest(data: Seq<u8>)
    requires
        data.len() >= 12,
        data[0] == 0x30 || data[0] == 0x3F,
    ensures
        ({
            let p = standard_report(data)->0;
            &&& p.timer == data[1]
            &&& p.report_id == data[0]
            &&& 16 * p.battery.raw + p.battery.connection_type == data[2]
            &&& p.battery.connection_type < 16
            &&& p.battery.charging == (data[2] / 16 % 2 == 1)
            &&& p.vibrator == (if data[0] == 0x30 && data.len() > 12 {
                data[12] as int
            } else {
                0
            })
        }),
{
}

/// A report is read if and only if it has twelve bytes and one of the two
/// numbers.
pub proof fn law_which_reports_are_read(data: Seq<u8>)
    ensures
        standard_report(data) is Some <==> data.len() >= 12 && (data[0] == 0x30 || data[0] == 0x3F),
        simple_report(data) is Some <==> data.len() >= 12 && data[0] == 0x3F,
        subcmd_reply_of(data) is Some <==> data.len() >= 15 && data[0] == 0x21,
{
}

/// The five battery levels count as 0, 10, 25, 50 and 100 percent. Only the
/// four bits of a raw value count, and of these not the lowest.
pub proof fn law_battery_levels(raw: u8)
    ensures
        raw % 16 / 2 == 0 ==> percent_of(raw) == 0,
        raw % 16 / 2 == 1 ==> percent_of(raw) == 10,
        raw % 16 / 2 == 2 ==> percent_of(raw) == 25,
        raw % 16 / 2 == 3 ==> percent_of(raw) == 50,
        raw % 16 / 2 >= 4 ==> percent_of(raw) == 100,
{
}

/// A subcommand reply: battery and buttons as in a standard report with the
/// same bytes, the acknowledgement in byte 13, the subcommand in byte 14, and
/// its data behind these.
pub proof fn law_subcommand_reply(data: Seq<u8>)
    requires
        data.len() >= 15,
        data[0] == 0x21,
    ensures
        ({
            let r = subcmd_reply_of(data)->0;
            let p = standard_report(data.update(0, 0x30))->0;
            &&& r.buttons == p.buttons
            &&& r.battery == p.battery
            &&& r.ack == data[13]
            &&& r.ack_data_type == (if data[13] >= 128 {
                data[13] - 128
            } else {
                data[13] as int
            })
            &&& r.subcmd_id == data[14]
            &&& r.reply_data.len() == data.len() - 15
            &&& forall|i: int| 0 <= i < data.len() - 15 ==> r.reply_data[i] == data[15 + i]
        }),
{
}

/// An NFC/IR report is a standard report with something behind it: the mark 1,
/// the seven bytes of a tag and its type, or else a fragment of a picture.
pub proof fn law_nfc_report_parts(data: Seq<u8>)
    requires
        data.len() >= 49,
        data[0] == 0x31,
    ensures
        ({
            let r = nfc_report(data)->0;
            let tagged = data.len() >= 58 && data[49] == 1;
            &&& r.standard == standard_report(data.update(0, 0x30).take(49))->0
            &&& (r.nfc_tag is Some) == tagged
            &&& tagged ==> forall|i: int| 0 <= i < 7 ==> r.nfc_tag->0.uid@[i] == data[50 + i]
            &&& tagged ==> r.nfc_tag->0.tag_type == data[57]
            &&& tagged ==> r.nfc_tag->0.is_amiibo == (data[57] == 2)
            &&& (r.ir_frame is Some) == (data.len() > 49 && !tagged)
            &&& r.ir_frame is Some ==> r.ir_frame->0.len() == data.len() - 49
            &&& r.ir_frame is Some ==> forall|i: int|
                0 <= i < data.len() - 49 ==> r.ir_frame->0[i] == data[49 + i]
        }),
{
    assert(data.take(49).update(0, 0x30) =~= data.update(0, 0x30).take(49));
    let r = nfc_report(data)->0;
    if data.len() >= 58 && data[49] == 1 {
        let u = r.nfc_tag->0.uid@;
        assert(u[0] == data[50] && u[1] == data[51] && u[2] == data[52] && u[3] == data[53]);
        assert(u[4] == data[54] && u[5] == data[55] && u[6] == data[56]);
    }
}

/// A calibrated reading counts by its distance from the center: below it in
/// parts of the way to the minimum, above it in parts of the way to the
/// maximum, and not beyond either.
pub proof fn law_calibrated_is_proportional(raw: u16, center: u16, min: u16, max: u16)
    requires
        min < center < max,
    ensures
        ({
            let r = stick_between(raw, center, min, max);
            &&& r.den > 0
            &&& raw <= min ==> r.num == -r.den
            &&& min <= raw <= center ==> r.num * (center - min) == (raw - center) * r.den
            &&& center <= raw <= max ==> r.num * (max - center) == (raw - center) * r.den
            &&& max <= raw ==> r.num == r.den
        }),
{
    let r = stick_between(raw, center, min, max);
    if raw < min {
        assert(r.num == -r.den);
    } else if raw < center {
        assert(r.den == center - min && r.num == raw - center);
    } else if raw == center {
        assert(r.num == 0);
        assert(0 * (center - min) == 0 && 0 * (max - center) == 0 && 0 * r.den == 0);
    } else if raw <= max {
        assert(r.den == max - center && r.num == raw - center);
    } else {
        assert(r.num == r.den);
    }
}

/// Where a range has no extent on one side of its center, a reading on that
/// side lies at zero.
pub proof fn law_ranges_without_extent(raw: u16, center: u16, min: u16, max: u16)
    ensures
        raw < center && center <= min ==> stick_between(raw, center, min, max).num == 0
            && stick_between(raw, center, min, max).den > 0,
        raw >= center && max <= center ==> stick_between(raw, center, min, max).num == 0
            && stick_between(raw, center, min, max).den > 0,
{
}

} // verus!
