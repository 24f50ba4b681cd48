//! Subcommands: their numbers, the flash addresses that they read, the reports
//! that send them and the data that comes back.

use vstd::prelude::*;

use crate::hid_parser;
use crate::hid_parser::{unpack_pair, STICK_CENTER, STICK_MAX, STICK_MIN};
use crate::numeric;
use crate::numeric::{i16_le, push_le32};
use crate::state::{
    DeviceInfo, DeviceInfoModel, ImuCalibration, ImuCalibrationModel, StickCalibration,
};
use crate::text;
use crate::text::{hex_join, push_decimal};

verus! {

pub const SUBCMD_GET_STATE: u8 = 0x00;

pub const SUBCMD_GET_DEVICE_INFO: u8 = 0x02;

pub const SUBCMD_SET_REPORT_MODE: u8 = 0x03;

pub const SUBCMD_SPI_FLASH_READ: u8 = 0x10;

pub const SUBCMD_SET_PLAYER_LIGHTS: u8 = 0x30;

pub const SUBCMD_GET_PLAYER_LIGHTS: u8 = 0x31;

pub const SUBCMD_SET_HOME_LIGHT: u8 = 0x38;

pub const SUBCMD_ENABLE_IMU: u8 = 0x40;

pub const SUBCMD_ENABLE_VIBRATION: u8 = 0x48;

pub const SUBCMD_GET_VOLTAGE: u8 = 0x50;

pub const USB_CMD_HANDSHAKE: u8 = 0x02;

pub const USB_CMD_BAUDRATE_3M: u8 = 0x03;

pub const USB_CMD_NO_TIMEOUT: u8 = 0x04;

pub const USB_CMD_EN_TIMEOUT: u8 = 0x05;

pub const SPI_ADDR_SERIAL: u32 = 0x6000;

pub const SPI_ADDR_COLOR_FLAG: u32 = 0x601B;

pub const SPI_ADDR_IMU_FACTORY: u32 = 0x6020;

pub const SPI_ADDR_LEFT_STICK_FACTORY: u32 = 0x603D;

pub const SPI_ADDR_RIGHT_STICK_FACTORY: u32 = 0x6046;

pub const SPI_ADDR_BODY_COLOR: u32 = 0x6050;

pub const SPI_ADDR_BUTTON_COLOR: u32 = 0x6053;

pub const SPI_ADDR_LEFT_GRIP_COLOR: u32 = 0x6056;

pub const SPI_ADDR_RIGHT_GRIP_COLOR: u32 = 0x6059;

pub const SPI_ADDR_HORIZONTAL_OFFSETS: u32 = 0x6080;

pub const SPI_ADDR_LEFT_STICK_USER: u32 = 0x8010;

pub const SPI_ADDR_RIGHT_STICK_USER: u32 = 0x801B;

pub const SPI_ADDR_IMU_USER: u32 = 0x8026;

// ---------------------------------------------------------------------------
// Requests
// ---------------------------------------------------------------------------

/// A subcommand with its arguments.
#[derive(Clone, Copy, Debug, PartialEq, Eq, Structural)]
pub enum Request {
    GetDeviceInfo,
    SetReportMode { mode: u8 },
    SpiFlashRead { addr: u32, len: u8 },
    EnableImu { on: bool },
    EnableVibration { on: bool },
    GetVoltage,
}

/// The number of a subcommand.
pub open spec fn request_id(q: Request) -> u8 {
    match q {
        Request::GetDeviceInfo => SUBCMD_GET_DEVICE_INFO,
        Request::SetReportMode { .. } => SUBCMD_SET_REPORT_MODE,
        Request::SpiFlashRead { .. } => SUBCMD_SPI_FLASH_READ,
        Request::EnableImu { .. } => SUBCMD_ENABLE_IMU,
        Request::EnableVibration { .. } => SUBCMD_ENABLE_VIBRATION,
        Request::GetVoltage => SUBCMD_GET_VOLTAGE,
    }
}

/// The argument bytes of a subcommand.
pub open spec fn request_arguments(q: Request) -> Seq<u8> {
    match q {
        Request::GetDeviceInfo => Seq::empty(),
        Request::SetReportMode { mode } => seq![mode],
        Request::SpiFlashRead { addr, len } => numeric::le32(addr).push(len),
        Request::EnableImu { on } => seq![if on { 1u8 } else { 0u8 }],
        Request::EnableVibration { on } => seq![if on { 1u8 } else { 0u8 }],
        Request::GetVoltage => Seq::empty(),
    }
}

/// The output report that sends a subcommand: report number, packet counter,
/// eight bytes of rumble at rest, the subcommand and its arguments.
pub open spec fn request_report(counter: u8, q: Request) -> Seq<u8> {
    seq![0x01u8, counter, 0, 0, 0, 0, 0, 0, 0, 0, request_id(q)] + request_arguments(q)
}

/// The output report that sends a subcommand.
pub fn build_request(counter: u8, q: Request) -> (r: Vec<u8>)
    ensures
        r@ == request_report(counter, q),
{
    let id: u8 = match q {
        Request::GetDeviceInfo => SUBCMD_GET_DEVICE_INFO,
        Request::SetReportMode { .. } => SUBCMD_SET_REPORT_MODE,
        Request::SpiFlashRead { .. } => SUBCMD_SPI_FLASH_READ,
        Request::EnableImu { .. } => SUBCMD_ENABLE_IMU,
        Request::EnableVibration { .. } => SUBCMD_ENABLE_VIBRATION,
        Request::GetVoltage => SUBCMD_GET_VOLTAGE,
    };
    let mut out: Vec<u8> = vec![0x01u8, counter, 0, 0, 0, 0, 0, 0, 0, 0, id];
    let ghost head = out@;
    assert(head =~= seq![0x01u8, counter, 0, 0, 0, 0, 0, 0, 0, 0, request_id(q)]);
    match q {
        Request::GetDeviceInfo => {},
        Request::SetReportMode { mode } => {
            out.push(mode);
        },
        Request::SpiFlashRead { addr, len } => {
            push_le32(&mut out, addr);
            out.push(len);
        },
        Request::EnableImu { on } => {
            out.push(if on { 1 } else { 0 });
        },
        Request::EnableVibration { on } => {
            out.push(if on { 1 } else { 0 });
        },
        Request::GetVoltage => {},
    }
    assert(out@ =~= head + request_arguments(q));
    out
}

// ---------------------------------------------------------------------------
// Device information
// ---------------------------------------------------------------------------

/// What the reply to a device information request says: firmware version,
/// controller type, address and whether the colors are in flash memory.
/// `None` for fewer than twelve bytes.
pub open spec fn device_info_of(data: Seq<u8>) -> Option<DeviceInfoModel> {
    if data.len() < 12 {
        None
    } else {
        Some(
            DeviceInfoModel {
                firmware_version: text::decimal(data[0] as nat) + "."@ + text::decimal(data[1] as nat),
                controller_type: data[2],
                mac_address: text::hex_joined(data.subrange(4, 10), ':'),
                colors_from_spi: data[11] == 1,
                connection: Seq::empty(),
                spi: None,
            },
        )
    }
}

/// Parses the reply to a device information request.
pub fn parse_device_info_reply(data: &[u8]) -> (r: Option<DeviceInfo>)
    ensures
        r.deep_view() == device_info_of(data@),
{
    if data.len() < 12 {
        return None;
    }
    let mut version: String = String::new();
    push_decimal(&mut version, data[0] as u64);
    version.append(".");
    push_decimal(&mut version, data[1] as u64);
    assert(version@ =~= text::decimal(data@[0] as nat) + "."@ + text::decimal(data@[1] as nat));
    Some(
        DeviceInfo {
            firmware_version: version,
            controller_type: data[2],
            mac_address: hex_join(&data[4..10], ':'),
            colors_from_spi: data[11] == 1,
            connection: String::new(),
            spi: None,
        },
    )
}

// ---------------------------------------------------------------------------
// Stick calibration
// ---------------------------------------------------------------------------

/// Center and reach of one stick on both axes.
#[derive(Clone, Copy, Debug, PartialEq, Eq, Structural)]
pub struct AxisPair {
    pub center_x: u16,
    pub center_y: u16,
    pub min_x: u16,
    pub min_y: u16,
    pub max_x: u16,
    pub max_y: u16,
}

/// `a - b`, or 0 where `b` is greater.
pub open spec fn lowered(a: u16, b: u16) -> u16 {
    if a >= b {
        (a - b) as u16
    } else {
        0
    }
}

/// One stick from its center and its reach below and above the center.
pub open spec fn axis_pair(center: (u16, u16), below: (u16, u16), above: (u16, u16)) -> AxisPair {
    AxisPair {
        center_x: center.0,
        center_y: center.1,
        min_x: lowered(center.0, below.0),
        min_y: lowered(center.1, below.1),
        max_x: (center.0 + above.0) as u16,
        max_y: (center.1 + above.1) as u16,
    }
}

/// The packed pair of 12-bit numbers that starts at a position.
pub open spec fn pair_at(data: Seq<u8>, off: int) -> (u16, u16) {
    (hid_parser::packed_first(data[off], data[off + 1]), hid_parser::packed_second(data[off + 1], data[off + 2]))
}

/// The left stick: its reach above the center, the center and its reach below.
pub open spec fn left_stick_of(data: Seq<u8>) -> Option<AxisPair> {
    if data.len() < 9 {
        None
    } else {
        Some(axis_pair(pair_at(data, 3), pair_at(data, 6), pair_at(data, 0)))
    }
}

/// The right stick: the center, its reach below and its reach above.
pub open spec fn right_stick_of(data: Seq<u8>) -> Option<AxisPair> {
    if data.len() < 9 {
        None
    } else {
        Some(axis_pair(pair_at(data, 0), pair_at(data, 3), pair_at(data, 6)))
    }
}

fn lower(a: u16, b: u16) -> (r: u16)
    ensures
        r == lowered(a, b),
{
    if a >= b {
        a - b
    } else {
        0
    }
}

fn make_axis_pair(center: (u16, u16), below: (u16, u16), above: (u16, u16)) -> (r: AxisPair)
    requires
        center.0 <= 0xFFF,
        center.1 <= 0xFFF,
        above.0 <= 0xFFF,
        above.1 <= 0xFFF,
    ensures
        r == axis_pair(center, below, above),
{
    AxisPair {
        center_x: center.0,
        center_y: center.1,
        min_x: lower(center.0, below.0),
        min_y: lower(center.1, below.1),
        max_x: center.0 + above.0,
        max_y: center.1 + above.1,
    }
}

/// Parses the calibration of the left stick.
pub fn parse_left_stick_calibration(data: &[u8]) -> (r: Option<AxisPair>)
    ensures
        r == left_stick_of(data@),
{
    if data.len() < 9 {
        return None;
    }
    let above = unpack_pair(data[0], data[1], data[2]);
    let center = unpack_pair(data[3], data[4], data[5]);
    let below = unpack_pair(data[6], data[7], data[8]);
    Some(make_axis_pair(center, below, above))
}

/// Parses the calibration of the right stick.
pub fn parse_right_stick_calibration(data: &[u8]) -> (r: Option<AxisPair>)
    ensures
        r == right_stick_of(data@),
{
    if data.len() < 9 {
        return None;
    }
    let center = unpack_pair(data[0], data[1], data[2]);
    let below = unpack_pair(data[3], data[4], data[5]);
    let above = unpack_pair(data[6], data[7], data[8]);
    Some(make_axis_pair(center, below, above))
}

/// On both axes the center lies strictly between minimum and maximum.
pub open spec fn is_ordered(p: AxisPair) -> bool {
    p.min_x < p.center_x < p.max_x && p.min_y < p.center_y < p.max_y
}

/// The calibration of both sticks. It is valid where both are ordered.
pub open spec fn merged(left: AxisPair, right: AxisPair) -> StickCalibration {
    StickCalibration {
        left_center_x: left.center_x,
        left_center_y: left.center_y,
        left_min_x: left.min_x,
        left_min_y: left.min_y,
        left_max_x: left.max_x,
        left_max_y: left.max_y,
        right_center_x: right.center_x,
        right_center_y: right.center_y,
        right_min_x: right.min_x,
        right_min_y: right.min_y,
        right_max_x: right.max_x,
        right_max_y: right.max_y,
        valid: is_ordered(left) && is_ordered(right),
    }
}

fn ordered(p: AxisPair) -> (r: bool)
    ensures
        r == is_ordered(p),
{
    p.min_x < p.center_x && p.center_x < p.max_x && p.min_y < p.center_y && p.center_y < p.max_y
}

/// The calibration of both sticks from that of each.
pub fn merge_stick_calibration(left: AxisPair, right: AxisPair) -> (r: StickCalibration)
    ensures
        r == merged(left, right),
{
    StickCalibration {
        left_center_x: left.center_x,
        left_center_y: left.center_y,
        left_min_x: left.min_x,
        left_min_y: left.min_y,
        left_max_x: left.max_x,
        left_max_y: left.max_y,
        right_center_x: right.center_x,
        right_center_y: right.center_y,
        right_min_x: right.min_x,
        right_min_y: right.min_y,
        right_max_x: right.max_x,
        right_max_y: right.max_y,
        valid: ordered(left) && ordered(right),
    }
}

/// The calibration of both sticks from one block: nine bytes for the left
/// stick, then nine for the right one. `None` for fewer than 18 bytes.
pub open spec fn stick_calibration_of(data: Seq<u8>) -> Option<StickCalibration> {
    if data.len() < 18 {
        None
    } else {
        Some(
            merged(
                left_stick_of(data.subrange(0, 9))->0,
                right_stick_of(data.subrange(9, 18))->0,
            ),
        )
    }
}

/// Parses the calibration of both sticks from one block.
pub fn parse_stick_calibration_reply(data: &[u8]) -> (r: Option<StickCalibration>)
    ensures
        r == stick_calibration_of(data@),
{
    if data.len() < 18 {
        return None;
    }
    match (
        parse_left_stick_calibration(&data[0..9]),
        parse_right_stick_calibration(&data[9..18]),
    ) {
        (Some(left), Some(right)) => Some(merge_stick_calibration(left, right)),
        _ => None,
    }
}

/// The full range of both sticks, marked as not calibrated.
pub open spec fn default_sticks() -> StickCalibration {
    StickCalibration {
        left_center_x: STICK_CENTER,
        left_center_y: STICK_CENTER,
        left_min_x: STICK_MIN,
        left_min_y: STICK_MIN,
        left_max_x: STICK_MAX,
        left_max_y: STICK_MAX,
        right_center_x: STICK_CENTER,
        right_center_y: STICK_CENTER,
        right_min_x: STICK_MIN,
        right_min_y: STICK_MIN,
        right_max_x: STICK_MAX,
        right_max_y: STICK_MAX,
        valid: false,
    }
}

/// The full range of both sticks, marked as not calibrated.
pub fn default_stick_calibration() -> (r: StickCalibration)
    ensures
        r == default_sticks(),
{
    StickCalibration {
        left_center_x: STICK_CENTER,
        left_center_y: STICK_CENTER,
        left_min_x: STICK_MIN,
        left_min_y: STICK_MIN,
        left_max_x: STICK_MAX,
        left_max_y: STICK_MAX,
        right_center_x: STICK_CENTER,
        right_center_y: STICK_CENTER,
        right_min_x: STICK_MIN,
        right_min_y: STICK_MIN,
        right_max_x: STICK_MAX,
        right_max_y: STICK_MAX,
        valid: false,
    }
}

/// A calibration that was merged and found valid has the center of every axis
/// strictly between its minimum and its maximum.
pub proof fn law_valid_calibration_is_ordered(left: AxisPair, right: AxisPair)
    requires
        merged(left, right).valid,
    ensures
        ({
            let c = merged(left, right);
            &&& c.left_min_x < c.left_center_x < c.left_max_x
            &&& c.left_min_y < c.left_center_y < c.left_max_y
            &&& c.right_min_x < c.right_center_x < c.right_max_x
            &&& c.right_min_y < c.right_center_y < c.right_max_y
        }),
{
}

// ---------------------------------------------------------------------------
// Motion sensor calibration
// ---------------------------------------------------------------------------

/// The data starts with the mark of a user calibration.
pub open spec fn has_user_magic(data: Seq<u8>) -> bool {
    data.len() >= 2 && data[0] == 0xB2 && data[1] == 0xA1
}

/// Whether the data starts with the mark of a user calibration.
pub fn check_user_cal_magic(data: &[u8]) -> (r: bool)
    ensures
        r == has_user_magic(data@),
{
    data.len() >= 2 && data[0] == 0xB2 && data[1] == 0xA1
}

/// Three signed 16-bit numbers, the low byte of each first.
pub open spec fn triple_at(data: Seq<u8>, off: int) -> [i16; 3] {
    [
        numeric::from_le16_signed(data[off], data[off + 1]),
        numeric::from_le16_signed(data[off + 2], data[off + 3]),
        numeric::from_le16_signed(data[off + 4], data[off + 5]),
    ]
}

/// Three signed 16-bit numbers, the low byte of each first.
pub fn read_triple(data: &[u8], off: usize) -> (r: [i16; 3])
    requires
        off + 6 <= data@.len(),
    ensures
        r == triple_at(data@, off as int),
{
    [
        i16_le(data[off], data[off + 1]),
        i16_le(data[off + 2], data[off + 3]),
        i16_le(data[off + 4], data[off + 5]),
    ]
}

/// The calibration of the motion sensor: the origins and sensitivities of the
/// accelerometer, then those of the gyroscope. `None` for fewer than 24 bytes.
pub open spec fn imu_calibration_of(data: Seq<u8>) -> Option<ImuCalibrationModel> {
    if data.len() < 24 {
        None
    } else {
        Some(
            ImuCalibrationModel {
                accel_origin: triple_at(data, 0),
                accel_sensitivity: triple_at(data, 6),
                gyro_origin: triple_at(data, 12),
                gyro_sensitivity: triple_at(data, 18),
                source: "factory"@,
                horizontal_offsets: [0i16, 0, 0],
            },
        )
    }
}

/// Parses the calibration of the motion sensor.
pub fn parse_imu_calibration(data: &[u8]) -> (r: Option<ImuCalibration>)
    ensures
        r.deep_view() == imu_calibration_of(data@),
{
    if data.len() < 24 {
        return None;
    }
    Some(
        ImuCalibration {
            accel_origin: read_triple(data, 0),
            accel_sensitivity: read_triple(data, 6),
            gyro_origin: read_triple(data, 12),
            gyro_sensitivity: read_triple(data, 18),
            source: "factory".to_string(),
            horizontal_offsets: [0, 0, 0],
        },
    )
}

/// The nominal calibration of the motion sensor.
pub open spec fn default_imu() -> ImuCalibrationModel {
    ImuCalibrationModel {
        accel_origin: [0i16, 0, 0],
        accel_sensitivity: [0x4000i16, 0x4000, 0x4000],
        gyro_origin: [0i16, 0, 0],
        gyro_sensitivity: [0x343Bi16, 0x343B, 0x343B],
        source: "default"@,
        horizontal_offsets: [0i16, 0, 0],
    }
}

/// The nominal calibration of the motion sensor.
pub fn default_imu_calibration() -> (r: ImuCalibration)
    ensures
        r.deep_view() == default_imu(),
{
    ImuCalibration {
        accel_origin: [0, 0, 0],
        accel_sensitivity: [0x4000, 0x4000, 0x4000],
        gyro_origin: [0, 0, 0],
        gyro_sensitivity: [0x343B, 0x343B, 0x343B],
        source: "default".to_string(),
        horizontal_offsets: [0, 0, 0],
    }
}

// ---------------------------------------------------------------------------
// Laws
// ---------------------------------------------------------------------------

/// A request is an output report with number 1, a packet counter, eight bytes
/// of rumble at rest, the number of the subcommand and its arguments.
pub proof fn law_request_layout(counter: u8, q: Request)
    ensures
        ({
            let r = request_report(counter, q);
            &&& r.len() >= 11
            &&& r[0] == 1
            &&& r[1] == counter
            &&& forall|i: int| 2 <= i < 10 ==> r[i] == 0
            &&& q is GetDeviceInfo ==> r.len() == 11 && r[10] == 0x02
            &&& q is GetVoltage ==> r.len() == 11 && r[10] == 0x50
            &&& q matches Request::SetReportMode { mode } ==> r.len() == 12 && r[10] == 0x03
                && r[11] == mode
            &&& q matches Request::EnableImu { on } ==> r.len() == 12 && r[10] == 0x40 && r[11] == (
            if on { 1int } else { 0 })
            &&& q matches Request::EnableVibration { on } ==> r.len() == 12 && r[10] == 0x48
                && r[11] == (if on { 1int } else { 0 })
            &&& q matches Request::SpiFlashRead { addr, len } ==> r.len() == 16 && r[10] == 0x10
                && r[11] + 0x100 * r[12] + 0x1_0000 * r[13] + 0x100_0000 * r[14] == addr && r[15]
                == len
        }),
{
    match q {
        Request::SpiFlashRead { addr, len } => {
            numeric::law_first_byte_is_the_lowest(0, addr, 0);
            let r = request_report(counter, q);
            let a = numeric::le32(addr);
            assert(r[11] == a[0] && r[12] == a[1] && r[13] == a[2] && r[14] == a[3]);
        },
        _ => {},
    }
}

/// Device information: major and minor firmware version in the first two
/// bytes, the type in the third, the address in bytes 4 to 9, and in byte 11
/// whether the colors are in flash memory.
pub proof fn law_device_information(data: Seq<u8>)
    ensures
        (device_info_of(data) is Some) == (data.len() >= 12),
        data.len() >= 12 ==> ({
            let d = device_info_of(data)->0;
            &&& d.firmware_version == text::decimal(data[0] as nat) + "."@ + text::decimal(
                data[1] as nat,
            )
            &&& d.controller_type == data[2]
            &&& d.mac_address == text::hex_joined(
                seq![data[4], data[5], data[6], data[7], data[8], data[9]],
                ':',
            )
            &&& d.colors_from_spi == (data[11] == 1)
            &&& d.spi is None
        }),
{
    if data.len() >= 12 {
        assert(data.subrange(4, 10) =~= seq![data[4], data[5], data[6], data[7], data[8], data[9]]);
    }
}

/// Two numbers of twelve bits stand at a position in three bytes.
pub open spec fn pair_stands_at(data: Seq<u8>, at: int, x: u16, y: u16) -> bool {
    x < 4096 && y < 4096 && data[at] + 256 * data[at + 1] + 65536 * data[at + 2] == x + 4096 * y
}

/// The calibration of the left stick gives the reach above the center, the
/// center and the reach below it, that of the right stick the center, the reach
/// below and the reach above; each horizontally and then vertically.
pub proof fn law_stick_calibration_layout(
    data: Seq<u8>,
    center: (u16, u16),
    below: (u16, u16),
    above: (u16, u16),
    left: bool,
)
    requires
        data.len() >= 9,
        pair_stands_at(data, if left { 3 } else { 0 }, center.0, center.1),
        pair_stands_at(data, if left { 6 } else { 3 }, below.0, below.1),
        pair_stands_at(data, if left { 0 } else { 6 }, above.0, above.1),
    ensures
        ({
            let p = if left {
                left_stick_of(data)->0
            } else {
                right_stick_of(data)->0
            };
            &&& p.center_x == center.0
            &&& p.center_y == center.1
            &&& p.max_x == center.0 + above.0
            &&& p.max_y == center.1 + above.1
            &&& below.0 <= center.0 ==> p.min_x == center.0 - below.0
            &&& below.1 <= center.1 ==> p.min_y == center.1 - below.1
            &&& below.0 > center.0 ==> p.min_x == 0
            &&& below.1 > center.1 ==> p.min_y == 0
        }),
{
    lemma_pair(data, if left { 3 } else { 0 }, center.0, center.1);
    lemma_pair(data, if left { 6 } else { 3 }, below.0, below.1);
    lemma_pair(data, if left { 0 } else { 6 }, above.0, above.1);
}

proof fn lemma_pair(data: Seq<u8>, at: int, x: u16, y: u16)
    requires
        0 <= at,
        at + 3 <= data.len(),
        pair_stands_at(data, at, x, y),
    ensures
        pair_at(data, at) == (x, y),
{
    let b0 = data[at] as int;
    let b1 = data[at + 1] as int;
    let b2 = data[at + 2] as int;
    assert(b0 + 256 * b1 + 65536 * b2 == (b0 + 256 * (b1 % 16)) + 4096 * (b1 / 16 + 16 * b2));
    assert(x == b0 + 256 * (b1 % 16));
    assert(y == b1 / 16 + 16 * b2);
}

/// A block of less than nine bytes holds no calibration of a stick.
pub proof fn law_stick_calibration_needs_nine_bytes(data: Seq<u8>)
    ensures
        (left_stick_of(data) is Some) == (data.len() >= 9),
        (right_stick_of(data) is Some) == (data.len() >= 9),
        (stick_calibration_of(data) is Some) == (data.len() >= 18),
        (imu_calibration_of(data) is Some) == (data.len() >= 24),
{
}

/// Merging keeps each stick on its side and each axis in its place, and the
/// result is valid exactly if on all four axes the center lies strictly between
/// minimum and maximum.
pub proof fn law_merging_keeps_each_stick(left: AxisPair, right: AxisPair)
    ensures
        ({
            let c = merged(left, right);
            &&& (c.left_min_x, c.left_center_x, c.left_max_x) == (
                left.min_x,
                left.center_x,
                left.max_x,
            )
            &&& (c.left_min_y, c.left_center_y, c.left_max_y) == (
                left.min_y,
                left.center_y,
                left.max_y,
            )
            &&& (c.right_min_x, c.right_center_x, c.right_max_x) == (
                right.min_x,
                right.center_x,
                right.max_x,
            )
            &&& (c.right_min_y, c.right_center_y, c.right_max_y) == (
                right.min_y,
                right.center_y,
                right.max_y,
            )
            &&& c.valid == (left.min_x < left.center_x < left.max_x && left.min_y < left.center_y
                < left.max_y && right.min_x < right.center_x < right.max_x && right.min_y
                < right.center_y < right.max_y)
        }),
{
}

/// One block for both sticks holds the left one in its first nine bytes and
/// the right one in the next nine.
pub proof fn law_calibration_block(data: Seq<u8>)
    requires
        data.len() >= 18,
    ensures
        stick_calibration_of(data)->0 == merged(
            left_stick_of(data)->0,
            right_stick_of(data.skip(9))->0,
        ),
{
    let a = data.subrange(0, 9);
    let b = data.subrange(9, 18);
    assert(forall|i: int| 0 <= i < 9 ==> a[i] == data[i]);
    assert(forall|i: int| 0 <= i < 9 ==> b[i] == data.skip(9)[i]);
}

/// The calibration of the motion sensor: origin and sensitivity of the
/// accelerometer and then of the gyroscope, each for X, Y and Z, two bytes to a
/// number.
pub proof fn law_motion_calibration_layout(data: Seq<u8>, i: int)
    requires
        data.len() >= 24,
        0 <= i < 3,
    ensures
        ({
            let c = imu_calibration_of(data)->0;
            &&& hid_parser::stands_at(data, 2 * i, c.accel_origin@[i])
            &&& hid_parser::stands_at(data, 6 + 2 * i, c.accel_sensitivity@[i])
            &&& hid_parser::stands_at(data, 12 + 2 * i, c.gyro_origin@[i])
            &&& hid_parser::stands_at(data, 18 + 2 * i, c.gyro_sensitivity@[i])
            &&& c.horizontal_offsets@[i] == 0
            &&& c.source == "factory"@
        }),
{
    lemma_triple(data, 0, i);
    lemma_triple(data, 6, i);
    lemma_triple(data, 12, i);
    lemma_triple(data, 18, i);
    let c = imu_calibration_of(data)->0;
    assert(c.horizontal_offsets@ =~= seq![0i16, 0, 0]);
}

proof fn lemma_triple(data: Seq<u8>, off: int, i: int)
    requires
        0 <= off,
        off + 6 <= data.len(),
        0 <= i < 3,
    ensures
        hid_parser::stands_at(data, off + 2 * i, triple_at(data, off)@[i]),
{
    let t = triple_at(data, off);
    assert(t@[0] == numeric::from_le16_signed(data[off], data[off + 1]));
    assert(t@[1] == numeric::from_le16_signed(data[off + 2], data[off + 3]));
    assert(t@[2] == numeric::from_le16_signed(data[off + 4], data[off + 5]));
}

/// A user calibration starts with the bytes 0xB2 and 0xA1, in this order.
pub proof fn law_user_mark(data: Seq<u8>)
    ensures
        has_user_magic(data) == (data.len() >= 2 && 256 * data[0] + data[1] == 0xB2A1),
{
}

/// The nominal calibrations: sticks from 0 over 2048 to 4095 on every axis, not
/// valid; a motion sensor with its origin at zero, 16384 counts to four g and
/// 13371 counts to 936 degrees per second.
pub proof fn law_nominal_calibrations(i: int)
    requires
        0 <= i < 3,
    ensures
        ({
            let s = default_sticks();
            let m = default_imu();
            &&& !s.valid
            &&& s.left_center_x == 2048 && s.left_center_y == 2048
            &&& s.right_center_x == 2048 && s.right_center_y == 2048
            &&& s.left_min_x == 0 && s.left_min_y == 0 && s.right_min_x == 0 && s.right_min_y == 0
            &&& s.left_max_x == 4095 && s.left_max_y == 4095
            &&& s.right_max_x == 4095 && s.right_max_y == 4095
            &&& m.accel_origin@[i] == 0 && m.gyro_origin@[i] == 0
            &&& m.horizontal_offsets@[i] == 0
            &&& m.accel_sensitivity@[i] == 16384
            &&& m.gyro_sensitivity@[i] == 0x343B
        }),
{
    let m = default_imu();
    assert(m.accel_origin@ =~= seq![0i16, 0, 0]);
    assert(m.gyro_origin@ =~= seq![0i16, 0, 0]);
    assert(m.horizontal_offsets@ =~= seq![0i16, 0, 0]);
    assert(m.accel_sensitivity@ =~= seq![0x4000i16, 0x4000, 0x4000]);
    assert(m.gyro_sensitivity@ =~= seq![0x343Bi16, 0x343B, 0x343B]);
}

} // verus!
