//! The memory of the loop that serves one controller, and what the replies of
//! the controller to subcommands lead to.

use vstd::prelude::*;

use crate::hid_parser;
use crate::hid_parser::{battery_raw_to_percent, parse_subcmd_reply, SubcmdReply, SubcmdReplyModel};
use crate::numeric;
use crate::numeric::u16_le;
use crate::state;
use crate::state::{
    ControllerModel, ControllerState, DeviceInfo, DeviceInfoModel, ImuCalibration,
    ImuCalibrationModel, IpcEvent, IpcEventModel, PlayerLights, SpiInfo, SpiInfoModel,
    StickCalibration,
};
use crate::subcmd;
use crate::subcmd::{
    check_user_cal_magic, default_imu_calibration, default_stick_calibration,
    merge_stick_calibration, parse_device_info_reply, parse_imu_calibration,
    parse_left_stick_calibration, parse_right_stick_calibration, read_triple, AxisPair,
    SPI_ADDR_BODY_COLOR, SPI_ADDR_BUTTON_COLOR, SPI_ADDR_COLOR_FLAG, SPI_ADDR_HORIZONTAL_OFFSETS,
    SPI_ADDR_IMU_FACTORY, SPI_ADDR_IMU_USER, SPI_ADDR_LEFT_GRIP_COLOR,
    SPI_ADDR_LEFT_STICK_FACTORY, SPI_ADDR_LEFT_STICK_USER, SPI_ADDR_RIGHT_GRIP_COLOR,
    SPI_ADDR_RIGHT_STICK_FACTORY, SPI_ADDR_RIGHT_STICK_USER, SPI_ADDR_SERIAL, SUBCMD_ENABLE_IMU,
    SUBCMD_ENABLE_VIBRATION, SUBCMD_GET_DEVICE_INFO, SUBCMD_GET_PLAYER_LIGHTS,
    SUBCMD_GET_VOLTAGE, SUBCMD_SPI_FLASH_READ,
};
use crate::text;
use crate::text::push_decimal;

verus! {

/// The slot of the loop that starts the loops of the single controllers.
pub const MANAGER_SLOT: u8 = 0xFF;

/// How far a stick has drifted from its center.
#[derive(Clone, Copy, Debug, PartialEq, Eq, Structural)]
pub enum DriftStatus {
    Unknown,
    Stable,
    Drifting,
    Fail,
}

/// What the loop of one controller remembers between reports.
#[derive(Clone, Copy, Debug, PartialEq, Eq, Structural)]
pub struct DeviceLoop {
    pub slot: u8,
    /// The calibration of the left stick, until that of the right one is
    /// there too.
    pub left_stick_cal: Option<AxisPair>,
    /// The calibration of the right stick, until that of the left one is
    /// there too.
    pub right_stick_cal: Option<AxisPair>,
    pub frame_counter: u32,
    pub imu_report_count: u32,
    /// The time at which a raw report was last passed on, in milliseconds.
    pub last_raw_emit_ms: u64,
    pub prev_left_drift: DriftStatus,
    pub prev_right_drift: DriftStatus,
}

/// A loop that has seen no report.
pub open spec fn fresh_loop(slot: u8, now_ms: u64) -> DeviceLoop {
    DeviceLoop {
        slot,
        left_stick_cal: None,
        right_stick_cal: None,
        frame_counter: 0,
        imu_report_count: 0,
        last_raw_emit_ms: now_ms,
        prev_left_drift: DriftStatus::Unknown,
        prev_right_drift: DriftStatus::Unknown,
    }
}

impl DeviceLoop {
    /// The loop that starts the loops of the single controllers.
    pub fn new(now_ms: u64) -> (r: Self)
        ensures
            r == fresh_loop(MANAGER_SLOT, now_ms),
    {
        DeviceLoop::with_slot(MANAGER_SLOT, now_ms)
    }

    /// The loop of the controller in one slot.
    pub fn with_slot(slot: u8, now_ms: u64) -> (r: Self)
        ensures
            r == fresh_loop(slot, now_ms),
    {
        DeviceLoop {
            slot,
            left_stick_cal: None,
            right_stick_cal: None,
            frame_counter: 0,
            imu_report_count: 0,
            last_raw_emit_ms: now_ms,
            prev_left_drift: DriftStatus::Unknown,
            prev_right_drift: DriftStatus::Unknown,
        }
    }
}

// ---------------------------------------------------------------------------
// Battery
// ---------------------------------------------------------------------------

/// The name of the battery level in a raw value.
pub open spec fn health_label(raw: u8) -> Seq<char> {
    let level = hid_parser::battery_level(raw);
    if level == 0 {
        "Empty"@
    } else if level == 1 {
        "Critical"@
    } else if level == 2 {
        "Low"@
    } else if level == 3 {
        "Medium"@
    } else {
        "Full"@
    }
}

/// The name of the battery level in a raw value. The charging flag does not
/// count.
pub fn battery_health_label(raw: u8) -> (r: String)
    ensures
        r@ == health_label(raw),
{
    let level: u8 = raw / 2 % 8;
    match level {
        0 => "Empty".to_string(),
        1 => "Critical".to_string(),
        2 => "Low".to_string(),
        3 => "Medium".to_string(),
        _ => "Full".to_string(),
    }
}

// ---------------------------------------------------------------------------
// Subcommand replies
// ---------------------------------------------------------------------------

/// What handling a report leads to: the memory of the loop, the state of the
/// controller, and the events in the order in which they are sent.
#[verifier::ext_equal]
pub struct Outcome {
    pub memory: DeviceLoop,
    pub state: ControllerModel,
    pub events: Seq<IpcEventModel>,
}

/// Nothing changes and nothing is sent.
pub open spec fn unchanged(memory: DeviceLoop, state: ControllerModel) -> Outcome {
    Outcome { memory, state, events: Seq::empty() }
}

/// The stick calibration in use, or the default one.
pub open spec fn sticks_in_use(state: ControllerModel) -> StickCalibration {
    match state.stick_calibration {
        Some(c) => c,
        None => subcmd::default_sticks(),
    }
}

/// The motion calibration in use, or the default one.
pub open spec fn imu_in_use(state: ControllerModel) -> ImuCalibrationModel {
    match state.imu_calibration {
        Some(c) => c,
        None => subcmd::default_imu(),
    }
}

/// Once the calibration of both sticks is there it is put to use. Where it is
/// not valid the default one is.
#[verifier::opaque]
pub open spec fn merge_step(memory: DeviceLoop, state: ControllerModel) -> Outcome {
    match (memory.left_stick_cal, memory.right_stick_cal) {
        (Some(left), Some(right)) => {
            let both = subcmd::merged(left, right);
            let used = if both.valid {
                both
            } else {
                subcmd::default_sticks()
            };
            Outcome {
                memory,
                state: ControllerModel { stick_calibration: Some(used), ..state },
                events: seq![
                    IpcEventModel::CalibrationData { stick: used, imu: imu_in_use(state) },
                ],
            }
        },
        _ => unchanged(memory, state),
    }
}

/// The calibration of the left stick has been read.
pub open spec fn left_step(
    memory: DeviceLoop,
    state: ControllerModel,
    cal: Option<AxisPair>,
) -> Outcome {
    match cal {
        Some(p) => merge_step(DeviceLoop { left_stick_cal: Some(p), ..memory }, state),
        None => unchanged(memory, state),
    }
}

/// The calibration of the right stick has been read.
pub open spec fn right_step(
    memory: DeviceLoop,
    state: ControllerModel,
    cal: Option<AxisPair>,
) -> Outcome {
    match cal {
        Some(p) => merge_step(DeviceLoop { right_stick_cal: Some(p), ..memory }, state),
        None => unchanged(memory, state),
    }
}

/// A calibration of the motion sensor is put to use.
pub open spec fn imu_step(
    memory: DeviceLoop,
    state: ControllerModel,
    cal: ImuCalibrationModel,
) -> Outcome {
    Outcome {
        memory,
        state: ControllerModel { imu_calibration: Some(cal), ..state },
        events: seq![IpcEventModel::CalibrationData { stick: sticks_in_use(state), imu: cal }],
    }
}

/// What is known from flash memory.
pub open spec fn spi_of(state: ControllerModel) -> SpiInfoModel {
    match state.device_info {
        Some(d) => match d.spi {
            Some(s) => s,
            None => state::no_spi_info(),
        },
        None => state::no_spi_info(),
    }
}

/// The device information as it is announced: with the connection, and with
/// whether a stick calibration is known.
pub open spec fn announced(info: DeviceInfoModel, state: ControllerModel) -> DeviceInfoModel {
    DeviceInfoModel {
        connection: state::connection_name(state.connection_type),
        spi: match info.spi {
            Some(s) => Some(
                SpiInfoModel { calibration: state.stick_calibration is Some, ..s },
            ),
            None => None,
        },
        ..info
    }
}

/// The event with the device information, where there is any.
pub open spec fn device_info_events(state: ControllerModel) -> Seq<IpcEventModel> {
    match state.device_info {
        Some(info) => seq![IpcEventModel::DeviceInfo { data: announced(info, state) }],
        None => Seq::empty(),
    }
}

/// What is known from flash memory changes and is announced.
pub open spec fn spi_step(
    memory: DeviceLoop,
    state: ControllerModel,
    spi: SpiInfoModel,
) -> Outcome {
    let info = match state.device_info {
        Some(d) => d,
        None => state::no_device_info(),
    };
    let next = ControllerModel {
        device_info: Some(DeviceInfoModel { spi: Some(spi), ..info }),
        ..state
    };
    Outcome { memory, state: next, events: device_info_events(next) }
}

/// A printable ASCII character or a space.
pub open spec fn is_printable(b: u8) -> bool {
    0x20 <= b <= 0x7E
}

/// A serial number: the printable characters before the first zero byte.
pub open spec fn serial_text(data: Seq<u8>) -> Seq<char>
    decreases data.len(),
{
    if data.len() == 0 || data[0] == 0 {
        Seq::empty()
    } else if is_printable(data[0]) {
        seq![data[0] as char] + serial_text(data.drop_first())
    } else {
        serial_text(data.drop_first())
    }
}

/// A color as the text `rgb(r,g,b)`.
pub open spec fn color_text(data: Seq<u8>) -> Seq<char> {
    "rgb("@ + text::decimal(data[0] as nat) + ","@ + text::decimal(data[1] as nat) + ","@ + text::decimal(
        data[2] as nat,
    ) + ")"@
}

/// What the color flag says: 1 keeps the colors from flash memory, anything
/// else puts the default colors in their place.
pub open spec fn with_color_flag(spi: SpiInfoModel, flag: u8) -> SpiInfoModel {
    if flag == 0x01 {
        SpiInfoModel { use_spi_colors: true, ..spi }
    } else {
        SpiInfoModel {
            use_spi_colors: false,
            body_color: "rgb(85,85,85)"@,
            button_color: "rgb(255,255,255)"@,
            grip_color: "rgb(255,255,255)"@,
            ..spi
        }
    }
}

/// The horizontal offsets of the motion sensor are kept with its calibration,
/// or with a default one where there is none yet.
pub open spec fn offsets_step(
    memory: DeviceLoop,
    state: ControllerModel,
    offsets: [i16; 3],
) -> Outcome {
    let c = match state.imu_calibration {
        Some(c) => c,
        None => subcmd::default_imu(),
    };
    unchanged(
        memory,
        ControllerModel {
            imu_calibration: Some(ImuCalibrationModel { horizontal_offsets: offsets, ..c }),
            ..state
        },
    )
}

/// What the data at a flash address leads to.
#[verifier::opaque]
pub open spec fn flash_step(
    memory: DeviceLoop,
    state: ControllerModel,
    addr: u32,
    flash: Seq<u8>,
) -> Outcome {
    if addr == SPI_ADDR_LEFT_STICK_FACTORY {
        left_step(memory, state, subcmd::left_stick_of(flash))
    } else if addr == SPI_ADDR_RIGHT_STICK_FACTORY {
        right_step(memory, state, subcmd::right_stick_of(flash))
    } else if addr == SPI_ADDR_IMU_FACTORY {
        imu_step(
            memory,
            state,
            match subcmd::imu_calibration_of(flash) {
                Some(c) => c,
                None => subcmd::default_imu(),
            },
        )
    } else if addr == SPI_ADDR_LEFT_STICK_USER {
        if subcmd::has_user_magic(flash) && flash.len() >= 11 {
            left_step(memory, state, subcmd::left_stick_of(flash.skip(2)))
        } else {
            unchanged(memory, state)
        }
    } else if addr == SPI_ADDR_RIGHT_STICK_USER {
        if subcmd::has_user_magic(flash) && flash.len() >= 11 {
            right_step(memory, state, subcmd::right_stick_of(flash.skip(2)))
        } else {
            unchanged(memory, state)
        }
    } else if addr == SPI_ADDR_IMU_USER {
        if subcmd::has_user_magic(flash) && flash.len() >= 26 {
            imu_step(memory, state, subcmd::imu_calibration_of(flash.skip(2))->0)
        } else {
            unchanged(memory, state)
        }
    } else if addr == SPI_ADDR_SERIAL {
        spi_step(memory, state, SpiInfoModel { serial: serial_text(flash), ..spi_of(state) })
    } else if addr == SPI_ADDR_BODY_COLOR && flash.len() >= 3 {
        spi_step(memory, state, SpiInfoModel { body_color: color_text(flash), ..spi_of(state) })
    } else if addr == SPI_ADDR_BUTTON_COLOR && flash.len() >= 3 {
        spi_step(memory, state, SpiInfoModel { button_color: color_text(flash), ..spi_of(state) })
    } else if addr == SPI_ADDR_LEFT_GRIP_COLOR && flash.len() >= 3 {
        spi_step(memory, state, SpiInfoModel { grip_color: color_text(flash), ..spi_of(state) })
    } else if addr == SPI_ADDR_RIGHT_GRIP_COLOR && flash.len() >= 3 {
        spi_step(
            memory,
            state,
            if spi_of(state).grip_color.len() == 0 {
                SpiInfoModel { grip_color: color_text(flash), ..spi_of(state) }
            } else {
                spi_of(state)
            },
        )
    } else if addr == SPI_ADDR_COLOR_FLAG && flash.len() >= 1 {
        spi_step(memory, state, with_color_flag(spi_of(state), flash[0]))
    } else if addr == SPI_ADDR_HORIZONTAL_OFFSETS && flash.len() >= 6 {
        offsets_step(memory, state, subcmd::triple_at(flash, 0))
    } else {
        unchanged(memory, state)
    }
}

/// The flash address that a reply echoes: three bytes, the lowest first.
pub open spec fn echoed_address(data: Seq<u8>) -> u32 {
    (data[0] + 256 * data[1] + 65536 * data[2]) as u32
}

/// The battery voltage in millivolts for a raw voltage: two and a half times
/// as much, and no more than fits.
pub open spec fn millivolts(raw: u16) -> u16 {
    let mv = raw * 25 / 10;
    (if mv > 0xFFFF { 0xFFFF } else { mv }) as u16
}

/// The state with the battery that a reply reports.
pub open spec fn with_battery(state: ControllerModel, raw: u8, charging: bool) -> ControllerModel {
    ControllerModel { battery_raw: raw, charging, battery_percent: hid_parser::percent_of(raw), ..state }
}

/// The device information of a reply, with the connection and with what is
/// already known from flash memory.
pub open spec fn carried_over(info: DeviceInfoModel, state: ControllerModel) -> DeviceInfoModel {
    DeviceInfoModel {
        connection: state::connection_name(state.connection_type),
        spi: match state.device_info {
            Some(d) => match d.spi {
                Some(s) => Some(s),
                None => info.spi,
            },
            None => info.spi,
        },
        ..info
    }
}

/// What the reply to a subcommand leads to, by the number of the subcommand.
#[verifier::opaque]
pub open spec fn reply_step(
    memory: DeviceLoop,
    state: ControllerModel,
    id: u8,
    data: Seq<u8>,
) -> Outcome {
    if id == SUBCMD_GET_DEVICE_INFO {
        match subcmd::device_info_of(data) {
            Some(info) => Outcome {
                memory,
                state: ControllerModel { device_info: Some(carried_over(info, state)), ..state },
                events: seq![IpcEventModel::DeviceInfo { data: carried_over(info, state) }],
            },
            None => unchanged(memory, state),
        }
    } else if id == SUBCMD_SPI_FLASH_READ {
        if data.len() >= 5 {
            flash_step(memory, state, echoed_address(data), data.skip(4))
        } else {
            unchanged(memory, state)
        }
    } else if id == SUBCMD_ENABLE_IMU {
        unchanged(memory, ControllerModel { imu_enabled: true, ..state })
    } else if id == SUBCMD_ENABLE_VIBRATION {
        unchanged(memory, ControllerModel { vibration_enabled: true, ..state })
    } else if id == SUBCMD_GET_VOLTAGE && data.len() >= 2 {
        unchanged(
            memory,
            ControllerModel {
                battery_voltage_mv: millivolts(numeric::from_le16(data[0], data[1])),
                ..state
            },
        )
    } else if id == SUBCMD_GET_PLAYER_LIGHTS && data.len() >= 1 {
        unchanged(
            memory,
            ControllerModel {
                player_lights: PlayerLights {
                    led_mask: data[0] % 16,
                    flash_pattern: data[0] / 16,
                },
                ..state
            },
        )
    } else {
        unchanged(memory, state)
    }
}

/// The events that follow every reply: the reply itself, the battery, the
/// state, and a warning where the battery is at or below the threshold.
pub open spec fn closing_events(
    state: ControllerModel,
    reply: SubcmdReplyModel,
    threshold: u8,
) -> Seq<IpcEventModel> {
    let always = seq![
        IpcEventModel::SubcommandReply {
            subcmd_id: reply.subcmd_id,
            ack: reply.ack,
            data: reply.reply_data,
        },
        IpcEventModel::BatteryState {
            percent: state.battery_percent,
            charging: state.charging,
            raw: state.battery_raw,
            health: health_label(state.battery_raw),
        },
        IpcEventModel::ControllerState { data: state },
    ];
    if state.battery_percent <= threshold {
        always.push(IpcEventModel::BatteryWarning { percent: state.battery_percent })
    } else {
        always
    }
}

/// What a subcommand reply leads to.
pub open spec fn subcmd_outcome(
    memory: DeviceLoop,
    state: ControllerModel,
    data: Seq<u8>,
    threshold: u8,
) -> Outcome {
    match hid_parser::subcmd_reply_of(data) {
        Some(reply) => {
            let step = reply_step(
                memory,
                with_battery(state, reply.battery.raw, reply.battery.charging),
                reply.subcmd_id,
                reply.reply_data,
            );
            Outcome {
                memory: step.memory,
                state: step.state,
                events: step.events + closing_events(step.state, reply, threshold),
            }
        },
        None => unchanged(memory, state),
    }
}

/// The state and the events after a step are those of an outcome.
pub open spec fn leads_to(
    o: Outcome,
    memory: DeviceLoop,
    state: ControllerModel,
    before: Seq<IpcEventModel>,
    after: Seq<IpcEventModel>,
) -> bool {
    memory == o.memory && state == o.state && after == before + o.events
}

/// Adds an event.
pub fn emit(events: &mut Vec<IpcEvent>, e: IpcEvent)
    ensures
        final(events).deep_view() == old(events).deep_view().push(e.deep_view()),
{
    let ghost was = events.deep_view();
    let ghost shown = e.deep_view();
    events.push(e);
    assert(events.deep_view() =~= was.push(shown));
}

/// The printable characters before the first zero byte.
fn parse_serial(data: &[u8]) -> (r: String)
    ensures
        r@ == serial_text(data@),
{
    let mut out: String = String::new();
    let mut i: usize = 0;
    assert(data@.skip(0) =~= data@);
    while i < data.len()
        invariant
            i <= data@.len(),
            out@ + serial_text(data@.skip(i as int)) == serial_text(data@),
        decreases data@.len() - i,
    {
        let ghost was = out@;
        let ghost rest = data@.skip(i as int);
        assert(rest.drop_first() =~= data@.skip(i + 1));
        let b: u8 = data[i];
        if b == 0 {
            assert(out@ =~= serial_text(data@));
            return out;
        }
        if 0x20 <= b && b <= 0x7E {
            out.push(b as char);
            assert(out@ + serial_text(data@.skip(i + 1)) =~= was + serial_text(rest));
        }
        i += 1;
    }
    assert(out@ =~= serial_text(data@));
    out
}

/// A color as the text `rgb(r,g,b)`.
fn format_color(data: &[u8]) -> (r: String)
    requires
        data@.len() >= 3,
    ensures
        r@ == color_text(data@),
{
    let mut out: String = String::new();
    out.append("rgb(");
    push_decimal(&mut out, data[0] as u64);
    out.append(",");
    push_decimal(&mut out, data[1] as u64);
    out.append(",");
    push_decimal(&mut out, data[2] as u64);
    out.append(")");
    assert(out@ =~= color_text(data@));
    out
}

impl DeviceLoop {
    /// Puts the stick calibration to use once both halves are there.
    fn try_merge_stick_calibration(
        &self,
        state: &mut ControllerState,
        events: &mut Vec<IpcEvent>,
    )
        ensures
            leads_to(
                merge_step(*self, old(state).deep_view()),
                *self,
                final(state).deep_view(),
                old(events).deep_view(),
                final(events).deep_view(),
            ),
    {
        proof {
            reveal(merge_step);
        }
        match (self.left_stick_cal, self.right_stick_cal) {
            (Some(left), Some(right)) => {
                let both: StickCalibration = merge_stick_calibration(left, right);
                let used: StickCalibration = if both.valid {
                    both
                } else {
                    default_stick_calibration()
                };
                let imu: ImuCalibration = match &state.imu_calibration {
                    Some(c) => c.clone(),
                    None => default_imu_calibration(),
                };
                state.stick_calibration = Some(used);
                emit(events, IpcEvent::CalibrationData { stick: used, imu });
                assert(events.deep_view() =~= old(events).deep_view() + merge_step(
                    *self,
                    old(state).deep_view(),
                ).events);
            },
            _ => {
                assert(events.deep_view() =~= old(events).deep_view() + Seq::<
                    IpcEventModel,
                >::empty());
            },
        }
    }

    /// Keeps the calibration of the left stick.
    fn take_left(
        &mut self,
        state: &mut ControllerState,
        events: &mut Vec<IpcEvent>,
        cal: Option<AxisPair>,
    )
        ensures
            leads_to(
                left_step(*old(self), old(state).deep_view(), cal),
                *final(self),
                final(state).deep_view(),
                old(events).deep_view(),
                final(events).deep_view(),
            ),
    {
        match cal {
            Some(p) => {
                self.left_stick_cal = Some(p);
                self.try_merge_stick_calibration(state, events);
            },
            None => {
                assert(events.deep_view() =~= old(events).deep_view() + Seq::<
                    IpcEventModel,
                >::empty());
            },
        }
    }

    /// Keeps the calibration of the right stick.
    fn take_right(
        &mut self,
        state: &mut ControllerState,
        events: &mut Vec<IpcEvent>,
        cal: Option<AxisPair>,
    )
        ensures
            leads_to(
                right_step(*old(self), old(state).deep_view(), cal),
                *final(self),
                final(state).deep_view(),
                old(events).deep_view(),
                final(events).deep_view(),
            ),
    {
        match cal {
            Some(p) => {
                self.right_stick_cal = Some(p);
                self.try_merge_stick_calibration(state, events);
            },
            None => {
                assert(events.deep_view() =~= old(events).deep_view() + Seq::<
                    IpcEventModel,
                >::empty());
            },
        }
    }

    /// Puts a calibration of the motion sensor to use.
    fn take_imu(
        &self,
        state: &mut ControllerState,
        events: &mut Vec<IpcEvent>,
        cal: ImuCalibration,
    )
        ensures
            leads_to(
                imu_step(*self, old(state).deep_view(), cal.deep_view()),
                *self,
                final(state).deep_view(),
                old(events).deep_view(),
                final(events).deep_view(),
            ),
    {
        let stick: StickCalibration = match state.stick_calibration {
            Some(c) => c,
            None => default_stick_calibration(),
        };
        let imu: ImuCalibration = cal.clone();
        state.imu_calibration = Some(cal);
        emit(events, IpcEvent::CalibrationData { stick, imu });
        assert(events.deep_view() =~= old(events).deep_view() + imu_step(
            *self,
            old(state).deep_view(),
            cal.deep_view(),
        ).events);
    }

    /// Announces the device information, where there is any, with the
    /// connection and with whether a stick calibration is known.
    pub fn emit_device_info(&self, state: &ControllerState, events: &mut Vec<IpcEvent>)
        ensures
            final(events).deep_view() == old(events).deep_view() + device_info_events(
                state.deep_view(),
            ),
    {
        match &state.device_info {
            Some(known) => {
                let mut info: DeviceInfo = known.clone();
                info.connection = state.connection_type.name();
                let spi: Option<SpiInfo> = match &info.spi {
                    Some(s) => {
                        let mut s2: SpiInfo = s.clone();
                        s2.calibration = state.stick_calibration.is_some();
                        Some(s2)
                    },
                    None => None,
                };
                info.spi = spi;
                assert(info.deep_view() == announced(known.deep_view(), state.deep_view()));
                emit(events, IpcEvent::DeviceInfo { data: info });
            },
            None => {},
        }
        assert(events.deep_view() =~= old(events).deep_view() + device_info_events(
            state.deep_view(),
        ));
    }

    /// Replaces what is known from flash memory, and announces it.
    fn take_spi(&self, state: &mut ControllerState, events: &mut Vec<IpcEvent>, spi: SpiInfo)
        ensures
            leads_to(
                spi_step(*self, old(state).deep_view(), spi.deep_view()),
                *self,
                final(state).deep_view(),
                old(events).deep_view(),
                final(events).deep_view(),
            ),
    {
        let mut info: DeviceInfo = match &state.device_info {
            Some(d) => d.clone(),
            None => DeviceInfo::default(),
        };
        info.spi = Some(spi);
        state.device_info = Some(info);
        let ghost next = spi_step(*self, old(state).deep_view(), spi.deep_view()).state;
        assert(state.deep_view() == next);
        self.emit_device_info(state, events);
    }

    /// What the data at a flash address leads to. A calibration is put to use
    /// once it is complete; one of the user's must carry its mark.
    fn handle_flash(
        &mut self,
        state: &mut ControllerState,
        events: &mut Vec<IpcEvent>,
        addr: u32,
        flash: &[u8],
    )
        ensures
            leads_to(
                flash_step(*old(self), old(state).deep_view(), addr, flash@),
                *final(self),
                final(state).deep_view(),
                old(events).deep_view(),
                final(events).deep_view(),
            ),
    {
        proof {
            reveal(flash_step);
        }
        if addr == SPI_ADDR_LEFT_STICK_FACTORY {
            self.take_left(state, events, parse_left_stick_calibration(flash));
            return;
        }
        if addr == SPI_ADDR_RIGHT_STICK_FACTORY {
            self.take_right(state, events, parse_right_stick_calibration(flash));
            return;
        }
        if addr == SPI_ADDR_IMU_FACTORY {
            let cal: ImuCalibration = match parse_imu_calibration(flash) {
                Some(c) => c,
                None => default_imu_calibration(),
            };
            self.take_imu(state, events, cal);
            return;
        }
        if addr == SPI_ADDR_LEFT_STICK_USER && check_user_cal_magic(flash) && flash.len() >= 11 {
            let body: &[u8] = &flash[2..flash.len()];
            assert(body@ =~= flash@.skip(2));
            self.take_left(state, events, parse_left_stick_calibration(body));
            return;
        }
        if addr == SPI_ADDR_RIGHT_STICK_USER && check_user_cal_magic(flash) && flash.len() >= 11 {
            let body: &[u8] = &flash[2..flash.len()];
            assert(body@ =~= flash@.skip(2));
            self.take_right(state, events, parse_right_stick_calibration(body));
            return;
        }
        if addr == SPI_ADDR_IMU_USER && check_user_cal_magic(flash) && flash.len() >= 26 {
            let body: &[u8] = &flash[2..flash.len()];
            assert(body@ =~= flash@.skip(2));
            match parse_imu_calibration(body) {
                Some(cal) => self.take_imu(state, events, cal),
                None => {},
            }
            return;
        }
        if addr == SPI_ADDR_HORIZONTAL_OFFSETS && flash.len() >= 6 {
            let offsets: [i16; 3] = read_triple(flash, 0);
            let mut cal: ImuCalibration = match &state.imu_calibration {
                Some(c) => c.clone(),
                None => default_imu_calibration(),
            };
            cal.horizontal_offsets = offsets;
            state.imu_calibration = Some(cal);
            assert(events.deep_view() =~= old(events).deep_view() + Seq::<IpcEventModel>::empty());
            return;
        }
        self.handle_flash_text(state, events, addr, flash);
    }

    /// What the data at the flash address of the serial number or of a color
    /// leads to.
    fn handle_flash_text(
        &self,
        state: &mut ControllerState,
        events: &mut Vec<IpcEvent>,
        addr: u32,
        flash: &[u8],
    )
        requires
            addr != SPI_ADDR_LEFT_STICK_FACTORY,
            addr != SPI_ADDR_RIGHT_STICK_FACTORY,
            addr != SPI_ADDR_IMU_FACTORY,
            !(addr == SPI_ADDR_LEFT_STICK_USER && subcmd::has_user_magic(flash@) && flash@.len() >= 11),
            !(addr == SPI_ADDR_RIGHT_STICK_USER && subcmd::has_user_magic(flash@) && flash@.len() >= 11),
            !(addr == SPI_ADDR_IMU_USER && subcmd::has_user_magic(flash@) && flash@.len() >= 26),
            !(addr == SPI_ADDR_HORIZONTAL_OFFSETS && flash@.len() >= 6),
        ensures
            leads_to(
                flash_step(*self, old(state).deep_view(), addr, flash@),
                *self,
                final(state).deep_view(),
                old(events).deep_view(),
                final(events).deep_view(),
            ),
    {
        proof {
            reveal(flash_step);
        }
        let mut spi: SpiInfo = current_spi(state);
        if addr == SPI_ADDR_SERIAL {
            spi.serial = parse_serial(flash);
            self.take_spi(state, events, spi);
            return;
        }
        if addr == SPI_ADDR_BODY_COLOR && flash.len() >= 3 {
            spi.body_color = format_color(flash);
            self.take_spi(state, events, spi);
            return;
        }
        if addr == SPI_ADDR_BUTTON_COLOR && flash.len() >= 3 {
            spi.button_color = format_color(flash);
            self.take_spi(state, events, spi);
            return;
        }
        if addr == SPI_ADDR_LEFT_GRIP_COLOR && flash.len() >= 3 {
            spi.grip_color = format_color(flash);
            self.take_spi(state, events, spi);
            return;
        }
        if addr == SPI_ADDR_RIGHT_GRIP_COLOR && flash.len() >= 3 {
            if spi.grip_color.as_str().is_empty() {
                spi.grip_color = format_color(flash);
            }
            self.take_spi(state, events, spi);
            return;
        }
        if addr == SPI_ADDR_COLOR_FLAG && flash.len() >= 1 {
            if flash[0] == 0x01 {
                spi.use_spi_colors = true;
            } else {
                spi.use_spi_colors = false;
                spi.body_color = "rgb(85,85,85)".to_string();
                spi.button_color = "rgb(255,255,255)".to_string();
                spi.grip_color = "rgb(255,255,255)".to_string();
            }
            self.take_spi(state, events, spi);
            return;
        }
        assert(events.deep_view() =~= old(events).deep_view() + Seq::<IpcEventModel>::empty());
    }

    /// What the reply to a subcommand leads to, by the number of the
    /// subcommand.
    fn handle_reply_data(
        &mut self,
        state: &mut ControllerState,
        events: &mut Vec<IpcEvent>,
        id: u8,
        data: &[u8],
    )
        ensures
            leads_to(
                reply_step(*old(self), old(state).deep_view(), id, data@),
                *final(self),
                final(state).deep_view(),
                old(events).deep_view(),
                final(events).deep_view(),
            ),
    {
        proof {
            reveal(reply_step);
        }
        if id == SUBCMD_GET_DEVICE_INFO {
            self.take_device_info(state, events, data);
            return;
        }
        if id == SUBCMD_SPI_FLASH_READ && data.len() >= 5 {
            let addr: u32 = data[0] as u32 + 256 * (data[1] as u32) + 65536 * (data[2] as u32);
            let flash: &[u8] = &data[4..data.len()];
            assert(flash@ =~= data@.skip(4));
            self.handle_flash(state, events, addr, flash);
            return;
        }
        if id == SUBCMD_ENABLE_IMU {
            state.imu_enabled = true;
        } else if id == SUBCMD_ENABLE_VIBRATION {
            state.vibration_enabled = true;
        } else if id == SUBCMD_GET_VOLTAGE {
            if data.len() >= 2 {
                let raw: u16 = u16_le(data[0], data[1]);
                let mv: u32 = (raw as u32) * 25 / 10;
                state.battery_voltage_mv = if mv > 0xFFFF {
                    0xFFFF
                } else {
                    mv as u16
                };
            }
        } else if id == SUBCMD_GET_PLAYER_LIGHTS {
            if data.len() >= 1 {
                state.player_lights = PlayerLights {
                    led_mask: data[0] % 16,
                    flash_pattern: data[0] / 16,
                };
            }
        }
        assert(events.deep_view() =~= old(events).deep_view() + Seq::<IpcEventModel>::empty());
    }

    /// Keeps and announces the device information of a reply.
    fn take_device_info(
        &self,
        state: &mut ControllerState,
        events: &mut Vec<IpcEvent>,
        data: &[u8],
    )
        ensures
            leads_to(
                reply_step(*self, old(state).deep_view(), SUBCMD_GET_DEVICE_INFO, data@),
                *self,
                final(state).deep_view(),
                old(events).deep_view(),
                final(events).deep_view(),
            ),
    {
        proof {
            reveal(reply_step);
        }
        match parse_device_info_reply(data) {
            Some(parsed) => {
                let ghost said = parsed.deep_view();
                let mut info: DeviceInfo = parsed;
                info.connection = state.connection_type.name();
                match &state.device_info {
                    Some(d) => match &d.spi {
                        Some(s) => {
                            info.spi = Some(s.clone());
                        },
                        None => {},
                    },
                    None => {},
                }
                assert(info.deep_view() == carried_over(said, old(state).deep_view()));
                let copy: DeviceInfo = info.clone();
                state.device_info = Some(copy);
                emit(events, IpcEvent::DeviceInfo { data: info });
                assert(events.deep_view() =~= old(events).deep_view() + seq![
                    IpcEventModel::DeviceInfo { data: info.deep_view() },
                ]);
            },
            None => {
                assert(events.deep_view() =~= old(events).deep_view() + Seq::<
                    IpcEventModel,
                >::empty());
            },
        }
    }

    /// Handles a subcommand reply: the battery, what the subcommand answers,
    /// and the events that tell of both. Anything that is no subcommand reply
    /// changes nothing.
    pub fn handle_subcmd_reply(
        &mut self,
        state: &mut ControllerState,
        data: &[u8],
        threshold: u8,
    ) -> (events: Vec<IpcEvent>)
        ensures
            ({
                let o = subcmd_outcome(*old(self), old(state).deep_view(), data@, threshold);
                &&& *final(self) == o.memory
                &&& final(state).deep_view() == o.state
                &&& events.deep_view() == o.events
            }),
    {
        let mut events: Vec<IpcEvent> = Vec::new();
        assert(events.deep_view() =~= Seq::<IpcEventModel>::empty());
        let reply: SubcmdReply = match parse_subcmd_reply(data) {
            Some(r) => r,
            None => {
                return events;
            },
        };
        state.battery_raw = reply.battery.raw;
        state.charging = reply.battery.charging;
        state.battery_percent = battery_raw_to_percent(reply.battery.raw);
        let ghost told = reply.deep_view();
        let ghost base = state.deep_view();
        assert(base == with_battery(
            old(state).deep_view(),
            told.battery.raw,
            told.battery.charging,
        ));
        self.handle_reply_data(state, &mut events, reply.subcmd_id, &reply.reply_data);
        let ghost step = reply_step(*old(self), base, told.subcmd_id, told.reply_data);
        assert(events.deep_view() =~= step.events);
        close_reply(state, &mut events, reply, threshold);
        events
    }
}

/// Adds the events that follow every reply.
fn close_reply(
    state: &ControllerState,
    events: &mut Vec<IpcEvent>,
    reply: SubcmdReply,
    threshold: u8,
)
    ensures
        final(events).deep_view() == old(events).deep_view() + closing_events(
            state.deep_view(),
            reply.deep_view(),
            threshold,
        ),
{
    emit(
        events,
        IpcEvent::SubcommandReply {
            subcmd_id: reply.subcmd_id,
            ack: reply.ack,
            data: reply.reply_data,
        },
    );
    emit(
        events,
        IpcEvent::BatteryState {
            percent: state.battery_percent,
            charging: state.charging,
            raw: state.battery_raw,
            health: battery_health_label(state.battery_raw),
        },
    );
    emit(events, IpcEvent::ControllerState { data: state.clone() });
    if state.battery_percent <= threshold {
        emit(events, IpcEvent::BatteryWarning { percent: state.battery_percent });
    }
    assert(events.deep_view() =~= old(events).deep_view() + closing_events(
        state.deep_view(),
        reply.deep_view(),
        threshold,
    ));
}

/// What is known from flash memory.
fn current_spi(state: &ControllerState) -> (r: SpiInfo)
    ensures
        r.deep_view() == spi_of(state.deep_view()),
{
    match &state.device_info {
        Some(d) => match &d.spi {
            Some(s) => s.clone(),
            None => SpiInfo::default(),
        },
        None => SpiInfo::default(),
    }
}

// ---------------------------------------------------------------------------
// Laws
// ---------------------------------------------------------------------------

/// Two raw battery values have the same name if and only if they have the same
/// percentage.
pub proof fn law_label_and_percent_agree(a: u8, b: u8)
    ensures
        health_label(a) == health_label(b) <==> hid_parser::percent_of(a) == hid_parser::percent_of(
            b,
        ),
{
    reveal_strlit("Empty");
    reveal_strlit("Critical");
    reveal_strlit("Low");
    reveal_strlit("Medium");
    reveal_strlit("Full");
    assert("Empty"@[0] == 'E');
    assert("Critical"@[0] == 'C');
    assert("Low"@[0] == 'L');
    assert("Medium"@[0] == 'M');
    assert("Full"@[0] == 'F');
}

/// What a standard report sets, and the battery, are the same in two states.
pub open spec fn same_input(a: ControllerModel, b: ControllerModel) -> bool {
    &&& a.buttons == b.buttons
    &&& a.left_stick == b.left_stick
    &&& a.right_stick == b.right_stick
    &&& a.imu == b.imu
    &&& a.connected == b.connected
    &&& a.connection_type == b.connection_type
    &&& a.connection_quality == b.connection_quality
    &&& a.slot_index == b.slot_index
    &&& a.validated == b.validated
}

/// The battery is the same in two states.
pub open spec fn same_battery(a: ControllerModel, b: ControllerModel) -> bool {
    &&& a.battery_raw == b.battery_raw
    &&& a.battery_percent == b.battery_percent
    &&& a.charging == b.charging
}

proof fn lemma_merge_keeps(memory: DeviceLoop, state: ControllerModel)
    ensures
        same_input(state, merge_step(memory, state).state),
        same_battery(state, merge_step(memory, state).state),
{
    reveal(merge_step);
}

proof fn lemma_spi_keeps(memory: DeviceLoop, state: ControllerModel, spi: SpiInfoModel)
    ensures
        same_input(state, spi_step(memory, state, spi).state),
        same_battery(state, spi_step(memory, state, spi).state),
{
}

#[verifier::spinoff_prover]
proof fn lemma_flash_keeps(
    memory: DeviceLoop,
    state: ControllerModel,
    addr: u32,
    flash: Seq<u8>,
)
    ensures
        same_input(state, flash_step(memory, state, addr, flash).state),
        same_battery(state, flash_step(memory, state, addr, flash).state),
{
    reveal(flash_step);
    assert forall|m: DeviceLoop| same_input(state, #[trigger] merge_step(m, state).state)
        && same_battery(state, merge_step(m, state).state) by {
        lemma_merge_keeps(m, state);
    }
    assert forall|spi: SpiInfoModel|
        same_input(state, #[trigger] spi_step(memory, state, spi).state) && same_battery(
            state,
            spi_step(memory, state, spi).state,
        ) by {
        lemma_spi_keeps(memory, state, spi);
    }
    if addr == SPI_ADDR_LEFT_STICK_FACTORY {
        assert(same_input(state, left_step(memory, state, subcmd::left_stick_of(flash)).state));
    } else if addr == SPI_ADDR_RIGHT_STICK_FACTORY {
        assert(same_input(state, right_step(memory, state, subcmd::right_stick_of(flash)).state));
    } else if addr == SPI_ADDR_IMU_FACTORY {
    } else if addr == SPI_ADDR_LEFT_STICK_USER {
        assert(same_input(
            state,
            left_step(memory, state, subcmd::left_stick_of(flash.skip(2))).state,
        ));
    } else if addr == SPI_ADDR_RIGHT_STICK_USER {
        assert(same_input(
            state,
            right_step(memory, state, subcmd::right_stick_of(flash.skip(2))).state,
        ));
    } else if addr == SPI_ADDR_IMU_USER {
    } else if addr == SPI_ADDR_HORIZONTAL_OFFSETS {
    } else {
    }
}

proof fn lemma_reply_keeps(memory: DeviceLoop, state: ControllerModel, id: u8, data: Seq<u8>)
    ensures
        same_input(state, reply_step(memory, state, id, data).state),
        same_battery(state, reply_step(memory, state, id, data).state),
{
    reveal(reply_step);
    if id == SUBCMD_GET_DEVICE_INFO {
    } else if id == SUBCMD_SPI_FLASH_READ {
        if data.len() >= 5 {
            lemma_flash_keeps(memory, state, echoed_address(data), data.skip(4));
        }
    } else if id == SUBCMD_ENABLE_IMU {
    } else if id == SUBCMD_ENABLE_VIBRATION {
    } else if id == SUBCMD_GET_VOLTAGE {
    } else {
    }
}

/// A subcommand reply never changes what a standard report sets: buttons,
/// sticks, motion, connection and slot stay as they are.
pub proof fn law_reply_keeps_input(
    memory: DeviceLoop,
    state: ControllerModel,
    data: Seq<u8>,
    threshold: u8,
)
    ensures
        same_input(state, subcmd_outcome(memory, state, data, threshold).state),
{
    match hid_parser::subcmd_reply_of(data) {
        Some(reply) => {
            let base = with_battery(state, reply.battery.raw, reply.battery.charging);
            lemma_reply_keeps(memory, base, reply.subcmd_id, reply.reply_data);
        },
        None => {},
    }
}

/// A subcommand reply is told of in full: the events close with the reply, the
/// battery and the new state, and after these with a warning if and only if
/// the battery is at or below the threshold.
pub proof fn law_reply_is_reported(
    memory: DeviceLoop,
    state: ControllerModel,
    data: Seq<u8>,
    threshold: u8,
)
    requires
        data.len() >= 15,
        data[0] == crate::hid_parser::REPORT_ID_SUBCMD_REPLY,
    ensures
        ({
            let o = subcmd_outcome(memory, state, data, threshold);
            let low = hid_parser::percent_of(data[2] / 16) <= threshold;
            let n = o.events.len() - (if low { 4int } else { 3int });
            &&& n >= 0
            &&& o.events[n] == (IpcEventModel::SubcommandReply {
                subcmd_id: data[14],
                ack: data[13],
                data: data.skip(15),
            })
            &&& o.events[n + 1] is BatteryState
            &&& o.events[n + 2] == (IpcEventModel::ControllerState { data: o.state })
            &&& low ==> o.events[n + 3] == (IpcEventModel::BatteryWarning {
                percent: hid_parser::percent_of(data[2] / 16),
            })
        }),
{
    let reply = hid_parser::subcmd_reply_of(data)->0;
    let base = with_battery(state, reply.battery.raw, reply.battery.charging);
    let step = reply_step(memory, base, reply.subcmd_id, reply.reply_data);
    lemma_reply_keeps(memory, base, reply.subcmd_id, reply.reply_data);
    let o = subcmd_outcome(memory, state, data, threshold);
    assert(o.state == step.state);
    assert(step.state.battery_percent == hid_parser::percent_of(data[2] / 16));
    let tail = closing_events(step.state, reply, threshold);
    assert(o.events == step.events + tail);
}

/// The calibration of the two sticks can be read in either order: both lead to
/// the same calibration and the same memory.
pub proof fn law_calibration_order_does_not_matter(
    memory: DeviceLoop,
    state: ControllerModel,
    left: AxisPair,
    right: AxisPair,
)
    ensures
        ({
            let l = left_step(memory, state, Some(left));
            let lr = right_step(l.memory, l.state, Some(right));
            let r = right_step(memory, state, Some(right));
            let rl = left_step(r.memory, r.state, Some(left));
            lr.memory == rl.memory && lr.state == rl.state
        }),
{
    let cr = lemma_merge_touches_calibration(
        DeviceLoop { right_stick_cal: Some(right), ..memory },
        state,
    );
    let cl = lemma_merge_touches_calibration(
        DeviceLoop { left_stick_cal: Some(left), ..memory },
        state,
    );
    lemma_merge_of_both(memory, state, cl, left, right);
    lemma_merge_of_both(memory, state, cr, left, right);
}

/// Merging changes nothing but the stick calibration.
proof fn lemma_merge_touches_calibration(memory: DeviceLoop, state: ControllerModel) -> (c: Option<
    StickCalibration,
>)
    ensures
        merge_step(memory, state).memory == memory,
        merge_step(memory, state).state == (ControllerModel { stick_calibration: c, ..state }),
{
    reveal(merge_step);
    merge_step(memory, state).state.stick_calibration
}

/// Merging two halves does not depend on the calibration before.
proof fn lemma_merge_of_both(
    memory: DeviceLoop,
    state: ControllerModel,
    c: Option<StickCalibration>,
    left: AxisPair,
    right: AxisPair,
)
    ensures
        ({
            let both = DeviceLoop {
                left_stick_cal: Some(left),
                right_stick_cal: Some(right),
                ..memory
            };
            let step = merge_step(both, ControllerModel { stick_calibration: c, ..state });
            &&& step.memory == both
            &&& step.state == (ControllerModel {
                stick_calibration: Some(
                    if subcmd::merged(left, right).valid {
                        subcmd::merged(left, right)
                    } else {
                        subcmd::default_sticks()
                    },
                ),
                ..state
            })
        }),
{
    reveal(merge_step);
}

/// Once both sticks have been read, the state has a stick calibration: the one
/// that was read where it is valid, and the default one where it is not.
pub proof fn law_both_halves_calibrate(
    memory: DeviceLoop,
    state: ControllerModel,
    left: AxisPair,
    right: AxisPair,
)
    ensures
        ({
            let l = left_step(memory, state, Some(left));
            let lr = right_step(l.memory, l.state, Some(right));
            lr.state.stick_calibration == Some(
                if subcmd::merged(left, right).valid {
                    subcmd::merged(left, right)
                } else {
                    subcmd::default_sticks()
                },
            )
        }),
{
    let cl = lemma_merge_touches_calibration(
        DeviceLoop { left_stick_cal: Some(left), ..memory },
        state,
    );
    lemma_merge_of_both(memory, state, cl, left, right);
}

/// A user calibration without its mark changes nothing.
pub proof fn law_user_calibration_needs_its_mark(
    memory: DeviceLoop,
    state: ControllerModel,
    addr: u32,
    flash: Seq<u8>,
)
    requires
        addr == SPI_ADDR_LEFT_STICK_USER || addr == SPI_ADDR_RIGHT_STICK_USER || addr
            == SPI_ADDR_IMU_USER,
        !subcmd::has_user_magic(flash),
    ensures
        flash_step(memory, state, addr, flash) == unchanged(memory, state),
{
    reveal(flash_step);
}

/// A grip color that is known is not replaced by that of the right grip.
pub proof fn law_right_grip_does_not_replace(
    memory: DeviceLoop,
    state: ControllerModel,
    flash: Seq<u8>,
)
    requires
        spi_of(state).grip_color.len() > 0,
    ensures
        spi_of(flash_step(memory, state, SPI_ADDR_RIGHT_GRIP_COLOR, flash).state).grip_color
            == spi_of(state).grip_color,
{
    reveal(flash_step);
}

/// The battery levels by their names. Only the four bits of a raw value count,
/// and of these not the lowest.
pub proof fn law_battery_names(raw: u8)
    ensures
        raw % 16 / 2 == 0 ==> health_label(raw) == "Empty"@,
        raw % 16 / 2 == 1 ==> health_label(raw) == "Critical"@,
        raw % 16 / 2 == 2 ==> health_label(raw) == "Low"@,
        raw % 16 / 2 == 3 ==> health_label(raw) == "Medium"@,
        raw % 16 / 2 >= 4 ==> health_label(raw) == "Full"@,
{
}

/// A flash read is handled by the address that it echoes in the first three
/// bytes of its data, the lowest byte first; what was read comes after the
/// byte with its length. The battery is taken from the same reply.
pub proof fn law_flash_reply_goes_by_its_address(
    memory: DeviceLoop,
    state: ControllerModel,
    data: Seq<u8>,
    threshold: u8,
    addr: u32,
)
    requires
        data.len() >= 20,
        data[0] == 0x21,
        data[14] == 0x10,
        addr == data[15] + 0x100 * data[16] + 0x1_0000 * data[17],
    ensures
        ({
            let o = subcmd_outcome(memory, state, data, threshold);
            let raw = data[2] / 16;
            let charged = ControllerModel {
                battery_raw: raw,
                charging: raw % 2 == 1,
                battery_percent: hid_parser::percent_of(raw),
                ..state
            };
            let step = flash_step(memory, charged, addr, data.skip(19));
            &&& o.state == step.state
            &&& o.memory == step.memory
            &&& o.events.len() >= step.events.len()
            &&& o.events.take(step.events.len() as int) == step.events
        }),
{
    reveal(reply_step);
    let reply = data.skip(15);
    assert(reply.skip(4) =~= data.skip(19));
    assert(reply[0] == data[15] && reply[1] == data[16] && reply[2] == data[17]);
    let raw = data[2] / 16;
    let charged = with_battery(state, raw, raw % 2 == 1);
    let step = flash_step(memory, charged, addr, data.skip(19));
    let o = subcmd_outcome(memory, state, data, threshold);
    let tail = closing_events(step.state, hid_parser::subcmd_reply_of(data)->0, threshold);
    assert(o.events == step.events + tail);
    assert(o.events.take(step.events.len() as int) =~= step.events);
}

/// The calibration of the left stick stands at 0x603D, that of the right one
/// at 0x6046; those of the user at 0x8010 and 0x801B, behind their mark. Each is
/// remembered on its own side, and nothing else is.
pub proof fn law_stick_calibration_addresses(
    memory: DeviceLoop,
    state: ControllerModel,
    flash: Seq<u8>,
)
    requires
        flash.len() >= 11,
    ensures
        flash_step(memory, state, 0x603D, flash).memory == (DeviceLoop {
            left_stick_cal: subcmd::left_stick_of(flash),
            ..memory
        }),
        flash_step(memory, state, 0x6046, flash).memory == (DeviceLoop {
            right_stick_cal: subcmd::right_stick_of(flash),
            ..memory
        }),
        flash[0] == 0xB2 && flash[1] == 0xA1 ==> flash_step(memory, state, 0x8010, flash).memory
            == (DeviceLoop { left_stick_cal: subcmd::left_stick_of(flash.skip(2)), ..memory }),
        flash[0] == 0xB2 && flash[1] == 0xA1 ==> flash_step(memory, state, 0x801B, flash).memory
            == (DeviceLoop { right_stick_cal: subcmd::right_stick_of(flash.skip(2)), ..memory }),
{
    reveal(flash_step);
    reveal(merge_step);
}

/// A stick calibration is put to use and told of as soon as both sticks have
/// been read, and not before.
pub proof fn law_calibration_waits_for_both(
    memory: DeviceLoop,
    state: ControllerModel,
    flash: Seq<u8>,
)
    requires
        flash.len() >= 9,
    ensures
        ({
            let o = flash_step(memory, state, 0x603D, flash);
            let left = subcmd::left_stick_of(flash)->0;
            &&& memory.right_stick_cal is None ==> o.state == state && o.events.len() == 0
            &&& memory.right_stick_cal matches Some(right) ==> {
                &&& o.state == (ControllerModel {
                    stick_calibration: o.state.stick_calibration,
                    ..state
                })
                &&& o.state.stick_calibration is Some
                &&& subcmd::merged(left, right).valid ==> o.state.stick_calibration == Some(
                    subcmd::merged(left, right),
                )
                &&& !subcmd::merged(left, right).valid ==> o.state.stick_calibration == Some(
                    subcmd::default_sticks(),
                )
                &&& o.events.len() == 1
                &&& o.events[0] == (IpcEventModel::CalibrationData {
                    stick: o.state.stick_calibration->0,
                    imu: imu_in_use(state),
                })
            }
        }),
        ({
            let o = flash_step(memory, state, 0x6046, flash);
            let right = subcmd::right_stick_of(flash)->0;
            &&& memory.left_stick_cal is None ==> o.state == state && o.events.len() == 0
            &&& memory.left_stick_cal matches Some(left) ==> {
                &&& o.state == (ControllerModel {
                    stick_calibration: o.state.stick_calibration,
                    ..state
                })
                &&& o.state.stick_calibration is Some
                &&& subcmd::merged(left, right).valid ==> o.state.stick_calibration == Some(
                    subcmd::merged(left, right),
                )
                &&& o.events.len() == 1
            }
        }),
{
    reveal(flash_step);
    reveal(merge_step);
}

/// The calibration of the motion sensor stands at 0x6020 and, behind the mark
/// of the user, at 0x8026. It is put to use and told of at once; a factory
/// calibration that is too short leaves the nominal one.
pub proof fn law_motion_calibration_addresses(
    memory: DeviceLoop,
    state: ControllerModel,
    flash: Seq<u8>,
)
    ensures
        ({
            let o = flash_step(memory, state, 0x6020, flash);
            &&& o.memory == memory
            &&& o.state == (ControllerModel { imu_calibration: o.state.imu_calibration, ..state })
            &&& flash.len() >= 24 ==> o.state.imu_calibration == subcmd::imu_calibration_of(flash)
            &&& flash.len() < 24 ==> o.state.imu_calibration == Some(subcmd::default_imu())
            &&& o.events.len() == 1
            &&& o.events[0] == (IpcEventModel::CalibrationData {
                stick: sticks_in_use(state),
                imu: o.state.imu_calibration->0,
            })
        }),
        flash.len() >= 26 && flash[0] == 0xB2 && flash[1] == 0xA1 ==> ({
            let o = flash_step(memory, state, 0x8026, flash);
            &&& o.memory == memory
            &&& o.state == (ControllerModel {
                imu_calibration: subcmd::imu_calibration_of(flash.skip(2)),
                ..state
            })
            &&& o.events.len() == 1
        }),
        flash.len() < 26 ==> flash_step(memory, state, 0x8026, flash) == unchanged(memory, state),
        flash.len() < 11 ==> flash_step(memory, state, 0x8010, flash) == unchanged(memory, state),
        flash.len() < 11 ==> flash_step(memory, state, 0x801B, flash) == unchanged(memory, state),
{
    reveal(flash_step);
}

/// Colors are read from three bytes of red, green and blue: the body at 0x6050,
/// the buttons at 0x6053, the left grip at 0x6056. Each changes that color
/// alone. The right grip at 0x6059 counts only while no grip is known.
pub proof fn law_color_addresses(memory: DeviceLoop, state: ControllerModel, flash: Seq<u8>)
    requires
        flash.len() >= 3,
    ensures
        ({
            let color = "rgb("@ + text::decimal(flash[0] as nat) + ","@ + text::decimal(
                flash[1] as nat,
            ) + ","@ + text::decimal(flash[2] as nat) + ")"@;
            let was = spi_of(state);
            let after = |addr: u32| spi_of(flash_step(memory, state, addr, flash).state);
            &&& after(0x6050) == (SpiInfoModel { body_color: color, ..was })
            &&& after(0x6053) == (SpiInfoModel { button_color: color, ..was })
            &&& after(0x6056) == (SpiInfoModel { grip_color: color, ..was })
            &&& was.grip_color.len() == 0 ==> after(0x6059) == (SpiInfoModel {
                grip_color: color,
                ..was
            })
            &&& was.grip_color.len() > 0 ==> after(0x6059) == was
        }),
{
    reveal(flash_step);
}

/// The serial number stands at 0x6000, the color flag at 0x601B. A flag of 1
/// keeps the colors that were read; any other puts gray for the body and white
/// for buttons and grips in their place.
pub proof fn law_serial_and_color_flag(memory: DeviceLoop, state: ControllerModel, flash: Seq<u8>)
    requires
        flash.len() >= 1,
    ensures
        ({
            let was = spi_of(state);
            let serial = spi_of(flash_step(memory, state, 0x6000, flash).state);
            let flag = spi_of(flash_step(memory, state, 0x601B, flash).state);
            &&& serial == (SpiInfoModel { serial: serial_text(flash), ..was })
            &&& flag.use_spi_colors == (flash[0] == 1)
            &&& flag.serial == was.serial
            &&& flash[0] == 1 ==> flag.body_color == was.body_color && flag.button_color
                == was.button_color && flag.grip_color == was.grip_color
            &&& flash[0] != 1 ==> flag.body_color == "rgb(85,85,85)"@ && flag.button_color
                == "rgb(255,255,255)"@ && flag.grip_color == "rgb(255,255,255)"@
        }),
{
    reveal(flash_step);
}

/// Whatever is read of the device is told of with all that is known of it.
pub proof fn law_flash_texts_are_told_of(
    memory: DeviceLoop,
    state: ControllerModel,
    addr: u32,
    flash: Seq<u8>,
)
    requires
        flash.len() >= 3,
        addr == 0x6000 || addr == 0x601B || addr == 0x6050 || addr == 0x6053 || addr == 0x6056
            || addr == 0x6059,
    ensures
        ({
            let o = flash_step(memory, state, addr, flash);
            &&& o.memory == memory
            &&& o.state == (ControllerModel { device_info: o.state.device_info, ..state })
            &&& o.events.len() == 1
            &&& o.events[0] matches IpcEventModel::DeviceInfo { data } && data.spi
                is Some && data.spi->0.body_color == spi_of(o.state).body_color
                && data.spi->0.button_color == spi_of(o.state).button_color
                && data.spi->0.grip_color == spi_of(o.state).grip_color && data.spi->0.serial
                == spi_of(o.state).serial && data.spi->0.calibration == (state.stick_calibration
                is Some) && data.connection == state::connection_name(state.connection_type)
                && data.mac_address == o.state.device_info->0.mac_address && data.firmware_version
                == o.state.device_info->0.firmware_version
        }),
{
    reveal(flash_step);
}

/// The horizontal offsets stand at 0x6080, two bytes to each axis. They are
/// kept with the motion calibration, of which nothing else changes.
pub proof fn law_horizontal_offsets(
    memory: DeviceLoop,
    state: ControllerModel,
    flash: Seq<u8>,
    i: int,
)
    requires
        flash.len() >= 6,
        0 <= i < 3,
    ensures
        ({
            let o = flash_step(memory, state, 0x6080, flash);
            let c = o.state.imu_calibration->0;
            let was = match state.imu_calibration {
                Some(w) => w,
                None => subcmd::default_imu(),
            };
            &&& o.memory == memory && o.events.len() == 0
            &&& o.state.imu_calibration is Some
            &&& o.state == (ControllerModel { imu_calibration: o.state.imu_calibration, ..state })
            &&& hid_parser::stands_at(flash, 2 * i, c.horizontal_offsets@[i])
            &&& c == (ImuCalibrationModel { horizontal_offsets: c.horizontal_offsets, ..was })
        }),
{
    reveal(flash_step);
    let t = subcmd::triple_at(flash, 0);
    assert(t@[0] == numeric::from_le16_signed(flash[0], flash[1]));
    assert(t@[1] == numeric::from_le16_signed(flash[2], flash[3]));
    assert(t@[2] == numeric::from_le16_signed(flash[4], flash[5]));
}

/// No other address leads to anything.
pub proof fn law_other_addresses_change_nothing(
    memory: DeviceLoop,
    state: ControllerModel,
    addr: u32,
    flash: Seq<u8>,
)
    requires
        ![0x603Du32, 0x6046, 0x6020, 0x8010, 0x801B, 0x8026]@.contains(addr),
        ![0x6000u32, 0x6050, 0x6053, 0x6056, 0x6059, 0x601B, 0x6080]@.contains(addr),
    ensures
        flash_step(memory, state, addr, flash) == unchanged(memory, state),
{
    reveal(flash_step);
    let a = [0x603Du32, 0x6046, 0x6020, 0x8010, 0x801B, 0x8026]@;
    let b = [0x6000u32, 0x6050, 0x6053, 0x6056, 0x6059, 0x601B, 0x6080]@;
    assert(a[0] != addr && a[1] != addr && a[2] != addr && a[3] != addr && a[4] != addr && a[5]
        != addr);
    assert(b[0] != addr && b[1] != addr && b[2] != addr && b[3] != addr && b[4] != addr && b[5]
        != addr && b[6] != addr);
}

/// A serial number holds the printable characters up to the first zero byte,
/// in their order, and no others.
pub proof fn law_serial_number(head: u8, rest: Seq<u8>)
    ensures
        serial_text(Seq::<u8>::empty()).len() == 0,
        head == 0 ==> serial_text(seq![head] + rest).len() == 0,
        0x20 <= head <= 0x7E ==> serial_text(seq![head] + rest) == seq![head as char]
            + serial_text(rest),
        0 < head < 0x20 || head > 0x7E ==> serial_text(seq![head] + rest) == serial_text(rest),
{
    let all = seq![head] + rest;
    assert(all[0] == head);
    assert(all.drop_first() =~= rest);
}

/// The replies that say something of themselves: the motion sensor (0x40) and
/// the vibration (0x48) are on, the voltage (0x50) is two and a half times the
/// two bytes in millivolts, as far as it fits, and the player lights (0x31) are
/// the steady ones in the low half of a byte and the flashing ones in the high
/// half. Nothing else changes, and nothing but the closing events is told.
pub proof fn law_simple_replies(memory: DeviceLoop, state: ControllerModel, id: u8, data: Seq<u8>)
    requires
        data.len() >= 2,
    ensures
        ({
            let o = reply_step(memory, state, id, data);
            let raw = data[0] + 256 * data[1];
            &&& id == 0x40 ==> o.state == (ControllerModel { imu_enabled: true, ..state })
            &&& id == 0x48 ==> o.state == (ControllerModel { vibration_enabled: true, ..state })
            &&& id == 0x50 ==> o.state == (ControllerModel {
                battery_voltage_mv: o.state.battery_voltage_mv,
                ..state
            })
            &&& id == 0x50 && raw <= 26214 ==> 2 * o.state.battery_voltage_mv <= 5 * raw < 2
                * o.state.battery_voltage_mv + 2
            &&& id == 0x50 && raw > 26214 ==> o.state.battery_voltage_mv == 65535
            &&& id == 0x31 ==> o.state == (ControllerModel {
                player_lights: o.state.player_lights,
                ..state
            })
            &&& id == 0x31 ==> o.state.player_lights.led_mask + 16
                * o.state.player_lights.flash_pattern == data[0]
                && o.state.player_lights.led_mask < 16
            &&& id == 0x40 || id == 0x48 || id == 0x50 || id == 0x31 ==> o.memory == memory
                && o.events.len() == 0
            &&& ![0x02u8, 0x10, 0x31, 0x40, 0x48, 0x50]@.contains(id) ==> o == unchanged(
                memory,
                state,
            )
        }),
{
    reveal(reply_step);
    let known = [0x02u8, 0x10, 0x31, 0x40, 0x48, 0x50]@;
    assert(known[0] == 0x02 && known[1] == 0x10 && known[2] == 0x31 && known[3] == 0x40 && known[4]
        == 0x48 && known[5] == 0x50);
}

/// Device information (0x02) is kept and told of, with the connection, and with
/// what is known from flash memory already.
pub proof fn law_device_information_is_kept(
    memory: DeviceLoop,
    state: ControllerModel,
    data: Seq<u8>,
)
    requires
        data.len() >= 12,
    ensures
        ({
            let o = reply_step(memory, state, 0x02, data);
            let read = subcmd::device_info_of(data)->0;
            let d = o.state.device_info->0;
            &&& o.memory == memory
            &&& o.state == (ControllerModel { device_info: o.state.device_info, ..state })
            &&& o.state.device_info is Some
            &&& d.firmware_version == read.firmware_version
            &&& d.mac_address == read.mac_address
            &&& d.controller_type == read.controller_type
            &&& d.colors_from_spi == read.colors_from_spi
            &&& d.connection == state::connection_name(state.connection_type)
            &&& state.device_info matches Some(was) ==> d.spi == was.spi
            &&& state.device_info is None ==> d.spi is None
            &&& o.events.len() == 1
            &&& o.events[0] == (IpcEventModel::DeviceInfo { data: d })
        }),
{
    reveal(reply_step);
}

/// The battery of a reply is the high half of its third byte. It is told of
/// with its percentage, its name and whether it is charging.
pub proof fn law_battery_of_a_reply(
    memory: DeviceLoop,
    state: ControllerModel,
    data: Seq<u8>,
    threshold: u8,
)
    requires
        data.len() >= 15,
        data[0] == 0x21,
    ensures
        ({
            let o = subcmd_outcome(memory, state, data, threshold);
            let raw = data[2] / 16;
            let low = hid_parser::percent_of(raw) <= threshold;
            let n = o.events.len() - (if low { 4int } else { 3int });
            &&& o.state.battery_raw == raw
            &&& o.state.charging == (raw % 2 == 1)
            &&& o.state.battery_percent == hid_parser::percent_of(raw)
            &&& n >= 0
            &&& o.events[n + 1] == (IpcEventModel::BatteryState {
                percent: hid_parser::percent_of(raw),
                charging: raw % 2 == 1,
                raw,
                health: health_label(raw),
            })
        }),
{
    let reply = hid_parser::subcmd_reply_of(data)->0;
    let base = with_battery(state, reply.battery.raw, reply.battery.charging);
    lemma_reply_keeps(memory, base, reply.subcmd_id, reply.reply_data);
    let step = reply_step(memory, base, reply.subcmd_id, reply.reply_data);
    let o = subcmd_outcome(memory, state, data, threshold);
    let tail = closing_events(step.state, reply, threshold);
    assert(o.events == step.events + tail);
}

/// What is known from flash memory is what the device information holds of it,
/// and nothing where it holds none; a calibration that is not known is the
/// nominal one.
pub proof fn law_what_is_known(state: ControllerModel)
    ensures
        state.device_info is None ==> spi_of(state) == state::no_spi_info(),
        state.device_info matches Some(d) ==> d.spi matches Some(s) ==> spi_of(state) == s,
        state.stick_calibration matches Some(c) ==> sticks_in_use(state) == c,
        state.imu_calibration matches Some(c) ==> imu_in_use(state) == c,
        state.stick_calibration is None ==> sticks_in_use(state) == subcmd::default_sticks(),
        state.imu_calibration is None ==> imu_in_use(state) == subcmd::default_imu(),
{
}

/// A loop that starts remembers no calibration and no drift, and has counted
/// nothing.
pub proof fn law_fresh_loop(slot: u8, now_ms: u64)
    ensures
        ({
            let m = fresh_loop(slot, now_ms);
            &&& m.slot == slot && m.last_raw_emit_ms == now_ms
            &&& m.left_stick_cal is None && m.right_stick_cal is None
            &&& m.frame_counter == 0 && m.imu_report_count == 0
            &&& m.prev_left_drift == DriftStatus::Unknown
            &&& m.prev_right_drift == DriftStatus::Unknown
        }),
{
}

/// A step that leads to an outcome leaves its memory and its state, and adds
/// its events behind those that were there.
pub proof fn law_where_an_outcome_leads(
    o: Outcome,
    memory: DeviceLoop,
    state: ControllerModel,
    before: Seq<IpcEventModel>,
    after: Seq<IpcEventModel>,
)
    requires
        leads_to(o, memory, state, before, after),
    ensures
        memory == o.memory,
        state == o.state,
        after.len() == before.len() + o.events.len(),
        after.take(before.len() as int) == before,
        after.skip(before.len() as int) == o.events,
{
    assert(after.take(before.len() as int) =~= before);
    assert(after.skip(before.len() as int) =~= o.events);
}

} // verus!
