//! The reports of a controller: where each goes, and what a standard report
//! does to the state.

use vstd::prelude::*;

use crate::device_loop::{emit, DeviceLoop, DriftStatus};
use crate::hid_parser;
use crate::hid_parser::{
    battery_raw_to_percent, hex_string, normalize_stick_calibrated, parse_standard_report,
    ImuData, ParsedInput, REPORT_ID_DEFAULT_BT, REPORT_ID_NFC_IR, REPORT_ID_STANDARD,
    REPORT_ID_SUBCMD_REPLY, REPORT_ID_USB_REPLY,
};
use crate::numeric;
use crate::numeric::{Ratio, Real32};
use crate::schedule;
use crate::schedule::passed;
use crate::state::{
    ButtonState, ConnectionQuality, ControllerModel, ControllerState, IpcEvent, IpcEventModel,
    StickCalibration, StickState, StickVector,
};
use crate::subcmd::{
    USB_CMD_BAUDRATE_3M, USB_CMD_EN_TIMEOUT, USB_CMD_HANDSHAKE, USB_CMD_NO_TIMEOUT,
};
use crate::text;

verus! {

// ---------------------------------------------------------------------------
// Routing
// ---------------------------------------------------------------------------

/// Milliseconds between two raw reports that are passed on.
pub const RAW_EMIT_INTERVAL_MS: u64 = 50;

/// Where a report goes.
#[derive(Clone, Copy, Debug, PartialEq, Eq, Structural)]
pub enum ReportRoute {
    Standard,
    NfcIr,
    SubcmdReply,
    UsbReply,
    Unhandled,
}

/// Where a report with this number goes.
pub open spec fn route_of(report_id: u8) -> ReportRoute {
    if report_id == REPORT_ID_STANDARD || report_id == REPORT_ID_DEFAULT_BT {
        ReportRoute::Standard
    } else if report_id == REPORT_ID_NFC_IR {
        ReportRoute::NfcIr
    } else if report_id == REPORT_ID_SUBCMD_REPLY {
        ReportRoute::SubcmdReply
    } else if report_id == REPORT_ID_USB_REPLY {
        ReportRoute::UsbReply
    } else {
        ReportRoute::Unhandled
    }
}

impl DeviceLoop {
    /// Says where a report goes, and passes the raw report on where the last
    /// one lies long enough in the past. Nothing happens on an empty report.
    pub fn handle_report(&mut self, data: &[u8], now_ms: u64) -> (r: Option<
        (ReportRoute, Option<IpcEvent>),
    >)
        ensures
            data@.len() == 0 ==> r is None && *final(self) == *old(self),
            data@.len() > 0 ==> ({
                let raw_due = schedule::has_passed(old(self).last_raw_emit_ms, now_ms, RAW_EMIT_INTERVAL_MS);
                &&& r matches Some((route, raw)) && route == route_of(data@[0])
                    && raw.deep_view() == (if raw_due {
                    Some(
                        IpcEventModel::RawHidReport {
                            hex: text::hex_joined(data@, ' '),
                            report_id: data@[0],
                        },
                    )
                } else {
                    None
                })
                &&& *final(self) == (DeviceLoop {
                    last_raw_emit_ms: if raw_due {
                        now_ms
                    } else {
                        old(self).last_raw_emit_ms
                    },
                    ..*old(self)
                })
            }),
    {
        if data.len() == 0 {
            return None;
        }
        let report_id: u8 = data[0];
        let raw: Option<IpcEvent> = if passed(self.last_raw_emit_ms, now_ms, RAW_EMIT_INTERVAL_MS) {
            self.last_raw_emit_ms = now_ms;
            Some(IpcEvent::RawHidReport { hex: hex_string(data), report_id })
        } else {
            None
        };
        let route: ReportRoute = if report_id == REPORT_ID_STANDARD || report_id
            == REPORT_ID_DEFAULT_BT {
            ReportRoute::Standard
        } else if report_id == REPORT_ID_NFC_IR {
            ReportRoute::NfcIr
        } else if report_id == REPORT_ID_SUBCMD_REPLY {
            ReportRoute::SubcmdReply
        } else if report_id == REPORT_ID_USB_REPLY {
            ReportRoute::UsbReply
        } else {
            ReportRoute::Unhandled
        };
        Some((route, raw))
    }
}

/// The reply of the USB bridge to a USB command.
#[derive(Clone, Copy, Debug, PartialEq, Eq, Structural)]
pub struct UsbReply {
    pub cmd_id: u8,
    pub status: u8,
}

/// The name of a USB command.
pub open spec fn usb_command_name(cmd: u8) -> Seq<char> {
    if cmd == USB_CMD_HANDSHAKE {
        "handshake"@
    } else if cmd == USB_CMD_BAUDRATE_3M {
        "baudrate-3M"@
    } else if cmd == USB_CMD_NO_TIMEOUT {
        "no-timeout"@
    } else if cmd == USB_CMD_EN_TIMEOUT {
        "enable-timeout"@
    } else {
        "unknown"@
    }
}

impl UsbReply {
    /// The name of the command that is acknowledged.
    pub fn command_name(&self) -> (r: String)
        ensures
            r@ == usb_command_name(self.cmd_id),
    {
        match self.cmd_id {
            USB_CMD_HANDSHAKE => "handshake".to_string(),
            USB_CMD_BAUDRATE_3M => "baudrate-3M".to_string(),
            USB_CMD_NO_TIMEOUT => "no-timeout".to_string(),
            USB_CMD_EN_TIMEOUT => "enable-timeout".to_string(),
            _ => "unknown".to_string(),
        }
    }
}

/// Parses the reply to a USB command. A reply without a status byte counts as
/// success; one without a command is ignored.
pub fn handle_usb_reply(data: &[u8]) -> (r: Option<UsbReply>)
    ensures
        r == (if data@.len() < 2 {
            None
        } else {
            Some(
                UsbReply {
                    cmd_id: data@[1],
                    status: if data@.len() >= 3 {
                        data@[2]
                    } else {
                        0
                    },
                },
            )
        }),
{
    if data.len() < 2 {
        return None;
    }
    let status: u8 = if data.len() >= 3 { data[2] } else { 0 };
    Some(UsbReply { cmd_id: data[1], status })
}

// ---------------------------------------------------------------------------
// Standard reports
// ---------------------------------------------------------------------------

/// Where a raw reading lies between -1 and 1 without any calibration.
pub open spec fn fallback_axis(raw: u16) -> Ratio {
    numeric::unit_ratio(raw - 2048, 2048)
}

/// Where four raw readings lie between -1 and 1 without any calibration: the
/// distance to 2048 in parts of 2048.
pub fn fallback_normalize(lx: u16, ly: u16, rx: u16, ry: u16) -> (r: (Ratio, Ratio, Ratio, Ratio))
    ensures
        r == (fallback_axis(lx), fallback_axis(ly), fallback_axis(rx), fallback_axis(ry)),
{
    (
        Ratio::clamped(lx as i64 - 2048, 2048),
        Ratio::clamped(ly as i64 - 2048, 2048),
        Ratio::clamped(rx as i64 - 2048, 2048),
        Ratio::clamped(ry as i64 - 2048, 2048),
    )
}

/// The four stick axes of a state: by its calibration where that is valid, and
/// without any where it is not.
pub open spec fn axes_of(state: ControllerModel) -> (Ratio, Ratio, Ratio, Ratio) {
    let l = state.left_stick;
    let r = state.right_stick;
    match state.stick_calibration {
        Some(c) if c.valid => (
            hid_parser::stick_between(l.raw_x, c.left_center_x, c.left_min_x, c.left_max_x),
            hid_parser::stick_between(l.raw_y, c.left_center_y, c.left_min_y, c.left_max_y),
            hid_parser::stick_between(r.raw_x, c.right_center_x, c.right_min_x, c.right_max_x),
            hid_parser::stick_between(r.raw_y, c.right_center_y, c.right_min_y, c.right_max_y),
        ),
        _ => (
            fallback_axis(l.raw_x),
            fallback_axis(l.raw_y),
            fallback_axis(r.raw_x),
            fallback_axis(r.raw_y),
        ),
    }
}

/// The four stick axes of a state.
fn normalized_axes(state: &ControllerState) -> (r: (Ratio, Ratio, Ratio, Ratio))
    ensures
        r == axes_of(state.deep_view()),
{
    let left: StickState = state.left_stick;
    let right: StickState = state.right_stick;
    match state.stick_calibration {
        Some(c) if c.valid => (
            normalize_stick_calibrated(left.raw_x, c.left_center_x, c.left_min_x, c.left_max_x),
            normalize_stick_calibrated(left.raw_y, c.left_center_y, c.left_min_y, c.left_max_y),
            normalize_stick_calibrated(
                right.raw_x,
                c.right_center_x,
                c.right_min_x,
                c.right_max_x,
            ),
            normalize_stick_calibrated(
                right.raw_y,
                c.right_center_y,
                c.right_min_y,
                c.right_max_y,
            ),
        ),
        _ => fallback_normalize(left.raw_x, left.raw_y, right.raw_x, right.raw_y),
    }
}

/// The state with what a standard report says.
pub open spec fn with_report(
    state: ControllerModel,
    p: ParsedInput,
    timestamp: u64,
) -> ControllerModel {
    ControllerModel {
        connected: true,
        buttons: p.buttons,
        left_stick: p.left_stick,
        right_stick: p.right_stick,
        battery_raw: p.battery.raw,
        battery_percent: hid_parser::percent_of(p.battery.raw),
        charging: p.battery.charging,
        timestamp,
        ..state
    }
}

/// A standard report that has been taken in: what it says, the stick axes that
/// go on to shaping, and what falls due with it.
#[derive(Clone, Copy, Debug, PartialEq, Eq)]
pub struct Intake {
    pub parsed: ParsedInput,
    pub axes: (Ratio, Ratio, Ratio, Ratio),
    /// The calibration status is due: on every 60th report.
    pub status_due: bool,
    /// The battery voltage is to be asked for: on every 1800th report.
    pub voltage_due: bool,
}

/// The calibration status is due on every 60th report.
pub open spec fn status_falls_due(frame: u32) -> bool {
    frame % 60 == 0
}

/// The battery voltage is to be asked for on every 1800th report.
pub open spec fn voltage_falls_due(frame: u32) -> bool {
    frame % 1800 == 0
}

/// The next value of a counter that starts anew at zero.
pub open spec fn bumped(n: u32) -> u32 {
    (if n == u32::MAX { 0 } else { n + 1 }) as u32
}

fn bump(n: u32) -> (r: u32)
    ensures
        r == bumped(n),
{
    if n == u32::MAX {
        0
    } else {
        n + 1
    }
}

impl DeviceLoop {
    /// Takes a standard report in: the state gets its buttons, sticks and
    /// battery, and the stick axes are normalized. Anything that is no
    /// standard report changes nothing.
    pub fn begin_standard_report(
        &mut self,
        state: &mut ControllerState,
        data: &[u8],
        timestamp: u64,
    ) -> (r: Option<Intake>)
        ensures
            match hid_parser::standard_report(data@) {
                Some(p) => {
                    &&& final(state).deep_view() == with_report(
                        old(state).deep_view(),
                        p,
                        timestamp,
                    )
                    &&& *final(self) == (DeviceLoop {
                        frame_counter: bumped(old(self).frame_counter),
                        ..*old(self)
                    })
                    &&& r == Some(
                        Intake {
                            parsed: p,
                            axes: axes_of(final(state).deep_view()),
                            status_due: status_falls_due(old(self).frame_counter),
                            voltage_due: voltage_falls_due(old(self).frame_counter),
                        },
                    )
                },
                None => r is None && *final(self) == *old(self) && *final(state) == *old(state),
            },
    {
        match parse_standard_report(data) {
            Some(parsed) => {
                state.connected = true;
                state.buttons = parsed.buttons;
                state.left_stick = parsed.left_stick;
                state.right_stick = parsed.right_stick;
                state.battery_raw = parsed.battery.raw;
                state.battery_percent = battery_raw_to_percent(parsed.battery.raw);
                state.charging = parsed.battery.charging;
                state.timestamp = timestamp;
                let frame: u32 = self.frame_counter;
                self.frame_counter = bump(frame);
                Some(
                    Intake {
                        parsed,
                        axes: normalized_axes(state),
                        status_due: frame % 60 == 0,
                        voltage_due: frame % 1800 == 0,
                    },
                )
            },
            None => None,
        }
    }
}

/// A drift status that users are told of.
pub open spec fn is_alarming(d: DriftStatus) -> bool {
    d == DriftStatus::Drifting || d == DriftStatus::Fail
}

/// The name of a drift status.
pub open spec fn drift_name(d: DriftStatus) -> Seq<char> {
    match d {
        DriftStatus::Unknown => "Unknown"@,
        DriftStatus::Stable => "Stable"@,
        DriftStatus::Drifting => "Drifting"@,
        DriftStatus::Fail => "Fail"@,
    }
}

/// The event for a stick whose drift status changed for the worse.
pub open spec fn drift_events(stick: Seq<char>, before: DriftStatus, now: DriftStatus) -> Seq<
    IpcEventModel,
> {
    if now != before && is_alarming(now) {
        seq![IpcEventModel::DriftDetected { stick, status: drift_name(now) }]
    } else {
        Seq::empty()
    }
}

impl DriftStatus {
    /// The name of the drift status.
    pub fn name(self) -> (r: String)
        ensures
            r@ == drift_name(self),
    {
        match self {
            DriftStatus::Unknown => "Unknown".to_string(),
            DriftStatus::Stable => "Stable".to_string(),
            DriftStatus::Drifting => "Drifting".to_string(),
            DriftStatus::Fail => "Fail".to_string(),
        }
    }
}

/// Adds the event for a stick whose drift status changed for the worse.
fn emit_drift(events: &mut Vec<IpcEvent>, stick: &str, before: DriftStatus, now: DriftStatus)
    ensures
        final(events).deep_view() == old(events).deep_view() + drift_events(stick@, before, now),
{
    if now != before && (now == DriftStatus::Drifting || now == DriftStatus::Fail) {
        emit(events, IpcEvent::DriftDetected { stick: stick.to_owned(), status: now.name() });
    }
    assert(events.deep_view() =~= old(events).deep_view() + drift_events(stick@, before, now));
}

impl DeviceLoop {
    /// Tells of each stick whose drift status has changed to drifting or
    /// failed, and remembers both.
    pub fn note_drift(&mut self, left: DriftStatus, right: DriftStatus) -> (events: Vec<IpcEvent>)
        ensures
            *final(self) == (DeviceLoop {
                prev_left_drift: left,
                prev_right_drift: right,
                ..*old(self)
            }),
            events.deep_view() == drift_events("Left"@, old(self).prev_left_drift, left)
                + drift_events("Right"@, old(self).prev_right_drift, right),
    {
        let mut events: Vec<IpcEvent> = Vec::new();
        assert(events.deep_view() =~= Seq::<IpcEventModel>::empty());
        emit_drift(&mut events, "Left", self.prev_left_drift, left);
        emit_drift(&mut events, "Right", self.prev_right_drift, right);
        self.prev_left_drift = left;
        self.prev_right_drift = right;
        assert(events.deep_view() =~= drift_events("Left"@, old(self).prev_left_drift, left)
            + drift_events("Right"@, old(self).prev_right_drift, right));
        events
    }
}

/// `a + b`, held within 32 bits.
pub open spec fn saturated_sum(a: int, b: int) -> int {
    if a + b > i32::MAX {
        i32::MAX as int
    } else if a + b < i32::MIN {
        i32::MIN as int
    } else {
        a + b
    }
}

/// `a + b`, held within 32 bits.
fn saturating_sum(a: i32, b: i32) -> (r: i32)
    ensures
        r == saturated_sum(a as int, b as int),
{
    let s: i64 = a as i64 + b as i64;
    if s > 0x7FFF_FFFF {
        0x7FFF_FFFF
    } else if s < -0x8000_0000 {
        -0x8000_0000
    } else {
        s as i32
    }
}

/// The mouse movement of a report: the sum of the movements of its three
/// motion readings in mouse mode, none otherwise.
pub open spec fn mouse_sum(mouse_mode: bool, deltas: Seq<(i32, i32)>) -> (i32, i32) {
    if mouse_mode {
        (
            saturated_sum(
                saturated_sum(deltas[0].0 as int, deltas[1].0 as int),
                deltas[2].0 as int,
            ) as i32,
            saturated_sum(
                saturated_sum(deltas[0].1 as int, deltas[1].1 as int),
                deltas[2].1 as int,
            ) as i32,
        )
    } else {
        (0, 0)
    }
}

/// The connection quality after one more report.
pub open spec fn next_quality(
    q: ConnectionQuality,
    timer: u8,
    elapsed_ms: Option<u64>,
) -> ConnectionQuality {
    let counted = ConnectionQuality {
        total_packets: bumped(q.total_packets),
        last_report_timer: timer,
        ..q
    };
    match elapsed_ms {
        Some(ms) if ms > 0 => {
            let timed = ConnectionQuality {
                latency_ms: ms,
                report_rate_hz: (1000u64 / ms) as u16,
                ..counted
            };
            if (timer - q.last_report_timer) % 256 > 2 {
                ConnectionQuality {
                    dropped: bumped(q.dropped),
                    packet_loss_rate: Ratio {
                        num: (100 * bumped(q.dropped)) as i64,
                        den: (if timed.total_packets == 0 {
                            1
                        } else {
                            timed.total_packets as int
                        }) as i64,
                    },
                    ..timed
                }
            } else {
                timed
            }
        },
        _ => counted,
    }
}

/// Counts a report. The time since the last one, where it is not zero, gives
/// the latency and the report rate, and a timer that moved on by more than two
/// counts as a dropped report.
pub fn update_connection_quality(
    state: &mut ControllerState,
    timer: u8,
    elapsed_ms: Option<u64>,
)
    ensures
        final(state).deep_view() == (ControllerModel {
            connection_quality: next_quality(
                old(state).deep_view().connection_quality,
                timer,
                elapsed_ms,
            ),
            ..old(state).deep_view()
        }),
{
    let mut q: ConnectionQuality = state.connection_quality;
    let last: u8 = q.last_report_timer;
    q.total_packets = bump(q.total_packets);
    q.last_report_timer = timer;
    match elapsed_ms {
        Some(ms) if ms > 0 => {
            q.latency_ms = ms;
            q.report_rate_hz = (1000 / ms) as u16;
            let delta: u8 = if timer >= last {
                timer - last
            } else {
                (256 + timer as u16 - last as u16) as u8
            };
            if delta > 2 {
                q.dropped = bump(q.dropped);
                let total: u32 = if q.total_packets == 0 { 1 } else { q.total_packets };
                q.packet_loss_rate = Ratio { num: 100 * (q.dropped as i64), den: total as i64 };
            }
        },
        _ => {},
    }
    state.connection_quality = q;
}

/// What shaping and mapping made of a standard report.
#[derive(Clone, Copy, Debug)]
pub struct Shaped {
    pub left: StickVector,
    pub right: StickVector,
    pub buttons: ButtonState,
    /// The camera angle and whether the stick was flicked, where the right
    /// stick steers the camera.
    pub flick: Option<(Real32, bool)>,
    /// Whether the gyroscope moves the mouse.
    pub mouse_mode: bool,
    /// The mouse movement of each motion reading.
    pub deltas: [(i32, i32); 3],
}

/// The state with the shaped sticks, the mapped buttons and the camera.
pub open spec fn with_shape(state: ControllerModel, s: Shaped) -> ControllerModel {
    ControllerModel {
        left_output: s.left,
        right_output: s.right,
        buttons: s.buttons,
        camera_yaw: match s.flick {
            Some(f) => f.0,
            None => state.camera_yaw,
        },
        flick_active: match s.flick {
            Some(f) => f.1,
            None => state.flick_active,
        },
        ..state
    }
}

/// The state with the motion readings of a report.
pub open spec fn with_motion(state: ControllerModel, imu: Option<ImuData>) -> ControllerModel {
    match imu {
        Some(d) => ControllerModel { imu: Some(d), gyro_mouse_delta: (0, 0), ..state },
        None => state,
    }
}

/// The state after a standard report has been finished.
pub open spec fn finished_state(
    state: ControllerModel,
    p: ParsedInput,
    s: Shaped,
    elapsed_ms: Option<u64>,
) -> ControllerModel {
    let moved = with_motion(with_shape(state, s), p.imu);
    ControllerModel {
        connection_quality: next_quality(moved.connection_quality, p.timer, elapsed_ms),
        ..moved
    }
}

/// Whether the motion readings of a report are announced, after `count`
/// reports with motion readings: those of every second such report.
pub open spec fn announces_motion(count: u32, motion: bool) -> bool {
    motion && count % 2 == 0
}

/// How many reports with motion readings there were after a report.
pub open spec fn motion_count(count: u32, motion: bool) -> u32 {
    if motion {
        bumped(count)
    } else {
        count
    }
}

/// The events at the end of a standard report.
pub open spec fn finished_events(
    memory: DeviceLoop,
    state: ControllerModel,
    imu: Option<ImuData>,
    timestamp: u64,
) -> Seq<IpcEventModel> {
    (match imu {
        Some(frames) if announces_motion(memory.imu_report_count, true) => seq![
            IpcEventModel::ImuData { frames, timestamp },
        ],
        _ => Seq::empty(),
    }) + seq![
        IpcEventModel::ConnectionQuality { data: state.connection_quality },
        IpcEventModel::ControllerState { data: state },
    ]
}

impl DeviceLoop {
    /// Finishes a standard report after shaping and mapping. Every second
    /// report with motion readings is announced; the mouse moves where the
    /// gyroscope moves it and the sum of the movements is not zero.
    pub fn finish_standard_report(
        &mut self,
        state: &mut ControllerState,
        parsed: &ParsedInput,
        shaped: &Shaped,
        elapsed_ms: Option<u64>,
        timestamp: u64,
    ) -> (r: (Option<(i32, i32)>, Vec<IpcEvent>))
        ensures
            final(state).deep_view() == finished_state(
                old(state).deep_view(),
                *parsed,
                *shaped,
                elapsed_ms,
            ),
            *final(self) == (DeviceLoop {
                imu_report_count: motion_count(old(self).imu_report_count, parsed.imu is Some),
                ..*old(self)
            }),
            r.0 == ({
                let sum = mouse_sum(shaped.mouse_mode, shaped.deltas@);
                if parsed.imu is Some && sum != (0i32, 0i32) {
                    Some(sum)
                } else {
                    None
                }
            }),
            r.1.deep_view() == finished_events(
                *old(self),
                final(state).deep_view(),
                parsed.imu,
                timestamp,
            ),
    {
        let mut events: Vec<IpcEvent> = Vec::new();
        let mut moved: Option<(i32, i32)> = None;
        assert(events.deep_view() =~= Seq::<IpcEventModel>::empty());
        state.left_output = shaped.left;
        state.right_output = shaped.right;
        state.buttons = shaped.buttons;
        match shaped.flick {
            Some((yaw, flicked)) => {
                state.camera_yaw = yaw;
                state.flick_active = flicked;
            },
            None => {},
        }
        match parsed.imu {
            Some(frames) => {
                state.imu = Some(frames);
                state.gyro_mouse_delta = (0, 0);
                if shaped.mouse_mode {
                    let d: [(i32, i32); 3] = shaped.deltas;
                    let dx: i32 = saturating_sum(saturating_sum(d[0].0, d[1].0), d[2].0);
                    let dy: i32 = saturating_sum(saturating_sum(d[0].1, d[1].1), d[2].1);
                    if dx != 0 || dy != 0 {
                        moved = Some((dx, dy));
                    }
                }
                if self.imu_report_count % 2 == 0 {
                    emit(&mut events, IpcEvent::ImuData { frames, timestamp });
                }
                self.imu_report_count = bump(self.imu_report_count);
            },
            None => {},
        }
        update_connection_quality(state, parsed.timer, elapsed_ms);
        emit(
            &mut events,
            IpcEvent::ConnectionQuality { data: state.connection_quality },
        );
        emit(&mut events, IpcEvent::ControllerState { data: state.clone() });
        assert(events.deep_view() =~= finished_events(
            *old(self),
            state.deep_view(),
            parsed.imu,
            timestamp,
        ));
        (moved, events)
    }
}

// ---------------------------------------------------------------------------
// Laws
// ---------------------------------------------------------------------------

/// After a raw report has been passed on, none is for the next 50 milliseconds,
/// and the first one after these is.
pub proof fn law_raw_reports_keep_their_distance(sent_ms: u64, now_ms: u64)
    requires
        sent_ms <= now_ms,
    ensures
        schedule::has_passed(sent_ms, now_ms, RAW_EMIT_INTERVAL_MS) == (now_ms >= sent_ms + 50),
{
}

/// All four axes that go on to shaping lie between -1 and 1.
pub proof fn law_axes_are_in_unit(state: ControllerModel)
    ensures
        ({
            let (lx, ly, rx, ry) = axes_of(state);
            lx.in_unit() && ly.in_unit() && rx.in_unit() && ry.in_unit()
        }),
{
}

/// A report on which the voltage is asked for is one on which the calibration
/// status is due.
pub proof fn law_voltage_falls_on_status(frame: u32)
    requires
        voltage_falls_due(frame),
    ensures
        status_falls_due(frame),
{
}

/// A drift status that has not changed is told of once only.
pub proof fn law_drift_is_told_once(stick: Seq<char>, before: DriftStatus, now: DriftStatus)
    ensures
        drift_events(stick, before, now).len() <= 1,
        drift_events(stick, now, now).len() == 0,
{
}

/// A timer that moves on by at most two, over its end or not, does not count
/// as a dropped report.
pub proof fn law_small_gap_is_no_drop(q: ConnectionQuality, step: u8, elapsed_ms: Option<u64>)
    requires
        step <= 2,
    ensures
        next_quality(
            q,
            ((q.last_report_timer + step) % 256) as u8,
            elapsed_ms,
        ).dropped == q.dropped,
{
}

/// A timer that moves on by more than two counts as one dropped report, once
/// time has passed.
pub proof fn law_large_gap_is_one_drop(q: ConnectionQuality, step: u8, elapsed_ms: u64)
    requires
        step > 2,
        elapsed_ms > 0,
    ensures
        next_quality(
            q,
            ((q.last_report_timer + step) % 256) as u8,
            Some(elapsed_ms),
        ).dropped == bumped(q.dropped),
{
}

/// How many of some reports have motion readings, where `reports` says so of
/// each.
pub open spec fn motion_reports(reports: Seq<bool>) -> nat
    decreases reports.len(),
{
    if reports.len() == 0 {
        0
    } else {
        (if reports[0] {
            1nat
        } else {
            0
        }) + motion_reports(reports.skip(1))
    }
}

/// How many of some reports have their motion readings announced.
pub open spec fn announcements(count: u32, reports: Seq<bool>) -> nat
    decreases reports.len(),
{
    if reports.len() == 0 {
        0
    } else {
        (if announces_motion(count, reports[0]) {
            1nat
        } else {
            0
        }) + announcements(motion_count(count, reports[0]), reports.skip(1))
    }
}

/// Of any reports in a row, half of those with motion readings are announced;
/// where their number is odd, the first decides on the one that is over.
pub proof fn law_every_second_motion_is_announced(count: u32, reports: Seq<bool>)
    ensures
        announcements(count, reports) == (if count % 2 == 0 {
            (motion_reports(reports) + 1) / 2
        } else {
            motion_reports(reports) / 2
        }),
    decreases reports.len(),
{
    if reports.len() > 0 {
        law_every_second_motion_is_announced(motion_count(count, reports[0]), reports.skip(1));
    }
}

/// After a report with motion readings no mouse movement is left over.
pub proof fn law_no_movement_is_left_over(
    state: ControllerModel,
    p: ParsedInput,
    s: Shaped,
    elapsed_ms: Option<u64>,
)
    requires
        p.imu is Some,
    ensures
        finished_state(state, p, s, elapsed_ms).gyro_mouse_delta == (0i32, 0i32),
{
}

/// A report goes by its number: 0x30 and 0x3F are standard reports, 0x31 is an
/// NFC/IR report, 0x21 a subcommand reply, 0x81 a reply of the USB bridge, and
/// no other report is handled.
pub proof fn law_reports_go_by_their_number(id: u8)
    ensures
        (route_of(id) == ReportRoute::Standard) == (id == 0x30 || id == 0x3F),
        (route_of(id) == ReportRoute::NfcIr) == (id == 0x31),
        (route_of(id) == ReportRoute::SubcmdReply) == (id == 0x21),
        (route_of(id) == ReportRoute::UsbReply) == (id == 0x81),
{
}

/// The commands of the USB bridge by their numbers.
pub proof fn law_usb_commands_by_number(cmd: u8)
    ensures
        cmd == 2 ==> usb_command_name(cmd) == "handshake"@,
        cmd == 3 ==> usb_command_name(cmd) == "baudrate-3M"@,
        cmd == 4 ==> usb_command_name(cmd) == "no-timeout"@,
        cmd == 5 ==> usb_command_name(cmd) == "enable-timeout"@,
        cmd < 2 || cmd > 5 ==> usb_command_name(cmd) == "unknown"@,
{
}

/// A reading lies where a center and the two ends of its range put it: in
/// parts of the way to the end on its side, and not beyond it.
pub open spec fn lies_between(raw: u16, center: u16, min: u16, max: u16, at: Ratio) -> bool {
    &&& at.den > 0
    &&& raw <= min ==> at.num == -at.den
    &&& min <= raw <= center ==> at.num * (center - min) == (raw - center) * at.den
    &&& center <= raw <= max ==> at.num * (max - center) == (raw - center) * at.den
    &&& max <= raw ==> at.num == at.den
}

/// The four axes are the horizontal and the vertical one of the left stick and
/// then of the right one. Under a valid calibration each comes from the raw
/// reading of that axis and from its own center and range.
pub proof fn law_axes_follow_their_own_calibration(state: ControllerModel, c: StickCalibration)
    requires
        state.stick_calibration == Some(c),
        c.valid,
        c.left_min_x < c.left_center_x < c.left_max_x,
        c.left_min_y < c.left_center_y < c.left_max_y,
        c.right_min_x < c.right_center_x < c.right_max_x,
        c.right_min_y < c.right_center_y < c.right_max_y,
    ensures
        ({
            let (lx, ly, rx, ry) = axes_of(state);
            let l = state.left_stick;
            let r = state.right_stick;
            &&& lies_between(l.raw_x, c.left_center_x, c.left_min_x, c.left_max_x, lx)
            &&& lies_between(l.raw_y, c.left_center_y, c.left_min_y, c.left_max_y, ly)
            &&& lies_between(r.raw_x, c.right_center_x, c.right_min_x, c.right_max_x, rx)
            &&& lies_between(r.raw_y, c.right_center_y, c.right_min_y, c.right_max_y, ry)
        }),
{
    let l = state.left_stick;
    let r = state.right_stick;
    hid_parser::law_calibrated_is_proportional(
        l.raw_x,
        c.left_center_x,
        c.left_min_x,
        c.left_max_x,
    );
    hid_parser::law_calibrated_is_proportional(
        l.raw_y,
        c.left_center_y,
        c.left_min_y,
        c.left_max_y,
    );
    hid_parser::law_calibrated_is_proportional(
        r.raw_x,
        c.right_center_x,
        c.right_min_x,
        c.right_max_x,
    );
    hid_parser::law_calibrated_is_proportional(
        r.raw_y,
        c.right_center_y,
        c.right_min_y,
        c.right_max_y,
    );
}

/// Under any calibration a stick at its center lies at zero, one at its
/// maximum at 1 and one at its minimum at -1, on each axis whatever the other
/// axes read.
pub proof fn law_axes_are_anchored(state: ControllerModel, c: StickCalibration)
    requires
        state.stick_calibration == Some(c),
        c.valid,
        c.left_min_x < c.left_center_x < c.left_max_x,
        c.left_min_y < c.left_center_y < c.left_max_y,
        c.right_min_x < c.right_center_x < c.right_max_x,
        c.right_min_y < c.right_center_y < c.right_max_y,
    ensures
        ({
            let (lx, ly, rx, ry) = axes_of(state);
            let l = state.left_stick;
            let r = state.right_stick;
            &&& l.raw_x == c.left_center_x ==> lx.num == 0
            &&& l.raw_x == c.left_max_x ==> lx.num == lx.den
            &&& l.raw_x == c.left_min_x ==> lx.num == -lx.den
            &&& l.raw_y == c.left_center_y ==> ly.num == 0
            &&& l.raw_y == c.left_max_y ==> ly.num == ly.den
            &&& l.raw_y == c.left_min_y ==> ly.num == -ly.den
            &&& r.raw_x == c.right_center_x ==> rx.num == 0
            &&& r.raw_x == c.right_max_x ==> rx.num == rx.den
            &&& r.raw_x == c.right_min_x ==> rx.num == -rx.den
            &&& r.raw_y == c.right_center_y ==> ry.num == 0
            &&& r.raw_y == c.right_max_y ==> ry.num == ry.den
            &&& r.raw_y == c.right_min_y ==> ry.num == -ry.den
        }),
{
}

/// A reading of one axis moves that axis alone, with a calibration or without.
pub proof fn law_stick_axes_do_not_mix(state: ControllerModel, other: u16)
    ensures
        ({
            let (lx, ly, rx, ry) = axes_of(state);
            let l = state.left_stick;
            let r = state.right_stick;
            let a = axes_of(
                ControllerModel { left_stick: StickState { raw_x: other, ..l }, ..state },
            );
            let b = axes_of(
                ControllerModel { left_stick: StickState { raw_y: other, ..l }, ..state },
            );
            let c = axes_of(
                ControllerModel { right_stick: StickState { raw_x: other, ..r }, ..state },
            );
            let d = axes_of(
                ControllerModel { right_stick: StickState { raw_y: other, ..r }, ..state },
            );
            &&& a == (a.0, ly, rx, ry)
            &&& b == (lx, b.1, rx, ry)
            &&& c == (lx, ly, c.2, ry)
            &&& d == (lx, ly, rx, d.3)
        }),
{
}

/// Without a valid calibration a reading counts by its distance from 2048 in
/// parts of 2048, on each axis for itself, and not beyond 1.
pub proof fn law_axes_without_calibration(state: ControllerModel)
    requires
        state.stick_calibration matches Some(c) ==> !c.valid,
    ensures
        ({
            let (lx, ly, rx, ry) = axes_of(state);
            let l = state.left_stick;
            let r = state.right_stick;
            let lies = |raw: u16, at: Ratio|
                at.den > 0 && (raw <= 4096 ==> at.num * 2048 == (raw - 2048) * at.den) && (raw
                    > 4096 ==> at.num == at.den);
            lies(l.raw_x, lx) && lies(l.raw_y, ly) && lies(r.raw_x, rx) && lies(r.raw_y, ry)
        }),
{
}

/// What a report says is what the state holds after it: its buttons, its left
/// stick on the left and its right one on the right, and its battery. Nothing
/// but these, the connection and the time changes.
pub proof fn law_state_holds_the_report(state: ControllerModel, data: Seq<u8>, timestamp: u64)
    requires
        hid_parser::standard_report(data) is Some,
    ensures
        ({
            let p = hid_parser::standard_report(data)->0;
            let s = with_report(state, p, timestamp);
            &&& s.connected
            &&& s.buttons == p.buttons
            &&& s.left_stick == p.left_stick
            &&& s.right_stick == p.right_stick
            &&& s.battery_raw == data[2] / 16
            &&& s.charging == (data[2] / 16 % 2 == 1)
            &&& s.battery_percent == hid_parser::percent_of(data[2] / 16)
            &&& s.timestamp == timestamp
            &&& state == (ControllerModel {
                connected: state.connected,
                buttons: state.buttons,
                left_stick: state.left_stick,
                right_stick: state.right_stick,
                battery_raw: state.battery_raw,
                battery_percent: state.battery_percent,
                charging: state.charging,
                timestamp: state.timestamp,
                ..s
            })
        }),
{
    hid_parser::law_standard_report_rest(data);
}

/// The calibration status falls due on the first report and then 60 reports
/// apart, the voltage on the first report and then 1800 apart, and neither in
/// between.
pub proof fn law_periods_of_status_and_voltage(frame: u32, more: u32)
    requires
        frame + more <= u32::MAX,
    ensures
        status_falls_due(0) && voltage_falls_due(0),
        more == 60 ==> status_falls_due((frame + more) as u32) == status_falls_due(frame),
        status_falls_due(frame) && 0 < more < 60 ==> !status_falls_due((frame + more) as u32),
        more == 1800 ==> voltage_falls_due((frame + more) as u32) == voltage_falls_due(frame),
        voltage_falls_due(frame) && 0 < more < 1800 ==> !voltage_falls_due((frame + more) as u32),
{
}

/// A counter goes up by one, and after its highest value starts at zero.
pub proof fn law_counters_go_up_by_one(n: u32)
    ensures
        n < u32::MAX ==> bumped(n) == n + 1,
        n == u32::MAX ==> bumped(n) == 0,
{
}

/// A stick is told of exactly when it comes to drift or to fail, by its name
/// and with what has become of it.
pub proof fn law_drift_is_told_of_when_it_comes(
    stick: Seq<char>,
    before: DriftStatus,
    now: DriftStatus,
)
    ensures
        ({
            let told = drift_events(stick, before, now);
            let worse = now != before && (now == DriftStatus::Drifting || now == DriftStatus::Fail);
            &&& told.len() == (if worse { 1int } else { 0 })
            &&& worse && now == DriftStatus::Drifting ==> told[0]
                == (IpcEventModel::DriftDetected { stick, status: "Drifting"@ })
            &&& worse && now == DriftStatus::Fail ==> told[0] == (IpcEventModel::DriftDetected {
                stick,
                status: "Fail"@,
            })
        }),
{
}

/// The mouse moves by the sum of the movements of all three motion readings,
/// each direction for itself, and only in mouse mode. A sum that does not fit
/// stays at the end of its range.
pub proof fn law_mouse_moves_by_the_sum(deltas: Seq<(i32, i32)>)
    requires
        deltas.len() == 3,
    ensures
        ({
            let (dx, dy) = mouse_sum(true, deltas);
            let first_x = deltas[0].0 + deltas[1].0;
            let first_y = deltas[0].1 + deltas[1].1;
            let x = first_x + deltas[2].0;
            let y = first_y + deltas[2].1;
            &&& i32::MIN <= first_x <= i32::MAX && i32::MIN <= x <= i32::MAX ==> dx == x
            &&& i32::MIN <= first_y <= i32::MAX && i32::MIN <= y <= i32::MAX ==> dy == y
            &&& first_x >= i32::MIN && x > i32::MAX && deltas[2].0 >= 0 ==> dx == i32::MAX
            &&& first_y >= i32::MIN && y > i32::MAX && deltas[2].1 >= 0 ==> dy == i32::MAX
            &&& first_x <= i32::MAX && x < i32::MIN && deltas[2].0 <= 0 ==> dx == i32::MIN
            &&& first_y <= i32::MAX && y < i32::MIN && deltas[2].1 <= 0 ==> dy == i32::MIN
        }),
        mouse_sum(false, deltas) == (0i32, 0i32),
{
}

/// Each report counts once. The time between two reports gives the latency in
/// milliseconds and the rate in reports per second; without such a time, both
/// stay, and so does the loss.
pub proof fn law_quality_counts_and_times(q: ConnectionQuality, timer: u8, elapsed_ms: Option<u64>)
    requires
        q.total_packets < u32::MAX,
        q.dropped < u32::MAX,
    ensures
        ({
            let n = next_quality(q, timer, elapsed_ms);
            let timed = elapsed_ms is Some && elapsed_ms->0 > 0;
            &&& n.total_packets == q.total_packets + 1
            &&& n.last_report_timer == timer
            &&& timed ==> n.latency_ms == elapsed_ms->0
            &&& timed && elapsed_ms->0 <= 1000 ==> n.report_rate_hz * elapsed_ms->0 <= 1000 < (
            n.report_rate_hz + 1) * elapsed_ms->0
            &&& timed && elapsed_ms->0 > 1000 ==> n.report_rate_hz == 0
            &&& !timed ==> n == (ConnectionQuality {
                total_packets: n.total_packets,
                last_report_timer: timer,
                ..q
            })
            &&& n.dropped == q.dropped || n.dropped == q.dropped + 1
            &&& n.dropped == q.dropped ==> n.packet_loss_rate == q.packet_loss_rate
            &&& n.dropped > q.dropped ==> n.packet_loss_rate.num * n.total_packets == 100
                * n.dropped * n.packet_loss_rate.den && n.packet_loss_rate.den > 0
        }),
{
    if elapsed_ms is Some && elapsed_ms->0 > 0 {
        let ms = elapsed_ms->0 as int;
        let rate: int = 1000int / ms;
        assert(rate * ms <= 1000 < (rate + 1) * ms && 0 <= rate <= 1000) by (nonlinear_arith)
            requires
                rate == 1000int / ms,
                ms > 0,
        ;
        if ms > 1000 {
            assert(rate == 0) by (nonlinear_arith)
                requires
                    rate == 1000int / ms,
                    ms > 1000,
            ;
        }
    }
}

/// What shaping makes of a report goes where it belongs: the left deflection
/// to the left, the right one to the right, the mapped buttons in place of the
/// raw ones, and the camera only where the stick steers it. The motion readings
/// are kept where the report has some.
pub proof fn law_shaped_report_is_kept(
    state: ControllerModel,
    p: ParsedInput,
    s: Shaped,
    elapsed_ms: Option<u64>,
)
    ensures
        ({
            let f = finished_state(state, p, s, elapsed_ms);
            &&& f.left_output == s.left
            &&& f.right_output == s.right
            &&& f.buttons == s.buttons
            &&& s.flick matches Some(turn) ==> f.camera_yaw == turn.0 && f.flick_active == turn.1
            &&& s.flick is None ==> f.camera_yaw == state.camera_yaw && f.flick_active
                == state.flick_active
            &&& f.imu == (if p.imu is Some {
                p.imu
            } else {
                state.imu
            })
            &&& f.connection_quality == next_quality(
                state.connection_quality,
                p.timer,
                elapsed_ms,
            )
            &&& f.left_stick == state.left_stick && f.right_stick == state.right_stick
            &&& f.stick_calibration == state.stick_calibration
            &&& f.imu_calibration == state.imu_calibration
            &&& f.device_info == state.device_info
            &&& f.battery_percent == state.battery_percent && f.charging == state.charging
            &&& f.connected == state.connected && f.slot_index == state.slot_index
            &&& f.validated == state.validated
        }),
{
}

/// Every report ends with the connection quality and the whole state; before
/// these come the motion readings of every second report that has some.
pub proof fn law_report_is_told_of(
    memory: DeviceLoop,
    state: ControllerModel,
    imu: Option<ImuData>,
    timestamp: u64,
)
    ensures
        ({
            let e = finished_events(memory, state, imu, timestamp);
            let n = e.len();
            let motion = imu is Some && memory.imu_report_count % 2 == 0;
            &&& n == (if motion { 3int } else { 2 })
            &&& e[n - 2] == (IpcEventModel::ConnectionQuality { data: state.connection_quality })
            &&& e[n - 1] == (IpcEventModel::ControllerState { data: state })
            &&& motion ==> e[0] == (IpcEventModel::ImuData { frames: imu->0, timestamp })
        }),
{
}

} // verus!
