//! The state of a controller and the events that report it.

use vstd::prelude::*;

use crate::hid_parser::{ImuData, NfcTagData};
use crate::numeric;
use crate::numeric::{Ratio, Real32};

verus! {

/// The number of controller slots.
pub const CONTROLLER_SLOTS: usize = 4;

/// How a controller is attached.
#[derive(Clone, Copy, Debug, PartialEq, Eq, Structural)]
pub enum ConnectionType {
    Usb,
    Bluetooth,
}

/// The name of a connection type.
pub open spec fn connection_name(c: ConnectionType) -> Seq<char> {
    match c {
        ConnectionType::Usb => "USB"@,
        ConnectionType::Bluetooth => "Bluetooth"@,
    }
}

impl ConnectionType {
    /// The name of the connection type.
    pub fn name(self) -> (r: String)
        ensures
            r@ == connection_name(self),
    {
        match self {
            ConnectionType::Usb => "USB".to_string(),
            ConnectionType::Bluetooth => "Bluetooth".to_string(),
        }
    }
}

// ---------------------------------------------------------------------------
// Buttons and sticks
// ---------------------------------------------------------------------------

/// Which buttons are held down.
#[derive(Clone, Copy, Debug, PartialEq, Eq, Structural)]
pub struct ButtonState {
    pub a: bool,
    pub b: bool,
    pub x: bool,
    pub y: bool,
    pub l: bool,
    pub r: bool,
    pub zl: bool,
    pub zr: bool,
    pub minus: bool,
    pub plus: bool,
    pub home: bool,
    pub capture: bool,
    pub stick_l: bool,
    pub stick_r: bool,
    pub dpad_up: bool,
    pub dpad_down: bool,
    pub dpad_left: bool,
    pub dpad_right: bool,
    pub sr_right: bool,
    pub sl_right: bool,
    pub sr_left: bool,
    pub sl_left: bool,
}

/// No button is held down.
pub open spec fn no_buttons() -> ButtonState {
    ButtonState {
        a: false,
        b: false,
        x: false,
        y: false,
        l: false,
        r: false,
        zl: false,
        zr: false,
        minus: false,
        plus: false,
        home: false,
        capture: false,
        stick_l: false,
        stick_r: false,
        dpad_up: false,
        dpad_down: false,
        dpad_left: false,
        dpad_right: false,
        sr_right: false,
        sl_right: false,
        sr_left: false,
        sl_left: false,
    }
}

impl Default for ButtonState {
    fn default() -> (r: Self)
        ensures
            r == no_buttons(),
    {
        ButtonState {
            a: false,
            b: false,
            x: false,
            y: false,
            l: false,
            r: false,
            zl: false,
            zr: false,
            minus: false,
            plus: false,
            home: false,
            capture: false,
            stick_l: false,
            stick_r: false,
            dpad_up: false,
            dpad_down: false,
            dpad_left: false,
            dpad_right: false,
            sr_right: false,
            sl_right: false,
            sr_left: false,
            sl_left: false,
        }
    }
}

/// A button that a mapping can name.
#[derive(Clone, Copy, Debug, PartialEq, Eq, Structural)]
pub enum ButtonId {
    A,
    B,
    X,
    Y,
    Up,
    Down,
    Left,
    Right,
    L,
    R,
    Zl,
    Zr,
    Minus,
    Plus,
    Home,
    Capture,
    LStick,
    RStick,
}

impl ButtonState {
    /// Whether a button is held down.
    pub open spec fn held(self, id: ButtonId) -> bool {
        match id {
            ButtonId::A => self.a,
            ButtonId::B => self.b,
            ButtonId::X => self.x,
            ButtonId::Y => self.y,
            ButtonId::Up => self.dpad_up,
            ButtonId::Down => self.dpad_down,
            ButtonId::Left => self.dpad_left,
            ButtonId::Right => self.dpad_right,
            ButtonId::L => self.l,
            ButtonId::R => self.r,
            ButtonId::Zl => self.zl,
            ButtonId::Zr => self.zr,
            ButtonId::Minus => self.minus,
            ButtonId::Plus => self.plus,
            ButtonId::Home => self.home,
            ButtonId::Capture => self.capture,
            ButtonId::LStick => self.stick_l,
            ButtonId::RStick => self.stick_r,
        }
    }

    /// Whether a button is held down.
    pub fn get(&self, id: ButtonId) -> (r: bool)
        ensures
            r == self.held(id),
    {
        match id {
            ButtonId::A => self.a,
            ButtonId::B => self.b,
            ButtonId::X => self.x,
            ButtonId::Y => self.y,
            ButtonId::Up => self.dpad_up,
            ButtonId::Down => self.dpad_down,
            ButtonId::Left => self.dpad_left,
            ButtonId::Right => self.dpad_right,
            ButtonId::L => self.l,
            ButtonId::R => self.r,
            ButtonId::Zl => self.zl,
            ButtonId::Zr => self.zr,
            ButtonId::Minus => self.minus,
            ButtonId::Plus => self.plus,
            ButtonId::Home => self.home,
            ButtonId::Capture => self.capture,
            ButtonId::LStick => self.stick_l,
            ButtonId::RStick => self.stick_r,
        }
    }

    /// The buttons with one of them pressed or released.
    pub open spec fn with(self, id: ButtonId, down: bool) -> ButtonState {
        match id {
            ButtonId::A => ButtonState { a: down, ..self },
            ButtonId::B => ButtonState { b: down, ..self },
            ButtonId::X => ButtonState { x: down, ..self },
            ButtonId::Y => ButtonState { y: down, ..self },
            ButtonId::L => ButtonState { l: down, ..self },
            ButtonId::R => ButtonState { r: down, ..self },
            ButtonId::Zl => ButtonState { zl: down, ..self },
            ButtonId::Zr => ButtonState { zr: down, ..self },
            ButtonId::Minus => ButtonState { minus: down, ..self },
            ButtonId::Plus => ButtonState { plus: down, ..self },
            ButtonId::Home => ButtonState { home: down, ..self },
            ButtonId::Capture => ButtonState { capture: down, ..self },
            ButtonId::LStick => ButtonState { stick_l: down, ..self },
            ButtonId::RStick => ButtonState { stick_r: down, ..self },
            ButtonId::Up => ButtonState { dpad_up: down, ..self },
            ButtonId::Down => ButtonState { dpad_down: down, ..self },
            ButtonId::Left => ButtonState { dpad_left: down, ..self },
            ButtonId::Right => ButtonState { dpad_right: down, ..self },
        }
    }

    /// The buttons with one of them pressed or released.
    fn replaced(self, id: ButtonId, down: bool) -> (r: ButtonState)
        ensures
            r == self.with(id, down),
    {
        match id {
            ButtonId::A => {
                return ButtonState { a: down, ..self };
            },
            ButtonId::B => {
                return ButtonState { b: down, ..self };
            },
            ButtonId::X => {
                return ButtonState { x: down, ..self };
            },
            ButtonId::Y => {
                return ButtonState { y: down, ..self };
            },
            ButtonId::L => {
                return ButtonState { l: down, ..self };
            },
            ButtonId::R => {
                return ButtonState { r: down, ..self };
            },
            ButtonId::Zl => {
                return ButtonState { zl: down, ..self };
            },
            ButtonId::Zr => {
                return ButtonState { zr: down, ..self };
            },
            ButtonId::Minus => {
                return ButtonState { minus: down, ..self };
            },
            ButtonId::Plus => {
                return ButtonState { plus: down, ..self };
            },
            ButtonId::Home => {
                return ButtonState { home: down, ..self };
            },
            ButtonId::Capture => {
                return ButtonState { capture: down, ..self };
            },
            ButtonId::LStick => {
                return ButtonState { stick_l: down, ..self };
            },
            ButtonId::RStick => {
                return ButtonState { stick_r: down, ..self };
            },
            ButtonId::Up => {
                return ButtonState { dpad_up: down, ..self };
            },
            ButtonId::Down => {
                return ButtonState { dpad_down: down, ..self };
            },
            ButtonId::Left => {
                return ButtonState { dpad_left: down, ..self };
            },
            ButtonId::Right => {
                return ButtonState { dpad_right: down, ..self };
            },
        }
    }

    /// Presses or releases one button.
    pub fn set(&mut self, id: ButtonId, down: bool)
        ensures
            *final(self) == old(self).with(id, down),
    {
        *self = self.replaced(id, down);
    }
}

/// Setting one button gives it the new state and leaves every other button as
/// it was.
pub proof fn law_set_changes_one_button(b: ButtonState, id: ButtonId, down: bool, other: ButtonId)
    ensures
        b.with(id, down).held(other) == (if other == id { down } else { b.held(other) }),
{
    // Each button by itself: all of them at once are too many cases.
    match id {
        ButtonId::A => assert(b.with(id, down).held(other) == (if other == id { down } else { b.held(other) })),
        ButtonId::B => assert(b.with(id, down).held(other) == (if other == id { down } else { b.held(other) })),
        ButtonId::X => assert(b.with(id, down).held(other) == (if other == id { down } else { b.held(other) })),
        ButtonId::Y => assert(b.with(id, down).held(other) == (if other == id { down } else { b.held(other) })),
        ButtonId::L => assert(b.with(id, down).held(other) == (if other == id { down } else { b.held(other) })),
        ButtonId::R => assert(b.with(id, down).held(other) == (if other == id { down } else { b.held(other) })),
        ButtonId::Zl => assert(b.with(id, down).held(other) == (if other == id { down } else { b.held(other) })),
        ButtonId::Zr => assert(b.with(id, down).held(other) == (if other == id { down } else { b.held(other) })),
        ButtonId::Minus => assert(b.with(id, down).held(other) == (if other == id { down } else { b.held(other) })),
        ButtonId::Plus => assert(b.with(id, down).held(other) == (if other == id { down } else { b.held(other) })),
        ButtonId::Home => assert(b.with(id, down).held(other) == (if other == id { down } else { b.held(other) })),
        ButtonId::Capture => assert(b.with(id, down).held(other) == (if other == id { down } else { b.held(other) })),
        ButtonId::LStick => assert(b.with(id, down).held(other) == (if other == id { down } else { b.held(other) })),
        ButtonId::RStick => assert(b.with(id, down).held(other) == (if other == id { down } else { b.held(other) })),
        ButtonId::Up => assert(b.with(id, down).held(other) == (if other == id { down } else { b.held(other) })),
        ButtonId::Down => assert(b.with(id, down).held(other) == (if other == id { down } else { b.held(other) })),
        ButtonId::Left => assert(b.with(id, down).held(other) == (if other == id { down } else { b.held(other) })),
        ButtonId::Right => assert(b.with(id, down).held(other) == (if other == id { down } else { b.held(other) })),
    }
}

/// A stick as a report gives it: the raw readings and where they lie between
/// -1 and 1.
#[derive(Clone, Copy, Debug, PartialEq, Eq, Structural)]
pub struct StickState {
    pub x: Ratio,
    pub y: Ratio,
    pub raw_x: u16,
    pub raw_y: u16,
}

/// A stick of which nothing is known.
pub open spec fn empty_stick() -> StickState {
    StickState { x: numeric::zero_ratio(), y: numeric::zero_ratio(), raw_x: 0, raw_y: 0 }
}

impl Default for StickState {
    fn default() -> (r: Self)
        ensures
            r == empty_stick(),
    {
        StickState { x: Ratio::zero(), y: Ratio::zero(), raw_x: 0, raw_y: 0 }
    }
}

/// A stick position after shaping.
#[derive(Clone, Copy, Debug, PartialEq, Eq, Structural)]
pub struct StickVector {
    pub x: Real32,
    pub y: Real32,
}

/// A stick at rest.
pub open spec fn stick_at_rest() -> StickVector {
    StickVector { x: Real32 { bits: 0 }, y: Real32 { bits: 0 } }
}

impl Default for StickVector {
    fn default() -> (r: Self)
        ensures
            r == stick_at_rest(),
    {
        StickVector { x: Real32::zero(), y: Real32::zero() }
    }
}

// ---------------------------------------------------------------------------
// Calibration and device information
// ---------------------------------------------------------------------------

/// Center and reach of both sticks on each axis.
#[derive(Clone, Copy, Debug, PartialEq, Eq, Structural)]
pub struct StickCalibration {
    pub left_center_x: u16,
    pub left_center_y: u16,
    pub left_min_x: u16,
    pub left_min_y: u16,
    pub left_max_x: u16,
    pub left_max_y: u16,
    pub right_center_x: u16,
    pub right_center_y: u16,
    pub right_min_x: u16,
    pub right_min_y: u16,
    pub right_max_x: u16,
    pub right_max_y: u16,
    pub valid: bool,
}

/// A calibration of which nothing is known.
pub open spec fn empty_stick_calibration() -> StickCalibration {
    StickCalibration {
        left_center_x: 0,
        left_center_y: 0,
        left_min_x: 0,
        left_min_y: 0,
        left_max_x: 0,
        left_max_y: 0,
        right_center_x: 0,
        right_center_y: 0,
        right_min_x: 0,
        right_min_y: 0,
        right_max_x: 0,
        right_max_y: 0,
        valid: false,
    }
}

impl Default for StickCalibration {
    fn default() -> (r: Self)
        ensures
            r == empty_stick_calibration(),
    {
        StickCalibration {
            left_center_x: 0,
            left_center_y: 0,
            left_min_x: 0,
            left_min_y: 0,
            left_max_x: 0,
            left_max_y: 0,
            right_center_x: 0,
            right_center_y: 0,
            right_min_x: 0,
            right_min_y: 0,
            right_max_x: 0,
            right_max_y: 0,
            valid: false,
        }
    }
}

/// Origins and sensitivities of the motion sensor.
#[derive(Debug)]
pub struct ImuCalibration {
    pub accel_origin: [i16; 3],
    pub accel_sensitivity: [i16; 3],
    pub gyro_origin: [i16; 3],
    pub gyro_sensitivity: [i16; 3],
    pub source: String,
    pub horizontal_offsets: [i16; 3],
}

/// What an `ImuCalibration` holds.
#[verifier::ext_equal]
pub struct ImuCalibrationModel {
    pub accel_origin: [i16; 3],
    pub accel_sensitivity: [i16; 3],
    pub gyro_origin: [i16; 3],
    pub gyro_sensitivity: [i16; 3],
    pub source: Seq<char>,
    pub horizontal_offsets: [i16; 3],
}

impl DeepView for ImuCalibration {
    type V = ImuCalibrationModel;

    open spec fn deep_view(&self) -> ImuCalibrationModel {
        ImuCalibrationModel {
            accel_origin: self.accel_origin,
            accel_sensitivity: self.accel_sensitivity,
            gyro_origin: self.gyro_origin,
            gyro_sensitivity: self.gyro_sensitivity,
            source: self.source@,
            horizontal_offsets: self.horizontal_offsets,
        }
    }
}

impl Clone for ImuCalibration {
    fn clone(&self) -> (r: Self)
        ensures
            r.deep_view() == self.deep_view(),
    {
        ImuCalibration {
            accel_origin: self.accel_origin,
            accel_sensitivity: self.accel_sensitivity,
            gyro_origin: self.gyro_origin,
            gyro_sensitivity: self.gyro_sensitivity,
            source: self.source.clone(),
            horizontal_offsets: self.horizontal_offsets,
        }
    }
}

impl Default for ImuCalibration {
    fn default() -> (r: Self)
        ensures
            r.accel_origin@ == seq![0i16, 0, 0],
            r.accel_sensitivity@ == seq![0i16, 0, 0],
            r.gyro_origin@ == seq![0i16, 0, 0],
            r.gyro_sensitivity@ == seq![0i16, 0, 0],
            r.source@.len() == 0,
            r.horizontal_offsets@ == seq![0i16, 0, 0],
    {
        ImuCalibration {
            accel_origin: [0, 0, 0],
            accel_sensitivity: [0, 0, 0],
            gyro_origin: [0, 0, 0],
            gyro_sensitivity: [0, 0, 0],
            source: String::new(),
            horizontal_offsets: [0, 0, 0],
        }
    }
}

/// What the flash memory of a controller says of it.
#[derive(Debug)]
pub struct SpiInfo {
    pub serial: String,
    pub body_color: String,
    pub button_color: String,
    pub grip_color: String,
    pub use_spi_colors: bool,
    pub calibration: bool,
}

/// What a `SpiInfo` holds.
#[verifier::ext_equal]
pub struct SpiInfoModel {
    pub serial: Seq<char>,
    pub body_color: Seq<char>,
    pub button_color: Seq<char>,
    pub grip_color: Seq<char>,
    pub use_spi_colors: bool,
    pub calibration: bool,
}

impl DeepView for SpiInfo {
    type V = SpiInfoModel;

    open spec fn deep_view(&self) -> SpiInfoModel {
        SpiInfoModel {
            serial: self.serial@,
            body_color: self.body_color@,
            button_color: self.button_color@,
            grip_color: self.grip_color@,
            use_spi_colors: self.use_spi_colors,
            calibration: self.calibration,
        }
    }
}

/// Nothing has been read from the flash memory.
pub open spec fn no_spi_info() -> SpiInfoModel {
    SpiInfoModel {
        serial: Seq::empty(),
        body_color: Seq::empty(),
        button_color: Seq::empty(),
        grip_color: Seq::empty(),
        use_spi_colors: false,
        calibration: false,
    }
}

impl Clone for SpiInfo {
    fn clone(&self) -> (r: Self)
        ensures
            r.deep_view() == self.deep_view(),
    {
        SpiInfo {
            serial: self.serial.clone(),
            body_color: self.body_color.clone(),
            button_color: self.button_color.clone(),
            grip_color: self.grip_color.clone(),
            use_spi_colors: self.use_spi_colors,
            calibration: self.calibration,
        }
    }
}

impl Default for SpiInfo {
    fn default() -> (r: Self)
        ensures
            r.deep_view() == no_spi_info(),
    {
        SpiInfo {
            serial: String::new(),
            body_color: String::new(),
            button_color: String::new(),
            grip_color: String::new(),
            use_spi_colors: false,
            calibration: false,
        }
    }
}

/// What a controller says of itself.
#[derive(Debug)]
pub struct DeviceInfo {
    pub firmware_version: String,
    pub controller_type: u8,
    pub mac_address: String,
    pub colors_from_spi: bool,
    pub connection: String,
    pub spi: Option<SpiInfo>,
}

/// What a `DeviceInfo` holds.
#[verifier::ext_equal]
pub struct DeviceInfoModel {
    pub firmware_version: Seq<char>,
    pub controller_type: u8,
    pub mac_address: Seq<char>,
    pub colors_from_spi: bool,
    pub connection: Seq<char>,
    pub spi: Option<SpiInfoModel>,
}

impl DeepView for DeviceInfo {
    type V = DeviceInfoModel;

    open spec fn deep_view(&self) -> DeviceInfoModel {
        DeviceInfoModel {
            firmware_version: self.firmware_version@,
            controller_type: self.controller_type,
            mac_address: self.mac_address@,
            colors_from_spi: self.colors_from_spi,
            connection: self.connection@,
            spi: self.spi.deep_view(),
        }
    }
}

/// The controller has said nothing of itself.
pub open spec fn no_device_info() -> DeviceInfoModel {
    DeviceInfoModel {
        firmware_version: Seq::empty(),
        controller_type: 0,
        mac_address: Seq::empty(),
        colors_from_spi: false,
        connection: Seq::empty(),
        spi: None,
    }
}

impl Clone for DeviceInfo {
    fn clone(&self) -> (r: Self)
        ensures
            r.deep_view() == self.deep_view(),
    {
        DeviceInfo {
            firmware_version: self.firmware_version.clone(),
            controller_type: self.controller_type,
            mac_address: self.mac_address.clone(),
            colors_from_spi: self.colors_from_spi,
            connection: self.connection.clone(),
            spi: match &self.spi {
                Some(s) => Some(s.clone()),
                None => None,
            },
        }
    }
}

impl Default for DeviceInfo {
    fn default() -> (r: Self)
        ensures
            r.deep_view() == no_device_info(),
    {
        DeviceInfo {
            firmware_version: String::new(),
            controller_type: 0,
            mac_address: String::new(),
            colors_from_spi: false,
            connection: String::new(),
            spi: None,
        }
    }
}

// ---------------------------------------------------------------------------
// The controller
// ---------------------------------------------------------------------------

/// The player lights: which are on and which flash.
#[derive(Clone, Copy, Debug, PartialEq, Eq, Structural)]
pub struct PlayerLights {
    pub led_mask: u8,
    pub flash_pattern: u8,
}

/// How well reports arrive.
#[derive(Clone, Copy, Debug, PartialEq, Eq, Structural)]
pub struct ConnectionQuality {
    /// Milliseconds between the last two reports.
    pub latency_ms: u64,
    pub report_rate_hz: u16,
    /// Dropped reports in percent of all reports.
    pub packet_loss_rate: Ratio,
    pub total_packets: u32,
    pub dropped: u32,
    pub last_report_timer: u8,
}

/// No report has arrived.
pub open spec fn no_quality() -> ConnectionQuality {
    ConnectionQuality {
        latency_ms: 0,
        report_rate_hz: 0,
        packet_loss_rate: numeric::zero_ratio(),
        total_packets: 0,
        dropped: 0,
        last_report_timer: 0,
    }
}

impl Default for ConnectionQuality {
    fn default() -> (r: Self)
        ensures
            r == no_quality(),
    {
        ConnectionQuality {
            latency_ms: 0,
            report_rate_hz: 0,
            packet_loss_rate: Ratio::zero(),
            total_packets: 0,
            dropped: 0,
            last_report_timer: 0,
        }
    }
}

/// Everything that is known of one controller.
#[derive(Debug)]
pub struct ControllerState {
    pub connected: bool,
    pub slot_index: u8,
    pub connection_type: ConnectionType,
    pub buttons: ButtonState,
    pub left_stick: StickState,
    pub right_stick: StickState,
    /// The left stick after calibration and shaping.
    pub left_output: StickVector,
    /// The right stick after calibration and shaping.
    pub right_output: StickVector,
    pub battery_raw: u8,
    pub battery_percent: u8,
    pub charging: bool,
    pub battery_voltage_mv: u16,
    pub imu: Option<ImuData>,
    pub imu_enabled: bool,
    pub vibration_enabled: bool,
    pub stick_calibration: Option<StickCalibration>,
    pub imu_calibration: Option<ImuCalibration>,
    pub device_info: Option<DeviceInfo>,
    pub player_lights: PlayerLights,
    pub connection_quality: ConnectionQuality,
    pub camera_yaw: Real32,
    pub flick_active: bool,
    pub gyro_mouse_delta: (i32, i32),
    pub validated: bool,
    pub timestamp: u64,
}

/// What a `ControllerState` holds.
#[verifier::ext_equal]
pub struct ControllerModel {
    pub connected: bool,
    pub slot_index: u8,
    pub connection_type: ConnectionType,
    pub buttons: ButtonState,
    pub left_stick: StickState,
    pub right_stick: StickState,
    pub left_output: StickVector,
    pub right_output: StickVector,
    pub battery_raw: u8,
    pub battery_percent: u8,
    pub charging: bool,
    pub battery_voltage_mv: u16,
    pub imu: Option<ImuData>,
    pub imu_enabled: bool,
    pub vibration_enabled: bool,
    pub stick_calibration: Option<StickCalibration>,
    pub imu_calibration: Option<ImuCalibrationModel>,
    pub device_info: Option<DeviceInfoModel>,
    pub player_lights: PlayerLights,
    pub connection_quality: ConnectionQuality,
    pub camera_yaw: Real32,
    pub flick_active: bool,
    pub gyro_mouse_delta: (i32, i32),
    pub validated: bool,
    pub timestamp: u64,
}

impl DeepView for ControllerState {
    type V = ControllerModel;

    open spec fn deep_view(&self) -> ControllerModel {
        ControllerModel {
            connected: self.connected,
            slot_index: self.slot_index,
            connection_type: self.connection_type,
            buttons: self.buttons,
            left_stick: self.left_stick,
            right_stick: self.right_stick,
            left_output: self.left_output,
            right_output: self.right_output,
            battery_raw: self.battery_raw,
            battery_percent: self.battery_percent,
            charging: self.charging,
            battery_voltage_mv: self.battery_voltage_mv,
            imu: self.imu,
            imu_enabled: self.imu_enabled,
            vibration_enabled: self.vibration_enabled,
            stick_calibration: self.stick_calibration,
            imu_calibration: self.imu_calibration.deep_view(),
            device_info: self.device_info.deep_view(),
            player_lights: self.player_lights,
            connection_quality: self.connection_quality,
            camera_yaw: self.camera_yaw,
            flick_active: self.flick_active,
            gyro_mouse_delta: self.gyro_mouse_delta,
            validated: self.validated,
            timestamp: self.timestamp,
        }
    }
}

/// A controller that nothing has been heard of.
pub open spec fn fresh_controller(slot: u8) -> ControllerModel {
    ControllerModel {
        connected: false,
        slot_index: slot,
        connection_type: ConnectionType::Bluetooth,
        buttons: no_buttons(),
        left_stick: empty_stick(),
        right_stick: empty_stick(),
        left_output: stick_at_rest(),
        right_output: stick_at_rest(),
        battery_raw: 0,
        battery_percent: 0,
        charging: false,
        battery_voltage_mv: 0,
        imu: None,
        imu_enabled: false,
        vibration_enabled: false,
        stick_calibration: None,
        imu_calibration: None,
        device_info: None,
        player_lights: PlayerLights { led_mask: 0, flash_pattern: 0 },
        connection_quality: no_quality(),
        camera_yaw: Real32 { bits: 0 },
        flick_active: false,
        gyro_mouse_delta: (0, 0),
        validated: false,
        timestamp: 0,
    }
}

impl ControllerState {
    /// A controller that nothing has been heard of, in the given slot.
    pub fn in_slot(slot: u8) -> (r: Self)
        ensures
            r.deep_view() == fresh_controller(slot),
    {
        ControllerState {
            connected: false,
            slot_index: slot,
            connection_type: ConnectionType::Bluetooth,
            buttons: ButtonState::default(),
            left_stick: StickState::default(),
            right_stick: StickState::default(),
            left_output: StickVector::default(),
            right_output: StickVector::default(),
            battery_raw: 0,
            battery_percent: 0,
            charging: false,
            battery_voltage_mv: 0,
            imu: None,
            imu_enabled: false,
            vibration_enabled: false,
            stick_calibration: None,
            imu_calibration: None,
            device_info: None,
            player_lights: PlayerLights { led_mask: 0, flash_pattern: 0 },
            connection_quality: ConnectionQuality::default(),
            camera_yaw: Real32::zero(),
            flick_active: false,
            gyro_mouse_delta: (0, 0),
            validated: false,
            timestamp: 0,
        }
    }
}

impl Default for ControllerState {
    fn default() -> (r: Self)
        ensures
            r.deep_view() == fresh_controller(0),
    {
        ControllerState::in_slot(0)
    }
}

impl Clone for ControllerState {
    fn clone(&self) -> (r: Self)
        ensures
            r.deep_view() == self.deep_view(),
    {
        ControllerState {
            connected: self.connected,
            slot_index: self.slot_index,
            connection_type: self.connection_type,
            buttons: self.buttons,
            left_stick: self.left_stick,
            right_stick: self.right_stick,
            left_output: self.left_output,
            right_output: self.right_output,
            battery_raw: self.battery_raw,
            battery_percent: self.battery_percent,
            charging: self.charging,
            battery_voltage_mv: self.battery_voltage_mv,
            imu: self.imu,
            imu_enabled: self.imu_enabled,
            vibration_enabled: self.vibration_enabled,
            stick_calibration: self.stick_calibration,
            imu_calibration: match &self.imu_calibration {
                Some(c) => Some(c.clone()),
                None => None,
            },
            device_info: match &self.device_info {
                Some(d) => Some(d.clone()),
                None => None,
            },
            player_lights: self.player_lights,
            connection_quality: self.connection_quality,
            camera_yaw: self.camera_yaw,
            flick_active: self.flick_active,
            gyro_mouse_delta: self.gyro_mouse_delta,
            validated: self.validated,
            timestamp: self.timestamp,
        }
    }
}

// ---------------------------------------------------------------------------
// Events
// ---------------------------------------------------------------------------

/// What the application is told.
#[derive(Debug)]
#[allow(inconsistent_fields)]
pub enum IpcEvent {
    Reconnected,
    Disconnected { reason: String },
    RawHidReport { hex: String, report_id: u8 },
    DriftDetected { stick: String, status: String },
    ImuData { frames: ImuData, timestamp: u64 },
    ConnectionQuality { data: ConnectionQuality },
    ControllerState { data: ControllerState },
    DeviceInfo { data: DeviceInfo },
    CalibrationData { stick: StickCalibration, imu: ImuCalibration },
    SubcommandReply { subcmd_id: u8, ack: u8, data: Vec<u8> },
    BatteryState { percent: u8, charging: bool, raw: u8, health: String },
    BatteryWarning { percent: u8 },
    BluetoothPowerEvent { event_type: String, timestamp: u64 },
    LogMessage { level: String, message: String },
    NfcTagScanned { tag: NfcTagData },
    ProfileChanged { profile_id: Option<String>, profile_name: Option<String> },
}

/// What an `IpcEvent` says.
#[verifier::ext_equal]
#[allow(inconsistent_fields)]
pub enum IpcEventModel {
    Reconnected,
    Disconnected { reason: Seq<char> },
    RawHidReport { hex: Seq<char>, report_id: u8 },
    DriftDetected { stick: Seq<char>, status: Seq<char> },
    ImuData { frames: ImuData, timestamp: u64 },
    ConnectionQuality { data: ConnectionQuality },
    ControllerState { data: ControllerModel },
    DeviceInfo { data: DeviceInfoModel },
    CalibrationData { stick: StickCalibration, imu: ImuCalibrationModel },
    SubcommandReply { subcmd_id: u8, ack: u8, data: Seq<u8> },
    BatteryState { percent: u8, charging: bool, raw: u8, health: Seq<char> },
    BatteryWarning { percent: u8 },
    BluetoothPowerEvent { event_type: Seq<char>, timestamp: u64 },
    LogMessage { level: Seq<char>, message: Seq<char> },
    NfcTagScanned { tag: NfcTagData },
    ProfileChanged { profile_id: Option<Seq<char>>, profile_name: Option<Seq<char>> },
}

impl DeepView for IpcEvent {
    type V = IpcEventModel;

    open spec fn deep_view(&self) -> IpcEventModel {
        match *self {
            IpcEvent::Reconnected => IpcEventModel::Reconnected,
            IpcEvent::Disconnected { reason } => IpcEventModel::Disconnected { reason: reason@ },
            IpcEvent::RawHidReport { hex, report_id } => IpcEventModel::RawHidReport {
                hex: hex@,
                report_id,
            },
            IpcEvent::DriftDetected { stick, status } => IpcEventModel::DriftDetected {
                stick: stick@,
                status: status@,
            },
            IpcEvent::ImuData { frames, timestamp } => IpcEventModel::ImuData {
                frames,
                timestamp,
            },
            IpcEvent::ConnectionQuality { data } => IpcEventModel::ConnectionQuality { data },
            IpcEvent::ControllerState { data } => IpcEventModel::ControllerState {
                data: data.deep_view(),
            },
            IpcEvent::DeviceInfo { data } => IpcEventModel::DeviceInfo { data: data.deep_view() },
            IpcEvent::CalibrationData { stick, imu } => IpcEventModel::CalibrationData {
                stick,
                imu: imu.deep_view(),
            },
            IpcEvent::SubcommandReply { subcmd_id, ack, data } => IpcEventModel::SubcommandReply {
                subcmd_id,
                ack,
                data: data@,
            },
            IpcEvent::BatteryState { percent, charging, raw, health } =>
                IpcEventModel::BatteryState { percent, charging, raw, health: health@ },
            IpcEvent::BatteryWarning { percent } => IpcEventModel::BatteryWarning { percent },
            IpcEvent::BluetoothPowerEvent { event_type, timestamp } =>
                IpcEventModel::BluetoothPowerEvent { event_type: event_type@, timestamp },
            IpcEvent::LogMessage { level, message } => IpcEventModel::LogMessage {
                level: level@,
                message: message@,
            },
            IpcEvent::NfcTagScanned { tag } => IpcEventModel::NfcTagScanned { tag },
            IpcEvent::ProfileChanged { profile_id, profile_name } => IpcEventModel::ProfileChanged {
                profile_id: profile_id.deep_view(),
                profile_name: profile_name.deep_view(),
            },
        }
    }
}

// ---------------------------------------------------------------------------
// Laws
// ---------------------------------------------------------------------------

/// Each button by its name is the button of that name.
pub proof fn law_buttons_by_name(b: ButtonState, id: ButtonId)
    ensures
        b.held(ButtonId::A) == b.a,
        b.held(ButtonId::B) == b.b,
        b.held(ButtonId::X) == b.x,
        b.held(ButtonId::Y) == b.y,
        b.held(ButtonId::Up) == b.dpad_up,
        b.held(ButtonId::Down) == b.dpad_down,
        b.held(ButtonId::Left) == b.dpad_left,
        b.held(ButtonId::Right) == b.dpad_right,
        b.held(ButtonId::L) == b.l,
        b.held(ButtonId::R) == b.r,
        b.held(ButtonId::Zl) == b.zl,
        b.held(ButtonId::Zr) == b.zr,
        b.held(ButtonId::Minus) == b.minus,
        b.held(ButtonId::Plus) == b.plus,
        b.held(ButtonId::Home) == b.home,
        b.held(ButtonId::Capture) == b.capture,
        b.held(ButtonId::LStick) == b.stick_l,
        b.held(ButtonId::RStick) == b.stick_r,
        !no_buttons().held(id),
{
}

/// Connections by their names.
pub proof fn law_connection_names(c: ConnectionType)
    ensures
        c == ConnectionType::Usb ==> connection_name(c) == "USB"@,
        c == ConnectionType::Bluetooth ==> connection_name(c) == "Bluetooth"@,
{
}

/// A controller that nothing has been heard of is not connected, holds no
/// button, rests, and has neither a calibration nor a battery.
pub proof fn law_fresh_controller(slot: u8)
    ensures
        ({
            let c = fresh_controller(slot);
            &&& c.slot_index == slot
            &&& !c.connected && !c.validated && !c.charging
            &&& c.buttons == no_buttons()
            &&& c.left_stick.x.num == 0 && c.left_stick.y.num == 0
            &&& c.right_stick.x.num == 0 && c.right_stick.y.num == 0
            &&& c.left_output.x.null() && c.left_output.y.null()
            &&& c.right_output.x.null() && c.right_output.y.null()
            &&& c.battery_percent == 0 && c.battery_raw == 0 && c.battery_voltage_mv == 0
            &&& c.stick_calibration is None && c.imu_calibration is None
            &&& c.device_info is None && c.imu is None
            &&& !c.imu_enabled && !c.vibration_enabled
            &&& c.connection_quality.total_packets == 0 && c.connection_quality.dropped == 0
        }),
{
}

} // verus!
