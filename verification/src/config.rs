//! The configuration of the application: its defaults, what makes one valid,
//! and where it is kept.

use vstd::prelude::*;
use vstd::utf8::encode_utf8;

use crate::flick_stick;
use crate::flick_stick::{RightStickConfig, RightStickMode};
use crate::mappings;
use crate::mappings::Mappings;
use crate::numeric::{HALF_BITS, ONE_BITS, Real32, THREE_BITS, TWO_FIFTHS_BITS};
use crate::text;
use crate::text::same;

verus! {

/// The byte of a slash.
pub const SLASH: u8 = 0x2F;

/// The byte of a backslash.
pub const BACKSLASH: u8 = 0x5C;

/// The schema version that is written.
pub const CURRENT_SCHEMA_VERSION: u32 = 1;

/// Which button each of the four face buttons stands for.
#[derive(Debug, PartialEq, Eq)]
pub struct RemapConfig {
    pub a_to: String,
    pub b_to: String,
    pub x_to: String,
    pub y_to: String,
}

/// The layout with the letters of the other vendor.
pub open spec fn is_swapped(r: RemapConfig) -> bool {
    r.a_to@ == "b"@ && r.b_to@ == "a"@ && r.x_to@ == "y"@ && r.y_to@ == "x"@
}

impl Default for RemapConfig {
    fn default() -> (r: Self)
        ensures
            is_swapped(r),
    {
        RemapConfig {
            a_to: "b".to_string(),
            b_to: "a".to_string(),
            x_to: "y".to_string(),
            y_to: "x".to_string(),
        }
    }
}

/// How sticks are calibrated and shaped.
#[derive(Debug, PartialEq, Eq)]
pub struct StickCalibrationConfig {
    pub adaptive_deadzone_enabled: bool,
    pub center_auto_cal_enabled: bool,
    pub drift_detection_enabled: bool,
    pub gate_calibration_enabled: bool,
    pub response_curve_type: String,
    pub response_curve_power: Real32,
    pub bezier_p1: (Real32, Real32),
    pub bezier_p2: (Real32, Real32),
    pub deadzone_safety_margin: Real32,
    pub min_deadzone: Real32,
    pub max_deadzone: Real32,
    pub deadzone_shape: String,
}

/// An exponential curve of power 1.3 and a radial deadzone, both adapted to
/// the stick.
pub open spec fn is_default_calibration(r: StickCalibrationConfig) -> bool {
    &&& r.adaptive_deadzone_enabled && r.center_auto_cal_enabled && r.drift_detection_enabled
    &&& !r.gate_calibration_enabled
    &&& r.response_curve_type@ == "exponential"@
    &&& r.response_curve_power.bits == 0x3FA6_6666
    &&& r.bezier_p1 == (Real32 { bits: 0x3E99_999A }, Real32 { bits: 0x3F66_6666 })
    &&& r.bezier_p2 == (Real32 { bits: 0x3F33_3333 }, Real32 { bits: 0x3DCC_CCCD })
    &&& r.deadzone_safety_margin.bits == 0x3FC0_0000
    &&& r.min_deadzone.bits == 0x3C23_D70A
    &&& r.max_deadzone.bits == 0x3E19_999A
    &&& r.deadzone_shape@ == "radial"@
}

impl Default for StickCalibrationConfig {
    fn default() -> (r: Self)
        ensures
            is_default_calibration(r),
    {
        StickCalibrationConfig {
            adaptive_deadzone_enabled: true,
            center_auto_cal_enabled: true,
            drift_detection_enabled: true,
            gate_calibration_enabled: false,
            response_curve_type: "exponential".to_string(),
            response_curve_power: Real32::from_bits(0x3FA6_6666),
            bezier_p1: (Real32::from_bits(0x3E99_999A), Real32::from_bits(0x3F66_6666)),
            bezier_p2: (Real32::from_bits(0x3F33_3333), Real32::from_bits(0x3DCC_CCCD)),
            deadzone_safety_margin: Real32::from_bits(0x3FC0_0000),
            min_deadzone: Real32::from_bits(0x3C23_D70A),
            max_deadzone: Real32::from_bits(0x3E19_999A),
            deadzone_shape: "radial".to_string(),
        }
    }
}

/// How keyboard and mouse are driven.
#[derive(Clone, Copy, Debug, PartialEq, Eq, Structural)]
pub struct KbmConfig {
    pub enabled: bool,
    pub anti_cheat_mode: bool,
    pub mouse_sensitivity: Real32,
    pub key_repeat_delay_ms: u32,
    pub key_repeat_rate_ms: u32,
}

/// Off; a sensitivity of one, a delay of 250 ms and a rate of 33 ms.
pub open spec fn default_kbm() -> KbmConfig {
    KbmConfig {
        enabled: false,
        anti_cheat_mode: false,
        mouse_sensitivity: Real32 { bits: ONE_BITS },
        key_repeat_delay_ms: 250,
        key_repeat_rate_ms: 33,
    }
}

impl Default for KbmConfig {
    fn default() -> (r: Self)
        ensures
            r == default_kbm(),
    {
        KbmConfig {
            enabled: false,
            anti_cheat_mode: false,
            mouse_sensitivity: Real32::from_bits(ONE_BITS),
            key_repeat_delay_ms: 250,
            key_repeat_rate_ms: 33,
        }
    }
}

/// Where the motion server listens.
#[derive(Debug, PartialEq, Eq)]
pub struct DsuConfig {
    pub enabled: bool,
    pub bind_address: String,
    pub port: u16,
    pub update_rate_hz: u32,
}

/// Off; on this machine only, at the port that clients expect.
pub open spec fn is_default_dsu(r: DsuConfig) -> bool {
    !r.enabled && r.bind_address@ == "127.0.0.1"@ && r.port == 26760 && r.update_rate_hz == 60
}

impl Default for DsuConfig {
    fn default() -> (r: Self)
        ensures
            is_default_dsu(r),
    {
        DsuConfig {
            enabled: false,
            bind_address: "127.0.0.1".to_string(),
            port: 26760,
            update_rate_hz: 60,
        }
    }
}

/// What must hold of a controller before its reports are passed on.
#[derive(Clone, Copy, Debug, PartialEq, Eq, Structural)]
pub struct ValidationConfig {
    /// Whether controllers are checked at all.
    pub enable_real_device_checks: bool,
    /// Whether the sticks must be calibrated.
    pub strict_calibration_requirements: bool,
    /// Whether every controller passes.
    pub mock_mode: bool,
    /// Whether the virtual controller's driver must be connected.
    pub require_vigembus: bool,
    /// Whether the physical controller must be hidden.
    pub require_hidhide: bool,
}

/// Nothing is required.
pub open spec fn lenient() -> ValidationConfig {
    ValidationConfig {
        enable_real_device_checks: false,
        strict_calibration_requirements: false,
        mock_mode: false,
        require_vigembus: false,
        require_hidhide: false,
    }
}

impl Default for ValidationConfig {
    fn default() -> (r: Self)
        ensures
            r == lenient(),
    {
        ValidationConfig {
            enable_real_device_checks: false,
            strict_calibration_requirements: false,
            mock_mode: false,
            require_vigembus: false,
            require_hidhide: false,
        }
    }
}

/// What the user is notified of.
#[derive(Clone, Copy, Debug, PartialEq, Eq, Structural)]
pub struct NotificationConfig {
    pub enabled: bool,
    pub critical_enabled: bool,
    pub warning_enabled: bool,
    pub info_enabled: bool,
    pub notify_disconnect: bool,
    pub notify_bt_power: bool,
    pub notify_low_battery: bool,
    pub notify_drift: bool,
    pub notify_reconnect: bool,
}

/// The user is notified of everything.
pub open spec fn all_notifications() -> NotificationConfig {
    NotificationConfig {
        enabled: true,
        critical_enabled: true,
        warning_enabled: true,
        info_enabled: true,
        notify_disconnect: true,
        notify_bt_power: true,
        notify_low_battery: true,
        notify_drift: true,
        notify_reconnect: true,
    }
}

impl Default for NotificationConfig {
    fn default() -> (r: Self)
        ensures
            r == all_notifications(),
    {
        NotificationConfig {
            enabled: true,
            critical_enabled: true,
            warning_enabled: true,
            info_enabled: true,
            notify_disconnect: true,
            notify_bt_power: true,
            notify_low_battery: true,
            notify_drift: true,
            notify_reconnect: true,
        }
    }
}

/// The configuration.
#[derive(Debug)]
pub struct AppConfig {
    pub deadzone_left: Real32,
    pub deadzone_right: Real32,
    pub keepalive_interval_ms: u64,
    pub adaptive_keepalive: bool,
    pub battery_warning_threshold: u8,
    pub mock_mode: bool,
    pub config_persistence_enabled: bool,
    pub auto_reconnect: bool,
    pub reconnect_interval_s: u64,
    pub bt_power_detection_enabled: bool,
    pub battery_polling_interval_s: u64,
    pub close_to_tray: bool,
    pub auto_start: bool,
    pub tray_minimize: bool,
    pub hidhide_enabled: bool,
    pub hidhide_auto_hide: bool,
    pub crash_reporting_enabled: bool,
    pub crash_reporting_dsn: Option<String>,
    pub telemetry_enabled: bool,
    pub telemetry_key: Option<String>,
    pub update_endpoint: String,
    pub real_device_validation: bool,
    pub per_controller_profile: Vec<Option<String>>,
    pub button_remap: RemapConfig,
    pub stick_calibration_config: StickCalibrationConfig,
    pub mappings: Mappings,
    pub kbm_config: KbmConfig,
    pub right_stick: RightStickConfig,
    pub dsu: DsuConfig,
    pub validation: ValidationConfig,
    pub notification_config: NotificationConfig,
}

impl Default for AppConfig {
    fn default() -> (r: Self)
        ensures
            r.deadzone_left.bits == 0x3DA3_D70A,
            r.deadzone_right.bits == 0x3DA3_D70A,
            r.keepalive_interval_ms == 3000,
            r.adaptive_keepalive,
            r.battery_warning_threshold == 15,
            !r.mock_mode,
            r.config_persistence_enabled,
            r.auto_reconnect,
            r.reconnect_interval_s == 3,
            r.bt_power_detection_enabled,
            r.battery_polling_interval_s == 30,
            r.close_to_tray,
            !r.auto_start,
            r.tray_minimize,
            !r.hidhide_enabled && !r.hidhide_auto_hide,
            !r.crash_reporting_enabled && r.crash_reporting_dsn is None,
            !r.telemetry_enabled && r.telemetry_key is None,
            r.update_endpoint@ == ""@,
            !r.real_device_validation,
            r.per_controller_profile@ == seq![None::<String>, None, None, None],
            is_swapped(r.button_remap),
            is_default_calibration(r.stick_calibration_config),
            is_default_dsu(r.dsu),
            mappings::is_unmapped(r.mappings),
            r.kbm_config == default_kbm(),
            r.right_stick.mode == RightStickMode::Camera,
            r.right_stick.flick_stick == flick_stick::default_flick_config(),
            r.validation == lenient(),
            r.notification_config == all_notifications(),
            config_fault(r) is None,
    {
        let r = AppConfig {
            deadzone_left: Real32::from_bits(0x3DA3_D70A),
            deadzone_right: Real32::from_bits(0x3DA3_D70A),
            keepalive_interval_ms: 3000,
            adaptive_keepalive: true,
            battery_warning_threshold: 15,
            mock_mode: false,
            config_persistence_enabled: true,
            auto_reconnect: true,
            reconnect_interval_s: 3,
            bt_power_detection_enabled: true,
            battery_polling_interval_s: 30,
            close_to_tray: true,
            auto_start: false,
            tray_minimize: true,
            hidhide_enabled: false,
            hidhide_auto_hide: false,
            crash_reporting_enabled: false,
            crash_reporting_dsn: None,
            telemetry_enabled: false,
            telemetry_key: None,
            update_endpoint: "".to_string(),
            real_device_validation: false,
            per_controller_profile: vec![None, None, None, None],
            button_remap: RemapConfig::default(),
            stick_calibration_config: StickCalibrationConfig::default(),
            mappings: Mappings::default(),
            kbm_config: KbmConfig::default(),
            right_stick: RightStickConfig::default(),
            dsu: DsuConfig::default(),
            validation: ValidationConfig::default(),
            notification_config: NotificationConfig::default(),
        };
        r
    }
}

/// A configuration with the version of its schema.
#[derive(Debug)]
pub struct PersistedConfig {
    pub schema_version: u32,
    pub config: AppConfig,
}

impl PersistedConfig {
    /// A configuration as it is written.
    pub fn new(config: AppConfig) -> (r: Self)
        ensures
            r.schema_version == CURRENT_SCHEMA_VERSION,
            r.config == config,
    {
        PersistedConfig { schema_version: CURRENT_SCHEMA_VERSION, config }
    }
}

/// A configuration of any schema version as one of the current schema. There
/// is one schema so far, so nothing changes.
pub fn migrate(persisted: PersistedConfig) -> (r: PersistedConfig)
    ensures
        r == persisted,
{
    persisted
}

// ---------------------------------------------------------------------------
// Validity
// ---------------------------------------------------------------------------

/// A face button whose remapping can be wrong.
#[derive(Clone, Copy, Debug, PartialEq, Eq, Structural)]
pub enum RemapField {
    A,
    B,
    X,
    Y,
}

/// Why a configuration is not valid.
#[derive(Debug, PartialEq, Eq)]
pub enum ConfigError {
    DeadzoneLeft(Real32),
    DeadzoneRight(Real32),
    KeepaliveInterval(u64),
    BatteryThreshold(u8),
    Remap(RemapField, String),
    CurveType(String),
    CurvePower(Real32),
    SafetyMargin(Real32),
    MinDeadzone(Real32),
    MaxDeadzone(Real32),
    DeadzoneOrder(Real32, Real32),
    DeadzoneShape(String),
    ReconnectInterval(u64),
    PollingInterval(u64),
}

/// What a `ConfigError` says.
#[verifier::ext_equal]
pub enum ConfigFault {
    DeadzoneLeft(Real32),
    DeadzoneRight(Real32),
    KeepaliveInterval(u64),
    BatteryThreshold(u8),
    Remap(RemapField, Seq<char>),
    CurveType(Seq<char>),
    CurvePower(Real32),
    SafetyMargin(Real32),
    MinDeadzone(Real32),
    MaxDeadzone(Real32),
    DeadzoneOrder(Real32, Real32),
    DeadzoneShape(Seq<char>),
    ReconnectInterval(u64),
    PollingInterval(u64),
}

impl View for ConfigError {
    type V = ConfigFault;

    open spec fn view(&self) -> ConfigFault {
        match *self {
            ConfigError::DeadzoneLeft(v) => ConfigFault::DeadzoneLeft(v),
            ConfigError::DeadzoneRight(v) => ConfigFault::DeadzoneRight(v),
            ConfigError::KeepaliveInterval(v) => ConfigFault::KeepaliveInterval(v),
            ConfigError::BatteryThreshold(v) => ConfigFault::BatteryThreshold(v),
            ConfigError::Remap(f, s) => ConfigFault::Remap(f, s@),
            ConfigError::CurveType(s) => ConfigFault::CurveType(s@),
            ConfigError::CurvePower(v) => ConfigFault::CurvePower(v),
            ConfigError::SafetyMargin(v) => ConfigFault::SafetyMargin(v),
            ConfigError::MinDeadzone(v) => ConfigFault::MinDeadzone(v),
            ConfigError::MaxDeadzone(v) => ConfigFault::MaxDeadzone(v),
            ConfigError::DeadzoneOrder(a, b) => ConfigFault::DeadzoneOrder(a, b),
            ConfigError::DeadzoneShape(s) => ConfigFault::DeadzoneShape(s@),
            ConfigError::ReconnectInterval(v) => ConfigFault::ReconnectInterval(v),
            ConfigError::PollingInterval(v) => ConfigFault::PollingInterval(v),
        }
    }
}

/// Whether a value lies outside a range, as a NaN does.
pub open spec fn outside(v: Real32, lo: u32, hi: u32) -> bool {
    v.nan() || v.below(Real32 { bits: lo }) || (Real32 { bits: hi }).below(v)
}

/// The names that a button can be remapped to.
pub open spec fn is_button_name(s: Seq<char>) -> bool {
    ||| s == "a"@
    ||| s == "b"@
    ||| s == "x"@
    ||| s == "y"@
    ||| s == "l"@
    ||| s == "r"@
    ||| s == "zl"@
    ||| s == "zr"@
    ||| s == "minus"@
    ||| s == "plus"@
    ||| s == "home"@
    ||| s == "capture"@
    ||| s == "stick_l"@
    ||| s == "stick_r"@
}

/// The names of the response curves.
pub open spec fn is_curve_name(s: Seq<char>) -> bool {
    s == "linear"@ || s == "exponential"@ || s == "s-curve"@ || s == "bezier"@
}

/// The names of the deadzone shapes.
pub open spec fn is_shape_name(s: Seq<char>) -> bool {
    s == "radial"@ || s == "axial"@ || s == "elliptic"@
}

/// The first face button, of A, B, X and Y, that is remapped to no button.
pub open spec fn remap_fault(m: RemapConfig) -> Option<ConfigFault> {
    if !is_button_name(m.a_to@) {
        Some(ConfigFault::Remap(RemapField::A, m.a_to@))
    } else if !is_button_name(m.b_to@) {
        Some(ConfigFault::Remap(RemapField::B, m.b_to@))
    } else if !is_button_name(m.x_to@) {
        Some(ConfigFault::Remap(RemapField::X, m.x_to@))
    } else if !is_button_name(m.y_to@) {
        Some(ConfigFault::Remap(RemapField::Y, m.y_to@))
    } else {
        None
    }
}

/// What is wrong with a stick configuration, if anything.
pub open spec fn stick_fault(c: StickCalibrationConfig) -> Option<ConfigFault> {
    if !is_curve_name(c.response_curve_type@) {
        Some(ConfigFault::CurveType(c.response_curve_type@))
    } else if outside(c.response_curve_power, HALF_BITS, THREE_BITS) {
        Some(ConfigFault::CurvePower(c.response_curve_power))
    } else if outside(c.deadzone_safety_margin, ONE_BITS, THREE_BITS) {
        Some(ConfigFault::SafetyMargin(c.deadzone_safety_margin))
    } else if outside(c.min_deadzone, 0, HALF_BITS) {
        Some(ConfigFault::MinDeadzone(c.min_deadzone))
    } else if outside(c.max_deadzone, 0, HALF_BITS) {
        Some(ConfigFault::MaxDeadzone(c.max_deadzone))
    } else if c.max_deadzone.below(c.min_deadzone) {
        Some(ConfigFault::DeadzoneOrder(c.min_deadzone, c.max_deadzone))
    } else if !is_shape_name(c.deadzone_shape@) {
        Some(ConfigFault::DeadzoneShape(c.deadzone_shape@))
    } else {
        None
    }
}

/// The first thing that is wrong with a configuration, if anything is.
pub open spec fn config_fault(c: AppConfig) -> Option<ConfigFault> {
    if outside(c.deadzone_left, 0, TWO_FIFTHS_BITS) {
        Some(ConfigFault::DeadzoneLeft(c.deadzone_left))
    } else if outside(c.deadzone_right, 0, TWO_FIFTHS_BITS) {
        Some(ConfigFault::DeadzoneRight(c.deadzone_right))
    } else if !(800 <= c.keepalive_interval_ms <= 5000) {
        Some(ConfigFault::KeepaliveInterval(c.keepalive_interval_ms))
    } else if !(5 <= c.battery_warning_threshold <= 30) {
        Some(ConfigFault::BatteryThreshold(c.battery_warning_threshold))
    } else if remap_fault(c.button_remap) is Some {
        remap_fault(c.button_remap)
    } else if stick_fault(c.stick_calibration_config) is Some {
        stick_fault(c.stick_calibration_config)
    } else if !(1 <= c.reconnect_interval_s <= 10) {
        Some(ConfigFault::ReconnectInterval(c.reconnect_interval_s))
    } else if c.battery_polling_interval_s != 5 && c.battery_polling_interval_s != 10
        && c.battery_polling_interval_s != 30 && c.battery_polling_interval_s != 60 {
        Some(ConfigFault::PollingInterval(c.battery_polling_interval_s))
    } else {
        None
    }
}

/// What a check found, against what is wrong.
pub open spec fn reports(r: Result<(), ConfigError>, fault: Option<ConfigFault>) -> bool {
    match r {
        Ok(()) => fault is None,
        Err(e) => fault == Some(e@),
    }
}

fn is_outside(v: Real32, lo: u32, hi: u32) -> (r: bool)
    ensures
        r == outside(v, lo, hi),
{
    v.is_nan() || v.lt(Real32::from_bits(lo)) || Real32::from_bits(hi).lt(v)
}

fn names_button(s: &str) -> (r: bool)
    ensures
        r == is_button_name(s@),
{
    same(s, "a") || same(s, "b") || same(s, "x") || same(s, "y") || same(s, "l") || same(s, "r")
        || same(s, "zl") || same(s, "zr") || same(s, "minus") || same(s, "plus") || same(s, "home")
        || same(s, "capture") || same(s, "stick_l") || same(s, "stick_r")
}

fn check_remap(m: &RemapConfig) -> (r: Result<(), ConfigError>)
    ensures
        reports(r, remap_fault(*m)),
{
    if !names_button(m.a_to.as_str()) {
        return Err(ConfigError::Remap(RemapField::A, m.a_to.clone()));
    }
    if !names_button(m.b_to.as_str()) {
        return Err(ConfigError::Remap(RemapField::B, m.b_to.clone()));
    }
    if !names_button(m.x_to.as_str()) {
        return Err(ConfigError::Remap(RemapField::X, m.x_to.clone()));
    }
    if !names_button(m.y_to.as_str()) {
        return Err(ConfigError::Remap(RemapField::Y, m.y_to.clone()));
    }
    Ok(())
}

fn check_stick(c: &StickCalibrationConfig) -> (r: Result<(), ConfigError>)
    ensures
        reports(r, stick_fault(*c)),
{
    let curve = c.response_curve_type.as_str();
    if !(same(curve, "linear") || same(curve, "exponential") || same(curve, "s-curve") || same(
        curve,
        "bezier",
    )) {
        return Err(ConfigError::CurveType(c.response_curve_type.clone()));
    }
    if is_outside(c.response_curve_power, HALF_BITS, THREE_BITS) {
        return Err(ConfigError::CurvePower(c.response_curve_power));
    }
    if is_outside(c.deadzone_safety_margin, ONE_BITS, THREE_BITS) {
        return Err(ConfigError::SafetyMargin(c.deadzone_safety_margin));
    }
    if is_outside(c.min_deadzone, 0, HALF_BITS) {
        return Err(ConfigError::MinDeadzone(c.min_deadzone));
    }
    if is_outside(c.max_deadzone, 0, HALF_BITS) {
        return Err(ConfigError::MaxDeadzone(c.max_deadzone));
    }
    if c.max_deadzone.lt(c.min_deadzone) {
        return Err(ConfigError::DeadzoneOrder(c.min_deadzone, c.max_deadzone));
    }
    let shape = c.deadzone_shape.as_str();
    if !(same(shape, "radial") || same(shape, "axial") || same(shape, "elliptic")) {
        return Err(ConfigError::DeadzoneShape(c.deadzone_shape.clone()));
    }
    Ok(())
}

/// Checks every field of a configuration against its range.
pub fn validate_config(config: &AppConfig) -> (r: Result<(), ConfigError>)
    ensures
        reports(r, config_fault(*config)),
{
    if is_outside(config.deadzone_left, 0, TWO_FIFTHS_BITS) {
        return Err(ConfigError::DeadzoneLeft(config.deadzone_left));
    }
    if is_outside(config.deadzone_right, 0, TWO_FIFTHS_BITS) {
        return Err(ConfigError::DeadzoneRight(config.deadzone_right));
    }
    if config.keepalive_interval_ms < 800 || config.keepalive_interval_ms > 5000 {
        return Err(ConfigError::KeepaliveInterval(config.keepalive_interval_ms));
    }
    if config.battery_warning_threshold < 5 || config.battery_warning_threshold > 30 {
        return Err(ConfigError::BatteryThreshold(config.battery_warning_threshold));
    }
    match check_remap(&config.button_remap) {
        Ok(()) => {},
        Err(e) => {
            return Err(e);
        },
    }
    match check_stick(&config.stick_calibration_config) {
        Ok(()) => {},
        Err(e) => {
            return Err(e);
        },
    }
    if config.reconnect_interval_s < 1 || config.reconnect_interval_s > 10 {
        return Err(ConfigError::ReconnectInterval(config.reconnect_interval_s));
    }
    let polling = config.battery_polling_interval_s;
    if polling != 5 && polling != 10 && polling != 30 && polling != 60 {
        return Err(ConfigError::PollingInterval(polling));
    }
    Ok(())
}

/// Accepts a configuration that was read from a file, brought to the current
/// schema, if every field is in its range.
pub fn accept_import(persisted: PersistedConfig) -> (r: Result<AppConfig, ConfigError>)
    ensures
        match r {
            Ok(c) => c == persisted.config && config_fault(c) is None,
            Err(e) => config_fault(persisted.config) == Some(e@),
        },
{
    let migrated = migrate(persisted);
    match validate_config(&migrated.config) {
        Ok(()) => Ok(migrated.config),
        Err(e) => Err(e),
    }
}

// ---------------------------------------------------------------------------
// Messages
// ---------------------------------------------------------------------------

/// The name of the field of a face button.
pub open spec fn remap_name(f: RemapField) -> Seq<char> {
    match f {
        RemapField::A => "a_to"@,
        RemapField::B => "b_to"@,
        RemapField::X => "x_to"@,
        RemapField::Y => "y_to"@,
    }
}

/// The message for a fault. `value` and `other` are the floating-point values
/// of the fault, where it has any, as text.
pub open spec fn fault_text(f: ConfigFault, value: Seq<char>, other: Seq<char>) -> Seq<char> {
    match f {
        ConfigFault::DeadzoneLeft(_) => "deadzone_left "@ + value + " out of range [0.0, 0.40]"@,
        ConfigFault::DeadzoneRight(_) => "deadzone_right "@ + value + " out of range [0.0, 0.40]"@,
        ConfigFault::KeepaliveInterval(v) => "keepalive_interval_ms "@ + text::decimal(v as nat)
            + " out of range [800, 5000]"@,
        ConfigFault::BatteryThreshold(v) => "battery_warning_threshold "@ + text::decimal(v as nat)
            + " out of range [5, 30]"@,
        ConfigFault::Remap(field, target) => "button_remap."@ + remap_name(field) + " = '"@ + target
            + "' is not a valid button name"@,
        ConfigFault::CurveType(s) => "response_curve_type '"@ + s + "' is not valid"@,
        ConfigFault::CurvePower(_) => "response_curve_power "@ + value
            + " out of range [0.5, 3.0]"@,
        ConfigFault::SafetyMargin(_) => "deadzone_safety_margin "@ + value
            + " out of range [1.0, 3.0]"@,
        ConfigFault::MinDeadzone(_) => "min_deadzone "@ + value + " out of range [0.0, 0.5]"@,
        ConfigFault::MaxDeadzone(_) => "max_deadzone "@ + value + " out of range [0.0, 0.5]"@,
        ConfigFault::DeadzoneOrder(_, _) => "min_deadzone "@ + value + " > max_deadzone "@ + other,
        ConfigFault::DeadzoneShape(s) => "deadzone_shape '"@ + s + "' is not valid"@,
        ConfigFault::ReconnectInterval(v) => "reconnect_interval_s "@ + text::decimal(v as nat)
            + " out of range [1, 10]"@,
        ConfigFault::PollingInterval(v) => "battery_polling_interval_s "@ + text::decimal(v as nat)
            + " must be 5, 10, 30, or 60"@,
    }
}

/// A text between two others.
pub fn enclose(head: &str, middle: &str, tail: &str) -> (r: String)
    ensures
        r@ == head@ + middle@ + tail@,
{
    let mut out = head.to_string();
    out.append(middle);
    out.append(tail);
    out
}

/// A number between two texts.
pub fn enclose_number(head: &str, n: u64, tail: &str) -> (r: String)
    ensures
        r@ == head@ + text::decimal(n as nat) + tail@,
{
    let mut out = head.to_string();
    text::push_decimal(&mut out, n);
    out.append(tail);
    out
}

impl ConfigError {
    /// The message for the error. `value` and `other` are its floating-point
    /// values, where it has any, as text.
    pub fn message(&self, value: &str, other: &str) -> (r: String)
        ensures
            r@ == fault_text(self@, value@, other@),
    {
        match self {
            ConfigError::DeadzoneLeft(_) => enclose(
                "deadzone_left ",
                value,
                " out of range [0.0, 0.40]",
            ),
            ConfigError::DeadzoneRight(_) => enclose(
                "deadzone_right ",
                value,
                " out of range [0.0, 0.40]",
            ),
            ConfigError::KeepaliveInterval(v) => enclose_number(
                "keepalive_interval_ms ",
                *v,
                " out of range [800, 5000]",
            ),
            ConfigError::BatteryThreshold(v) => enclose_number(
                "battery_warning_threshold ",
                *v as u64,
                " out of range [5, 30]",
            ),
            ConfigError::Remap(field, target) => {
                let name = match field {
                    RemapField::A => "a_to",
                    RemapField::B => "b_to",
                    RemapField::X => "x_to",
                    RemapField::Y => "y_to",
                };
                let mut out = enclose("button_remap.", name, " = '");
                out.append(target.as_str());
                out.append("' is not a valid button name");
                out
            },
            ConfigError::CurveType(s) => enclose(
                "response_curve_type '",
                s.as_str(),
                "' is not valid",
            ),
            ConfigError::CurvePower(_) => enclose(
                "response_curve_power ",
                value,
                " out of range [0.5, 3.0]",
            ),
            ConfigError::SafetyMargin(_) => enclose(
                "deadzone_safety_margin ",
                value,
                " out of range [1.0, 3.0]",
            ),
            ConfigError::MinDeadzone(_) => enclose(
                "min_deadzone ",
                value,
                " out of range [0.0, 0.5]",
            ),
            ConfigError::MaxDeadzone(_) => enclose(
                "max_deadzone ",
                value,
                " out of range [0.0, 0.5]",
            ),
            ConfigError::DeadzoneOrder(_, _) => {
                let mut out = enclose("min_deadzone ", value, " > max_deadzone ");
                out.append(other);
                out
            },
            ConfigError::DeadzoneShape(s) => enclose("deadzone_shape '", s.as_str(), "' is not valid"),
            ConfigError::ReconnectInterval(v) => enclose_number(
                "reconnect_interval_s ",
                *v,
                " out of range [1, 10]",
            ),
            ConfigError::PollingInterval(v) => enclose_number(
                "battery_polling_interval_s ",
                *v,
                " must be 5, 10, 30, or 60",
            ),
        }
    }
}

// ---------------------------------------------------------------------------
// Paths
// ---------------------------------------------------------------------------

/// A path, in the bytes that the platform keeps it in: UTF-8 where it is text,
/// and bytes of the platform's own where it is none.
#[derive(Debug, PartialEq, Eq)]
pub struct RawPath {
    pub bytes: Vec<u8>,
}

impl View for RawPath {
    type V = Seq<u8>;

    open spec fn view(&self) -> Seq<u8> {
        self.bytes@
    }
}

impl DeepView for RawPath {
    type V = Seq<u8>;

    open spec fn deep_view(&self) -> Seq<u8> {
        self.bytes@
    }
}

/// What separates the names in a path: a backslash where the path has one and
/// no slash, and else a slash.
pub open spec fn separator(dir: Seq<u8>) -> u8 {
    if dir.contains(BACKSLASH) && !dir.contains(SLASH) {
        BACKSLASH
    } else {
        SLASH
    }
}

/// A name appended to a directory.
pub open spec fn joined(dir: Seq<u8>, name: Seq<u8>) -> Seq<u8> {
    if dir.len() == 0 || dir.last() == separator(dir) {
        dir + name
    } else {
        dir.push(separator(dir)) + name
    }
}

fn holds_byte(s: &[u8], b: u8) -> (r: bool)
    ensures
        r == s@.contains(b),
{
    let mut i: usize = 0;
    while i < s.len()
        invariant
            i <= s@.len(),
            forall|j: int| 0 <= j < i ==> s@[j] != b,
        decreases s@.len() - i,
    {
        if s[i] == b {
            return true;
        }
        i = i + 1;
    }
    false
}

fn push_bytes(out: &mut Vec<u8>, s: &[u8])
    ensures
        final(out)@ == old(out)@ + s@,
{
    let mut i: usize = 0;
    while i < s.len()
        invariant
            i <= s@.len(),
            out@ =~= old(out)@ + s@.take(i as int),
        decreases s@.len() - i,
    {
        out.push(s[i]);
        i = i + 1;
    }
    assert(s@.take(s@.len() as int) =~= s@);
}

/// A text as a path.
pub fn text_path(s: &str) -> (r: RawPath)
    ensures
        r@ == encode_utf8(s@),
{
    let mut bytes: Vec<u8> = Vec::new();
    push_bytes(&mut bytes, s.as_bytes());
    assert(bytes@ =~= encode_utf8(s@));
    RawPath { bytes }
}

/// A name appended to a directory.
pub fn join_path(dir: &RawPath, name: &str) -> (r: RawPath)
    ensures
        r@ == joined(dir@, encode_utf8(name@)),
{
    let mut bytes: Vec<u8> = Vec::new();
    push_bytes(&mut bytes, dir.bytes.as_slice());
    assert(bytes@ =~= dir@);
    let separator: u8 = if holds_byte(dir.bytes.as_slice(), BACKSLASH) && !holds_byte(
        dir.bytes.as_slice(),
        SLASH,
    ) {
        BACKSLASH
    } else {
        SLASH
    };
    if bytes.len() > 0 && bytes[bytes.len() - 1] != separator {
        bytes.push(separator);
    }
    push_bytes(&mut bytes, name.as_bytes());
    RawPath { bytes }
}

/// `dirs_next::config_dir`: where the user's configuration files are kept, in
/// the bytes that the platform keeps the path in. It reads the environment, so
/// nothing is stated of the result.
#[verifier::external_body]
fn user_config_dir() -> (r: Option<RawPath>) {
    dirs_next::config_dir().map(|p| RawPath { bytes: p.into_os_string().into_encoded_bytes() })
}

/// The directory of the application below a directory of the user, or below
/// the working directory.
pub open spec fn app_dir(base: Option<Seq<u8>>) -> Seq<u8> {
    joined(
        match base {
            Some(b) => b,
            None => encode_utf8("."@),
        },
        encode_utf8("OxideLink"@),
    )
}

/// The directory of the application below a directory of the user, or below
/// the working directory.
pub fn app_dir_in(base: Option<RawPath>) -> (r: RawPath)
    ensures
        r@ == app_dir(base.deep_view()),
{
    match base {
        Some(b) => join_path(&b, "OxideLink"),
        None => join_path(&text_path("."), "OxideLink"),
    }
}

/// The directory that configurations are kept in.
pub fn config_store_base_dir() -> (r: RawPath)
    ensures
        exists|base: Option<Seq<u8>>| r@ == #[trigger] app_dir(base),
{
    let base = user_config_dir();
    app_dir_in(base)
}

/// The path of the configuration file.
pub fn config_file_path() -> (r: RawPath)
    ensures
        exists|base: Option<Seq<u8>>|
            r@ == joined(#[trigger] app_dir(base), encode_utf8("config.json"@)),
{
    let dir = config_store_base_dir();
    join_path(&dir, "config.json")
}

/// Whether one path, by its components, lies in another or is it.
pub open spec fn lies_within(target: Seq<Seq<u8>>, base: Seq<Seq<u8>>) -> bool {
    base.len() <= target.len() && target.subrange(0, base.len() as int) == base
}

fn same_bytes(a: &Vec<u8>, b: &Vec<u8>) -> (r: bool)
    ensures
        r == (a@ == b@),
{
    if a.len() != b.len() {
        return false;
    }
    let mut i: usize = 0;
    while i < a.len()
        invariant
            i <= a@.len() == b@.len(),
            forall|j: int| 0 <= j < i ==> a@[j] == b@[j],
        decreases a@.len() - i,
    {
        if a[i] != b[i] {
            return false;
        }
        i = i + 1;
    }
    assert(a@ =~= b@);
    true
}

/// Whether one path, by its components, lies in another or is it.
pub fn is_within(target: &Vec<RawPath>, base: &Vec<RawPath>) -> (r: bool)
    ensures
        r == lies_within(target.deep_view(), base.deep_view()),
{
    if base.len() > target.len() {
        return false;
    }
    let ghost tv = target.deep_view();
    let ghost bv = base.deep_view();
    let mut i: usize = 0;
    while i < base.len()
        invariant
            i <= base.len() <= target.len(),
            tv == target.deep_view(),
            bv == base.deep_view(),
            forall|j: int| 0 <= j < i ==> tv[j] == bv[j],
        decreases base.len() - i,
    {
        if !same_bytes(&target[i].bytes, &base[i].bytes) {
            assert(tv[i as int] != bv[i as int]);
            assert(tv.subrange(0, bv.len() as int)[i as int] == tv[i as int]);
            return false;
        }
        i = i + 1;
    }
    assert(tv.subrange(0, bv.len() as int) =~= bv);
    true
}

/// What has to be resolved before a path can be told to lie in a directory.
#[derive(Clone, Copy, Debug, PartialEq, Eq, Structural)]
pub enum ResolveTarget {
    /// The path itself.
    Itself,
    /// Its parent, for a file that is yet to be written.
    Parent,
}

/// What has to be resolved, or the message that the path is refused with.
/// `exists` says whether there is anything of that name: a link counts even
/// where it leads nowhere, so that it is followed and not taken for a file that
/// is yet to be written. `parent_is_named` says whether the path has a parent
/// that is not empty.
pub fn resolve_target(
    path: &str,
    absolute: bool,
    may_be_missing: bool,
    exists: bool,
    parent_is_named: bool,
) -> (r: Result<ResolveTarget, String>)
    ensures
        match r {
            Ok(t) => absolute && t == (if may_be_missing && !exists {
                ResolveTarget::Parent
            } else {
                ResolveTarget::Itself
            }) && (t == ResolveTarget::Parent ==> parent_is_named),
            Err(e) => if !absolute {
                e@ == "path '"@ + path@ + "' must be absolute"@
            } else {
                may_be_missing && !exists && !parent_is_named && e@ == "path '"@ + path@
                    + "' has no parent directory"@
            },
        },
{
    if !absolute {
        return Err(enclose("path '", path, "' must be absolute"));
    }
    if may_be_missing && !exists {
        if !parent_is_named {
            return Err(enclose("path '", path, "' has no parent directory"));
        }
        return Ok(ResolveTarget::Parent);
    }
    Ok(ResolveTarget::Itself)
}

/// Accepts a path whose resolved form lies in a resolved directory.
pub fn accept_path(path: &str, base: &str, target: &Vec<RawPath>, base_parts: &Vec<RawPath>) -> (r:
    Result<(), String>)
    ensures
        match r {
            Ok(()) => lies_within(target.deep_view(), base_parts.deep_view()),
            Err(e) => !lies_within(target.deep_view(), base_parts.deep_view()) && e@ == "path '"@
                + path@ + "' is outside the allowed directory '"@ + base@ + "'"@,
        },
{
    if is_within(target, base_parts) {
        return Ok(());
    }
    let mut out = enclose("path '", path, "' is outside the allowed directory '");
    out.append(base);
    out.append("'");
    Err(out)
}

// ---------------------------------------------------------------------------
// Laws
// ---------------------------------------------------------------------------

/// A value lies in a range, its ends with it. A NaN lies in none.
pub open spec fn within(v: Real32, lo: u32, hi: u32) -> bool {
    (Real32 { bits: lo }).at_most(v) && v.at_most(Real32 { bits: hi })
}

/// A configuration that passes the check holds every number in its range and
/// every name among those that are known.
pub proof fn law_valid_config_is_bounded(c: AppConfig)
    requires
        config_fault(c) is None,
    ensures
        800 <= c.keepalive_interval_ms <= 5000,
        5 <= c.battery_warning_threshold <= 30,
        1 <= c.reconnect_interval_s <= 10,
        seq![5u64, 10, 30, 60].contains(c.battery_polling_interval_s),
        within(c.deadzone_left, 0, TWO_FIFTHS_BITS),
        within(c.deadzone_right, 0, TWO_FIFTHS_BITS),
        is_button_name(c.button_remap.a_to@),
        is_button_name(c.button_remap.b_to@),
        is_button_name(c.button_remap.x_to@),
        is_button_name(c.button_remap.y_to@),
        ({
            let s = c.stick_calibration_config;
            &&& within(s.response_curve_power, HALF_BITS, THREE_BITS)
            &&& within(s.deadzone_safety_margin, ONE_BITS, THREE_BITS)
            &&& within(s.min_deadzone, 0, HALF_BITS)
            &&& within(s.max_deadzone, 0, HALF_BITS)
            &&& s.min_deadzone.at_most(s.max_deadzone)
            &&& is_curve_name(s.response_curve_type@)
            &&& is_shape_name(s.deadzone_shape@)
        }),
{
    let known = seq![5u64, 10, 30, 60];
    assert(known[0] == 5 && known[1] == 10 && known[2] == 30 && known[3] == 60);
}

/// A path that is accepted stays accepted however far below the directory it
/// goes, and the directory itself is accepted.
pub proof fn law_paths_below_are_within(
    base: Seq<Seq<u8>>,
    target: Seq<Seq<u8>>,
    more: Seq<Seq<u8>>,
)
    requires
        lies_within(target, base),
    ensures
        lies_within(target + more, base),
        lies_within(base, base),
{
    assert((target + more).subrange(0, base.len() as int) =~= target.subrange(
        0,
        base.len() as int,
    ));
    assert(base.subrange(0, base.len() as int) =~= base);
}

/// A configuration passes the check if every number is in its range and every
/// name is known: deadzones from 0 to 0.4, a keep-alive from 800 to 5000
/// milliseconds, a battery threshold from 5 to 30, a curve power from 0.5 to 3,
/// a safety margin from 1 to 3, bounds of the deadzone from 0 to 0.5 in their
/// order, a reconnect interval from 1 to 10 seconds, and a polling interval of
/// 5, 10, 30 or 60 seconds.
pub proof fn law_bounded_config_is_valid(c: AppConfig)
    requires
        within(c.deadzone_left, 0, 0x3ECC_CCCD),
        within(c.deadzone_right, 0, 0x3ECC_CCCD),
        800 <= c.keepalive_interval_ms <= 5000,
        5 <= c.battery_warning_threshold <= 30,
        1 <= c.reconnect_interval_s <= 10,
        c.battery_polling_interval_s == 5 || c.battery_polling_interval_s == 10
            || c.battery_polling_interval_s == 30 || c.battery_polling_interval_s == 60,
        is_button_name(c.button_remap.a_to@),
        is_button_name(c.button_remap.b_to@),
        is_button_name(c.button_remap.x_to@),
        is_button_name(c.button_remap.y_to@),
        is_curve_name(c.stick_calibration_config.response_curve_type@),
        is_shape_name(c.stick_calibration_config.deadzone_shape@),
        within(c.stick_calibration_config.response_curve_power, 0x3F00_0000, 0x4040_0000),
        within(c.stick_calibration_config.deadzone_safety_margin, 0x3F80_0000, 0x4040_0000),
        within(c.stick_calibration_config.min_deadzone, 0, 0x3F00_0000),
        within(c.stick_calibration_config.max_deadzone, 0, 0x3F00_0000),
        c.stick_calibration_config.min_deadzone.at_most(c.stick_calibration_config.max_deadzone),
    ensures
        config_fault(c) is None,
{
}

/// A fault names the field that is out of its range, and what it holds.
pub proof fn law_faults_name_their_field(c: AppConfig)
    ensures
        ({
            let s = c.stick_calibration_config;
            match config_fault(c) {
                None => true,
                Some(ConfigFault::DeadzoneLeft(v)) => v == c.deadzone_left && !within(
                    v,
                    0,
                    0x3ECC_CCCD,
                ),
                Some(ConfigFault::DeadzoneRight(v)) => v == c.deadzone_right && !within(
                    v,
                    0,
                    0x3ECC_CCCD,
                ),
                Some(ConfigFault::KeepaliveInterval(v)) => v == c.keepalive_interval_ms && !(800
                    <= v <= 5000),
                Some(ConfigFault::BatteryThreshold(v)) => v == c.battery_warning_threshold && !(5
                    <= v <= 30),
                Some(ConfigFault::Remap(RemapField::A, t)) => t == c.button_remap.a_to@
                    && !is_button_name(t),
                Some(ConfigFault::Remap(RemapField::B, t)) => t == c.button_remap.b_to@
                    && !is_button_name(t),
                Some(ConfigFault::Remap(RemapField::X, t)) => t == c.button_remap.x_to@
                    && !is_button_name(t),
                Some(ConfigFault::Remap(RemapField::Y, t)) => t == c.button_remap.y_to@
                    && !is_button_name(t),
                Some(ConfigFault::CurveType(t)) => t == s.response_curve_type@ && !is_curve_name(t),
                Some(ConfigFault::CurvePower(v)) => v == s.response_curve_power && !within(
                    v,
                    0x3F00_0000,
                    0x4040_0000,
                ),
                Some(ConfigFault::SafetyMargin(v)) => v == s.deadzone_safety_margin && !within(
                    v,
                    0x3F80_0000,
                    0x4040_0000,
                ),
                Some(ConfigFault::MinDeadzone(v)) => v == s.min_deadzone && !within(
                    v,
                    0,
                    0x3F00_0000,
                ),
                Some(ConfigFault::MaxDeadzone(v)) => v == s.max_deadzone && !within(
                    v,
                    0,
                    0x3F00_0000,
                ),
                Some(ConfigFault::DeadzoneOrder(a, b)) => a == s.min_deadzone && b == s.max_deadzone
                    && b.below(a),
                Some(ConfigFault::DeadzoneShape(t)) => t == s.deadzone_shape@ && !is_shape_name(t),
                Some(ConfigFault::ReconnectInterval(v)) => v == c.reconnect_interval_s && !(1 <= v
                    <= 10),
                Some(ConfigFault::PollingInterval(v)) => v == c.battery_polling_interval_s && v != 5
                    && v != 10 && v != 30 && v != 60,
            }
        }),
{
}

/// The names that are known: the fourteen buttons, the four curves and the
/// three shapes.
pub proof fn law_known_names(s: Seq<char>)
    ensures
        is_button_name(s) == seq![
            "a"@,
            "b"@,
            "x"@,
            "y"@,
            "l"@,
            "r"@,
            "zl"@,
            "zr"@,
            "minus"@,
            "plus"@,
            "home"@,
            "capture"@,
            "stick_l"@,
            "stick_r"@,
        ].contains(s),
        is_curve_name(s) == seq!["linear"@, "exponential"@, "s-curve"@, "bezier"@].contains(s),
        is_shape_name(s) == seq!["radial"@, "axial"@, "elliptic"@].contains(s),
{
    let b = seq![
        "a"@,
        "b"@,
        "x"@,
        "y"@,
        "l"@,
        "r"@,
        "zl"@,
        "zr"@,
        "minus"@,
        "plus"@,
        "home"@,
        "capture"@,
        "stick_l"@,
        "stick_r"@,
    ];
    assert(b[0] == "a"@ && b[1] == "b"@ && b[2] == "x"@ && b[3] == "y"@ && b[4] == "l"@ && b[5]
        == "r"@ && b[6] == "zl"@);
    assert(b[7] == "zr"@ && b[8] == "minus"@ && b[9] == "plus"@ && b[10] == "home"@ && b[11]
        == "capture"@ && b[12] == "stick_l"@ && b[13] == "stick_r"@);
    let c = seq!["linear"@, "exponential"@, "s-curve"@, "bezier"@];
    assert(c[0] == "linear"@ && c[1] == "exponential"@ && c[2] == "s-curve"@ && c[3] == "bezier"@);
    let d = seq!["radial"@, "axial"@, "elliptic"@];
    assert(d[0] == "radial"@ && d[1] == "axial"@ && d[2] == "elliptic"@);
}

/// A name is put behind a directory with one separator between them: a
/// backslash for a directory with backslashes and no slash, and else a slash.
pub proof fn law_joined_paths(dir: Seq<u8>, name: Seq<u8>)
    requires
        dir.len() > 0,
        dir.last() != 0x2F,
        dir.last() != 0x5C,
    ensures
        dir.contains(0x5C) && !dir.contains(0x2F) ==> joined(dir, name) == dir + seq![0x5Cu8] + name,
        !dir.contains(0x5C) || dir.contains(0x2F) ==> joined(dir, name) == dir + seq![0x2Fu8]
            + name,
        joined(dir.push(0x2F), name) == dir.push(0x2F) + name,
        joined(Seq::empty(), name) == name,
{
    let slashed = dir.push(0x2F);
    assert(slashed[dir.len() as int] == 0x2F);
    assert(dir.push(0x5C) + name =~= dir + seq![0x5Cu8] + name);
    assert(dir.push(0x2F) + name =~= dir + seq![0x2Fu8] + name);
    assert(Seq::<u8>::empty() + name =~= name);
}

/// A path lies in a directory if it starts with all of its components, and
/// not otherwise.
pub proof fn law_what_lies_within(target: Seq<Seq<u8>>, base: Seq<Seq<u8>>)
    ensures
        lies_within(target, base) == (base.len() <= target.len() && forall|i: int|
            0 <= i < base.len() ==> target[i] == #[trigger] base[i]),
{
    if base.len() <= target.len() {
        let t = target.subrange(0, base.len() as int);
        if forall|i: int| 0 <= i < base.len() ==> target[i] == #[trigger] base[i] {
            assert(t =~= base);
        }
        if t == base {
            assert forall|i: int| 0 <= i < base.len() implies target[i] == #[trigger] base[i] by {
                assert(t[i] == target[i]);
            }
        }
    }
}

/// The directory of the application stands below the directory of the user,
/// or below the working directory, and is called OxideLink.
pub proof fn law_application_directory(base: Seq<u8>)
    ensures
        app_dir(Some(base)) == joined(base, encode_utf8("OxideLink"@)),
        app_dir(None) == joined(encode_utf8("."@), encode_utf8("OxideLink"@)),
{
}

/// A fault is told of with the name of the field, what it holds and what it may
/// hold.
pub proof fn law_messages(
    v: Real32,
    n: u64,
    b: u8,
    t: Seq<char>,
    value: Seq<char>,
    other: Seq<char>,
)
    ensures
        fault_text(ConfigFault::DeadzoneLeft(v), value, other) == "deadzone_left "@ + value + " out of range [0.0, 0.40]"@,
        fault_text(ConfigFault::DeadzoneRight(v), value, other) == "deadzone_right "@ + value + " out of range [0.0, 0.40]"@,
        fault_text(ConfigFault::KeepaliveInterval(n), value, other) == "keepalive_interval_ms "@ + text::decimal(n as nat) + " out of range [800, 5000]"@,
        fault_text(ConfigFault::BatteryThreshold(b), value, other) == "battery_warning_threshold "@ + text::decimal(b as nat) + " out of range [5, 30]"@,
        fault_text(ConfigFault::Remap(RemapField::A, t), value, other) == "button_remap."@ + "a_to"@ + " = '"@ + t + "' is not a valid button name"@,
        fault_text(ConfigFault::Remap(RemapField::B, t), value, other) == "button_remap."@ + "b_to"@ + " = '"@ + t + "' is not a valid button name"@,
        fault_text(ConfigFault::Remap(RemapField::X, t), value, other) == "button_remap."@ + "x_to"@ + " = '"@ + t + "' is not a valid button name"@,
        fault_text(ConfigFault::Remap(RemapField::Y, t), value, other) == "button_remap."@ + "y_to"@ + " = '"@ + t + "' is not a valid button name"@,
        fault_text(ConfigFault::CurveType(t), value, other) == "response_curve_type '"@ + t + "' is not valid"@,
        fault_text(ConfigFault::CurvePower(v), value, other) == "response_curve_power "@ + value + " out of range [0.5, 3.0]"@,
        fault_text(ConfigFault::SafetyMargin(v), value, other) == "deadzone_safety_margin "@ + value + " out of range [1.0, 3.0]"@,
        fault_text(ConfigFault::MinDeadzone(v), value, other) == "min_deadzone "@ + value + " out of range [0.0, 0.5]"@,
        fault_text(ConfigFault::MaxDeadzone(v), value, other) == "max_deadzone "@ + value + " out of range [0.0, 0.5]"@,
        fault_text(ConfigFault::DeadzoneOrder(v, v), value, other) == "min_deadzone "@ + value + " > max_deadzone "@ + other,
        fault_text(ConfigFault::DeadzoneShape(t), value, other) == "deadzone_shape '"@ + t + "' is not valid"@,
        fault_text(ConfigFault::ReconnectInterval(n), value, other) == "reconnect_interval_s "@ + text::decimal(n as nat) + " out of range [1, 10]"@,
        fault_text(ConfigFault::PollingInterval(n), value, other) == "battery_polling_interval_s "@ + text::decimal(n as nat) + " must be 5, 10, 30, or 60"@,
{
}

/// A check that passes has found no fault, and one that fails says which.
pub proof fn law_what_the_check_says(e: ConfigError, fault: Option<ConfigFault>)
    ensures
        reports(Ok(()), fault) == (fault is None),
        reports(Err(e), fault) == (fault == Some(e@)),
{
}

/// A value outside a range is one that does not lie within it.
pub proof fn law_outside_is_not_within(v: Real32, lo: u32, hi: u32)
    requires
        !(Real32 { bits: lo }).nan(),
        !(Real32 { bits: hi }).nan(),
    ensures
        outside(v, lo, hi) == !within(v, lo, hi),
        v.nan() ==> outside(v, lo, hi),
{
}

/// The swapped layout trades A for B and X for Y, both ways.
pub proof fn law_swapped_letters(r: RemapConfig)
    requires
        is_swapped(r),
    ensures
        r.a_to@ == "b"@,
        r.b_to@ == "a"@,
        r.x_to@ == "y"@,
        r.y_to@ == "x"@,
{
}

} // verus!
