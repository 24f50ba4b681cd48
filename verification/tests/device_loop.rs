use oxidelink::config::{AppConfig, KbmConfig, ValidationConfig};
use oxidelink::device_loop::{battery_health_label, DeviceLoop, DriftStatus, MANAGER_SLOT};
use oxidelink::flick_stick::{FlickStep, FlickStick, FlickStickConfig};
use oxidelink::hid_parser::{ImuFrame, REPORT_ID_NFC_IR, REPORT_ID_USB_REPLY};
use oxidelink::imu;
use oxidelink::kbm::{InputEvent, KbmEmulator, KbmOutput, KeyEntry, KeyTable, StickMotion};
use oxidelink::mappings::{Action, ButtonMapping, Mappings};
use oxidelink::numeric::{Ratio, Real32};
use oxidelink::reports;
use oxidelink::reports::{handle_usb_reply, ReportRoute, Shaped, UsbReply};
use oxidelink::schedule::{
    connect_sequence, disconnect_sequence, send_init_sequence, step_command, DeviceCommand, Step,
    Timers,
};
use oxidelink::slots;
use oxidelink::slots::{
    enumerate_pro_controllers, lowest_free_slot, open_failed, try_open_path, DevicePath, HidEntry,
    SharedState, SlotTable, Worker,
};
use oxidelink::state::{
    ButtonId, ConnectionType, ControllerState, DeviceInfo, ImuCalibration, IpcEvent, SpiInfo,
    StickCalibration, StickVector, CONTROLLER_SLOTS,
};
use oxidelink::subcmd::{Request, SPI_ADDR_LEFT_STICK_FACTORY};
use oxidelink::validation::{
    controller_output_is_allowed, get_validation_flags, set_validation_flags,
    validate_controller_state, validate_current_controller, ActiveProfile, NfcState,
};

fn r32(v: f32) -> Real32 {
    Real32::from_bits(v.to_bits())
}

fn value(r: Ratio) -> f32 {
    r.num as f32 / r.den as f32
}

fn fallback_normalize(lx: u16, ly: u16, rx: u16, ry: u16) -> (f32, f32, f32, f32) {
    let (a, b, c, d) = reports::fallback_normalize(lx, ly, rx, ry);
    (value(a), value(b), value(c), value(d))
}

/// A standard report: X is down, the battery is full, the sticks are centered,
/// and gravity lies on the z axis of every motion reading.
fn standard_report(timer: u8) -> Vec<u8> {
    let mut data = vec![0x30, timer, 0x80, 0x02, 0x00, 0x00];
    data.extend_from_slice(&[0x00, 0x08, 0x80, 0x00, 0x08, 0x80, 0x00]);
    for _ in 0..3 {
        data.extend_from_slice(&[0, 0, 0, 0, 0x00, 0x10, 0, 0, 0, 0, 0, 0]);
    }
    data
}

/// What shaping makes of a report that nothing is mapped for.
fn unshaped(state: &ControllerState) -> Shaped {
    let rest = StickVector { x: r32(0.0), y: r32(0.0) };
    Shaped {
        left: rest,
        right: rest,
        buttons: state.buttons,
        flick: None,
        mouse_mode: false,
        deltas: [(0, 0); 3],
    }
}

/// Takes a standard report in and finishes it.
fn serve(
    memory: &mut DeviceLoop,
    state: &mut ControllerState,
    data: &[u8],
    elapsed_ms: Option<u64>,
) -> Vec<IpcEvent> {
    match memory.handle_report(data, 0) {
        Some((ReportRoute::Standard, _)) => {}
        other => panic!("not a standard report: {:?}", other),
    }
    let intake = memory.begin_standard_report(state, data, 77).expect("a standard report");
    let shaped = unshaped(state);
    memory.finish_standard_report(state, &intake.parsed, &shaped, elapsed_ms, 77).1
}

/// A reply to a subcommand: full battery, acknowledged.
fn reply(subcmd: u8, data: &[u8]) -> Vec<u8> {
    let mut out = vec![0x21, 0, 0x80, 0, 0, 0, 0, 0, 0, 0, 0, 0, 0, 0x80, subcmd];
    out.extend_from_slice(data);
    out
}

#[test]
fn lowest_free_slot_returns_first_unset_bit() {
    assert_eq!(lowest_free_slot(0b0000_0000), Some(0));
    assert_eq!(lowest_free_slot(0b0000_0001), Some(1));
    assert_eq!(lowest_free_slot(0b0000_0011), Some(2));
    assert_eq!(lowest_free_slot(0b0000_0111), Some(3));
    assert_eq!(lowest_free_slot(0b0000_1111), None);
    assert_eq!(lowest_free_slot(0b0000_1010), Some(0));
}

#[test]
fn selected_slot_is_clamped_and_out_of_range_commands_are_rejected() {
    let mut shared = SharedState::new();
    shared.selected_slot = 99;
    assert_eq!(shared.active_controller().slot_index, 3);
    assert!(shared.send_device_command_to_slot(4, Vec::new()).is_err());
}

#[test]
fn validation_mode_requires_a_validated_controller_unless_mocked() {
    let mut config = AppConfig::default();
    config.real_device_validation = true;
    let controller = ControllerState::default();
    assert!(!controller_output_is_allowed(&config, &controller));

    config.validation.mock_mode = true;
    assert!(controller_output_is_allowed(&config, &controller));
}

#[test]
fn path_is_released_on_disconnect() {
    let mut shared = SharedState::new();
    let mut table = SlotTable::new();
    let path = "\\\\?\\hid#test".to_string();
    let mut worker = Worker { slot: 0, claimed_path: Some(path.clone()) };
    table.assign(&vec![DevicePath { path: path.clone(), connection: ConnectionType::Usb }]);

    assert!(!shared.is_slot_active(0));
    worker.set_connected(true, &mut table, &mut shared);
    assert!(shared.is_slot_active(0));
    assert!(table.is_claimed(&path));

    worker.set_connected(false, &mut table, &mut shared);

    assert!(!shared.is_slot_active(0));
    assert!(!table.is_claimed(&path));
    assert!(worker.claimed_path.is_none());
}

#[test]
fn kbm_process_controller_state_emits_key_events() {
    let mut kbm = KbmEmulator::new();
    let keys = KeyTable { entries: vec![KeyEntry { name: "a".into(), vk: 0x41 }] };
    let rest = StickMotion { dx: 0, dy: 0, wheel: 0 };

    let mut config = KbmConfig::default();
    config.enabled = true;

    let mut mappings = Mappings::default();
    mappings.buttons.push(ButtonMapping {
        source: ButtonId::A,
        actions: vec![Action::Key("a".into())],
    });

    let mut state = ControllerState::default();
    state.buttons.a = true;
    let out = kbm.process_controller_state(&keys, &state, &config, &mappings, rest, rest);
    assert!(matches!(out[0], KbmOutput::Send(InputEvent::Key { down: true, .. })));

    state.buttons.a = false;
    let out = kbm.process_controller_state(&keys, &state, &config, &mappings, rest, rest);
    assert!(matches!(out[1], KbmOutput::Send(InputEvent::Key { down: false, .. })));
}

#[test]
fn flick_stick_process_with_config_updates_yaw() {
    let cfg = FlickStickConfig {
        enabled: true,
        flick_threshold: r32(0.9),
        rotate_rate_deg_per_sec: r32(360.0),
        stick_deadzone: r32(0.1),
        flick_cooldown_ms: 0,
        output_smoothing: r32(0.0),
    };
    let mut fs = FlickStick::with_config(cfg);
    assert_eq!(fs.decide(r32(1.0), 1000, &cfg), FlickStep::Flick);
    assert!(fs.flick_active);
    fs.settle(r32(90.0), r32(90.0));
    assert_eq!(fs.current_yaw, r32(90.0));
}

#[test]
fn nfc_apply_nfc_report_clears_tag_when_no_payload() {
    let mut state = NfcState::new();
    state.tag_present = true;
    state.handle_nfc_ir_report(&[0x31]);
    assert!(!state.tag_present);
    assert!(state.uid.is_none());
}

#[test]
fn validate_controller_passes_when_checks_disabled_or_mock_mode() {

    let mut state = ControllerState::default();
    let mut cfg = AppConfig::default();

    // Validation disabled by default.
    assert!(validate_controller_state(0, &mut state, &cfg, false, false).unwrap());
    assert!(state.validated);

    // Real checks enabled but mock mode short-circuits them.
    state.validated = false;
    cfg.real_device_validation = true;
    cfg.validation.mock_mode = true;
    assert!(validate_controller_state(0, &mut state, &cfg, false, false).unwrap());
    assert!(state.validated);
}

#[test]
fn validate_controller_fails_when_not_connected() {

    let mut state = ControllerState::default();
    state.connected = false;
    let mut cfg = AppConfig::default();
    cfg.real_device_validation = true;
    cfg.validation.enable_real_device_checks = true;

    let result = validate_controller_state(0, &mut state, &cfg, true, true);
    assert!(result.is_err());
    assert!(result.unwrap_err().contains("not connected"));
    assert!(!state.validated);
}

#[test]
fn validate_controller_fails_on_missing_calibration() {

    let mut state = ControllerState::default();
    state.connected = true;
    let mut cfg = AppConfig::default();
    cfg.real_device_validation = true;
    cfg.validation.enable_real_device_checks = true;
    cfg.validation.strict_calibration_requirements = true;

    let result = validate_controller_state(0, &mut state, &cfg, true, true);
    assert!(result.is_err());
    assert!(result.unwrap_err().contains("calibration"));
    assert!(!state.validated);

    state.stick_calibration = Some(StickCalibration {
        valid: true,
        ..Default::default()
    });
    assert!(validate_controller_state(0, &mut state, &cfg, true, true).unwrap());
    assert!(state.validated);
}

#[test]
fn validate_controller_checks_vigembus_and_hidhide() {

    let mut state = ControllerState::default();
    state.connected = true;
    let mut cfg = AppConfig::default();
    cfg.real_device_validation = true;
    cfg.validation.enable_real_device_checks = true;
    cfg.validation.require_vigembus = true;
    cfg.validation.require_hidhide = true;

    // Both required, ViGEmBus missing.
    let result = validate_controller_state(0, &mut state, &cfg, false, true);
    assert!(result.is_err());
    assert!(result.unwrap_err().contains("ViGEmBus"));

    // ViGEmBus OK, HidHide missing.
    let result = validate_controller_state(0, &mut state, &cfg, true, false);
    assert!(result.is_err());
    assert!(result.unwrap_err().contains("HidHide"));

    // Both OK.
    assert!(validate_controller_state(0, &mut state, &cfg, true, true).unwrap());
    assert!(state.validated);
}

#[test]
fn validate_controller_rejects_out_of_bounds_slot() {

    let mut state = ControllerState::default();
    let cfg = AppConfig::default();
    let result = validate_controller_state(CONTROLLER_SLOTS, &mut state, &cfg, true, true);
    assert!(result.is_err());
    assert!(result.unwrap_err().contains("slot"));
}

#[test]
fn fallback_normalize_center_is_zero() {
    let (lx, ly, rx, ry) = fallback_normalize(2048, 2048, 2048, 2048);
    assert!((lx - 0.0).abs() < 1e-6);
    assert!((ly - 0.0).abs() < 1e-6);
    assert!((rx - 0.0).abs() < 1e-6);
    assert!((ry - 0.0).abs() < 1e-6);
}

#[test]
fn fallback_normalize_max_is_one() {
    let (lx, ly, rx, ry) = fallback_normalize(4095, 4095, 4095, 4095);
    assert!((lx - 1.0).abs() < 1e-3);
    assert!((ly - 1.0).abs() < 1e-3);
    assert!((rx - 1.0).abs() < 1e-3);
    assert!((ry - 1.0).abs() < 1e-3);
}

#[test]
fn fallback_normalize_min_is_neg_one() {
    let (lx, ly, rx, ry) = fallback_normalize(0, 0, 0, 0);
    assert!((lx - (-1.0)).abs() < 1e-3);
    assert!((ly - (-1.0)).abs() < 1e-3);
    assert!((rx - (-1.0)).abs() < 1e-3);
    assert!((ry - (-1.0)).abs() < 1e-3);
}

#[test]
fn fallback_normalize_clamps_overshoot() {
    // Values above 4095 are not possible with u16, but the clamp ensures
    // that values near the extremes map to exactly ±1.0.
    let (lx, _, _, _) = fallback_normalize(4096, 2048, 2048, 2048);
    assert!((lx - 1.0).abs() < 1e-6, "4096 should clamp to 1.0, got {}", lx);
}

#[test]
fn fallback_normalize_midpoint_is_half() {
    let (lx, _, _, _) = fallback_normalize(3072, 2048, 2048, 2048);
    assert!((lx - 0.5).abs() < 1e-3, "3072 should map to ~0.5, got {}", lx);
}

#[test]
fn battery_health_label_all_levels() {

    // Level 0 (raw >> 1 == 0) → Empty
    assert_eq!(battery_health_label(0x00), "Empty");
    // Level 1 (raw >> 1 == 1) → Critical
    assert_eq!(battery_health_label(0x02), "Critical");
    // Level 2 (raw >> 1 == 2) → Low
    assert_eq!(battery_health_label(0x04), "Low");
    // Level 3 (raw >> 1 == 3) → Medium
    assert_eq!(battery_health_label(0x06), "Medium");
    // Level 4+ (raw >> 1 >= 4) → Full
    assert_eq!(battery_health_label(0x08), "Full");
    assert_eq!(battery_health_label(0x0E), "Full");
}

#[test]
fn battery_health_label_masks_charging_bit() {

    // Bit 0 is the charging flag; it should be masked out.
    // 0x09 = level 4 (Full) + charging bit → "Full"
    assert_eq!(battery_health_label(0x09), "Full");
    // 0x01 = level 0 (Empty) + charging bit → "Empty"
    assert_eq!(battery_health_label(0x01), "Empty");
    // 0x03 = level 1 (Critical) + charging bit → "Critical"
    assert_eq!(battery_health_label(0x03), "Critical");
}

#[test]
fn lowest_free_slot_all_combinations() {

    // Every possible 4-bit mask (CONTROLLER_SLOTS == 4)
    for mask in 0..=0x0F_u8 {
        let result = lowest_free_slot(mask);
        // Find the expected lowest unset bit manually.
        let expected = (0..CONTROLLER_SLOTS)
            .find(|&i| mask & (1 << i) == 0)
            .map(|i| i as u8);
        assert_eq!(result, expected, "mask={:#06b}", mask);
    }
}

#[test]
fn lowest_free_slot_ignores_high_bits() {

    // Bits above slot 3 should be ignored — slot 0 is still free.
    assert_eq!(lowest_free_slot(0b1111_0000), Some(0));
    // All 4 slots used, high bits set → None.
    assert_eq!(lowest_free_slot(0b1111_1111), None);
}

#[test]
fn validate_controller_enable_real_device_checks_alone_suffices() {

    let mut state = ControllerState { connected: true, ..Default::default() };
    let cfg = AppConfig {
        validation: ValidationConfig {
            enable_real_device_checks: true,
            ..Default::default()
        },
        ..Default::default()
    };

    assert!(validate_controller_state(0, &mut state, &cfg, true, true).unwrap());
    assert!(state.validated);
}

#[test]
fn validate_controller_strict_cal_with_invalid_cal_fails() {

    let mut state = ControllerState {
        connected: true,
        stick_calibration: Some(StickCalibration {
            valid: false,
            ..Default::default()
        }),
        ..Default::default()
    };
    let cfg = AppConfig {
        real_device_validation: true,
        validation: ValidationConfig {
            enable_real_device_checks: true,
            strict_calibration_requirements: true,
            ..Default::default()
        },
        ..Default::default()
    };

    let result = validate_controller_state(0, &mut state, &cfg, true, true);
    assert!(result.is_err());
    assert!(result.unwrap_err().contains("calibration"));
    assert!(!state.validated);
}

#[test]
fn validate_controller_require_vigembus_only() {

    let mut state = ControllerState { connected: true, ..Default::default() };
    let cfg = AppConfig {
        real_device_validation: true,
        validation: ValidationConfig {
            enable_real_device_checks: true,
            require_vigembus: true,
            require_hidhide: false,
            ..Default::default()
        },
        ..Default::default()
    };

    // ViGEmBus missing → fail.
    let result = validate_controller_state(0, &mut state, &cfg, false, false);
    assert!(result.is_err());
    assert!(result.unwrap_err().contains("ViGEmBus"));

    // ViGEmBus present → pass (HidHide not required).
    assert!(validate_controller_state(0, &mut state, &cfg, true, false).unwrap());
    assert!(state.validated);
}

#[test]
fn validate_controller_require_hidhide_only() {

    let mut state = ControllerState { connected: true, ..Default::default() };
    let cfg = AppConfig {
        real_device_validation: true,
        validation: ValidationConfig {
            enable_real_device_checks: true,
            require_vigembus: false,
            require_hidhide: true,
            ..Default::default()
        },
        ..Default::default()
    };

    // HidHide missing → fail.
    let result = validate_controller_state(0, &mut state, &cfg, true, false);
    assert!(result.is_err());
    assert!(result.unwrap_err().contains("HidHide"));

    // HidHide present → pass.
    assert!(validate_controller_state(0, &mut state, &cfg, false, true).unwrap());
    assert!(state.validated);
}

#[test]
fn validate_controller_no_strict_cal_passes_without_calibration() {

    let mut state = ControllerState { connected: true, ..Default::default() };
    let cfg = AppConfig {
        real_device_validation: true,
        validation: ValidationConfig {
            enable_real_device_checks: true,
            ..Default::default()
        },
        ..Default::default()
    };
    // strict_calibration_requirements is false by default.
    // No stick calibration set, but should still pass.

    assert!(validate_controller_state(0, &mut state, &cfg, false, false).unwrap());
    assert!(state.validated);
}

#[test]
fn controller_output_allowed_when_validated() {

    let config = AppConfig {
        real_device_validation: true,
        ..Default::default()
    };
    let controller = ControllerState {
        validated: true,
        ..Default::default()
    };
    assert!(controller_output_is_allowed(&config, &controller));
}

#[test]
fn controller_output_allowed_when_validation_disabled() {

    let config = AppConfig::default();
    let controller = ControllerState::default();
    // real_device_validation defaults to false.
    assert!(controller_output_is_allowed(&config, &controller));
}

#[test]
fn handle_report_empty_data_is_noop() {
    let mut memory = DeviceLoop::with_slot(0, 0);
    let before = memory;
    assert!(memory.handle_report(&[], 1000).is_none());
    assert_eq!(memory, before);
}

#[test]
fn handle_report_unknown_report_id_does_not_panic() {
    let mut memory = DeviceLoop::with_slot(0, 0);
    let data = [0xFFu8, 0x01, 0x02, 0x03];
    let (route, _) = memory.handle_report(&data, 0).unwrap();
    assert_eq!(route, ReportRoute::Unhandled);
}

#[test]
fn handle_report_standard_report_updates_state() {
    let mut memory = DeviceLoop::with_slot(0, 0);
    let mut state = ControllerState::default();
    serve(&mut memory, &mut state, &standard_report(1), None);

    assert!(state.connected, "state.connected should be true after report");
    assert!(state.battery_percent > 0, "battery_percent should be > 0");
    let any_button = state.buttons.a || state.buttons.b
        || state.buttons.x || state.buttons.y;
    assert!(any_button, "at least one face button should be pressed");
}

#[test]
fn handle_report_imu_standard_report_populates_imu() {
    let mut memory = DeviceLoop::with_slot(0, 0);
    let mut state = ControllerState::default();
    serve(&mut memory, &mut state, &standard_report(1), None);

    assert!(state.imu.is_some(), "IMU data should be populated");
    let imu = state.imu.as_ref().unwrap();
    assert_eq!(imu.frames.len(), 3, "should have 3 IMU frames");
    assert_eq!(imu.frames[0].accel_z, 4096);
}

#[test]
fn handle_report_standard_report_emits_controller_state_event() {
    let mut memory = DeviceLoop::with_slot(0, 0);
    let mut state = ControllerState::default();
    let events = serve(&mut memory, &mut state, &standard_report(1), None);

    let mut found_controller_state = false;
    let mut found_connection_quality = false;
    for ev in events {
        if matches!(ev, IpcEvent::ControllerState { .. }) {
            found_controller_state = true;
        }
        if matches!(ev, IpcEvent::ConnectionQuality { .. }) {
            found_connection_quality = true;
        }
    }
    assert!(found_controller_state, "ControllerState event should be emitted");
    assert!(found_connection_quality, "ConnectionQuality event should be emitted");
}

#[test]
fn handle_report_nfc_ir_report_clears_or_sets_tag() {
    let mut memory = DeviceLoop::with_slot(0, 0);
    let mut nfc = NfcState::new();
    nfc.tag_present = true;

    let data = [REPORT_ID_NFC_IR];
    let (route, _) = memory.handle_report(&data, 0).unwrap();
    assert_eq!(route, ReportRoute::NfcIr);
    nfc.handle_nfc_ir_report(&data);

    assert!(!nfc.tag_present, "NFC tag should be cleared");
}

#[test]
fn handle_report_usb_reply_short_data_does_not_panic() {
    let mut memory = DeviceLoop::with_slot(0, 0);

    let data = [REPORT_ID_USB_REPLY];
    let (route, _) = memory.handle_report(&data, 0).unwrap();
    assert_eq!(route, ReportRoute::UsbReply);
    assert!(handle_usb_reply(&data).is_none());

    let data = [REPORT_ID_USB_REPLY, 0x04];
    let reply = handle_usb_reply(&data).unwrap();
    assert_eq!(reply, UsbReply { cmd_id: 4, status: 0 });
    assert_eq!(reply.command_name(), "no-timeout");
}

#[test]
fn handle_report_multiple_standard_reports_increment_packets() {
    let mut memory = DeviceLoop::with_slot(0, 0);
    let mut state = ControllerState::default();
    for i in 0..3 {
        serve(&mut memory, &mut state, &standard_report(i), Some(15));
    }
    assert!(
        state.connection_quality.total_packets >= 3,
        "total_packets should be >= 3, got {}",
        state.connection_quality.total_packets
    );
}

#[test]
fn update_connection_quality_increments_total_packets() {
    let mut state = ControllerState::default();
    let initial = state.connection_quality.total_packets;
    reports::update_connection_quality(&mut state, 0x01, None);
    assert_eq!(
        state.connection_quality.total_packets,
        initial.wrapping_add(1)
    );
}

#[test]
fn update_connection_quality_detects_dropped_frames() {
    let mut state = ControllerState::default();
    reports::update_connection_quality(&mut state, 0x01, None);
    assert_eq!(state.connection_quality.dropped, 0);
    reports::update_connection_quality(&mut state, 0x10, Some(5));
    assert_eq!(
        state.connection_quality.dropped, 1,
        "large timer gap should count as dropped"
    );
    assert_eq!(state.connection_quality.latency_ms, 5);
    assert_eq!(state.connection_quality.report_rate_hz, 200);
    assert_eq!(value(state.connection_quality.packet_loss_rate), 50.0);
}

#[test]
fn update_connection_quality_normal_timer_gap_no_drop() {
    let mut state = ControllerState::default();
    reports::update_connection_quality(&mut state, 0x01, None);
    reports::update_connection_quality(&mut state, 0x02, Some(5));
    assert_eq!(state.connection_quality.dropped, 0);
    reports::update_connection_quality(&mut state, 0x04, Some(5));
    assert_eq!(state.connection_quality.dropped, 0);
}

#[test]
fn update_connection_quality_wrapping_timer() {
    let mut state = ControllerState::default();
    reports::update_connection_quality(&mut state, 0xFE, None);
    reports::update_connection_quality(&mut state, 0x00, Some(5));
    assert_eq!(state.connection_quality.dropped, 0);
}

/// The events of `emit_device_info`.
fn announced(state: &ControllerState) -> Vec<IpcEvent> {
    let mut events = Vec::new();
    DeviceLoop::with_slot(0, 0).emit_device_info(state, &mut events);
    events
}

#[test]
fn emit_device_info_sets_connection_string() {
    let mut state = ControllerState::default();
    state.device_info = Some(DeviceInfo {
        firmware_version: "1.0".into(),
        ..Default::default()
    });
    state.connection_type = ConnectionType::Usb;

    let mut found = false;
    for ev in announced(&state) {
        if let IpcEvent::DeviceInfo { data } = ev {
            assert_eq!(data.connection, "USB");
            found = true;
        }
    }
    assert!(found, "DeviceInfo event should be emitted");
}

#[test]
fn emit_device_info_bluetooth_connection_string() {
    let mut state = ControllerState::default();
    state.device_info = Some(DeviceInfo::default());
    state.connection_type = ConnectionType::Bluetooth;

    let mut found = false;
    for ev in announced(&state) {
        if let IpcEvent::DeviceInfo { data } = ev {
            assert_eq!(data.connection, "Bluetooth");
            found = true;
        }
    }
    assert!(found, "DeviceInfo event should be emitted for Bluetooth");
}

#[test]
fn emit_device_info_no_event_when_device_info_is_none() {
    let state = ControllerState::default();
    assert!(announced(&state).is_empty(), "no event should be emitted");
}

#[test]
fn emit_device_info_marks_calibration_when_stick_cal_present() {
    let mut state = ControllerState::default();
    state.device_info = Some(DeviceInfo {
        spi: Some(SpiInfo::default()),
        ..Default::default()
    });
    state.stick_calibration = Some(StickCalibration {
        valid: true,
        ..Default::default()
    });

    let mut found = false;
    for ev in announced(&state) {
        if let IpcEvent::DeviceInfo { data } = ev {
            if let Some(spi) = data.spi {
                assert!(spi.calibration, "calibration should be true");
                found = true;
            }
        }
    }
    assert!(found, "DeviceInfo with calibration flag should be emitted");
}

#[test]
fn imu_raw_to_physical_default_scales() {

    let frame = ImuFrame {
        accel_x: 4096,
        accel_y: 0,
        accel_z: 4096,
        gyro_x: 13371,
        gyro_y: 0,
        gyro_z: 0,
    };
    let physical = imu::raw_to_physical(&frame);
    // accel_z = 4096 * (1/4096) = 1.0 g (gravity)
    assert!((value(physical.accel_z) - 1.0).abs() < 1e-6, "accel_z should be ~1.0g");
    // gyro_x = 13371 * (1/13371) = 1.0 deg/s
    assert!((value(physical.gyro_x) - 1.0).abs() < 1e-6, "gyro_x should be ~1.0 dps");
    // accel_y = 0
    assert!((value(physical.accel_y) - 0.0).abs() < 1e-6);
}

#[test]
fn imu_raw_to_physical_calibrated_with_factory_cal() {

    let frame = ImuFrame {
        accel_x: 1000,
        accel_y: 0,
        accel_z: 4096,
        gyro_x: 100,
        gyro_y: 0,
        gyro_z: 0,
    };
    // Realistic factory calibration values.
    let cal = ImuCalibration {
        accel_origin: [0, 0, 0],
        accel_sensitivity: [16384, 16384, 16384],
        gyro_origin: [0, 0, 0],
        gyro_sensitivity: [13371, 13371, 13371],
        ..Default::default()
    };
    let physical = imu::raw_to_physical_calibrated(&frame, &cal);
    // accel_x = 1000 * (1/(16384-0) * 4) = 1000 * 4/16384 ≈ 0.244
    let expected_ax = 1000.0 * 4.0 / 16384.0;
    assert!(
        (value(physical.accel_x) - expected_ax).abs() < 1e-4,
        "accel_x should be ~{}, got {}",
        expected_ax,
        value(physical.accel_x)
    );
    // gyro_x = (100 - 0) * (936 / (13371 - 0)) ≈ 7.0
    let expected_gx = 100.0 * 936.0 / 13371.0;
    assert!(
        (value(physical.gyro_x) - expected_gx).abs() < 1e-2,
        "gyro_x should be ~{}, got {}",
        expected_gx,
        value(physical.gyro_x)
    );
}

#[test]
fn imu_raw_to_physical_calibrated_degenerate_falls_back() {

    let frame = ImuFrame {
        accel_x: 4096,
        accel_y: 0,
        accel_z: 4096,
        gyro_x: 13371,
        gyro_y: 0,
        gyro_z: 0,
    };
    // Degenerate calibration: sensitivity == origin → should use default scale.
    let cal = ImuCalibration {
        accel_origin: [100, 100, 100],
        accel_sensitivity: [100, 100, 100], // diff < 10 → fallback
        gyro_origin: [200, 200, 200],
        gyro_sensitivity: [200, 200, 200], // diff < 10 → fallback
        ..Default::default()
    };
    let physical = imu::raw_to_physical_calibrated(&frame, &cal);
    // Should match the uncalibrated default.
    let default_physical = imu::raw_to_physical(&frame);
    assert!((value(physical.accel_x) - value(default_physical.accel_x)).abs() < 1e-6);
    assert!((value(physical.gyro_x) - value(default_physical.gyro_x)).abs() < 1e-6);
}

#[test]
fn set_connected_true_sets_slot_active() {
    let mut shared = SharedState::new();
    let mut table = SlotTable::new();
    let mut worker = Worker { slot: 1, claimed_path: None };

    assert!(!shared.is_slot_active(1));
    worker.set_connected(true, &mut table, &mut shared);
    assert!(shared.is_slot_active(1));

    worker.set_connected(false, &mut table, &mut shared);
    assert!(!shared.is_slot_active(1));
}

#[test]
fn set_connected_false_without_claimed_path_is_safe() {
    let mut shared = SharedState::new();
    let mut table = SlotTable::new();
    let mut worker = Worker { slot: 2, claimed_path: None };

    worker.set_connected(false, &mut table, &mut shared);
    assert!(!shared.is_slot_active(2));
}

#[test]
fn device_loop_new_creates_manager_slot() {
    assert_eq!(DeviceLoop::new(0).slot, MANAGER_SLOT);
}

#[test]
fn device_loop_with_slot_creates_worker_slot() {
    assert_eq!(DeviceLoop::with_slot(2, 0).slot, 2);
}

#[test]
fn raw_reports_are_passed_on_now_and_then() {
    let mut memory = DeviceLoop::with_slot(0, 1000);
    let data = [0x30u8, 0xAB];
    let (_, raw) = memory.handle_report(&data, 1049).unwrap();
    assert!(raw.is_none());
    let (_, raw) = memory.handle_report(&data, 1050).unwrap();
    match raw {
        Some(IpcEvent::RawHidReport { hex, report_id }) => {
            assert_eq!(hex, "30 AB");
            assert_eq!(report_id, 0x30);
        }
        other => panic!("expected a raw report, got {:?}", other),
    }
    assert!(memory.handle_report(&data, 1099).unwrap().1.is_none());
}

#[test]
fn reports_fall_due_by_their_number() {
    let mut memory = DeviceLoop::with_slot(0, 0);
    let mut state = ControllerState::default();
    let data = standard_report(0);
    let mut status = 0;
    let mut voltage = 0;
    for _ in 0..1801 {
        let intake = memory.begin_standard_report(&mut state, &data, 0).unwrap();
        status += intake.status_due as u32;
        voltage += intake.voltage_due as u32;
    }
    assert_eq!(status, 31);
    assert_eq!(voltage, 2);
    assert!(memory.begin_standard_report(&mut state, &[0x30, 0], 0).is_none());
    assert_eq!(memory.frame_counter, 1801);
}

#[test]
fn axes_follow_a_valid_calibration() {
    let mut memory = DeviceLoop::with_slot(0, 0);
    let mut state = ControllerState::default();
    let mut data = standard_report(0);
    data[6] = 0x00;
    data[7] = 0x0C;
    let intake = memory.begin_standard_report(&mut state, &data, 0).unwrap();
    assert_eq!(value(intake.axes.0), 0.5);
    state.stick_calibration = Some(StickCalibration {
        left_center_x: 2048,
        left_min_x: 1024,
        left_max_x: 3072,
        valid: true,
        ..Default::default()
    });
    let intake = memory.begin_standard_report(&mut state, &data, 0).unwrap();
    assert_eq!(value(intake.axes.0), 1.0);
}

#[test]
fn drift_is_told_once() {
    let mut memory = DeviceLoop::with_slot(0, 0);
    assert!(memory.note_drift(DriftStatus::Stable, DriftStatus::Unknown).is_empty());
    let events = memory.note_drift(DriftStatus::Drifting, DriftStatus::Fail);
    assert_eq!(events.len(), 2);
    match &events[1] {
        IpcEvent::DriftDetected { stick, status } => {
            assert_eq!(stick, "Right");
            assert_eq!(status, "Fail");
        }
        other => panic!("expected a drift, got {:?}", other),
    }
    assert!(memory.note_drift(DriftStatus::Drifting, DriftStatus::Fail).is_empty());
}

#[test]
fn gyro_moves_the_mouse_by_the_sum_of_its_readings() {
    let mut memory = DeviceLoop::with_slot(0, 0);
    let mut state = ControllerState::default();
    let intake =
        memory.begin_standard_report(&mut state, &standard_report(0), 0).unwrap();
    let mut shaped = unshaped(&state);
    shaped.mouse_mode = true;
    shaped.deltas = [(1, -2), (3, 4), (i32::MAX, 5)];
    let (moved, events) =
        memory.finish_standard_report(&mut state, &intake.parsed, &shaped, None, 9);
    assert_eq!(moved, Some((i32::MAX, 7)));
    assert!(matches!(events[0], IpcEvent::ImuData { timestamp: 9, .. }));
    assert_eq!(state.gyro_mouse_delta, (0, 0));
    let (_, events) = memory.finish_standard_report(&mut state, &intake.parsed, &shaped, None, 9);
    assert!(matches!(events[0], IpcEvent::ConnectionQuality { .. }));
    shaped.mouse_mode = false;
    let (moved, _) = memory.finish_standard_report(&mut state, &intake.parsed, &shaped, None, 9);
    assert_eq!(moved, None);
}

#[test]
fn flick_turns_the_camera() {
    let mut memory = DeviceLoop::with_slot(0, 0);
    let mut state = ControllerState::default();
    let intake =
        memory.begin_standard_report(&mut state, &standard_report(0), 0).unwrap();
    let mut shaped = unshaped(&state);
    shaped.flick = Some((r32(45.0), true));
    memory.finish_standard_report(&mut state, &intake.parsed, &shaped, None, 0);
    assert_eq!(state.camera_yaw, r32(45.0));
    assert!(state.flick_active);
}

#[test]
fn device_info_reply_is_kept() {
    let mut memory = DeviceLoop::with_slot(0, 0);
    let mut state = ControllerState::default();
    state.connection_type = ConnectionType::Usb;
    let data = reply(0x02, &[4, 33, 3, 2, 0xAA, 0xBB, 0xCC, 0x01, 0x02, 0x03, 1, 1]);
    let events = memory.handle_subcmd_reply(&mut state, &data, 15);
    let info = state.device_info.as_ref().unwrap();
    assert_eq!(info.firmware_version, "4.33");
    assert_eq!(info.connection, "USB");
    assert!(matches!(events[0], IpcEvent::DeviceInfo { .. }));
    assert!(matches!(events[1], IpcEvent::SubcommandReply { subcmd_id: 2, ack: 0x80, .. }));
    assert!(matches!(events[2], IpcEvent::BatteryState { .. }));
    assert!(matches!(events[3], IpcEvent::ControllerState { .. }));
    assert_eq!(events.len(), 4);
}

#[test]
fn low_battery_is_warned_of() {
    let mut memory = DeviceLoop::with_slot(0, 0);
    let mut state = ControllerState::default();
    let mut data = reply(0x50, &[0x40, 0x06]);
    data[2] = 0x20;
    let events = memory.handle_subcmd_reply(&mut state, &data, 30);
    assert_eq!(state.battery_voltage_mv, 4000);
    match events.last() {
        Some(IpcEvent::BatteryWarning { percent }) => assert_eq!(*percent, state.battery_percent),
        other => panic!("expected a warning, got {:?}", other),
    }
    assert!(memory.handle_subcmd_reply(&mut state, &[0x21, 0, 0], 30).is_empty());
}

#[test]
fn sticks_are_calibrated_once_both_are_read() {
    let mut memory = DeviceLoop::with_slot(0, 0);
    let mut state = ControllerState::default();
    let nine = [0x00, 0x04, 0x40, 0x00, 0x08, 0x80, 0x00, 0x04, 0x40];
    let mut left = vec![0x3D, 0x60, 0, 0];
    left.extend_from_slice(&nine);
    memory.handle_subcmd_reply(&mut state, &reply(0x10, &left), 15);
    assert!(memory.left_stick_cal.is_some());
    let mut right = vec![0x46, 0x60, 0, 0];
    right.extend_from_slice(&[0x00, 0x08, 0x80, 0x00, 0x04, 0x40, 0x00, 0x04, 0x40]);
    memory.handle_subcmd_reply(&mut state, &reply(0x10, &right), 15);
    let cal = state.stick_calibration.unwrap();
    assert!(cal.valid);
    assert_eq!((cal.left_min_x, cal.left_center_x, cal.left_max_x), (1024, 2048, 3072));
    assert_eq!((cal.right_min_y, cal.right_center_y, cal.right_max_y), (1024, 2048, 3072));
}

#[test]
fn colors_and_serial_come_from_flash() {
    let mut memory = DeviceLoop::with_slot(0, 0);
    let mut state = ControllerState::default();
    let mut read = |addr: u32, data: &[u8]| {
        let mut echoed = vec![addr as u8, (addr >> 8) as u8, 0, 0];
        echoed.extend_from_slice(data);
        memory.handle_subcmd_reply(&mut state, &reply(0x10, &echoed), 15);
    };
    read(0x6000, b"XBW1\0\0");
    read(0x6050, &[1, 2, 3]);
    read(0x6056, &[4, 5, 6]);
    read(0x6059, &[7, 8, 9]);
    read(0x601B, &[1]);
    let spi = state.device_info.as_ref().and_then(|d| d.spi.as_ref()).unwrap();
    assert_eq!(spi.serial, "XBW1");
    assert_eq!(spi.body_color, "rgb(1,2,3)");
    assert_eq!(spi.grip_color, "rgb(4,5,6)");
    assert!(spi.use_spi_colors);
}

#[test]
fn settings_of_the_checks_are_replaced() {
    let mut config = AppConfig::default();
    let mut flags = get_validation_flags(&config);
    assert!(!flags.real_device_validation);
    flags.real_device_validation = true;
    flags.validation.require_hidhide = true;
    assert_eq!(set_validation_flags(&mut config, flags), flags);
    assert_eq!(get_validation_flags(&config), flags);
}

#[test]
fn profile_is_switched_once() {
    let mut p = ActiveProfile { active_profile_id: None, last_applied: None };
    match p.check_profile_auto_switch("p1", "Game") {
        Some(IpcEvent::ProfileChanged { profile_id, profile_name }) => {
            assert_eq!(profile_id.as_deref(), Some("p1"));
            assert_eq!(profile_name.as_deref(), Some("Game"));
        }
        other => panic!("expected a change, got {:?}", other),
    }
    assert!(p.check_profile_auto_switch("p1", "Game").is_none());
    assert_eq!(p.last_applied.as_deref(), Some("p1"));
}

#[test]
fn init_sequence_asks_for_everything() {
    let steps = send_init_sequence();
    assert_eq!(steps[0], Step::Send(Request::GetDeviceInfo));
    assert_eq!(steps[1], Step::Wait(100));
    assert!(steps.contains(&Step::Send(Request::SpiFlashRead {
        addr: SPI_ADDR_LEFT_STICK_FACTORY,
        len: 9
    })));
    assert!(steps.iter().step_by(2).all(|s| !matches!(s, Step::Wait(_))));
}

#[test]
fn bridge_is_opened_over_usb_only() {
    let usb = connect_sequence(ConnectionType::Usb);
    assert_eq!(usb[0], Step::Usb(0x02));
    assert_eq!(usb[6], Step::SetReportMode);
    assert_eq!(connect_sequence(ConnectionType::Bluetooth)[0], Step::SetReportMode);
    assert_eq!(
        disconnect_sequence(ConnectionType::Usb),
        vec![Step::Usb(0x05), Step::Wait(50)]
    );
    assert!(disconnect_sequence(ConnectionType::Bluetooth).is_empty());
}

#[test]
fn steps_become_reports() {
    let bytes = |step, counter| match step_command(step, counter) {
        Some(DeviceCommand::Write(b)) => Some(b),
        None => None,
    };
    assert_eq!(bytes(Step::Usb(0x02), 0), Some(vec![0x80, 0x02]));
    assert_eq!(bytes(Step::Wait(5), 0), None);
    assert_eq!(
        bytes(Step::Send(Request::SpiFlashRead { addr: 0x603D, len: 9 }), 7),
        Some(vec![0x01, 7, 0, 0, 0, 0, 0, 0, 0, 0, 0x10, 0x3D, 0x60, 0, 0, 9])
    );
    assert_eq!(
        bytes(Step::Send(Request::EnableImu { on: true }), 1),
        Some(vec![0x01, 1, 0, 0, 0, 0, 0, 0, 0, 0, 0x40, 1])
    );
}

#[test]
fn periodic_actions_fall_due() {
    let mut t = Timers::new(0);
    let a = t.tick(49, ConnectionType::Bluetooth, true, true);
    assert!(!a.refresh_rumble && !a.keepalive && !a.poll_state && !a.check_profile);
    let a = t.tick(50, ConnectionType::Bluetooth, true, true);
    assert!(a.refresh_rumble && !a.keepalive);
    let a = t.tick(1000, ConnectionType::Bluetooth, true, false);
    assert!(!a.refresh_rumble && a.keepalive && a.check_profile);
    let a = t.tick(1000, ConnectionType::Bluetooth, true, true);
    assert!(!a.refresh_rumble && !a.keepalive && !a.check_profile);
    let a = t.tick(5000, ConnectionType::Usb, true, true);
    assert!(a.poll_state && !a.keepalive);
}

fn entry(product_id: u16, path: &str, usb: bool) -> HidEntry {
    HidEntry { vendor_id: 0x057E, product_id, path: path.to_string(), usb }
}

#[test]
fn controllers_are_found_among_devices() {
    let list = vec![
        entry(0x2006, "joy", false),
        entry(0x2009, "bt", false),
        entry(0x2009, "usb", true),
    ];
    let found = enumerate_pro_controllers(&list);
    assert_eq!(found.len(), 2);
    assert_eq!(found[0].path, "bt");
    assert_eq!(found[0].connection, ConnectionType::Bluetooth);
    assert_eq!(found[1].connection, ConnectionType::Usb);
    assert_eq!(try_open_path(&list, &None), Ok(1));
    assert_eq!(try_open_path(&list, &Some("usb".to_string())), Ok(2));
    assert!(try_open_path(&list, &Some("gone".to_string())).is_err());
}

#[test]
fn slots_are_given_and_taken_back() {
    let device = |path: &str| DevicePath {
        path: path.to_string(),
        connection: ConnectionType::Bluetooth,
    };
    let mut table = SlotTable::new();
    let given = table.assign(&vec![device("a"), device("b"), device("a")]);
    assert_eq!(given.len(), 2);
    assert_eq!((given[0].slot, given[0].path.as_str()), (0, "a"));
    assert_eq!((given[1].slot, given[1].path.as_str()), (1, "b"));
    table.reap(&[true, false, false, false]);
    assert!(!table.is_claimed("a"));
    assert!(table.is_claimed("b"));
    let given = table.assign(&vec![device("c"), device("d"), device("e"), device("f")]);
    let taken: Vec<u8> = given.iter().map(|g| g.slot).collect();
    assert_eq!(taken, vec![0, 2, 3]);
    assert!(!table.is_claimed("f"));
}

#[test]
fn failed_opening_is_tried_again_without_a_path() {
    let r = open_failed(false, &Some("busy".to_string()));
    assert_eq!(r.retry_after_ms, Some(slots::REOPEN_DELAY_MS));
    match r.event {
        Some(IpcEvent::Disconnected { reason }) => assert_eq!(reason, "open failed: busy"),
        other => panic!("expected a disconnection, got {:?}", other),
    }
    let r = open_failed(true, &None);
    assert_eq!(r.retry_after_ms, None);
    assert!(r.event.is_none());
}

#[test]
fn commands_go_to_connected_controllers_only() {
    let mut shared = SharedState::new();
    assert!(shared.send_device_command_to_slot(1, vec![1]).is_err());
    shared.set_slot_connected(1, true);
    match shared.send_device_command_to_slot(1, vec![1, 2]) {
        Ok(DeviceCommand::Write(b)) => assert_eq!(b, vec![1, 2]),
        other => panic!("expected a write, got {:?}", other),
    }
    assert!(shared.set_active_slot(4).is_err());
    assert!(shared.set_active_slot(1).is_ok());
    assert_eq!(shared.active_controller().slot_index, 1);
    assert!(shared.get_controller(1).connected);
    assert!(!shared.get_controller(9).connected);
    let mut c = shared.get_controller(2);
    c.battery_percent = 42;
    shared.set_controller(2, c);
    assert_eq!(shared.get_controller(2).battery_percent, 42);
}

#[test]
fn selected_controller_is_checked_and_marked() {
    let mut shared = SharedState::new();
    let mut config = AppConfig::default();
    config.real_device_validation = true;
    shared.set_active_slot(2).unwrap();
    assert_eq!(
        validate_current_controller(&mut shared, &config, true, true),
        Err("Controller not connected".to_string())
    );
    shared.set_slot_connected(2, true);
    assert_eq!(validate_current_controller(&mut shared, &config, true, true), Ok(true));
    let validated: Vec<bool> = shared.get_controllers().iter().map(|c| c.validated).collect();
    assert_eq!(validated, vec![false, false, true, false]);
    shared.selected_slot = 9;
    assert_eq!(shared.selection(), 9);
    assert_eq!(
        validate_current_controller(&mut shared, &config, true, true),
        Err("Invalid controller slot".to_string())
    );
}

#[test]
fn offsets_before_any_calibration_come_with_a_default_one() {
    let mut memory = DeviceLoop::with_slot(0, 0);
    let mut state = ControllerState::default();
    assert!(state.imu_calibration.is_none());
    let data = reply(0x10, &[0x80, 0x60, 0x00, 0x06, 1, 0, 2, 0, 3, 0]);
    memory.handle_subcmd_reply(&mut state, &data, 0);
    let cal = state.imu_calibration.as_ref().expect("a calibration");
    assert_eq!(cal.horizontal_offsets, [1, 2, 3]);
    assert_eq!(cal.source, "default");
    assert_eq!(cal.gyro_sensitivity, [0x343B; 3]);
    let data = reply(0x10, &[0x80, 0x60, 0x00, 0x06, 9, 0, 8, 0, 7, 0]);
    memory.handle_subcmd_reply(&mut state, &data, 0);
    assert_eq!(state.imu_calibration.unwrap().horizontal_offsets, [9, 8, 7]);
}

#[test]
fn half_of_the_motion_readings_are_announced() {
    let mut memory = DeviceLoop::with_slot(0, 0);
    let mut state = ControllerState::default();
    let mut announced = 0;
    for i in 0..7u8 {
        let events = serve(&mut memory, &mut state, &standard_report(i), Some(8));
        let told = events.iter().any(|e| matches!(e, IpcEvent::ImuData { .. }));
        assert_eq!(told, i % 2 == 0);
        announced += told as u32;
    }
    assert_eq!(announced, 4);
}
