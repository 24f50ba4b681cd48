use oxidelink::hid_parser::{ImuData, ImuFrame};
use oxidelink::imu;
use oxidelink::imu::{
    aim_rates, calibrate_gyro_bias, gate, physical_from_imu, GyroAimConfig, ImuExposureMode,
    TiltEstimator,
};
use oxidelink::numeric::{Ratio, Real32};
use oxidelink::state::ImuCalibration;

fn r32(v: f32) -> Real32 {
    Real32::from_bits(v.to_bits())
}

fn value(r: Ratio) -> f32 {
    r.num as f32 / r.den as f32
}

/// A reading in plain numbers.
struct Physical {
    accel_x: f32,
    accel_y: f32,
    accel_z: f32,
    gyro_x: f32,
}

fn plain(p: imu::ImuPhysical) -> Physical {
    Physical {
        accel_x: value(p.accel_x),
        accel_y: value(p.accel_y),
        accel_z: value(p.accel_z),
        gyro_x: value(p.gyro_x),
    }
}

fn raw_to_physical_calibrated(frame: &ImuFrame, cal: &ImuCalibration) -> Physical {
    plain(imu::raw_to_physical_calibrated(frame, cal))
}

fn apply_calibration(frame: &ImuFrame, cal: &ImuCalibration) -> Physical {
    plain(imu::apply_calibration(frame, cal))
}

fn raw_to_physical(frame: &ImuFrame) -> Physical {
    plain(imu::raw_to_physical(frame))
}

fn default_cal() -> ImuCalibration {
    ImuCalibration {
        accel_origin: [0, 0, 0],
        accel_sensitivity: [0x4000, 0x4000, 0x4000],
        gyro_origin: [0, 0, 0],
        gyro_sensitivity: [0x343B, 0x343B, 0x343B],
        source: "default".into(),
        horizontal_offsets: [0, 0, 0],
    }
}

#[test]
fn raw_to_physical_calibrated_accel_one_g() {
    // With default calibration: acc_coeff = 1.0 / (0x4000 - 0) * 4.0
    //   = 4.0 / 16384 = 1.0 / 4096
    // So raw=4096 → 1.0 g
    let cal = default_cal();
    let frame = ImuFrame {
        accel_x: 4096,
        accel_y: 0,
        accel_z: 0,
        gyro_x: 0,
        gyro_y: 0,
        gyro_z: 0,
    };
    let phys = raw_to_physical_calibrated(&frame, &cal);
    assert!(
        (phys.accel_x - 1.0).abs() < 0.001,
        "accel_x=4096 should be ~1.0g, got {}",
        phys.accel_x
    );
    assert!(
        (phys.accel_y - 0.0).abs() < 0.001,
        "accel_y=0 should be 0.0g"
    );
}

#[test]
fn raw_to_physical_calibrated_gyro_one_deg_per_s() {
    // With default calibration: gyro_coeff = 936.0 / (0x343B - 0)
    //   = 936.0 / 13371 ≈ 0.07
    // raw=13371 → 936.0 dps... wait, that's not 1.0 dps.
    // Actually 936 / 13371 * 13371 = 936 dps. The coefficient maps
    // full-scale to ±936 dps (which is ~±2000 dps in some references,
    // but the Linux kernel uses 936).
    let cal = default_cal();
    let frame = ImuFrame {
        accel_x: 0,
        accel_y: 0,
        accel_z: 0,
        gyro_x: 0x343B,
        gyro_y: 0,
        gyro_z: 0,
    };
    let phys = raw_to_physical_calibrated(&frame, &cal);
    // gyro_x at full sensitivity should give 936 dps
    assert!(
        (phys.gyro_x - 936.0).abs() < 1.0,
        "gyro_x=0x343B should be ~936 dps, got {}",
        phys.gyro_x
    );
}

#[test]
fn raw_to_physical_calibrated_accel_does_not_subtract_origin() {
    // Accel should NOT subtract origin per Linux kernel
    let cal = ImuCalibration {
        accel_origin: [100, 0, 0],
        accel_sensitivity: [0x4000 + 100, 0x4000, 0x4000],
        gyro_origin: [0, 0, 0],
        gyro_sensitivity: [0x343B, 0x343B, 0x343B],
        source: "factory".into(),
        horizontal_offsets: [0, 0, 0],
    };
    let frame = ImuFrame {
        accel_x: 4096,
        accel_y: 0,
        accel_z: 0,
        gyro_x: 0,
        gyro_y: 0,
        gyro_z: 0,
    };
    let phys = raw_to_physical_calibrated(&frame, &cal);
    // acc_coeff = 1.0 / (0x4064 - 100) * 4.0 = 1.0 / 16384 * 4.0 = 1/4096
    // result = 4096 * (1/4096) = 1.0 (origin NOT subtracted)
    assert!(
        (phys.accel_x - 1.0).abs() < 0.001,
        "accel should not subtract origin, got {}",
        phys.accel_x
    );
}

#[test]
fn raw_to_physical_calibrated_gyro_subtracts_origin() {
    // Gyro SHOULD subtract origin
    let cal = ImuCalibration {
        accel_origin: [0, 0, 0],
        accel_sensitivity: [0x4000, 0x4000, 0x4000],
        gyro_origin: [100, 0, 0],
        gyro_sensitivity: [0x343B + 100, 0x343B, 0x343B],
        source: "factory".into(),
        horizontal_offsets: [0, 0, 0],
    };
    let frame = ImuFrame {
        accel_x: 0,
        accel_y: 0,
        accel_z: 0,
        gyro_x: 0x343B + 100, // raw = sensitivity
        gyro_y: 0,
        gyro_z: 0,
    };
    let phys = raw_to_physical_calibrated(&frame, &cal);
    // gyro_coeff = 936 / (0x343B + 100 - 100) = 936 / 13371
    // result = (0x343B + 100 - 100) * 936/13371 = 13371 * 936/13371 = 936
    assert!(
        (phys.gyro_x - 936.0).abs() < 1.0,
        "gyro should subtract origin, got {}",
        phys.gyro_x
    );
}

#[test]
fn raw_to_physical_calibrated_degenerate_falls_back() {
    // When sensitivity == origin, should fall back to default scale
    let cal = ImuCalibration {
        accel_origin: [100, 100, 100],
        accel_sensitivity: [100, 100, 100], // degenerate
        gyro_origin: [50, 50, 50],
        gyro_sensitivity: [50, 50, 50], // degenerate
        source: "factory".into(),
        horizontal_offsets: [0, 0, 0],
    };
    let frame = ImuFrame {
        accel_x: 4096,
        accel_y: 0,
        accel_z: 0,
        gyro_x: 13371,
        gyro_y: 0,
        gyro_z: 0,
    };
    let phys = raw_to_physical_calibrated(&frame, &cal);
    // Should use default scale factors
    assert!(
        (phys.accel_x - 1.0).abs() < 0.001,
        "degenerate accel should fall back to default, got {}",
        phys.accel_x
    );
    assert!(
        (phys.gyro_x - 1.0).abs() < 0.001,
        "degenerate gyro should fall back to default, got {}",
        phys.gyro_x
    );
}

#[test]
fn apply_calibration_delegates_to_calibrated() {
    let cal = default_cal();
    let frame = ImuFrame {
        accel_x: 4096,
        accel_y: 0,
        accel_z: 0,
        gyro_x: 0,
        gyro_y: 0,
        gyro_z: 0,
    };
    let phys1 = apply_calibration(&frame, &cal);
    let phys2 = raw_to_physical_calibrated(&frame, &cal);
    assert!((phys1.accel_x - phys2.accel_x).abs() < f32::EPSILON);
}

#[test]
fn raw_to_physical_default_matches_calibrated_default() {
    // raw_to_physical (no calibration) should give same result as
    // raw_to_physical_calibrated with default calibration
    let cal = default_cal();
    let frame = ImuFrame {
        accel_x: 4096,
        accel_y: 2048,
        accel_z: -4096,
        gyro_x: 13371,
        gyro_y: -5000,
        gyro_z: 1000,
    };
    let phys_default = raw_to_physical(&frame);
    let phys_calibrated = raw_to_physical_calibrated(&frame, &cal);
    // accel: default scale = 1/4096, calibrated = 4/16384 = 1/4096 → same
    assert!((phys_default.accel_x - phys_calibrated.accel_x).abs() < 0.001);
    assert!((phys_default.accel_y - phys_calibrated.accel_y).abs() < 0.001);
    assert!((phys_default.accel_z - phys_calibrated.accel_z).abs() < 0.001);
    // gyro: default scale = 1/13371, calibrated = 936/13371 → different!
    // The default raw_to_physical uses 1/13371, but calibrated uses 936/13371
    // So they won't match for gyro. This is expected — the calibrated
    // version uses the Linux kernel formula (936 dps full-scale).
}

fn still(gyro_x: i16, gyro_y: i16, gyro_z: i16) -> ImuFrame {
    ImuFrame { gyro_x, gyro_y, gyro_z, ..ImuFrame::default() }
}

#[test]
fn bias_is_the_mean_rotation() {
    assert_eq!(calibrate_gyro_bias(&[]), [0, 0, 0]);
    let samples = [still(10, -10, 7), still(13, -13, 7), still(12, -12, 7)];
    assert_eq!(calibrate_gyro_bias(&samples), [11, -11, 7]);
    let samples = [still(i16::MIN, i16::MAX, 0), still(i16::MIN, i16::MAX, -1)];
    assert_eq!(calibrate_gyro_bias(&samples), [i16::MIN, i16::MAX, 0]);
}

#[test]
fn small_span_keeps_the_origin_apart() {
    let mut cal = default_cal();
    cal.gyro_origin = [100, 100, 100];
    cal.gyro_sensitivity = [100, 105, 0];
    let p = imu::raw_to_physical_calibrated(&still(300, 300, 300), &cal);
    assert_eq!(p.gyro_x, Ratio { num: 300, den: 13371 });
    assert_eq!(p.gyro_y, Ratio { num: 200, den: 13371 });
    assert_eq!(value(p.gyro_z), -1872.0);
}

#[test]
fn newest_reading_counts() {
    let mut data = ImuData::default();
    data.frames[2].accel_x = 2048;
    assert_eq!(value(physical_from_imu(&data, &None).accel_x), 0.5);
    assert_eq!(value(physical_from_imu(&data, &Some(default_cal())).accel_x), 0.5);
    data.frames[0].accel_x = 4096;
    assert_eq!(value(physical_from_imu(&data, &None).accel_x), 0.5);
}

#[test]
fn aim_follows_rotation_beyond_the_deadzone() {
    let mut cfg = GyroAimConfig::default();
    assert_eq!(aim_rates(r32(9.0), r32(9.0), &cfg), None);
    cfg.enabled = true;
    assert_eq!(aim_rates(r32(9.0), r32(3.0), &cfg), Some((r32(3.0), r32(-9.0))));
    assert_eq!(aim_rates(r32(-3.0), r32(1.5), &cfg), Some((r32(0.0), r32(3.0))));
    assert_eq!(gate(r32(-2.0), r32(2.0)), r32(-2.0));
    assert_eq!(gate(r32(-1.9), r32(2.0)), r32(0.0));
}

#[test]
fn tilt_is_kept_until_reset() {
    let mut t = TiltEstimator::default();
    assert_eq!(t.alpha, r32(0.98));
    t.settle(r32(10.0), r32(-5.0));
    assert_eq!(t.get_tilt(), (r32(10.0), r32(-5.0)));
    t.reset();
    assert_eq!(t.get_tilt(), (r32(0.0), r32(0.0)));
    assert_eq!(TiltEstimator::new(r32(0.5)).alpha, r32(0.5));
}

#[test]
fn exposure_is_halved_by_default() {
    assert_eq!(ImuExposureMode::default(), ImuExposureMode::Downsampled60Hz);
}
