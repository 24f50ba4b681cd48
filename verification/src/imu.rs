//! What a raw reading of the motion sensor means.
//!
//! Readings in physical units are exact ratios: acceleration in g, rotation in
//! degrees per second.

use vstd::prelude::*;

use crate::hid_parser::{ImuData, ImuFrame};
use crate::numeric;
use crate::numeric::{Ratio, Real32};
use crate::state::ImuCalibration;

verus! {

/// Counts of the accelerometer per g where there is no calibration.
pub const ACCEL_COUNTS: i64 = 4096;

/// Counts of the gyroscope per degree per second where there is no
/// calibration.
pub const GYRO_COUNTS: i64 = 13371;

/// The least span of a calibration that is relied upon.
pub const LEAST_SPAN: i64 = 10;

/// A reading in physical units.
#[derive(Clone, Copy, Debug, PartialEq, Eq, Structural)]
pub struct ImuPhysical {
    pub accel_x: Ratio,
    pub accel_y: Ratio,
    pub accel_z: Ratio,
    pub gyro_x: Ratio,
    pub gyro_y: Ratio,
    pub gyro_z: Ratio,
}

impl ImuPhysical {
    pub open spec fn wf(self) -> bool {
        self.accel_x.wf() && self.accel_y.wf() && self.accel_z.wf() && self.gyro_x.wf()
            && self.gyro_y.wf() && self.gyro_z.wf()
    }
}

/// Nothing moves.
pub open spec fn motionless() -> ImuPhysical {
    ImuPhysical {
        accel_x: numeric::zero_ratio(),
        accel_y: numeric::zero_ratio(),
        accel_z: numeric::zero_ratio(),
        gyro_x: numeric::zero_ratio(),
        gyro_y: numeric::zero_ratio(),
        gyro_z: numeric::zero_ratio(),
    }
}

impl Default for ImuPhysical {
    fn default() -> (r: Self)
        ensures
            r == motionless(),
    {
        ImuPhysical {
            accel_x: Ratio::zero(),
            accel_y: Ratio::zero(),
            accel_z: Ratio::zero(),
            gyro_x: Ratio::zero(),
            gyro_y: Ratio::zero(),
            gyro_z: Ratio::zero(),
        }
    }
}

// ---------------------------------------------------------------------------
// Physical units
// ---------------------------------------------------------------------------

/// Whether the span between an origin and a sensitivity is too small to be
/// relied upon.
pub open spec fn span_is_small(sensitivity: i16, origin: i16) -> bool {
    -LEAST_SPAN < sensitivity - origin < LEAST_SPAN
}

/// The acceleration along an axis. The origin is not taken off the reading.
pub open spec fn accel_on(raw: i16, sensitivity: i16, origin: i16) -> Ratio {
    if span_is_small(sensitivity, origin) {
        Ratio { num: raw as i64, den: ACCEL_COUNTS }
    } else {
        numeric::quotient_ratio(raw * 4, sensitivity - origin)
    }
}

/// What is left of a reading of the gyroscope when its origin is taken off.
/// Where origin and sensitivity are the same, nothing is taken off.
pub open spec fn centred(raw: i16, sensitivity: i16, origin: i16) -> int {
    if sensitivity == origin {
        raw as int
    } else {
        raw - origin
    }
}

/// The rotation round an axis.
pub open spec fn gyro_on(raw: i16, sensitivity: i16, origin: i16) -> Ratio {
    if span_is_small(sensitivity, origin) {
        Ratio { num: centred(raw, sensitivity, origin) as i64, den: GYRO_COUNTS }
    } else {
        numeric::quotient_ratio(centred(raw, sensitivity, origin) * 936, sensitivity - origin)
    }
}

/// A reading in physical units, by a calibration.
pub open spec fn calibrated(frame: ImuFrame, cal: ImuCalibration) -> ImuPhysical {
    ImuPhysical {
        accel_x: accel_on(frame.accel_x, cal.accel_sensitivity[0], cal.accel_origin[0]),
        accel_y: accel_on(frame.accel_y, cal.accel_sensitivity[1], cal.accel_origin[1]),
        accel_z: accel_on(frame.accel_z, cal.accel_sensitivity[2], cal.accel_origin[2]),
        gyro_x: gyro_on(frame.gyro_x, cal.gyro_sensitivity[0], cal.gyro_origin[0]),
        gyro_y: gyro_on(frame.gyro_y, cal.gyro_sensitivity[1], cal.gyro_origin[1]),
        gyro_z: gyro_on(frame.gyro_z, cal.gyro_sensitivity[2], cal.gyro_origin[2]),
    }
}

/// A reading in physical units, without a calibration.
pub open spec fn uncalibrated(frame: ImuFrame) -> ImuPhysical {
    ImuPhysical {
        accel_x: Ratio { num: frame.accel_x as i64, den: ACCEL_COUNTS },
        accel_y: Ratio { num: frame.accel_y as i64, den: ACCEL_COUNTS },
        accel_z: Ratio { num: frame.accel_z as i64, den: ACCEL_COUNTS },
        gyro_x: Ratio { num: frame.gyro_x as i64, den: GYRO_COUNTS },
        gyro_y: Ratio { num: frame.gyro_y as i64, den: GYRO_COUNTS },
        gyro_z: Ratio { num: frame.gyro_z as i64, den: GYRO_COUNTS },
    }
}

fn accel_axis(raw: i16, sensitivity: i16, origin: i16) -> (r: Ratio)
    ensures
        r == accel_on(raw, sensitivity, origin),
        r.wf(),
{
    let span: i64 = sensitivity as i64 - origin as i64;
    if -LEAST_SPAN < span && span < LEAST_SPAN {
        return Ratio { num: raw as i64, den: ACCEL_COUNTS };
    }
    Ratio::quotient(raw as i64 * 4, span)
}

fn gyro_axis(raw: i16, sensitivity: i16, origin: i16) -> (r: Ratio)
    ensures
        r == gyro_on(raw, sensitivity, origin),
        r.wf(),
{
    let span: i64 = sensitivity as i64 - origin as i64;
    let rest: i64 = if sensitivity == origin {
        raw as i64
    } else {
        raw as i64 - origin as i64
    };
    if -LEAST_SPAN < span && span < LEAST_SPAN {
        return Ratio { num: rest, den: GYRO_COUNTS };
    }
    Ratio::quotient(rest * 936, span)
}

/// A reading in physical units, by a calibration.
pub fn raw_to_physical_calibrated(frame: &ImuFrame, cal: &ImuCalibration) -> (r: ImuPhysical)
    ensures
        r == calibrated(*frame, *cal),
        r.wf(),
{
    ImuPhysical {
        accel_x: accel_axis(frame.accel_x, cal.accel_sensitivity[0], cal.accel_origin[0]),
        accel_y: accel_axis(frame.accel_y, cal.accel_sensitivity[1], cal.accel_origin[1]),
        accel_z: accel_axis(frame.accel_z, cal.accel_sensitivity[2], cal.accel_origin[2]),
        gyro_x: gyro_axis(frame.gyro_x, cal.gyro_sensitivity[0], cal.gyro_origin[0]),
        gyro_y: gyro_axis(frame.gyro_y, cal.gyro_sensitivity[1], cal.gyro_origin[1]),
        gyro_z: gyro_axis(frame.gyro_z, cal.gyro_sensitivity[2], cal.gyro_origin[2]),
    }
}

/// A reading in physical units, by a calibration.
pub fn apply_calibration(frame: &ImuFrame, cal: &ImuCalibration) -> (r: ImuPhysical)
    ensures
        r == calibrated(*frame, *cal),
        r.wf(),
{
    raw_to_physical_calibrated(frame, cal)
}

/// A reading in physical units, without a calibration.
pub fn raw_to_physical(frame: &ImuFrame) -> (r: ImuPhysical)
    ensures
        r == uncalibrated(*frame),
        r.wf(),
{
    ImuPhysical {
        accel_x: Ratio { num: frame.accel_x as i64, den: ACCEL_COUNTS },
        accel_y: Ratio { num: frame.accel_y as i64, den: ACCEL_COUNTS },
        accel_z: Ratio { num: frame.accel_z as i64, den: ACCEL_COUNTS },
        gyro_x: Ratio { num: frame.gyro_x as i64, den: GYRO_COUNTS },
        gyro_y: Ratio { num: frame.gyro_y as i64, den: GYRO_COUNTS },
        gyro_z: Ratio { num: frame.gyro_z as i64, den: GYRO_COUNTS },
    }
}

/// The newest of the three readings of a report, in physical units.
pub open spec fn newest_reading(imu: ImuData, cal: Option<ImuCalibration>) -> ImuPhysical {
    match cal {
        Some(c) => calibrated(imu.frames[2], c),
        None => uncalibrated(imu.frames[2]),
    }
}

/// The newest of the three readings of a report, in physical units.
pub fn physical_from_imu(imu: &ImuData, calibration: &Option<ImuCalibration>) -> (r: ImuPhysical)
    ensures
        r == newest_reading(*imu, *calibration),
        r.wf(),
{
    match calibration {
        Some(cal) => raw_to_physical_calibrated(&imu.frames[2], cal),
        None => raw_to_physical(&imu.frames[2]),
    }
}

// ---------------------------------------------------------------------------
// The bias of the gyroscope
// ---------------------------------------------------------------------------

/// The three axes of the gyroscope.
#[derive(Clone, Copy, Debug, PartialEq, Eq, Structural)]
pub enum Axis {
    X,
    Y,
    Z,
}

/// The rotation that a reading shows round an axis.
pub open spec fn rotation(frame: ImuFrame, axis: Axis) -> int {
    match axis {
        Axis::X => frame.gyro_x as int,
        Axis::Y => frame.gyro_y as int,
        Axis::Z => frame.gyro_z as int,
    }
}

/// The sum of the rotations round an axis.
pub open spec fn rotation_sum(samples: Seq<ImuFrame>, axis: Axis) -> int
    decreases samples.len(),
{
    if samples.len() == 0 {
        0
    } else {
        rotation_sum(samples.drop_last(), axis) + rotation(samples.last(), axis)
    }
}

/// A quotient rounded towards zero.
pub open spec fn quotient_to_zero(a: int, n: int) -> int {
    if a >= 0 {
        a / n
    } else {
        -((-a) / n)
    }
}

/// The mean rotation round an axis, rounded towards zero; 0 where there is no
/// reading.
pub open spec fn mean_rotation(samples: Seq<ImuFrame>, axis: Axis) -> int {
    if samples.len() == 0 {
        0
    } else {
        quotient_to_zero(rotation_sum(samples, axis), samples.len() as int)
    }
}

proof fn lemma_sum_is_bounded(samples: Seq<ImuFrame>, axis: Axis)
    ensures
        -32768 * samples.len() <= rotation_sum(samples, axis) <= 32767 * samples.len(),
    decreases samples.len(),
{
    if samples.len() > 0 {
        lemma_sum_is_bounded(samples.drop_last(), axis);
    }
}

/// The mean of some readings is no larger than the largest reading can be.
pub proof fn law_mean_rotation_fits(samples: Seq<ImuFrame>, axis: Axis)
    ensures
        -32768 <= mean_rotation(samples, axis) <= 32767,
{
    if samples.len() > 0 {
        lemma_sum_is_bounded(samples, axis);
        let s = rotation_sum(samples, axis);
        let n = samples.len() as int;
        if s >= 0 {
            assert(s / n <= 32767) by (nonlinear_arith)
                requires
                    0 <= s <= 32767 * n,
                    n > 0,
            ;
            assert(s / n >= 0) by (nonlinear_arith)
                requires
                    0 <= s,
                    n > 0,
            ;
        } else {
            assert((-s) / n <= 32768) by (nonlinear_arith)
                requires
                    -32768 * n <= s < 0,
                    n > 0,
            ;
            assert((-s) / n >= 0) by (nonlinear_arith)
                requires
                    s < 0,
                    n > 0,
            ;
        }
    }
}

fn mean_of(sum: i128, n: i128) -> (r: i128)
    requires
        n > 0,
        i128::MIN < sum,
    ensures
        r == quotient_to_zero(sum as int, n as int),
{
    if sum >= 0 {
        sum / n
    } else {
        let q: i128 = (-sum) / n;
        assert(0 <= q <= -sum) by (nonlinear_arith)
            requires
                q == (-sum) / (n as int),
                n > 0,
                sum < 0,
        ;
        -q
    }
}

/// The mean rotation of a controller at rest, to be taken off later readings.
pub fn calibrate_gyro_bias(samples: &[ImuFrame]) -> (r: [i16; 3])
    ensures
        r[0] == mean_rotation(samples@, Axis::X),
        r[1] == mean_rotation(samples@, Axis::Y),
        r[2] == mean_rotation(samples@, Axis::Z),
{
    if samples.len() == 0 {
        return [0, 0, 0];
    }
    let mut x: i128 = 0;
    let mut y: i128 = 0;
    let mut z: i128 = 0;
    let mut i: usize = 0;
    while i < samples.len()
        invariant
            i <= samples.len(),
            x == rotation_sum(samples@.take(i as int), Axis::X),
            y == rotation_sum(samples@.take(i as int), Axis::Y),
            z == rotation_sum(samples@.take(i as int), Axis::Z),
            -32768 * i <= x <= 32767 * i,
            -32768 * i <= y <= 32767 * i,
            -32768 * i <= z <= 32767 * i,
        decreases samples.len() - i,
    {
        assert(samples@.take(i + 1).drop_last() =~= samples@.take(i as int));
        x = x + samples[i].gyro_x as i128;
        y = y + samples[i].gyro_y as i128;
        z = z + samples[i].gyro_z as i128;
        i = i + 1;
    }
    assert(samples@.take(samples@.len() as int) =~= samples@);
    let n: i128 = samples.len() as i128;
    proof {
        law_mean_rotation_fits(samples@, Axis::X);
        law_mean_rotation_fits(samples@, Axis::Y);
        law_mean_rotation_fits(samples@, Axis::Z);
    }
    [mean_of(x, n) as i16, mean_of(y, n) as i16, mean_of(z, n) as i16]
}

/// The bias of readings that are all alike is that reading.
pub proof fn law_steady_rotation_is_its_mean(samples: Seq<ImuFrame>, axis: Axis, v: int)
    requires
        samples.len() > 0,
        forall|i: int| 0 <= i < samples.len() ==> rotation(#[trigger] samples[i], axis) == v,
    ensures
        mean_rotation(samples, axis) == v,
{
    lemma_steady_sum(samples, axis, v);
    let n = samples.len() as int;
    let s = rotation_sum(samples, axis);
    if v >= 0 {
        assert(s >= 0 && s / n == v) by (nonlinear_arith)
            requires
                s == v * n,
                n > 0,
                v >= 0,
        ;
    } else {
        assert(s < 0 && (-s) / n == -v) by (nonlinear_arith)
            requires
                s == v * n,
                n > 0,
                v < 0,
        ;
    }
}

proof fn lemma_steady_sum(samples: Seq<ImuFrame>, axis: Axis, v: int)
    requires
        forall|i: int| 0 <= i < samples.len() ==> rotation(#[trigger] samples[i], axis) == v,
    ensures
        rotation_sum(samples, axis) == v * samples.len(),
    decreases samples.len(),
{
    if samples.len() > 0 {
        let rest = samples.drop_last();
        assert forall|i: int| 0 <= i < rest.len() implies rotation(#[trigger] rest[i], axis)
            == v by {
            assert(rest[i] == samples[i]);
        }
        lemma_steady_sum(rest, axis, v);
        assert(rotation(samples[samples.len() - 1], axis) == v);
        assert(v * (samples.len() - 1) + v == v * samples.len()) by (nonlinear_arith);
    }
}

// ---------------------------------------------------------------------------
// Tilt and aim
// ---------------------------------------------------------------------------

/// A running estimate of the tilt of a controller, in degrees.
#[derive(Clone, Copy, Debug, PartialEq, Eq, Structural)]
pub struct TiltEstimator {
    pub pitch: Real32,
    pub roll: Real32,
    /// How far the gyroscope is trusted over the accelerometer.
    pub alpha: Real32,
}

impl TiltEstimator {
    /// A level controller.
    pub fn new(alpha: Real32) -> (r: Self)
        ensures
            r.pitch.bits == 0,
            r.roll.bits == 0,
            r.alpha == alpha,
    {
        TiltEstimator { pitch: Real32::zero(), roll: Real32::zero(), alpha }
    }

    /// Pitch and roll.
    pub fn get_tilt(&self) -> (r: (Real32, Real32))
        ensures
            r == (self.pitch, self.roll),
    {
        (self.pitch, self.roll)
    }

    /// Takes in a new estimate.
    pub fn settle(&mut self, pitch: Real32, roll: Real32)
        ensures
            *final(self) == (TiltEstimator { pitch, roll, alpha: old(self).alpha }),
    {
        self.pitch = pitch;
        self.roll = roll;
    }

    /// Back to a level controller.
    pub fn reset(&mut self)
        ensures
            final(self).pitch.bits == 0,
            final(self).roll.bits == 0,
            final(self).alpha == old(self).alpha,
    {
        self.pitch = Real32::zero();
        self.roll = Real32::zero();
    }
}

impl Default for TiltEstimator {
    /// A level controller, with the gyroscope trusted to 0.98.
    fn default() -> (r: Self)
        ensures
            r.pitch.bits == 0,
            r.roll.bits == 0,
            r.alpha.bits == 0x3F7A_E148,
    {
        TiltEstimator::new(Real32::from_bits(0x3F7A_E148))
    }
}

/// How rotation is turned into a deflection of the right stick.
#[derive(Clone, Copy, Debug, PartialEq, Eq, Structural)]
pub struct GyroAimConfig {
    pub enabled: bool,
    pub sensitivity: Real32,
    /// The rate below which a rotation is ignored.
    pub deadzone: Real32,
}

impl Default for GyroAimConfig {
    /// Off, at a sensitivity of 0.01 and a deadzone of 2 degrees per second.
    fn default() -> (r: Self)
        ensures
            !r.enabled,
            r.sensitivity.bits == 0x3C23_D70A,
            r.deadzone.bits == 0x4000_0000,
    {
        GyroAimConfig {
            enabled: false,
            sensitivity: Real32::from_bits(0x3C23_D70A),
            deadzone: Real32::from_bits(0x4000_0000),
        }
    }
}

/// A rate with its deadzone applied: 0 below the threshold.
pub open spec fn gated(rate: Real32, deadzone: Real32) -> Real32 {
    if rate.absolute().below(deadzone) {
        Real32 { bits: 0 }
    } else {
        rate
    }
}

/// A rate with its deadzone applied.
pub fn gate(rate: Real32, deadzone: Real32) -> (r: Real32)
    ensures
        r == gated(rate, deadzone),
{
    if rate.abs().lt(deadzone) {
        return Real32::zero();
    }
    rate
}

/// The rates that drive the right stick, horizontally and vertically, before
/// the sensitivity: rotation round the Y axis, and that round the X axis
/// turned round. None while aiming is off.
pub fn aim_rates(gyro_x: Real32, gyro_y: Real32, config: &GyroAimConfig) -> (r: Option<
    (Real32, Real32),
>)
    ensures
        r == (if config.enabled {
            Some((gated(gyro_y, config.deadzone), gated(gyro_x, config.deadzone).negated()))
        } else {
            None
        }),
{
    if !config.enabled {
        return None;
    }
    Some((gate(gyro_y, config.deadzone), gate(gyro_x, config.deadzone).neg()))
}

/// How often readings are passed on.
#[derive(Clone, Copy, Debug, PartialEq, Eq, Structural)]
pub enum ImuExposureMode {
    /// Every report.
    FullRate,
    /// Every second report.
    Downsampled60Hz,
    /// Every fourth report.
    Downsampled30Hz,
    /// Only when asked.
    OnDemand,
}

impl Default for ImuExposureMode {
    fn default() -> (r: Self)
        ensures
            r == ImuExposureMode::Downsampled60Hz,
    {
        ImuExposureMode::Downsampled60Hz
    }
}

// ---------------------------------------------------------------------------
// Laws
// ---------------------------------------------------------------------------

/// A calibration whose origin and sensitivity coincide on every axis is as
/// good as none.
pub proof fn law_degenerate_calibration_is_none(frame: ImuFrame, cal: ImuCalibration)
    requires
        cal.accel_sensitivity@ == cal.accel_origin@,
        cal.gyro_sensitivity@ == cal.gyro_origin@,
    ensures
        calibrated(frame, cal) == uncalibrated(frame),
{
    assert(cal.accel_sensitivity@[0] == cal.accel_origin@[0]);
    assert(cal.accel_sensitivity@[1] == cal.accel_origin@[1]);
    assert(cal.accel_sensitivity@[2] == cal.accel_origin@[2]);
    assert(cal.gyro_sensitivity@[0] == cal.gyro_origin@[0]);
    assert(cal.gyro_sensitivity@[1] == cal.gyro_origin@[1]);
    assert(cal.gyro_sensitivity@[2] == cal.gyro_origin@[2]);
}

/// A gyroscope that shows its origin shows no rotation, and one that shows its
/// sensitivity shows 936 degrees per second.
pub proof fn law_gyro_scale_is_anchored(sensitivity: i16, origin: i16)
    requires
        !span_is_small(sensitivity, origin),
    ensures
        gyro_on(origin, sensitivity, origin).num == 0,
        gyro_on(sensitivity, sensitivity, origin).num == 936 * gyro_on(
            sensitivity,
            sensitivity,
            origin,
        ).den,
{
}

/// Each axis of a calibrated reading comes from the raw reading of that axis
/// and from its own part of the calibration: an acceleration is four times the
/// raw reading over the span of the axis, a rotation is 936 times the distance
/// from the origin over the span. The spans must be wide enough to be relied
/// upon.
pub proof fn law_calibrated_axes(frame: ImuFrame, cal: ImuCalibration)
    requires
        forall|i: int|
            0 <= i < 3 ==> {
                let a = #[trigger] cal.accel_sensitivity@[i] - cal.accel_origin@[i];
                a >= 10 || a <= -10
            },
        forall|i: int|
            0 <= i < 3 ==> {
                let g = #[trigger] cal.gyro_sensitivity@[i] - cal.gyro_origin@[i];
                g >= 10 || g <= -10
            },
    ensures
        ({
            let p = calibrated(frame, cal);
            let a = |i: int| cal.accel_sensitivity@[i] - cal.accel_origin@[i];
            let g = |i: int| cal.gyro_sensitivity@[i] - cal.gyro_origin@[i];
            &&& p.wf()
            &&& p.accel_x.num * a(0) == 4 * frame.accel_x * p.accel_x.den
            &&& p.accel_y.num * a(1) == 4 * frame.accel_y * p.accel_y.den
            &&& p.accel_z.num * a(2) == 4 * frame.accel_z * p.accel_z.den
            &&& p.gyro_x.num * g(0) == 936 * (frame.gyro_x - cal.gyro_origin@[0]) * p.gyro_x.den
            &&& p.gyro_y.num * g(1) == 936 * (frame.gyro_y - cal.gyro_origin@[1]) * p.gyro_y.den
            &&& p.gyro_z.num * g(2) == 936 * (frame.gyro_z - cal.gyro_origin@[2]) * p.gyro_z.den
        }),
{
    let p = calibrated(frame, cal);
    lemma_accel_value(frame.accel_x, cal.accel_sensitivity@[0], cal.accel_origin@[0]);
    lemma_accel_value(frame.accel_y, cal.accel_sensitivity@[1], cal.accel_origin@[1]);
    lemma_accel_value(frame.accel_z, cal.accel_sensitivity@[2], cal.accel_origin@[2]);
    lemma_gyro_value(frame.gyro_x, cal.gyro_sensitivity@[0], cal.gyro_origin@[0]);
    lemma_gyro_value(frame.gyro_y, cal.gyro_sensitivity@[1], cal.gyro_origin@[1]);
    lemma_gyro_value(frame.gyro_z, cal.gyro_sensitivity@[2], cal.gyro_origin@[2]);
}

proof fn lemma_accel_value(raw: i16, sensitivity: i16, origin: i16)
    requires
        !span_is_small(sensitivity, origin),
    ensures
        accel_on(raw, sensitivity, origin).wf(),
        accel_on(raw, sensitivity, origin).num * (sensitivity - origin) == 4 * raw * accel_on(
            raw,
            sensitivity,
            origin,
        ).den,
{
    let num = raw * 4;
    let den = sensitivity - origin;
    numeric::law_quotient_keeps_the_value(num, den);
}

proof fn lemma_gyro_value(raw: i16, sensitivity: i16, origin: i16)
    requires
        !span_is_small(sensitivity, origin),
    ensures
        gyro_on(raw, sensitivity, origin).wf(),
        gyro_on(raw, sensitivity, origin).num * (sensitivity - origin) == 936 * (raw - origin)
            * gyro_on(raw, sensitivity, origin).den,
{
    let num = (raw - origin) * 936;
    let den = sensitivity - origin;
    numeric::law_quotient_keeps_the_value(num, den);
}

/// Where a span is too small to be relied upon, and without any calibration,
/// 4096 counts are one g and 13371 counts one degree per second, on each axis
/// for itself.
pub proof fn law_nominal_axes(frame: ImuFrame)
    ensures
        ({
            let p = uncalibrated(frame);
            &&& p.wf()
            &&& p.accel_x.num * 4096 == frame.accel_x * p.accel_x.den
            &&& p.accel_y.num * 4096 == frame.accel_y * p.accel_y.den
            &&& p.accel_z.num * 4096 == frame.accel_z * p.accel_z.den
            &&& p.gyro_x.num * 13371 == frame.gyro_x * p.gyro_x.den
            &&& p.gyro_y.num * 13371 == frame.gyro_y * p.gyro_y.den
            &&& p.gyro_z.num * 13371 == frame.gyro_z * p.gyro_z.den
        }),
{
}

/// A span of less than ten counts is not relied upon: the nominal scale takes
/// its place, and the origin is still taken off a rotation unless it is the
/// sensitivity itself.
pub proof fn law_small_spans_take_the_nominal_scale(frame: ImuFrame, cal: ImuCalibration, i: int)
    requires
        0 <= i < 3,
        -10 < cal.accel_sensitivity@[i] - cal.accel_origin@[i] < 10,
        -10 < cal.gyro_sensitivity@[i] - cal.gyro_origin@[i] < 10,
    ensures
        ({
            let p = calibrated(frame, cal);
            let n = uncalibrated(frame);
            let off = if cal.gyro_sensitivity@[i] == cal.gyro_origin@[i] {
                0
            } else {
                cal.gyro_origin@[i] as int
            };
            &&& i == 0 ==> p.accel_x == n.accel_x && p.gyro_x.den == 13371 && p.gyro_x.num
                == frame.gyro_x - off
            &&& i == 1 ==> p.accel_y == n.accel_y && p.gyro_y.den == 13371 && p.gyro_y.num
                == frame.gyro_y - off
            &&& i == 2 ==> p.accel_z == n.accel_z && p.gyro_z.den == 13371 && p.gyro_z.num
                == frame.gyro_z - off
        }),
{
}

/// Two readings that differ in one raw axis differ in no other axis of the
/// physical reading.
pub proof fn law_axes_do_not_mix(frame: ImuFrame, cal: ImuCalibration, other: i16)
    ensures
        ({
            let p = calibrated(frame, cal);
            let x = calibrated(ImuFrame { gyro_x: other, ..frame }, cal);
            let y = calibrated(ImuFrame { gyro_y: other, ..frame }, cal);
            let z = calibrated(ImuFrame { gyro_z: other, ..frame }, cal);
            let ax = calibrated(ImuFrame { accel_x: other, ..frame }, cal);
            let ay = calibrated(ImuFrame { accel_y: other, ..frame }, cal);
            let az = calibrated(ImuFrame { accel_z: other, ..frame }, cal);
            &&& x == (ImuPhysical { gyro_x: x.gyro_x, ..p })
            &&& y == (ImuPhysical { gyro_y: y.gyro_y, ..p })
            &&& z == (ImuPhysical { gyro_z: z.gyro_z, ..p })
            &&& ax == (ImuPhysical { accel_x: ax.accel_x, ..p })
            &&& ay == (ImuPhysical { accel_y: ay.accel_y, ..p })
            &&& az == (ImuPhysical { accel_z: az.accel_z, ..p })
        }),
{
}

/// Only the last of the three readings of a report counts, with its
/// calibration where there is one.
pub proof fn law_newest_reading_is_the_last(
    imu: ImuData,
    earlier: ImuData,
    cal: ImuCalibration,
)
    requires
        imu.frames@[2] == earlier.frames@[2],
    ensures
        newest_reading(imu, None) == newest_reading(earlier, None),
        newest_reading(imu, Some(cal)) == newest_reading(earlier, Some(cal)),
        newest_reading(imu, None) == uncalibrated(imu.frames@[2]),
        newest_reading(imu, Some(cal)) == calibrated(imu.frames@[2], cal),
{
}

/// The bias of a gyroscope lies within one count of the mean of the readings,
/// on each axis, and never further from zero than the mean.
pub proof fn law_bias_is_the_mean(samples: Seq<ImuFrame>, axis: Axis)
    requires
        samples.len() > 0,
    ensures
        ({
            let n = samples.len() as int;
            let s = rotation_sum(samples, axis);
            let m = mean_rotation(samples, axis);
            &&& s >= 0 ==> 0 <= m && m * n <= s && s < (m + 1) * n
            &&& s <= 0 ==> m <= 0 && s <= m * n && (m - 1) * n < s
        }),
{
    let n = samples.len() as int;
    let s = rotation_sum(samples, axis);
    if s >= 0 {
        let q = s / n;
        assert(0 <= q && q * n <= s && s < (q + 1) * n) by (nonlinear_arith)
            requires
                q == s / n,
                n > 0,
                s >= 0,
        ;
        if s == 0 {
            assert((q - 1) * n < 0 && q * n >= 0) by (nonlinear_arith)
                requires
                    q == 0,
                    n > 0,
            ;
            assert(0int / n == 0) by (nonlinear_arith)
                requires
                    n > 0,
            ;
        }
    } else {
        let q = (-s) / n;
        assert(0 <= q && q * n <= -s && -s < (q + 1) * n) by (nonlinear_arith)
            requires
                q == (-s) / n,
                n > 0,
                s < 0,
        ;
        assert((-q) * n == -(q * n)) by (nonlinear_arith);
        assert((-q - 1) * n == -((q + 1) * n)) by (nonlinear_arith);
    }
}

/// One more reading adds its rotation round each axis to the sum of that axis.
pub proof fn law_each_reading_adds_its_own_axis(samples: Seq<ImuFrame>, f: ImuFrame)
    ensures
        rotation_sum(samples.push(f), Axis::X) == rotation_sum(samples, Axis::X) + f.gyro_x,
        rotation_sum(samples.push(f), Axis::Y) == rotation_sum(samples, Axis::Y) + f.gyro_y,
        rotation_sum(samples.push(f), Axis::Z) == rotation_sum(samples, Axis::Z) + f.gyro_z,
        rotation_sum(Seq::empty(), Axis::X) == 0,
        mean_rotation(Seq::empty(), Axis::X) == 0,
{
    assert(samples.push(f).drop_last() =~= samples);
}

/// A rate below its deadzone counts as none, whichever way it goes; any other
/// rate counts in full.
pub proof fn law_deadzone_cuts_small_rates(rate: Real32, deadzone: Real32)
    requires
        !rate.nan(),
        !deadzone.nan(),
    ensures
        rate.below(deadzone) && deadzone.negated().below(rate) ==> gated(rate, deadzone).null(),
        deadzone.at_most(rate) || rate.at_most(deadzone.negated()) ==> gated(rate, deadzone)
            == rate,
{
}

} // verus!
