//! How the deflection of a stick is shaped, and what its zones trigger.
//!
//! The shaping of a magnitude (a power, a smooth step, a Bezier curve) is
//! floating-point work that is handed back in. What leads up to it and what
//! becomes of its result is decided here.

use vstd::prelude::*;

use crate::config::{AppConfig, StickCalibrationConfig};
use crate::mappings;
use crate::mappings::{Action, ActionModel, ResponseCurveType, StickZones};
use crate::numeric::{MINUS_ONE_BITS, ONE_BITS, Real32};
use crate::text;
use crate::text::same;

verus! {

// ---------------------------------------------------------------------------
// Response curves
// ---------------------------------------------------------------------------

/// Whether all parameters of a curve are finite.
pub open spec fn curve_is_finite(curve: ResponseCurveType) -> bool {
    match curve {
        ResponseCurveType::Exponential(power) => power.finite(),
        ResponseCurveType::Bezier { p1, p2 } => p1.0.finite() && p1.1.finite() && p2.0.finite()
            && p2.1.finite(),
        _ => true,
    }
}

/// Refuses a curve with a parameter that is not finite.
pub fn validate_response_curve(curve: &ResponseCurveType) -> (r: Result<(), String>)
    ensures
        match r {
            Ok(()) => curve_is_finite(*curve),
            Err(e) => !curve_is_finite(*curve) && e@ == (if curve is Exponential {
                "response curve power must be finite"@
            } else {
                "Bezier response curve control points must be finite"@
            }),
        },
{
    match curve {
        ResponseCurveType::Exponential(power) => {
            if !power.is_finite() {
                return Err("response curve power must be finite".to_string());
            }
        },
        ResponseCurveType::Bezier { p1, p2 } => {
            if !(p1.0.is_finite() && p1.1.is_finite() && p2.0.is_finite() && p2.1.is_finite()) {
                return Err("Bezier response curve control points must be finite".to_string());
            }
        },
        _ => {},
    }
    Ok(())
}

/// A coordinate held to the range from -1 to 1.
pub open spec fn clamped_unit(v: Real32) -> Real32 {
    v.limited(Real32 { bits: MINUS_ONE_BITS }, Real32 { bits: ONE_BITS })
}

/// A coordinate held to the range from -1 to 1.
pub fn clamp_unit(v: Real32) -> (r: Real32)
    ensures
        r == clamped_unit(v),
{
    v.limit(Real32::from_bits(MINUS_ONE_BITS), Real32::from_bits(ONE_BITS))
}

/// A value held to the range from 0 to 1.
pub open spec fn clamped_positive(v: Real32) -> Real32 {
    v.limited(Real32 { bits: 0 }, Real32 { bits: ONE_BITS })
}

fn clamp_positive(v: Real32) -> (r: Real32)
    ensures
        r == clamped_positive(v),
{
    v.limit(Real32::zero(), Real32::from_bits(ONE_BITS))
}

/// What is left to do of the shaping of a coordinate.
#[derive(Clone, Copy, Debug, PartialEq, Eq)]
pub enum CurveStep {
    /// Nothing: this is the result.
    Done(Real32),
    /// The magnitude goes through the curve, and the sign is put back.
    Shape { negative: bool, magnitude: Real32, curve: ResponseCurveType },
}

/// A curve with its control points held to the unit square.
pub open spec fn tamed(curve: ResponseCurveType) -> ResponseCurveType {
    match curve {
        ResponseCurveType::Bezier { p1, p2 } => ResponseCurveType::Bezier {
            p1: (clamped_positive(p1.0), clamped_positive(p1.1)),
            p2: (clamped_positive(p2.0), clamped_positive(p2.1)),
        },
        other => other,
    }
}

/// What is left to do of the shaping of a coordinate.
pub open spec fn curve_step(input: Real32, curve: ResponseCurveType) -> CurveStep {
    let v = clamped_unit(input);
    if !curve_is_finite(curve) {
        CurveStep::Done(v)
    } else if v.null() {
        CurveStep::Done(Real32 { bits: 0 })
    } else if v.nan() || curve is Linear {
        CurveStep::Done(v)
    } else {
        CurveStep::Shape {
            negative: v.bits >= 0x8000_0000,
            magnitude: v.absolute(),
            curve: tamed(curve),
        }
    }
}

/// Starts the shaping of a coordinate.
pub fn begin_response_curve(input: Real32, curve: &ResponseCurveType) -> (r: CurveStep)
    ensures
        r == curve_step(input, *curve),
{
    let v = clamp_unit(input);
    if validate_response_curve(curve).is_err() {
        return CurveStep::Done(v);
    }
    if v.is_zero() {
        return CurveStep::Done(Real32::zero());
    }
    if v.is_nan() {
        return CurveStep::Done(v);
    }
    let tame = match curve {
        ResponseCurveType::Linear => {
            return CurveStep::Done(v);
        },
        ResponseCurveType::Exponential(power) => ResponseCurveType::Exponential(*power),
        ResponseCurveType::SCurve => ResponseCurveType::SCurve,
        ResponseCurveType::Bezier { p1, p2 } => ResponseCurveType::Bezier {
            p1: (clamp_positive(p1.0), clamp_positive(p1.1)),
            p2: (clamp_positive(p2.0), clamp_positive(p2.1)),
        },
    };
    CurveStep::Shape { negative: v.is_negative(), magnitude: v.abs(), curve: tame }
}

/// A shaped magnitude, held to the range from 0 to 1. No curve gives a NaN for
/// a magnitude; one would count as no deflection.
pub open spec fn clamped_magnitude(shaped: Real32) -> Real32 {
    if shaped.nan() {
        Real32 { bits: 0 }
    } else {
        clamped_positive(shaped)
    }
}

/// A shaped magnitude, held to the range from 0 to 1, with its sign.
pub open spec fn signed_result(negative: bool, shaped: Real32) -> Real32 {
    if negative {
        clamped_magnitude(shaped).negated()
    } else {
        clamped_magnitude(shaped)
    }
}

/// Ends the shaping of a coordinate.
pub fn finish_response_curve(negative: bool, shaped: Real32) -> (r: Real32)
    ensures
        r == signed_result(negative, shaped),
{
    let v = if shaped.is_nan() {
        Real32::zero()
    } else {
        clamp_positive(shaped)
    };
    if negative {
        return v.neg();
    }
    v
}

/// Two values are level: neither is below the other, and none is a NaN.
pub open spec fn level(a: Real32, b: Real32) -> bool {
    a.at_most(b) && b.at_most(a)
}

/// What holds of a shaped coordinate, whatever the curve: it lies between -1
/// and 1, rest stays at rest, no direction is turned round, and a linear or an
/// invalid curve only holds the coordinate to its range.
pub open spec fn keeps_direction_and_range(
    input: Real32,
    curve: ResponseCurveType,
    r: Real32,
) -> bool {
    &&& (Real32 { bits: MINUS_ONE_BITS }).at_most(r)
    &&& r.at_most(Real32 { bits: ONE_BITS })
    &&& input.null() ==> r.null()
    &&& (Real32 { bits: 0 }).at_most(input) ==> (Real32 { bits: 0 }).at_most(r)
    &&& input.at_most(Real32 { bits: 0 }) ==> r.at_most(Real32 { bits: 0 })
    &&& !curve_is_finite(curve) ==> r == clamped_unit(input)
    &&& curve is Linear ==> level(r, clamped_unit(input))
}

/// What a coordinate comes to, where `shape` is what a curve makes of a
/// magnitude.
pub open spec fn curved(
    input: Real32,
    curve: ResponseCurveType,
    shape: spec_fn(Real32, ResponseCurveType) -> Real32,
) -> Real32 {
    match curve_step(input, curve) {
        CurveStep::Done(v) => v,
        CurveStep::Shape { negative, magnitude, curve } => signed_result(
            negative,
            shape(magnitude, curve),
        ),
    }
}

/// Whether a coordinate comes to `r`, where `shape` is what a curve makes of a
/// magnitude.
pub open spec fn comes_to<F: Fn(Real32, ResponseCurveType) -> Real32>(
    input: Real32,
    curve: ResponseCurveType,
    shape: F,
    r: Real32,
) -> bool {
    match curve_step(input, curve) {
        CurveStep::Done(v) => r == v,
        CurveStep::Shape { negative, magnitude, curve } => exists|shaped: Real32|
            #[trigger] shape.ensures((magnitude, curve), shaped) && r == signed_result(
                negative,
                shaped,
            ),
    }
}

/// Applies a response curve to a coordinate. `shape` is what the curve makes
/// of a magnitude between 0 and 1: floating-point work that is handed in.
pub fn apply_response_curve<F: Fn(Real32, ResponseCurveType) -> Real32>(
    input: Real32,
    curve: &ResponseCurveType,
    shape: F,
) -> (r: Real32)
    requires
        forall|m: Real32, c: ResponseCurveType| shape.requires((m, c)),
    ensures
        comes_to(input, *curve, shape, r),
        !input.nan() ==> keeps_direction_and_range(input, *curve, r),
{
    match begin_response_curve(input, curve) {
        CurveStep::Done(v) => v,
        CurveStep::Shape { negative, magnitude, curve: used } => {
            let shaped = shape(magnitude, used);
            finish_response_curve(negative, shaped)
        },
    }
}

/// Applies a response curve to each axis of a stick by itself.
pub fn apply_stick_curve<F: Fn(Real32, ResponseCurveType) -> Real32 + Copy>(
    x: Real32,
    y: Real32,
    curve: &ResponseCurveType,
    shape: F,
) -> (r: (Real32, Real32))
    requires
        forall|m: Real32, c: ResponseCurveType| shape.requires((m, c)),
    ensures
        comes_to(x, *curve, shape, r.0),
        comes_to(y, *curve, shape, r.1),
        !x.nan() ==> keeps_direction_and_range(x, *curve, r.0),
        !y.nan() ==> keeps_direction_and_range(y, *curve, r.1),
{
    (apply_response_curve(x, curve, shape), apply_response_curve(y, curve, shape))
}

// ---------------------------------------------------------------------------
// Zones and deadzones
// ---------------------------------------------------------------------------

/// The zone of a deflection: the deadzone is zone 0, and the highest is zone 3.
pub open spec fn zone_of(magnitude: Real32, zones: StickZones) -> int {
    if magnitude.at_most(zones.deadzone) {
        0
    } else if magnitude.at_most(zones.low) {
        1
    } else if magnitude.at_most(zones.medium) {
        2
    } else {
        3
    }
}

/// What the zone of a deflection triggers.
pub open spec fn zone_actions(magnitude: Real32, zones: StickZones) -> Seq<ActionModel> {
    let zone = zone_of(magnitude, zones);
    if zone == 0 {
        Seq::empty()
    } else if zone == 1 {
        zones.low_actions.deep_view()
    } else if zone == 2 {
        zones.medium_actions.deep_view()
    } else {
        zones.high_actions.deep_view()
    }
}

/// What the zone of a deflection triggers.
pub fn zone_action(magnitude: Real32, zones: &StickZones) -> (r: Vec<Action>)
    ensures
        r.deep_view() == zone_actions(magnitude, *zones),
{
    if magnitude.le(zones.deadzone) {
        let none: Vec<Action> = Vec::new();
        assert(none.deep_view() =~= Seq::<ActionModel>::empty());
        return none;
    }
    if magnitude.le(zones.low) {
        return mappings::copy_actions(&zones.low_actions);
    }
    if magnitude.le(zones.medium) {
        return mappings::copy_actions(&zones.medium_actions);
    }
    mappings::copy_actions(&zones.high_actions)
}

/// The form of a deadzone.
#[derive(Clone, Copy, Debug, PartialEq, Eq, Structural)]
pub enum DeadzoneShape {
    Radial,
    Axial,
    Elliptic,
}

/// The form that a name, in small letters, stands for. Any other name stands
/// for a circle.
pub open spec fn named_shape(lower: Seq<char>) -> DeadzoneShape {
    if lower == "axial"@ {
        DeadzoneShape::Axial
    } else if lower == "elliptic"@ {
        DeadzoneShape::Elliptic
    } else {
        DeadzoneShape::Radial
    }
}

/// The form that a name in small letters stands for.
pub fn shape_of_lower(lower: &str) -> (r: DeadzoneShape)
    ensures
        r == named_shape(lower@),
{
    if same(lower, "axial") {
        return DeadzoneShape::Axial;
    }
    if same(lower, "elliptic") {
        return DeadzoneShape::Elliptic;
    }
    DeadzoneShape::Radial
}

/// The form that a name stands for, in capital or small letters.
pub fn deadzone_shape(name: &str) -> (r: DeadzoneShape)
    ensures
        r == named_shape(text::lowercase(name@)),
        text::ascii_only(name@) ==> r == named_shape(text::ascii_lowered(name@)),
{
    let lower = text::to_lowercase(name);
    shape_of_lower(lower.as_str())
}

/// Whether the thresholds of the zones are in order. A NaN is out of no order.
pub open spec fn zones_in_order(z: StickZones) -> bool {
    !z.low.below(z.deadzone) && !z.medium.below(z.low) && !z.high.below(z.medium)
}

/// Whether the thresholds of the zones are in order.
pub fn zones_are_ordered(z: &StickZones) -> (r: bool)
    ensures
        r == zones_in_order(*z),
{
    !z.low.lt(z.deadzone) && !z.medium.lt(z.low) && !z.high.lt(z.medium)
}

// ---------------------------------------------------------------------------
// The configured curve and zones
// ---------------------------------------------------------------------------

/// Sets the curve of the sticks. The calibration then shapes nothing itself:
/// its own curve becomes linear, and it keeps the control points.
pub fn set_mapping_response_curve(
    config: &mut AppConfig,
    calibration: &mut StickCalibrationConfig,
    curve: ResponseCurveType,
) -> (r: Result<(), String>)
    ensures
        r is Ok == curve_is_finite(curve),
        r matches Err(e) ==> e@ == (if curve is Exponential {
            "response curve power must be finite"@
        } else {
            "Bezier response curve control points must be finite"@
        }),
        r is Err ==> *final(config) == *old(config) && *final(calibration) == *old(calibration),
        r is Ok ==> {
            &&& *final(config) == (AppConfig {
                mappings: mappings::Mappings {
                    sticks: mappings::StickMapping {
                        response_curve: curve,
                        ..old(config).mappings.sticks
                    },
                    ..old(config).mappings
                },
                ..*old(config)
            })
            &&& final(calibration).response_curve_type@ == "linear"@
            &&& final(calibration).response_curve_power.bits == ONE_BITS
            &&& (final(calibration).bezier_p1, final(calibration).bezier_p2) == match curve {
                ResponseCurveType::Bezier { p1, p2 } => (p1, p2),
                _ => (
                    (Real32 { bits: 0x3E99_999A }, Real32 { bits: 0x3F66_6666 }),
                    (Real32 { bits: 0x3F33_3333 }, Real32 { bits: 0x3DCC_CCCD }),
                ),
            }
            &&& *final(calibration) == (StickCalibrationConfig {
                response_curve_type: final(calibration).response_curve_type,
                response_curve_power: final(calibration).response_curve_power,
                bezier_p1: final(calibration).bezier_p1,
                bezier_p2: final(calibration).bezier_p2,
                ..*old(calibration)
            })
        },
{
    match validate_response_curve(&curve) {
        Ok(()) => {},
        Err(e) => {
            return Err(e);
        },
    }
    config.mappings.sticks.response_curve = curve;
    calibration.response_curve_type = "linear".to_string();
    calibration.response_curve_power = Real32::from_bits(ONE_BITS);
    match curve {
        ResponseCurveType::Bezier { p1, p2 } => {
            calibration.bezier_p1 = p1;
            calibration.bezier_p2 = p2;
        },
        _ => {
            calibration.bezier_p1 = (Real32::from_bits(0x3E99_999A), Real32::from_bits(0x3F66_6666));
            calibration.bezier_p2 = (Real32::from_bits(0x3F33_3333), Real32::from_bits(0x3DCC_CCCD));
        },
    }
    Ok(())
}

/// The curve of the sticks.
pub fn get_response_curve(config: &AppConfig) -> (r: ResponseCurveType)
    ensures
        r == config.mappings.sticks.response_curve,
{
    config.mappings.sticks.response_curve
}

/// Sets the zones of the sticks, if their thresholds are in order.
pub fn set_stick_zones(config: &mut AppConfig, zones: StickZones) -> (r: Result<(), String>)
    ensures
        r is Ok == zones_in_order(zones),
        r matches Err(e) ==> e@ == "Stick zone thresholds must be non-decreasing"@ && *final(config)
            == *old(config),
        r is Ok ==> *final(config) == (AppConfig {
            mappings: mappings::Mappings {
                sticks: mappings::StickMapping { zones, ..old(config).mappings.sticks },
                ..old(config).mappings
            },
            ..*old(config)
        }),
{
    if !zones_are_ordered(&zones) {
        return Err("Stick zone thresholds must be non-decreasing".to_string());
    }
    config.mappings.sticks.zones = zones;
    Ok(())
}

/// The zones of the sticks.
pub fn get_stick_zones(config: &AppConfig) -> (r: StickZones)
    ensures
        r.deadzone == config.mappings.sticks.zones.deadzone,
        r.low == config.mappings.sticks.zones.low,
        r.medium == config.mappings.sticks.zones.medium,
        r.high == config.mappings.sticks.zones.high,
        r.low_actions.deep_view() == config.mappings.sticks.zones.low_actions.deep_view(),
        r.medium_actions.deep_view() == config.mappings.sticks.zones.medium_actions.deep_view(),
        r.high_actions.deep_view() == config.mappings.sticks.zones.high_actions.deep_view(),
{
    config.mappings.sticks.zones.clone()
}

// ---------------------------------------------------------------------------
// Laws
// ---------------------------------------------------------------------------

/// The linear curve changes no coordinate of the unit square but the sign of a
/// zero.
pub proof fn law_linear_curve_is_identity(v: Real32)
    requires
        (Real32 { bits: MINUS_ONE_BITS }).at_most(v),
        v.at_most(Real32 { bits: ONE_BITS }),
    ensures
        curve_step(v, ResponseCurveType::Linear) == CurveStep::Done(
            if v.null() {
                Real32 { bits: 0 }
            } else {
                v
            },
        ),
{
}

/// Whatever a curve makes of a magnitude, the result lies between -1 and 1,
/// and no sign is turned round.
pub proof fn law_shaped_result_is_bounded(negative: bool, shaped: Real32)
    ensures
        (Real32 { bits: MINUS_ONE_BITS }).at_most(signed_result(negative, shaped)),
        signed_result(negative, shaped).at_most(Real32 { bits: ONE_BITS }),
        negative ==> signed_result(negative, shaped).at_most(Real32 { bits: 0 }),
        !negative ==> (Real32 { bits: 0 }).at_most(signed_result(negative, shaped)),
{
}

/// The two directions of an axis are shaped alike.
pub proof fn law_curve_is_odd(v: Real32, curve: ResponseCurveType, shaped: Real32)
    ensures
        curve_step(v, curve) matches CurveStep::Shape { negative, magnitude, curve: used }
            ==> curve_step(v.negated(), curve) == (CurveStep::Shape {
            negative: !negative,
            magnitude,
            curve: used,
        }),
        signed_result(true, shaped) == signed_result(false, shaped).negated(),
{
}

/// Whatever the curves make of a magnitude: a shaped coordinate lies between
/// -1 and 1, the two directions of an axis are shaped alike, rest stays at
/// rest, no direction is turned round, and a linear or an invalid curve only
/// holds the coordinate to its range.
pub proof fn law_response_curve(
    input: Real32,
    curve: ResponseCurveType,
    shape: spec_fn(Real32, ResponseCurveType) -> Real32,
)
    requires
        !input.nan(),
    ensures
        keeps_direction_and_range(input, curve, curved(input, curve, shape)),
        level(curved(input.negated(), curve, shape), curved(input, curve, shape).negated()),
{
    match curve_step(input, curve) {
        CurveStep::Done(_) => {},
        CurveStep::Shape { negative, magnitude, curve: used } => {
            law_curve_is_odd(input, curve, shape(magnitude, used));
            law_shaped_result_is_bounded(negative, shape(magnitude, used));
        },
    }
}

/// A deflection that grows never falls back into a lower zone.
pub proof fn law_zones_do_not_fall_back(a: Real32, b: Real32, zones: StickZones)
    requires
        a.at_most(b),
    ensures
        zone_of(a, zones) <= zone_of(b, zones),
{
}

/// At rest no zone triggers anything, whatever the actions are.
pub proof fn law_deadzone_triggers_nothing(magnitude: Real32, zones: StickZones)
    requires
        magnitude.at_most(zones.deadzone),
    ensures
        zone_actions(magnitude, zones).len() == 0,
{
}

/// What goes through a curve is the size of the deflection, with its sign kept
/// aside; the control points of a cubic curve are held to the unit square, each
/// in its place.
pub proof fn law_what_goes_through_a_curve(v: Real32, power: Real32, p1: (Real32, Real32), p2: (
    Real32,
    Real32,
))
    requires
        0 < v.bits <= ONE_BITS,
        power.finite(),
        p1.0.finite() && p1.1.finite() && p2.0.finite() && p2.1.finite(),
    ensures
        ({
            let shape = |negative: bool, curve: ResponseCurveType|
                CurveStep::Shape { negative, magnitude: v, curve };
            let held = |x: Real32| x.limited(Real32 { bits: 0 }, Real32 { bits: 0x3F80_0000 });
            let exponential = ResponseCurveType::Exponential(power);
            let bezier = ResponseCurveType::Bezier { p1, p2 };
            let tame = ResponseCurveType::Bezier {
                p1: (held(p1.0), held(p1.1)),
                p2: (held(p2.0), held(p2.1)),
            };
            &&& curve_step(v, exponential) == shape(false, exponential)
            &&& curve_step(v.negated(), exponential) == shape(true, exponential)
            &&& curve_step(v, ResponseCurveType::SCurve) == shape(false, ResponseCurveType::SCurve)
            &&& curve_step(v.negated(), ResponseCurveType::SCurve) == shape(
                true,
                ResponseCurveType::SCurve,
            )
            &&& curve_step(v, bezier) == shape(false, tame)
            &&& curve_step(v.negated(), bezier) == shape(true, tame)
        }),
{
}

/// A coordinate beyond the unit square counts as one at its edge.
pub proof fn law_coordinates_are_held_to_the_square(v: Real32, curve: ResponseCurveType)
    requires
        v.bits > ONE_BITS,
        v.bits <= 0x7F80_0000,
    ensures
        curve_step(v, curve) == curve_step(Real32 { bits: 0x3F80_0000 }, curve),
        curve_step(v.negated(), curve) == curve_step(Real32 { bits: 0xBF80_0000 }, curve),
{
}

/// A shaped magnitude within its range keeps its value, with the sign of the
/// deflection.
pub proof fn law_shaped_value_is_kept(shaped: Real32)
    requires
        shaped.bits <= ONE_BITS,
    ensures
        signed_result(false, shaped) == shaped,
        signed_result(true, shaped) == shaped.negated(),
{
}

/// A curve is valid if every parameter that it has is finite.
pub proof fn law_valid_curves(power: Real32, p1: (Real32, Real32), p2: (Real32, Real32))
    ensures
        curve_is_finite(ResponseCurveType::Linear),
        curve_is_finite(ResponseCurveType::SCurve),
        curve_is_finite(ResponseCurveType::Exponential(power)) == power.finite(),
        curve_is_finite(ResponseCurveType::Bezier { p1, p2 }) == (p1.0.finite() && p1.1.finite()
            && p2.0.finite() && p2.1.finite()),
{
}

/// The zones of a deflection: nothing up to the deadzone, the low actions up to
/// the low threshold, the medium ones up to the medium one, and the high ones
/// beyond that.
pub proof fn law_zones_trigger_their_actions(m: Real32, zones: StickZones)
    requires
        !m.nan(),
        zones.deadzone.at_most(zones.low),
        zones.low.at_most(zones.medium),
    ensures
        ({
            let a = zone_actions(m, zones);
            &&& m.at_most(zones.deadzone) ==> a.len() == 0
            &&& zones.deadzone.below(m) && m.at_most(zones.low) ==> a
                == zones.low_actions.deep_view()
            &&& zones.low.below(m) && m.at_most(zones.medium) ==> a
                == zones.medium_actions.deep_view()
            &&& zones.medium.below(m) ==> a == zones.high_actions.deep_view()
        }),
{
}

/// The thresholds of the zones are in order if none lies above the next.
pub proof fn law_order_of_zones(z: StickZones)
    ensures
        zones_in_order(z) == !(z.low.below(z.deadzone) || z.medium.below(z.low) || z.high.below(
            z.medium,
        )),
{
}

/// The shapes of deadzones by their names; a name that is not known is that of
/// a circle.
pub proof fn law_shapes_by_name(name: Seq<char>)
    ensures
        (named_shape(name) == DeadzoneShape::Axial) == (name == "axial"@),
        (named_shape(name) == DeadzoneShape::Elliptic) == (name == "elliptic"@),
{
    reveal_strlit("axial");
    reveal_strlit("elliptic");
    assert("axial"@.len() == 5 && "elliptic"@.len() == 8);
}

/// A magnitude that is no number counts as none.
pub proof fn law_no_number_is_no_deflection(shaped: Real32)
    requires
        shaped.nan(),
    ensures
        signed_result(false, shaped).null() && signed_result(true, shaped).null(),
{
}

/// What it means that a result keeps its direction and its range.
pub proof fn law_direction_and_range(input: Real32, curve: ResponseCurveType, r: Real32)
    requires
        keeps_direction_and_range(input, curve, r),
    ensures
        !r.nan(),
        (Real32 { bits: 0xBF80_0000 }).at_most(r) && r.at_most(Real32 { bits: 0x3F80_0000 }),
        input.null() ==> r.null(),
        (Real32 { bits: 0 }).below(input) ==> !r.below(Real32 { bits: 0 }),
        input.below(Real32 { bits: 0 }) ==> !(Real32 { bits: 0 }).below(r),
        !curve_is_finite(curve) ==> r == input.limited(
            Real32 { bits: 0xBF80_0000 },
            Real32 { bits: 0x3F80_0000 },
        ),
        curve is Linear ==> !r.below(clamped_unit(input)) && !clamped_unit(input).below(r),
{
}

/// A coordinate that comes to a result comes to the one that its step gives:
/// the result itself, or what the shaping makes of the magnitude, with its
/// sign.
pub proof fn law_what_a_coordinate_comes_to<F: Fn(Real32, ResponseCurveType) -> Real32>(
    input: Real32,
    curve: ResponseCurveType,
    shape: F,
    r: Real32,
)
    requires
        comes_to(input, curve, shape, r),
    ensures
        curve_step(input, curve) matches CurveStep::Done(v) ==> r == v,
        curve_step(input, curve) matches CurveStep::Shape { negative, magnitude, curve: used }
            ==> exists|shaped: Real32|
            #[trigger] shape.ensures((magnitude, used), shaped) && r == signed_result(
                negative,
                shaped,
            ),
{
}

} // verus!
