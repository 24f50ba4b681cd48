//! Rotation of the controller as motion of the mouse or of a stick.
//!
//! Smoothing and scaling are floating-point work that is handed back in. What
//! counts as rotation, and where the result goes, is decided here.

use vstd::prelude::*;

use crate::curves::{clamp_unit, clamped_unit};
use crate::imu;
use crate::kbm::InputEvent;
use crate::mappings::{GyroMapping, GyroMode, StickSide};
use crate::numeric::{MINUS_ONE_BITS, ONE_BITS, Real32};

verus! {

/// What is remembered between two readings.
#[derive(Clone, Copy, Debug, PartialEq, Eq, Structural)]
pub struct GyroMouse {
    pub smooth_x: Real32,
    pub smooth_y: Real32,
    pub stick_x: Real32,
    pub stick_y: Real32,
    /// Motion of less than a pixel that is still owed.
    pub accum_x: Real32,
    pub accum_y: Real32,
}

/// Nothing remembered.
pub open spec fn centred_gyro() -> GyroMouse {
    GyroMouse {
        smooth_x: Real32 { bits: 0 },
        smooth_y: Real32 { bits: 0 },
        stick_x: Real32 { bits: 0 },
        stick_y: Real32 { bits: 0 },
        accum_x: Real32 { bits: 0 },
        accum_y: Real32 { bits: 0 },
    }
}

/// What a smoothed reading comes to in each of the modes.
#[derive(Clone, Copy, Debug, PartialEq, Eq, Structural)]
pub struct GyroResult {
    pub smooth_x: Real32,
    pub smooth_y: Real32,
    /// Whole pixels to move the mouse by.
    pub dx: i32,
    pub dy: i32,
    /// What is left of the motion.
    pub rest_x: Real32,
    pub rest_y: Real32,
    /// The deflection of a stick, which may go beyond the range of one.
    pub stick_x: Real32,
    pub stick_y: Real32,
}

/// What is remembered of a reading. Each mode keeps its own output; a stick is
/// held to its range, and on the left stick both axes are turned round.
pub open spec fn settled(g: GyroMouse, mode: GyroMode, v: GyroResult) -> GyroMouse {
    let s = GyroMouse { smooth_x: v.smooth_x, smooth_y: v.smooth_y, ..g };
    match mode {
        GyroMode::Mouse => GyroMouse { accum_x: v.rest_x, accum_y: v.rest_y, ..s },
        GyroMode::Stick(StickSide::Left) => GyroMouse {
            stick_x: clamped_unit(v.stick_x).negated(),
            stick_y: clamped_unit(v.stick_y).negated(),
            ..s
        },
        GyroMode::Stick(StickSide::Right) => GyroMouse {
            stick_x: clamped_unit(v.stick_x),
            stick_y: clamped_unit(v.stick_y),
            ..s
        },
        _ => s,
    }
}

/// The motion of the mouse that a reading comes to.
pub open spec fn mouse_motion(mode: GyroMode, v: GyroResult) -> (i32, i32) {
    if mode == GyroMode::Mouse {
        (v.dx, v.dy)
    } else {
        (0, 0)
    }
}

/// The rates that count, horizontally and vertically: rotation round the Y
/// axis, and that round the X axis turned round, each with the deadzone
/// applied.
pub fn counted_rates(gyro_x: Real32, gyro_y: Real32, config: &GyroMapping) -> (r: (Real32, Real32))
    ensures
        r == (imu::gated(gyro_y, config.deadzone), imu::gated(gyro_x.negated(), config.deadzone)),
{
    (imu::gate(gyro_y, config.deadzone), imu::gate(gyro_x.neg(), config.deadzone))
}

impl GyroMouse {
    /// Nothing remembered.
    pub fn new() -> (r: Self)
        ensures
            r == centred_gyro(),
    {
        GyroMouse {
            smooth_x: Real32::zero(),
            smooth_y: Real32::zero(),
            stick_x: Real32::zero(),
            stick_y: Real32::zero(),
            accum_x: Real32::zero(),
            accum_y: Real32::zero(),
        }
    }

    /// Forgets everything.
    pub fn recenter(&mut self)
        ensures
            *final(self) == centred_gyro(),
    {
        *self = GyroMouse::new();
    }

    /// Takes in what a reading comes to. The motion of the mouse.
    pub fn settle(&mut self, mode: GyroMode, v: GyroResult) -> (r: (i32, i32))
        ensures
            r == mouse_motion(mode, v),
            *final(self) == settled(*old(self), mode, v),
    {
        self.smooth_x = v.smooth_x;
        self.smooth_y = v.smooth_y;
        match mode {
            GyroMode::Mouse => {
                self.accum_x = v.rest_x;
                self.accum_y = v.rest_y;
                (v.dx, v.dy)
            },
            GyroMode::Stick(StickSide::Left) => {
                self.stick_x = clamp_unit(v.stick_x).neg();
                self.stick_y = clamp_unit(v.stick_y).neg();
                (0, 0)
            },
            GyroMode::Stick(StickSide::Right) => {
                self.stick_x = clamp_unit(v.stick_x);
                self.stick_y = clamp_unit(v.stick_y);
                (0, 0)
            },
            _ => (0, 0),
        }
    }

    /// The event that moves the mouse.
    pub fn send_mouse_move(&self, dx: i32, dy: i32) -> (r: InputEvent)
        ensures
            r == (InputEvent::MouseMove { dx, dy }),
    {
        InputEvent::MouseMove { dx, dy }
    }

    /// The last deflection of the stick.
    pub fn stick_output(&self) -> (r: (Real32, Real32))
        ensures
            r == (self.stick_x, self.stick_y),
    {
        (self.stick_x, self.stick_y)
    }
}

impl Default for GyroMouse {
    fn default() -> (r: Self)
        ensures
            r == centred_gyro(),
    {
        GyroMouse::new()
    }
}

/// The gyroscope's mapping and what is remembered under it.
#[derive(Clone, Copy, Debug, PartialEq, Eq)]
pub struct GyroMouseManager {
    pub mapping: GyroMapping,
    pub gyro: GyroMouse,
}

impl GyroMouseManager {
    /// A mapping, and nothing remembered.
    pub fn new(mapping: GyroMapping) -> (r: Self)
        ensures
            r == (GyroMouseManager { mapping, gyro: centred_gyro() }),
    {
        GyroMouseManager { mapping, gyro: GyroMouse::new() }
    }

    /// Changes what the gyroscope drives.
    pub fn set_mode(&mut self, mode: GyroMode)
        ensures
            *final(self) == (GyroMouseManager {
                mapping: GyroMapping { mode, ..old(self).mapping },
                ..*old(self)
            }),
    {
        self.mapping.mode = mode;
    }

    /// The mapping.
    pub fn config(&self) -> (r: GyroMapping)
        ensures
            r == self.mapping,
    {
        self.mapping
    }

    /// Replaces the mapping.
    pub fn set_config(&mut self, config: GyroMapping)
        ensures
            *final(self) == (GyroMouseManager { mapping: config, ..*old(self) }),
    {
        self.mapping = config;
    }

    /// Forgets what is remembered.
    pub fn recenter(&mut self)
        ensures
            *final(self) == (GyroMouseManager { gyro: centred_gyro(), ..*old(self) }),
    {
        self.gyro.recenter();
    }
}

// ---------------------------------------------------------------------------
// Laws
// ---------------------------------------------------------------------------

/// Rotation below the deadzone on both axes counts as none.
pub proof fn law_small_rotation_is_ignored(gyro_x: Real32, gyro_y: Real32, config: GyroMapping)
    requires
        gyro_x.absolute().below(config.deadzone),
        gyro_y.absolute().below(config.deadzone),
    ensures
        imu::gated(gyro_y, config.deadzone).null(),
        imu::gated(gyro_x.negated(), config.deadzone).null(),
{
}

/// The deflection that is kept lies between -1 and 1 on both axes.
pub open spec fn stick_in_range(g: GyroMouse) -> bool {
    &&& (Real32 { bits: MINUS_ONE_BITS }).at_most(g.stick_x)
    &&& g.stick_x.at_most(Real32 { bits: ONE_BITS })
    &&& (Real32 { bits: MINUS_ONE_BITS }).at_most(g.stick_y)
    &&& g.stick_y.at_most(Real32 { bits: ONE_BITS })
}

/// The deflection that is kept never leaves the range of a stick, so long as
/// what is handed in are numbers.
pub proof fn law_stick_stays_in_range(g: GyroMouse, mode: GyroMode, v: GyroResult)
    requires
        stick_in_range(g),
        !v.stick_x.nan(),
        !v.stick_y.nan(),
    ensures
        stick_in_range(settled(g, mode, v)),
        stick_in_range(centred_gyro()),
{
}

/// Only in mouse mode does the mouse move, and only in stick mode does the
/// stick.
pub proof fn law_modes_do_not_mix(g: GyroMouse, mode: GyroMode, v: GyroResult)
    ensures
        mode != GyroMode::Mouse ==> mouse_motion(mode, v) == (0i32, 0i32) && settled(
            g,
            mode,
            v,
        ).accum_x == g.accum_x && settled(g, mode, v).accum_y == g.accum_y,
        !(mode is Stick) ==> settled(g, mode, v).stick_x == g.stick_x && settled(
            g,
            mode,
            v,
        ).stick_y == g.stick_y,
{
}

/// The left stick mirrors the right one.
pub proof fn law_sticks_mirror(g: GyroMouse, v: GyroResult)
    ensures
        ({
            let left = settled(g, GyroMode::Stick(StickSide::Left), v);
            let right = settled(g, GyroMode::Stick(StickSide::Right), v);
            left.stick_x == right.stick_x.negated() && left.stick_y == right.stick_y.negated()
        }),
{
}

/// Each mode keeps what it is for: the mouse what is left of its motion, the
/// right stick its deflection as it is, the left one turned round on both axes;
/// the smoothed rates are kept in every mode.
pub proof fn law_what_each_mode_keeps(g: GyroMouse, v: GyroResult)
    requires
        stick_in_range(GyroMouse { stick_x: v.stick_x, stick_y: v.stick_y, ..g }),
    ensures
        ({
            let mouse = settled(g, GyroMode::Mouse, v);
            let right = settled(g, GyroMode::Stick(StickSide::Right), v);
            let left = settled(g, GyroMode::Stick(StickSide::Left), v);
            &&& mouse.accum_x == v.rest_x && mouse.accum_y == v.rest_y
            &&& right.stick_x == v.stick_x && right.stick_y == v.stick_y
            &&& left.stick_x == v.stick_x.negated() && left.stick_y == v.stick_y.negated()
            &&& mouse_motion(GyroMode::Mouse, v) == (v.dx, v.dy)
        }),
        forall|mode: GyroMode|
            #![trigger settled(g, mode, v)]
            settled(g, mode, v).smooth_x == v.smooth_x && settled(g, mode, v).smooth_y
                == v.smooth_y,
{
}

/// Forgetting leaves every number at zero.
pub proof fn law_centred()
    ensures
        ({
            let c = centred_gyro();
            &&& c.smooth_x.null() && c.smooth_y.null()
            &&& c.stick_x.null() && c.stick_y.null()
            &&& c.accum_x.null() && c.accum_y.null()
        }),
{
}

} // verus!
