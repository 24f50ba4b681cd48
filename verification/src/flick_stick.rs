//! When a push of the right stick turns the camera at once, and when it keeps
//! it turning.
//!
//! A push to the edge is a flick: the camera snaps to the stick's direction.
//! Held at the edge, the stick rotates the camera on. The angles themselves
//! are floating-point work that is handed back in; what is decided here is
//! which of the two a report is, and what is remembered of it.

use vstd::prelude::*;

use crate::numeric::Real32;
use crate::state::CONTROLLER_SLOTS;

verus! {

/// What the right stick is read as.
#[derive(Clone, Copy, Debug, PartialEq, Eq, Structural)]
pub enum RightStickMode {
    /// A stick.
    Camera,
    /// An absolute direction.
    FlickStick,
}

impl Default for RightStickMode {
    fn default() -> (r: Self)
        ensures
            r == RightStickMode::Camera,
    {
        RightStickMode::Camera
    }
}

/// How flicks are told from the rest.
#[derive(Clone, Copy, Debug, PartialEq, Eq, Structural)]
pub struct FlickStickConfig {
    pub enabled: bool,
    /// The deflection above which the stick is at the edge.
    pub flick_threshold: Real32,
    /// How fast the camera turns while the stick is held at the edge.
    pub rotate_rate_deg_per_sec: Real32,
    /// The deflection below which the stick is at rest.
    pub stick_deadzone: Real32,
    /// The least time between two flicks.
    pub flick_cooldown_ms: u64,
    /// How much of the last output is kept.
    pub output_smoothing: Real32,
}

/// Off; 0.9, 360 degrees a second, 0.15, 150 ms, no smoothing.
pub open spec fn default_flick_config() -> FlickStickConfig {
    FlickStickConfig {
        enabled: false,
        flick_threshold: Real32 { bits: 0x3F66_6666 },
        rotate_rate_deg_per_sec: Real32 { bits: 0x43B4_0000 },
        stick_deadzone: Real32 { bits: 0x3E19_999A },
        flick_cooldown_ms: 150,
        output_smoothing: Real32 { bits: 0 },
    }
}

impl Default for FlickStickConfig {
    fn default() -> (r: Self)
        ensures
            r == default_flick_config(),
    {
        FlickStickConfig {
            enabled: false,
            flick_threshold: Real32::from_bits(0x3F66_6666),
            rotate_rate_deg_per_sec: Real32::from_bits(0x43B4_0000),
            stick_deadzone: Real32::from_bits(0x3E19_999A),
            flick_cooldown_ms: 150,
            output_smoothing: Real32::zero(),
        }
    }
}

/// How the right stick is read.
#[derive(Clone, Copy, Debug, PartialEq, Eq, Structural)]
pub struct RightStickConfig {
    pub mode: RightStickMode,
    pub flick_stick: FlickStickConfig,
}

impl Default for RightStickConfig {
    fn default() -> (r: Self)
        ensures
            r.mode == RightStickMode::Camera,
            r.flick_stick == default_flick_config(),
    {
        RightStickConfig {
            mode: RightStickMode::Camera,
            flick_stick: FlickStickConfig::default(),
        }
    }
}

/// What a report of the stick does to the camera.
#[derive(Clone, Copy, Debug, PartialEq, Eq, Structural)]
pub enum FlickStep {
    /// Nothing, and the smoothing starts anew.
    Rest,
    /// Nothing.
    Idle,
    /// It snaps to the direction of the stick.
    Flick,
    /// It turns on.
    Rotate,
}

/// What is remembered between two reports of the stick.
#[derive(Clone, Copy, Debug, PartialEq, Eq, Structural)]
pub struct FlickStick {
    /// The direction of the camera, in degrees.
    pub current_yaw: Real32,
    /// When the last flick was.
    pub last_flick_ms: Option<u64>,
    /// Whether the stick is held at the edge since a flick.
    pub flick_active: bool,
    pub config: FlickStickConfig,
    /// The last smoothed output.
    pub last_output: Real32,
}

/// Nothing remembered.
pub open spec fn fresh_flick(config: FlickStickConfig) -> FlickStick {
    FlickStick {
        current_yaw: Real32 { bits: 0 },
        last_flick_ms: None,
        flick_active: false,
        config,
        last_output: Real32 { bits: 0 },
    }
}

/// Whether the last flick is at least the cooldown ago.
pub open spec fn cooled_down(last: Option<u64>, now_ms: u64, cooldown_ms: u64) -> bool {
    match last {
        Some(t) => now_ms >= t && now_ms - t >= cooldown_ms || cooldown_ms == 0,
        None => true,
    }
}

/// Whether a deflection counts as none.
pub open spec fn at_rest(magnitude: Real32, config: FlickStickConfig) -> bool {
    magnitude.below(config.stick_deadzone) || (!magnitude.nan() && magnitude.key() == 0)
}

/// What a report does to the camera.
pub open spec fn flick_step(
    s: FlickStick,
    magnitude: Real32,
    now_ms: u64,
    config: FlickStickConfig,
) -> FlickStep {
    if !config.enabled || at_rest(magnitude, config) {
        FlickStep::Rest
    } else if !config.flick_threshold.below(magnitude) {
        FlickStep::Idle
    } else if s.flick_active {
        FlickStep::Rotate
    } else if cooled_down(s.last_flick_ms, now_ms, config.flick_cooldown_ms) {
        FlickStep::Flick
    } else {
        FlickStep::Idle
    }
}

/// What is remembered of a report.
pub open spec fn after_step(s: FlickStick, step: FlickStep, now_ms: u64) -> FlickStick {
    match step {
        FlickStep::Rest => FlickStick {
            flick_active: false,
            last_output: Real32 { bits: 0 },
            ..s
        },
        FlickStep::Idle => FlickStick { flick_active: false, ..s },
        FlickStep::Flick => FlickStick {
            flick_active: true,
            last_flick_ms: Some(now_ms),
            ..s
        },
        FlickStep::Rotate => s,
    }
}

impl FlickStick {
    /// Nothing remembered, and the default configuration.
    pub fn new() -> (r: Self)
        ensures
            r == fresh_flick(default_flick_config()),
    {
        FlickStick::with_config(FlickStickConfig::default())
    }

    /// Nothing remembered, and a given configuration.
    pub fn with_config(config: FlickStickConfig) -> (r: Self)
        ensures
            r == fresh_flick(config),
    {
        FlickStick {
            current_yaw: Real32::zero(),
            last_flick_ms: None,
            flick_active: false,
            config,
            last_output: Real32::zero(),
        }
    }

    /// Replaces the configuration.
    pub fn set_config(&mut self, config: FlickStickConfig)
        ensures
            *final(self) == (FlickStick { config, ..*old(self) }),
    {
        self.config = config;
    }

    /// Forgets all but the configuration.
    pub fn reset(&mut self)
        ensures
            *final(self) == fresh_flick(old(self).config),
    {
        self.current_yaw = Real32::zero();
        self.last_flick_ms = None;
        self.flick_active = false;
        self.last_output = Real32::zero();
    }

    /// Decides what a report does, by the magnitude of the deflection.
    pub fn decide(&mut self, magnitude: Real32, now_ms: u64, config: &FlickStickConfig) -> (r:
        FlickStep)
        ensures
            r == flick_step(*old(self), magnitude, now_ms, *config),
            *final(self) == after_step(*old(self), r, now_ms),
    {
        if !config.enabled || magnitude.lt(config.stick_deadzone) || (magnitude.le(Real32::zero())
            && Real32::zero().le(magnitude)) {
            self.flick_active = false;
            self.last_output = Real32::zero();
            return FlickStep::Rest;
        }
        let at_edge = config.flick_threshold.lt(magnitude);
        if at_edge && !self.flick_active {
            let cooled = match self.last_flick_ms {
                Some(t) => now_ms.saturating_sub(t) >= config.flick_cooldown_ms,
                None => true,
            };
            if cooled {
                self.last_flick_ms = Some(now_ms);
                self.flick_active = true;
                return FlickStep::Flick;
            }
        }
        if at_edge && self.flick_active {
            return FlickStep::Rotate;
        }
        self.flick_active = false;
        FlickStep::Idle
    }

    /// Takes in the direction and the smoothed output that a flick or a
    /// rotation came to.
    pub fn settle(&mut self, yaw: Real32, output: Real32)
        ensures
            *final(self) == (FlickStick { current_yaw: yaw, last_output: output, ..*old(self) }),
    {
        self.current_yaw = yaw;
        self.last_output = output;
    }
}

impl Default for FlickStick {
    fn default() -> (r: Self)
        ensures
            r == fresh_flick(default_flick_config()),
    {
        FlickStick::new()
    }
}

// ---------------------------------------------------------------------------
// Flicks that take a while
// ---------------------------------------------------------------------------

/// A flick that turns the camera over some time instead of at once: whether
/// one is under way, and how far the stick was pushed at the last report.
#[derive(Clone, Copy, Debug, PartialEq, Eq, Structural)]
pub struct FlickRamp {
    pub is_flicking: bool,
    pub last_magnitude: Real32,
}

impl FlickRamp {
    /// No flick is under way.
    pub fn new() -> (r: Self)
        ensures
            r == (FlickRamp { is_flicking: false, last_magnitude: Real32 { bits: 0 } }),
    {
        FlickRamp { is_flicking: false, last_magnitude: Real32::zero() }
    }

    /// Takes in a report. Whether the stick has just reached the threshold, so
    /// that a flick begins.
    pub fn begin(&mut self, magnitude: Real32, threshold: Real32) -> (r: bool)
        ensures
            r == (threshold.at_most(magnitude) && old(self).last_magnitude.below(threshold)),
            *final(self) == (FlickRamp {
                is_flicking: old(self).is_flicking || r,
                last_magnitude: magnitude,
            }),
    {
        let begins = threshold.le(magnitude) && self.last_magnitude.lt(threshold);
        if begins {
            self.is_flicking = true;
        }
        self.last_magnitude = magnitude;
        begins
    }

    /// Ends the flick that is under way once it has taken its time.
    pub fn advance(&mut self, progress: Real32, flick_time: Real32)
        ensures
            *final(self) == (FlickRamp {
                is_flicking: old(self).is_flicking && !flick_time.at_most(progress),
                ..*old(self)
            }),
    {
        if flick_time.le(progress) {
            self.is_flicking = false;
        }
    }
}

// ---------------------------------------------------------------------------
// All slots
// ---------------------------------------------------------------------------

/// The slot whose direction a reset is for: the one that was asked for, or
/// else the selected one; none where it does not exist.
pub open spec fn reset_target(slot: Option<u8>, selected: u8) -> Option<u8> {
    let s = match slot {
        Some(s) => s,
        None => selected,
    };
    if s < CONTROLLER_SLOTS {
        Some(s)
    } else {
        None
    }
}

/// Forgets the direction of the slot that a reset is for. Whether there is
/// such a slot.
pub fn reset_flick_stick_yaw(
    sticks: &mut Vec<FlickStick>,
    slot: Option<u8>,
    selected: u8,
) -> (r: bool)
    requires
        old(sticks)@.len() == CONTROLLER_SLOTS,
    ensures
        r == (reset_target(slot, selected) is Some),
        final(sticks)@ == match reset_target(slot, selected) {
            Some(s) => old(sticks)@.update(s as int, fresh_flick(old(sticks)@[s as int].config)),
            None => old(sticks)@,
        },
{
    let s: u8 = match slot {
        Some(s) => s,
        None => selected,
    };
    if s as usize >= CONTROLLER_SLOTS {
        return false;
    }
    let mut stick = sticks[s as usize];
    stick.reset();
    sticks.set(s as usize, stick);
    true
}

/// Replaces the configuration of every slot.
pub fn set_flick_stick_config(sticks: &mut Vec<FlickStick>, config: FlickStickConfig)
    ensures
        final(sticks)@.len() == old(sticks)@.len(),
        forall|i: int|
            0 <= i < old(sticks)@.len() ==> #[trigger] final(sticks)@[i] == (FlickStick {
                config,
                ..old(sticks)@[i]
            }),
{
    let ghost before = sticks@;
    let mut i: usize = 0;
    while i < sticks.len()
        invariant
            i <= sticks@.len(),
            sticks@.len() == before.len(),
            before == old(sticks)@,
            forall|j: int|
                0 <= j < i ==> #[trigger] sticks@[j] == (FlickStick { config, ..before[j] }),
            forall|j: int| i <= j < before.len() ==> #[trigger] sticks@[j] == before[j],
        decreases sticks@.len() - i,
    {
        let mut stick = sticks[i];
        stick.set_config(config);
        sticks.set(i, stick);
        i = i + 1;
    }
}

// ---------------------------------------------------------------------------
// Laws
// ---------------------------------------------------------------------------

/// Within the cooldown of a flick there is no other flick, wherever the stick
/// is.
pub proof fn law_no_flick_within_the_cooldown(
    s: FlickStick,
    first: Real32,
    t: u64,
    config: FlickStickConfig,
    second: Real32,
    later: u64,
)
    requires
        flick_step(s, first, t, config) == FlickStep::Flick,
        later < t + config.flick_cooldown_ms,
    ensures
        flick_step(after_step(s, FlickStep::Flick, t), second, later, config) != FlickStep::Flick,
{
}

/// While the stick stays at the edge after a flick, the camera turns on and
/// does not snap again, however much time passes.
pub proof fn law_held_stick_only_rotates(
    s: FlickStick,
    first: Real32,
    t: u64,
    config: FlickStickConfig,
    second: Real32,
    later: u64,
)
    requires
        flick_step(s, first, t, config) == FlickStep::Flick,
        config.flick_threshold.below(second),
        !at_rest(second, config),
    ensures
        flick_step(after_step(s, FlickStep::Flick, t), second, later, config) == FlickStep::Rotate,
{
}

/// A stick that has come back from the edge flicks again as soon as the
/// cooldown is over.
pub proof fn law_released_stick_flicks_again(
    s: FlickStick,
    t: u64,
    config: FlickStickConfig,
    away: Real32,
    between: u64,
    back: Real32,
    later: u64,
)
    requires
        s.last_flick_ms == Some(t),
        config.enabled,
        !config.flick_threshold.below(away),
        config.flick_threshold.below(back),
        !at_rest(back, config),
        later >= t + config.flick_cooldown_ms,
    ensures
        ({
            let released = after_step(s, flick_step(s, away, between, config), between);
            flick_step(released, back, later, config) == FlickStep::Flick
        }),
{
}

/// Switched off, the stick does nothing to the camera.
pub proof fn law_disabled_does_nothing(
    s: FlickStick,
    magnitude: Real32,
    now_ms: u64,
    config: FlickStickConfig,
)
    requires
        !config.enabled,
    ensures
        flick_step(s, magnitude, now_ms, config) == FlickStep::Rest,
        after_step(s, FlickStep::Rest, now_ms).current_yaw == s.current_yaw,
{
}

/// A stick that is switched on flicks where it comes to lie beyond the
/// threshold and the last flick, if there was one, is at least the cooldown
/// ago; it rotates while it stays there, and does nothing while it lies within
/// the threshold. Within the deadzone, at zero or switched off, it rests.
pub proof fn law_when_a_stick_flicks(
    s: FlickStick,
    magnitude: Real32,
    now_ms: u64,
    config: FlickStickConfig,
)
    requires
        !magnitude.nan(),
    ensures
        ({
            let step = flick_step(s, magnitude, now_ms, config);
            let rests = !config.enabled || magnitude.below(config.stick_deadzone)
                || magnitude.null();
            let beyond = config.flick_threshold.below(magnitude);
            let ready = s.last_flick_ms is None || config.flick_cooldown_ms == 0 || now_ms
                >= s.last_flick_ms->0 + config.flick_cooldown_ms;
            &&& (step == FlickStep::Rest) == rests
            &&& (step == FlickStep::Rotate) == (!rests && beyond && s.flick_active)
            &&& (step == FlickStep::Flick) == (!rests && beyond && !s.flick_active && ready)
        }),
{
}

/// What is remembered of a report: a flick its time and that the stick is at
/// the edge, anything within the edge that it is not; at rest the smoothing
/// starts anew. Direction and configuration stay.
pub proof fn law_what_a_report_leaves(s: FlickStick, step: FlickStep, now_ms: u64)
    ensures
        ({
            let after = after_step(s, step, now_ms);
            &&& after.current_yaw == s.current_yaw && after.config == s.config
            &&& after.flick_active == (step == FlickStep::Flick || step == FlickStep::Rotate
                && s.flick_active)
            &&& after.last_flick_ms == (if step == FlickStep::Flick {
                Some(now_ms)
            } else {
                s.last_flick_ms
            })
            &&& step == FlickStep::Rest ==> after.last_output.null()
            &&& step != FlickStep::Rest ==> after.last_output == s.last_output
        }),
{
}

/// A stick that starts anew looks straight ahead, has not flicked, and keeps
/// the configuration that it is given.
pub proof fn law_fresh_stick(config: FlickStickConfig)
    ensures
        fresh_flick(config).current_yaw.null(),
        fresh_flick(config).last_output.null(),
        fresh_flick(config).last_flick_ms is None,
        !fresh_flick(config).flick_active,
        fresh_flick(config).config == config,
{
}

/// A reset is for the slot that was asked for, or for the selected one, and
/// for none beyond the fourth.
pub proof fn law_reset_target(slot: u8, selected: u8)
    ensures
        reset_target(Some(slot), selected) == (if slot < 4 { Some(slot) } else { None }),
        reset_target(None, selected) == (if selected < 4 { Some(selected) } else { None }),
{
}

} // verus!
