//! What a controller's buttons, sticks and gyroscope are mapped to.

use vstd::prelude::*;

use crate::numeric::Real32;
use crate::state::ButtonId;

verus! {

/// What a mapped button does.
#[derive(Debug, PartialEq, Eq)]
pub enum Action {
    /// A key, by name.
    Key(String),
    /// Keys pressed in order and released in reverse.
    KeyCombo(Vec<String>),
    /// A mouse button: left, right, middle, and the two side buttons.
    MouseButton(u8),
    /// A button of the virtual controller.
    Button(ButtonId),
    /// A macro, by name.
    Macro(String),
    /// The next profile.
    ProfileNext,
}

/// What an `Action` is.
#[verifier::ext_equal]
pub enum ActionModel {
    Key(Seq<char>),
    KeyCombo(Seq<Seq<char>>),
    MouseButton(u8),
    Button(ButtonId),
    Macro(Seq<char>),
    ProfileNext,
}

impl DeepView for Action {
    type V = ActionModel;

    open spec fn deep_view(&self) -> ActionModel {
        match *self {
            Action::Key(name) => ActionModel::Key(name@),
            Action::KeyCombo(names) => ActionModel::KeyCombo(names.deep_view()),
            Action::MouseButton(button) => ActionModel::MouseButton(button),
            Action::Button(id) => ActionModel::Button(id),
            Action::Macro(name) => ActionModel::Macro(name@),
            Action::ProfileNext => ActionModel::ProfileNext,
        }
    }
}

/// A copy of a list of names.
fn copy_names(names: &Vec<String>) -> (r: Vec<String>)
    ensures
        r.deep_view() == names.deep_view(),
{
    let mut out: Vec<String> = Vec::new();
    let mut i: usize = 0;
    while i < names.len()
        invariant
            i <= names.len(),
            out@.len() == i,
            forall|j: int| 0 <= j < i ==> (#[trigger] out@[j])@ == names@[j]@,
        decreases names.len() - i,
    {
        out.push(names[i].clone());
        i = i + 1;
    }
    assert(out.deep_view() =~= names.deep_view());
    out
}

impl Clone for Action {
    fn clone(&self) -> (r: Self)
        ensures
            r.deep_view() == self.deep_view(),
    {
        match self {
            Action::Key(name) => Action::Key(name.clone()),
            Action::KeyCombo(names) => Action::KeyCombo(copy_names(names)),
            Action::MouseButton(button) => Action::MouseButton(*button),
            Action::Button(id) => Action::Button(*id),
            Action::Macro(name) => Action::Macro(name.clone()),
            Action::ProfileNext => Action::ProfileNext,
        }
    }
}

/// A copy of a list of actions.
pub fn copy_actions(actions: &Vec<Action>) -> (r: Vec<Action>)
    ensures
        r.deep_view() == actions.deep_view(),
{
    let mut out: Vec<Action> = Vec::new();
    let mut i: usize = 0;
    while i < actions.len()
        invariant
            i <= actions.len(),
            out@.len() == i,
            forall|j: int|
                0 <= j < i ==> (#[trigger] out@[j]).deep_view() == actions@[j].deep_view(),
        decreases actions.len() - i,
    {
        out.push(actions[i].clone());
        i = i + 1;
    }
    assert(out.deep_view() =~= actions.deep_view());
    out
}

/// The actions of one button.
#[derive(Debug)]
pub struct ButtonMapping {
    pub source: ButtonId,
    pub actions: Vec<Action>,
}

/// What a `ButtonMapping` holds.
#[verifier::ext_equal]
pub struct ButtonMappingModel {
    pub source: ButtonId,
    pub actions: Seq<ActionModel>,
}

impl DeepView for ButtonMapping {
    type V = ButtonMappingModel;

    open spec fn deep_view(&self) -> ButtonMappingModel {
        ButtonMappingModel { source: self.source, actions: self.actions.deep_view() }
    }
}

/// One of the two sticks.
#[derive(Clone, Copy, Debug, PartialEq, Eq, Structural)]
pub enum StickSide {
    Left,
    Right,
}

/// What a stick drives.
#[derive(Clone, Copy, Debug, PartialEq, Eq, Structural)]
pub enum StickAction {
    Mouse,
    Wasd,
    ArrowKeys,
    Scroll,
    Disabled,
}

/// The thresholds of the zones of a stick, and what each zone triggers.
#[derive(Debug)]
pub struct StickZones {
    pub deadzone: Real32,
    pub low: Real32,
    pub medium: Real32,
    pub high: Real32,
    pub low_actions: Vec<Action>,
    pub medium_actions: Vec<Action>,
    pub high_actions: Vec<Action>,
}

/// Every threshold is zero, and no zone triggers anything.
pub open spec fn is_zoneless(z: StickZones) -> bool {
    &&& z.deadzone.bits == 0 && z.low.bits == 0 && z.medium.bits == 0 && z.high.bits == 0
    &&& z.low_actions@.len() == 0 && z.medium_actions@.len() == 0 && z.high_actions@.len() == 0
}

impl Default for StickZones {
    fn default() -> (r: Self)
        ensures
            is_zoneless(r),
    {
        StickZones {
            deadzone: Real32::zero(),
            low: Real32::zero(),
            medium: Real32::zero(),
            high: Real32::zero(),
            low_actions: Vec::new(),
            medium_actions: Vec::new(),
            high_actions: Vec::new(),
        }
    }
}

impl Clone for StickZones {
    fn clone(&self) -> (r: Self)
        ensures
            r.deadzone == self.deadzone,
            r.low == self.low,
            r.medium == self.medium,
            r.high == self.high,
            r.low_actions.deep_view() == self.low_actions.deep_view(),
            r.medium_actions.deep_view() == self.medium_actions.deep_view(),
            r.high_actions.deep_view() == self.high_actions.deep_view(),
    {
        StickZones {
            deadzone: self.deadzone,
            low: self.low,
            medium: self.medium,
            high: self.high,
            low_actions: copy_actions(&self.low_actions),
            medium_actions: copy_actions(&self.medium_actions),
            high_actions: copy_actions(&self.high_actions),
        }
    }
}

/// How a stick's deflection is shaped.
#[derive(Clone, Copy, Debug, PartialEq, Eq)]
pub enum ResponseCurveType {
    Linear,
    Exponential(Real32),
    SCurve,
    Bezier { p1: (Real32, Real32), p2: (Real32, Real32) },
}

impl Default for ResponseCurveType {
    fn default() -> (r: Self)
        ensures
            r == ResponseCurveType::Linear,
    {
        ResponseCurveType::Linear
    }
}

/// What the two sticks drive.
#[derive(Debug)]
pub struct StickMapping {
    pub left_actions: Vec<StickAction>,
    pub right_actions: Vec<StickAction>,
    pub zones: StickZones,
    pub response_curve: ResponseCurveType,
}

/// The sticks drive nothing, on a linear curve.
pub open spec fn is_idle(s: StickMapping) -> bool {
    &&& s.left_actions@.len() == 0 && s.right_actions@.len() == 0
    &&& is_zoneless(s.zones)
    &&& s.response_curve == ResponseCurveType::Linear
}

impl Default for StickMapping {
    fn default() -> (r: Self)
        ensures
            is_idle(r),
    {
        StickMapping {
            left_actions: Vec::new(),
            right_actions: Vec::new(),
            zones: StickZones::default(),
            response_curve: ResponseCurveType::Linear,
        }
    }
}

/// What the gyroscope drives.
#[derive(Clone, Copy, Debug, PartialEq, Eq, Structural)]
pub enum GyroMode {
    Off,
    Mouse,
    Stick(StickSide),
    FlickStick,
}

/// How the gyroscope is read.
#[derive(Clone, Copy, Debug, PartialEq, Eq)]
pub struct GyroMapping {
    pub mode: GyroMode,
    pub sensitivity: (Real32, Real32),
    pub smoothing: Real32,
    pub deadzone: Real32,
}

/// The gyroscope drives nothing, at a sensitivity of one on both axes.
pub open spec fn idle_gyro() -> GyroMapping {
    GyroMapping {
        mode: GyroMode::Off,
        sensitivity: (Real32 { bits: 0x3F80_0000 }, Real32 { bits: 0x3F80_0000 }),
        smoothing: Real32 { bits: 0 },
        deadzone: Real32 { bits: 0 },
    }
}

impl Default for GyroMapping {
    fn default() -> (r: Self)
        ensures
            r == idle_gyro(),
    {
        GyroMapping {
            mode: GyroMode::Off,
            sensitivity: (Real32::from_bits(0x3F80_0000), Real32::from_bits(0x3F80_0000)),
            smoothing: Real32::zero(),
            deadzone: Real32::zero(),
        }
    }
}

/// All that a controller is mapped to.
#[derive(Debug)]
pub struct Mappings {
    pub buttons: Vec<ButtonMapping>,
    pub sticks: StickMapping,
    pub gyro: GyroMapping,
}

/// Nothing is mapped.
pub open spec fn is_unmapped(m: Mappings) -> bool {
    m.buttons@.len() == 0 && is_idle(m.sticks) && m.gyro == idle_gyro()
}

impl Default for Mappings {
    fn default() -> (r: Self)
        ensures
            is_unmapped(r),
    {
        Mappings {
            buttons: Vec::new(),
            sticks: StickMapping::default(),
            gyro: GyroMapping::default(),
        }
    }
}

} // verus!
