//! Buttons and sticks as keyboard and mouse events.
//!
//! The emulator decides which events a report gives rise to, and in which
//! order; the caller sends them and runs the key repeats. How far the mouse
//! moves for a deflection is floating-point work that is handed in.

use vstd::prelude::*;

use crate::config;
use crate::config::KbmConfig;
use crate::mappings::{
    Action, ActionModel, ButtonMapping, ButtonMappingModel, Mappings, StickAction, StickMapping,
    StickSide,
};
use crate::numeric::{QUARTER_BITS, Real32};
use crate::state;
use crate::state::{ButtonId, ButtonState, ControllerState, StickVector};
use crate::text::same;

verus! {

// ---------------------------------------------------------------------------
// Input events
// ---------------------------------------------------------------------------

/// An event of the keyboard or the mouse.
#[derive(Clone, Copy, Debug, PartialEq, Eq, Structural)]
#[allow(inconsistent_fields)]
pub enum InputEvent {
    Key { vk: u16, down: bool },
    MouseMove { dx: i32, dy: i32 },
    MouseButton { button: u8, down: bool },
    MouseWheel { delta: i32 },
}

/// Something that passes input events on.
pub trait InputBackend: Send + Sync {
    /// Passes one event on.
    fn send(&self, event: InputEvent);
}

/// An input record as the operating system takes it.
#[derive(Clone, Copy, Debug, PartialEq, Eq, Structural)]
#[allow(inconsistent_fields)]
pub enum RawInput {
    Keyboard { vk: u16, flags: u32 },
    Mouse { dx: i32, dy: i32, data: u32, flags: u32 },
}

/// A key goes up.
pub const KEY_UP: u32 = 0x0002;

/// The mouse moves, relative to where it is.
pub const MOUSE_MOVE: u32 = 0x0001;

/// The wheel turns.
pub const MOUSE_WHEEL: u32 = 0x0800;

/// The flags of a mouse button going down and up, and the number that tells
/// the two side buttons apart. There are five buttons.
pub open spec fn button_flags(button: u8) -> Option<(u32, u32, u32)> {
    if button == 0 {
        Some((0x0002u32, 0x0004u32, 0u32))
    } else if button == 1 {
        Some((0x0008u32, 0x0010u32, 0u32))
    } else if button == 2 {
        Some((0x0020u32, 0x0040u32, 0u32))
    } else if button == 3 {
        Some((0x0080u32, 0x0100u32, 1u32))
    } else if button == 4 {
        Some((0x0080u32, 0x0100u32, 2u32))
    } else {
        None
    }
}

/// A signed number as the unsigned one with the same bits.
pub open spec fn unsigned_bits(v: i32) -> u32 {
    if v < 0 {
        (v + 0x1_0000_0000) as u32
    } else {
        v as u32
    }
}

/// The record for an event; none for a mouse button that does not exist.
pub open spec fn raw_record(event: InputEvent) -> Option<RawInput> {
    match event {
        InputEvent::Key { vk, down } => Some(
            RawInput::Keyboard {
                vk,
                flags: if down {
                    0
                } else {
                    KEY_UP
                },
            },
        ),
        InputEvent::MouseMove { dx, dy } => Some(
            RawInput::Mouse { dx, dy, data: 0, flags: MOUSE_MOVE },
        ),
        InputEvent::MouseButton { button, down } => match button_flags(button) {
            Some((down_flag, up_flag, data)) => Some(
                RawInput::Mouse {
                    dx: 0,
                    dy: 0,
                    data,
                    flags: if down {
                        down_flag
                    } else {
                        up_flag
                    },
                },
            ),
            None => None,
        },
        InputEvent::MouseWheel { delta } => Some(
            RawInput::Mouse { dx: 0, dy: 0, data: unsigned_bits(delta), flags: MOUSE_WHEEL },
        ),
    }
}

fn same_bits(v: i32) -> (r: u32)
    ensures
        r == unsigned_bits(v),
{
    if v < 0 {
        (v as i64 + 0x1_0000_0000) as u32
    } else {
        v as u32
    }
}

/// The input queue of the operating system.
#[derive(Clone, Copy, Debug, PartialEq, Eq, Structural)]
pub struct WindowsBackend;

impl Default for WindowsBackend {
    fn default() -> (r: Self)
        ensures
            r == WindowsBackend,
    {
        WindowsBackend
    }
}

impl WindowsBackend {
    /// The record for an event.
    pub fn record(&self, event: InputEvent) -> (r: Option<RawInput>)
        ensures
            r == raw_record(event),
    {
        match event {
            InputEvent::Key { vk, down } => {
                let flags: u32 = if down {
                    0
                } else {
                    KEY_UP
                };
                Some(RawInput::Keyboard { vk, flags })
            },
            InputEvent::MouseMove { dx, dy } => Some(
                RawInput::Mouse { dx, dy, data: 0, flags: MOUSE_MOVE },
            ),
            InputEvent::MouseButton { button, down } => {
                let (down_flag, up_flag, data): (u32, u32, u32) = match button {
                    0 => (0x0002, 0x0004, 0),
                    1 => (0x0008, 0x0010, 0),
                    2 => (0x0020, 0x0040, 0),
                    3 => (0x0080, 0x0100, 1),
                    4 => (0x0080, 0x0100, 2),
                    _ => {
                        return None;
                    },
                };
                let flags: u32 = if down {
                    down_flag
                } else {
                    up_flag
                };
                Some(RawInput::Mouse { dx: 0, dy: 0, data, flags })
            },
            InputEvent::MouseWheel { delta } => Some(
                RawInput::Mouse { dx: 0, dy: 0, data: same_bits(delta), flags: MOUSE_WHEEL },
            ),
        }
    }
}

/// A key going down and up again.
pub fn send_keypress(vk: u16) -> (r: [InputEvent; 2])
    ensures
        r@ == seq![InputEvent::Key { vk, down: true }, InputEvent::Key { vk, down: false }],
{
    let r = [InputEvent::Key { vk, down: true }, InputEvent::Key { vk, down: false }];
    assert(r@ =~= seq![InputEvent::Key { vk, down: true }, InputEvent::Key { vk, down: false }]);
    r
}

/// The left mouse button going down and up again.
pub fn left_click() -> (r: [InputEvent; 2])
    ensures
        r@ == seq![
            InputEvent::MouseButton { button: 0, down: true },
            InputEvent::MouseButton { button: 0, down: false },
        ],
{
    let r = [
        InputEvent::MouseButton { button: 0, down: true },
        InputEvent::MouseButton { button: 0, down: false },
    ];
    assert(r@ =~= seq![
        InputEvent::MouseButton { button: 0, down: true },
        InputEvent::MouseButton { button: 0, down: false },
    ]);
    r
}

// ---------------------------------------------------------------------------
// Key names
// ---------------------------------------------------------------------------

/// The code of a named key.
#[derive(Debug)]
pub struct KeyEntry {
    pub name: String,
    pub vk: u16,
}

/// What a `KeyEntry` says.
#[verifier::ext_equal]
pub struct KeyEntryModel {
    pub name: Seq<char>,
    pub vk: u16,
}

impl DeepView for KeyEntry {
    type V = KeyEntryModel;

    open spec fn deep_view(&self) -> KeyEntryModel {
        KeyEntryModel { name: self.name@, vk: self.vk }
    }
}

/// The codes of the keys that have names.
#[derive(Debug)]
pub struct KeyTable {
    pub entries: Vec<KeyEntry>,
}

/// The code of a key: that of the first entry with its name.
pub open spec fn code_of(keys: Seq<KeyEntryModel>, name: Seq<char>) -> Option<u16>
    decreases keys.len(),
{
    if keys.len() == 0 {
        None
    } else if keys[0].name == name {
        Some(keys[0].vk)
    } else {
        code_of(keys.skip(1), name)
    }
}

impl KeyTable {
    /// The entries.
    pub open spec fn keys(self) -> Seq<KeyEntryModel> {
        self.entries.deep_view()
    }

    /// The code of a key.
    pub fn vk(&self, name: &str) -> (r: Option<u16>)
        ensures
            r == code_of(self.keys(), name@),
    {
        let ghost all = self.keys();
        let mut i: usize = 0;
        assert(all.skip(0) =~= all);
        while i < self.entries.len()
            invariant
                i <= self.entries.len(),
                all == self.entries.deep_view(),
                code_of(all, name@) == code_of(all.skip(i as int), name@),
            decreases self.entries.len() - i,
        {
            assert(all.skip(i as int)[0] == all[i as int]);
            if same(self.entries[i].name.as_str(), name) {
                return Some(self.entries[i].vk);
            }
            assert(all.skip(i as int).skip(1) =~= all.skip(i + 1));
            i = i + 1;
        }
        None
    }
}

/// The codes of some keys; names without a code are left out.
pub open spec fn codes_of(keys: Seq<KeyEntryModel>, names: Seq<Seq<char>>) -> Seq<u16>
    decreases names.len(),
{
    if names.len() == 0 {
        Seq::empty()
    } else {
        let rest = codes_of(keys, names.drop_last());
        match code_of(keys, names.last()) {
            Some(vk) => rest.push(vk),
            None => rest,
        }
    }
}

fn find_codes(keys: &KeyTable, names: &Vec<String>) -> (r: Vec<u16>)
    ensures
        r@ == codes_of(keys.keys(), names.deep_view()),
{
    let ghost all = names.deep_view();
    let mut out: Vec<u16> = Vec::new();
    let mut i: usize = 0;
    assert(all.take(0) =~= Seq::<Seq<char>>::empty());
    while i < names.len()
        invariant
            i <= names.len(),
            all == names.deep_view(),
            out@ == codes_of(keys.keys(), all.take(i as int)),
        decreases names.len() - i,
    {
        assert(all.take(i + 1).drop_last() =~= all.take(i as int));
        assert(all.take(i + 1).last() == names@[i as int]@);
        match keys.vk(names[i].as_str()) {
            Some(vk) => {
                out.push(vk);
            },
            None => {},
        }
        i = i + 1;
    }
    assert(all.take(all.len() as int) =~= all);
    out
}

// ---------------------------------------------------------------------------
// What the caller is asked to do
// ---------------------------------------------------------------------------

/// Something the caller is asked to do.
#[derive(Debug, PartialEq, Eq)]
#[allow(inconsistent_fields)]
pub enum KbmOutput {
    /// Send an event.
    Send(InputEvent),
    /// Press a key again and again: after the delay, and then at the rate.
    StartRepeat { key_id: String, vk: u16, delay_ms: u32, rate_ms: u32 },
    /// Stop doing so, if it was started.
    StopRepeat { key_id: String },
}

/// What a `KbmOutput` asks for.
#[verifier::ext_equal]
#[allow(inconsistent_fields)]
pub enum OutputModel {
    Send(InputEvent),
    StartRepeat { key_id: Seq<char>, vk: u16, delay_ms: u32, rate_ms: u32 },
    StopRepeat { key_id: Seq<char> },
}

impl DeepView for KbmOutput {
    type V = OutputModel;

    open spec fn deep_view(&self) -> OutputModel {
        match *self {
            KbmOutput::Send(event) => OutputModel::Send(event),
            KbmOutput::StartRepeat { key_id, vk, delay_ms, rate_ms } => OutputModel::StartRepeat {
                key_id: key_id@,
                vk,
                delay_ms,
                rate_ms,
            },
            KbmOutput::StopRepeat { key_id } => OutputModel::StopRepeat { key_id: key_id@ },
        }
    }
}

fn ask(out: &mut Vec<KbmOutput>, o: KbmOutput)
    ensures
        final(out).deep_view() == old(out).deep_view().push(o.deep_view()),
{
    let ghost was = out.deep_view();
    let ghost shown = o.deep_view();
    out.push(o);
    assert(out.deep_view() =~= was.push(shown));
}

/// The name of a button in the identifier of a key repeat.
pub open spec fn button_label(id: ButtonId) -> Seq<char> {
    match id {
        ButtonId::A => "A"@,
        ButtonId::B => "B"@,
        ButtonId::X => "X"@,
        ButtonId::Y => "Y"@,
        ButtonId::Up => "Up"@,
        ButtonId::Down => "Down"@,
        ButtonId::Left => "Left"@,
        ButtonId::Right => "Right"@,
        ButtonId::L => "L"@,
        ButtonId::R => "R"@,
        ButtonId::Zl => "Zl"@,
        ButtonId::Zr => "Zr"@,
        ButtonId::Minus => "Minus"@,
        ButtonId::Plus => "Plus"@,
        ButtonId::Home => "Home"@,
        ButtonId::Capture => "Capture"@,
        ButtonId::LStick => "LStick"@,
        ButtonId::RStick => "RStick"@,
    }
}

fn label(id: ButtonId) -> (r: String)
    ensures
        r@ == button_label(id),
{
    match id {
        ButtonId::A => "A".to_string(),
        ButtonId::B => "B".to_string(),
        ButtonId::X => "X".to_string(),
        ButtonId::Y => "Y".to_string(),
        ButtonId::Up => "Up".to_string(),
        ButtonId::Down => "Down".to_string(),
        ButtonId::Left => "Left".to_string(),
        ButtonId::Right => "Right".to_string(),
        ButtonId::L => "L".to_string(),
        ButtonId::R => "R".to_string(),
        ButtonId::Zl => "Zl".to_string(),
        ButtonId::Zr => "Zr".to_string(),
        ButtonId::Minus => "Minus".to_string(),
        ButtonId::Plus => "Plus".to_string(),
        ButtonId::Home => "Home".to_string(),
        ButtonId::Capture => "Capture".to_string(),
        ButtonId::LStick => "LStick".to_string(),
        ButtonId::RStick => "RStick".to_string(),
    }
}

/// The identifier of the repeat of a key by a button.
pub open spec fn repeat_id(id: ButtonId, name: Seq<char>) -> Seq<char> {
    "btn:"@ + button_label(id) + ":"@ + name
}

/// The rate of a key repeat: at least 1 ms and at most 5 s.
pub open spec fn repeat_rate(config: KbmConfig) -> u32 {
    if config.key_repeat_rate_ms < 1 {
        1
    } else if config.key_repeat_rate_ms > 5000 {
        5000
    } else {
        config.key_repeat_rate_ms
    }
}

// ---------------------------------------------------------------------------
// Buttons
// ---------------------------------------------------------------------------

/// A key event for each of some codes.
pub open spec fn key_events(vks: Seq<u16>, down: bool) -> Seq<OutputModel> {
    vks.map_values(|vk: u16| OutputModel::Send(InputEvent::Key { vk, down }))
}

/// What an action of a button asks for when the button goes down or up.
pub open spec fn action_outputs(
    keys: Seq<KeyEntryModel>,
    config: KbmConfig,
    id: ButtonId,
    action: ActionModel,
    pressed: bool,
) -> Seq<OutputModel> {
    match action {
        ActionModel::Key(name) => match code_of(keys, name) {
            Some(vk) => if pressed {
                seq![
                    OutputModel::Send(InputEvent::Key { vk, down: true }),
                    OutputModel::StartRepeat {
                        key_id: repeat_id(id, name),
                        vk,
                        delay_ms: config.key_repeat_delay_ms,
                        rate_ms: repeat_rate(config),
                    },
                ]
            } else {
                seq![
                    OutputModel::StopRepeat { key_id: repeat_id(id, name) },
                    OutputModel::Send(InputEvent::Key { vk, down: false }),
                ]
            },
            None => Seq::empty(),
        },
        ActionModel::KeyCombo(names) => if pressed {
            key_events(codes_of(keys, names), true)
        } else {
            key_events(codes_of(keys, names).reverse(), false)
        },
        ActionModel::MouseButton(button) => seq![
            OutputModel::Send(InputEvent::MouseButton { button, down: pressed }),
        ],
        _ => Seq::empty(),
    }
}

/// What some actions of a button ask for.
pub open spec fn actions_outputs(
    keys: Seq<KeyEntryModel>,
    config: KbmConfig,
    id: ButtonId,
    actions: Seq<ActionModel>,
    pressed: bool,
) -> Seq<OutputModel>
    decreases actions.len(),
{
    if actions.len() == 0 {
        Seq::empty()
    } else {
        actions_outputs(keys, config, id, actions.drop_last(), pressed) + action_outputs(
            keys,
            config,
            id,
            actions.last(),
            pressed,
        )
    }
}

/// What the mappings of a button ask for when it goes down or up.
pub open spec fn button_outputs(
    keys: Seq<KeyEntryModel>,
    config: KbmConfig,
    id: ButtonId,
    mappings: Seq<ButtonMappingModel>,
    pressed: bool,
) -> Seq<OutputModel>
    decreases mappings.len(),
{
    if mappings.len() == 0 {
        Seq::empty()
    } else {
        let rest = button_outputs(keys, config, id, mappings.drop_last(), pressed);
        if mappings.last().source == id {
            rest + actions_outputs(keys, config, id, mappings.last().actions, pressed)
        } else {
            rest
        }
    }
}

/// The buttons, in the order in which their changes are reported.
pub open spec fn button_order() -> Seq<ButtonId> {
    seq![
        ButtonId::A,
        ButtonId::B,
        ButtonId::X,
        ButtonId::Y,
        ButtonId::Up,
        ButtonId::Down,
        ButtonId::Left,
        ButtonId::Right,
        ButtonId::L,
        ButtonId::R,
        ButtonId::Zl,
        ButtonId::Zr,
        ButtonId::Minus,
        ButtonId::Plus,
        ButtonId::Home,
        ButtonId::Capture,
        ButtonId::LStick,
        ButtonId::RStick,
    ]
}

/// What the changes of the first `n` buttons ask for.
pub open spec fn edge_outputs(
    keys: Seq<KeyEntryModel>,
    config: KbmConfig,
    before: ButtonState,
    now: ButtonState,
    mappings: Seq<ButtonMappingModel>,
    n: nat,
) -> Seq<OutputModel>
    decreases n,
{
    if n == 0 || !config.enabled {
        Seq::empty()
    } else {
        let rest = edge_outputs(keys, config, before, now, mappings, (n - 1) as nat);
        let id = button_order()[n - 1];
        if now.held(id) != before.held(id) {
            rest + button_outputs(keys, config, id, mappings, now.held(id))
        } else {
            rest
        }
    }
}

// ---------------------------------------------------------------------------
// Sticks
// ---------------------------------------------------------------------------

/// A key that a stick can hold down.
#[derive(Clone, Copy, Debug, PartialEq, Eq, Structural)]
pub enum StickKey {
    W,
    S,
    D,
    A,
    Up,
    Down,
    Right,
    Left,
}

/// The name of a key that a stick can hold down.
pub open spec fn stick_key_name(k: StickKey) -> Seq<char> {
    match k {
        StickKey::W => "W"@,
        StickKey::S => "S"@,
        StickKey::D => "D"@,
        StickKey::A => "A"@,
        StickKey::Up => "Up"@,
        StickKey::Down => "Down"@,
        StickKey::Right => "Right"@,
        StickKey::Left => "Left"@,
    }
}

fn key_name(k: StickKey) -> (r: String)
    ensures
        r@ == stick_key_name(k),
{
    match k {
        StickKey::W => "W".to_string(),
        StickKey::S => "S".to_string(),
        StickKey::D => "D".to_string(),
        StickKey::A => "A".to_string(),
        StickKey::Up => "Up".to_string(),
        StickKey::Down => "Down".to_string(),
        StickKey::Right => "Right".to_string(),
        StickKey::Left => "Left".to_string(),
    }
}

/// The keys that a stick holds down.
#[derive(Clone, Copy, Debug, PartialEq, Eq, Structural)]
pub struct StickKeys {
    pub w: bool,
    pub s: bool,
    pub d: bool,
    pub a: bool,
    pub up: bool,
    pub down: bool,
    pub right: bool,
    pub left: bool,
}

impl StickKeys {
    /// Whether a key is held down.
    pub open spec fn has(self, k: StickKey) -> bool {
        match k {
            StickKey::W => self.w,
            StickKey::S => self.s,
            StickKey::D => self.d,
            StickKey::A => self.a,
            StickKey::Up => self.up,
            StickKey::Down => self.down,
            StickKey::Right => self.right,
            StickKey::Left => self.left,
        }
    }

    fn holds(&self, k: StickKey) -> (r: bool)
        ensures
            r == self.has(k),
    {
        match k {
            StickKey::W => self.w,
            StickKey::S => self.s,
            StickKey::D => self.d,
            StickKey::A => self.a,
            StickKey::Up => self.up,
            StickKey::Down => self.down,
            StickKey::Right => self.right,
            StickKey::Left => self.left,
        }
    }

    /// No key.
    pub fn none() -> (r: Self)
        ensures
            r == no_stick_keys(),
    {
        StickKeys {
            w: false,
            s: false,
            d: false,
            a: false,
            up: false,
            down: false,
            right: false,
            left: false,
        }
    }
}

/// No key.
pub open spec fn no_stick_keys() -> StickKeys {
    StickKeys {
        w: false,
        s: false,
        d: false,
        a: false,
        up: false,
        down: false,
        right: false,
        left: false,
    }
}

/// The keys that a stick can hold down, in the order in which their changes
/// are reported.
pub open spec fn stick_key_order() -> Seq<StickKey> {
    seq![
        StickKey::W,
        StickKey::S,
        StickKey::D,
        StickKey::A,
        StickKey::Up,
        StickKey::Down,
        StickKey::Right,
        StickKey::Left,
    ]
}

/// The deflection beyond which a stick acts: the deadzone, or a quarter where
/// none is set.
pub open spec fn stick_threshold(deadzone: Real32) -> Real32 {
    if (Real32 { bits: 0 }).below(deadzone) {
        deadzone
    } else {
        Real32 { bits: QUARTER_BITS }
    }
}

/// The keys that the actions of a stick hold down at a deflection.
pub open spec fn wanted_keys(
    actions: Seq<StickAction>,
    at: StickVector,
    threshold: Real32,
) -> StickKeys {
    let wasd = actions.contains(StickAction::Wasd);
    let arrows = actions.contains(StickAction::ArrowKeys);
    let north = threshold.below(at.y);
    let south = !north && at.y.below(threshold.negated());
    let east = threshold.below(at.x);
    let west = !east && at.x.below(threshold.negated());
    StickKeys {
        w: wasd && north,
        s: wasd && south,
        d: wasd && east,
        a: wasd && west,
        up: arrows && north,
        down: arrows && south,
        right: arrows && east,
        left: arrows && west,
    }
}

/// How far the mouse and the wheel go for the deflection of a stick.
#[derive(Clone, Copy, Debug, PartialEq, Eq, Structural)]
pub struct StickMotion {
    pub dx: i32,
    pub dy: i32,
    pub wheel: i32,
}

/// What the actions of a stick do to mouse and wheel: the mouse moves once,
/// the wheel turns for each scroll action.
pub open spec fn pointer_outputs(
    actions: Seq<StickAction>,
    at: StickVector,
    threshold: Real32,
    motion: StickMotion,
) -> Seq<OutputModel>
    decreases actions.len(),
{
    if actions.len() == 0 {
        Seq::empty()
    } else {
        let rest = pointer_outputs(actions.drop_last(), at, threshold, motion);
        if actions.last() == StickAction::Mouse && !actions.drop_last().contains(StickAction::Mouse)
            && (threshold.below(at.x.absolute()) || threshold.below(at.y.absolute())) {
            rest.push(
                OutputModel::Send(InputEvent::MouseMove { dx: motion.dx, dy: motion.dy }),
            )
        } else if actions.last() == StickAction::Scroll && threshold.below(at.y.absolute()) {
            rest.push(OutputModel::Send(InputEvent::MouseWheel { delta: motion.wheel }))
        } else {
            rest
        }
    }
}

/// An event for each of the first `n` keys that is held in one set and not in
/// the other.
pub open spec fn key_changes(
    keys: Seq<KeyEntryModel>,
    held: StickKeys,
    other: StickKeys,
    down: bool,
    n: nat,
) -> Seq<OutputModel>
    decreases n,
{
    if n == 0 {
        Seq::empty()
    } else {
        let rest = key_changes(keys, held, other, down, (n - 1) as nat);
        let k = stick_key_order()[n - 1];
        match code_of(keys, stick_key_name(k)) {
            Some(vk) => if held.has(k) && !other.has(k) {
                rest.push(OutputModel::Send(InputEvent::Key { vk, down }))
            } else {
                rest
            },
            None => rest,
        }
    }
}

/// What a deflection of a stick asks for.
pub open spec fn stick_outputs(
    keys: Seq<KeyEntryModel>,
    active: StickKeys,
    actions: Seq<StickAction>,
    at: StickVector,
    threshold: Real32,
    motion: StickMotion,
) -> Seq<OutputModel> {
    let wanted = wanted_keys(actions, at, threshold);
    pointer_outputs(actions, at, threshold, motion) + key_changes(keys, wanted, active, true, 8)
        + key_changes(keys, active, wanted, false, 8)
}

// ---------------------------------------------------------------------------
// The emulator
// ---------------------------------------------------------------------------

/// The state of the emulation.
#[derive(Clone, Copy, Debug, PartialEq, Eq, Structural)]
pub struct KbmEmulator {
    pub enabled: bool,
    pub config: KbmConfig,
    /// The keys that the left stick holds down.
    pub left_keys: StickKeys,
    /// The keys that the right stick holds down.
    pub right_keys: StickKeys,
    /// The buttons at the last report.
    pub last_button_state: ButtonState,
}

impl KbmEmulator {
    /// The configuration that counts: the given one, with the emulator's own
    /// switch.
    pub open spec fn settings(self) -> KbmConfig {
        KbmConfig { enabled: self.enabled, ..self.config }
    }

    /// The keys that a stick holds down.
    pub open spec fn active(self, side: StickSide) -> StickKeys {
        match side {
            StickSide::Left => self.left_keys,
            StickSide::Right => self.right_keys,
        }
    }

    /// The emulator after a stick has come to hold some keys down.
    pub open spec fn holding(self, side: StickSide, k: StickKeys) -> KbmEmulator {
        match side {
            StickSide::Left => KbmEmulator { left_keys: k, ..self },
            StickSide::Right => KbmEmulator { right_keys: k, ..self },
        }
    }
}

/// The actions of a stick.
pub open spec fn stick_actions(mapping: StickMapping, side: StickSide) -> Seq<StickAction> {
    match side {
        StickSide::Left => mapping.left_actions@,
        StickSide::Right => mapping.right_actions@,
    }
}

/// What a report of a stick asks for.
pub open spec fn stick_report(
    e: KbmEmulator,
    keys: Seq<KeyEntryModel>,
    side: StickSide,
    at: StickVector,
    motion: StickMotion,
    mapping: StickMapping,
) -> Seq<OutputModel> {
    if e.enabled {
        stick_outputs(
            keys,
            e.active(side),
            stick_actions(mapping, side),
            at,
            stick_threshold(mapping.zones.deadzone),
            motion,
        )
    } else {
        Seq::empty()
    }
}

/// The emulator after a report of a stick.
pub open spec fn after_stick(
    e: KbmEmulator,
    side: StickSide,
    at: StickVector,
    mapping: StickMapping,
) -> KbmEmulator {
    if e.enabled {
        e.holding(
            side,
            wanted_keys(
                stick_actions(mapping, side),
                at,
                stick_threshold(mapping.zones.deadzone),
            ),
        )
    } else {
        e
    }
}

/// The emulator after it has taken in a configuration.
pub open spec fn configured(e: KbmEmulator, config: KbmConfig) -> KbmEmulator {
    KbmEmulator { enabled: config.enabled, config, ..e }
}

/// The emulator after the buttons of a report.
pub open spec fn after_buttons(e: KbmEmulator, config: KbmConfig, now: ButtonState) -> KbmEmulator {
    KbmEmulator { last_button_state: now, ..configured(e, config) }
}

fn dispatch_action(
    keys: &KeyTable,
    config: &KbmConfig,
    id: ButtonId,
    action: &Action,
    pressed: bool,
    out: &mut Vec<KbmOutput>,
)
    ensures
        final(out).deep_view() == old(out).deep_view() + action_outputs(
            keys.keys(),
            *config,
            id,
            action.deep_view(),
            pressed,
        ),
{
    let ghost was = out.deep_view();
    match action {
        Action::Key(name) => {
            let vk: u16 = match keys.vk(name.as_str()) {
                Some(vk) => vk,
                None => {
                    assert(was + Seq::<OutputModel>::empty() =~= was);
                    return ;
                },
            };
            let mut key_id = "btn:".to_string();
            let named = label(id);
            key_id.append(named.as_str());
            key_id.append(":");
            key_id.append(name.as_str());
            if pressed {
                ask(out, KbmOutput::Send(InputEvent::Key { vk, down: true }));
                let rate_ms: u32 = if config.key_repeat_rate_ms < 1 {
                    1
                } else if config.key_repeat_rate_ms > 5000 {
                    5000
                } else {
                    config.key_repeat_rate_ms
                };
                ask(
                    out,
                    KbmOutput::StartRepeat {
                        key_id,
                        vk,
                        delay_ms: config.key_repeat_delay_ms,
                        rate_ms,
                    },
                );
            } else {
                ask(out, KbmOutput::StopRepeat { key_id });
                ask(out, KbmOutput::Send(InputEvent::Key { vk, down: false }));
            }
            assert(out.deep_view() =~= was + action_outputs(
                keys.keys(),
                *config,
                id,
                action.deep_view(),
                pressed,
            ));
        },
        Action::KeyCombo(names) => {
            let vks = find_codes(keys, names);
            send_keys(&vks, pressed, out);
        },
        Action::MouseButton(button) => {
            ask(out, KbmOutput::Send(InputEvent::MouseButton { button: *button, down: pressed }));
            assert(out.deep_view() =~= was + action_outputs(
                keys.keys(),
                *config,
                id,
                action.deep_view(),
                pressed,
            ));
        },
        _ => {
            assert(was + Seq::<OutputModel>::empty() =~= was);
        },
    }
}

/// Presses keys in order, or releases them in reverse.
fn send_keys(vks: &Vec<u16>, down: bool, out: &mut Vec<KbmOutput>)
    ensures
        final(out).deep_view() == old(out).deep_view() + (if down {
            key_events(vks@, true)
        } else {
            key_events(vks@.reverse(), false)
        }),
{
    let ghost was = out.deep_view();
    let ghost order = if down {
        vks@
    } else {
        vks@.reverse()
    };
    let mut i: usize = 0;
    while i < vks.len()
        invariant
            i <= vks.len(),
            order == (if down {
                vks@
            } else {
                vks@.reverse()
            }),
            out.deep_view() =~= was + key_events(order.take(i as int), down),
        decreases vks.len() - i,
    {
        let at: usize = if down {
            i
        } else {
            vks.len() - 1 - i
        };
        let vk: u16 = vks[at];
        assert(order[i as int] == vk);
        ask(out, KbmOutput::Send(InputEvent::Key { vk, down }));
        assert(order.take(i + 1) =~= order.take(i as int).push(vk));
        assert(key_events(order.take(i + 1), down) =~= key_events(order.take(i as int), down).push(
            OutputModel::Send(InputEvent::Key { vk, down }),
        ));
        i = i + 1;
    }
    assert(order.take(order.len() as int) =~= order);
}

fn dispatch_actions(
    keys: &KeyTable,
    config: &KbmConfig,
    id: ButtonId,
    actions: &Vec<Action>,
    pressed: bool,
    out: &mut Vec<KbmOutput>,
)
    ensures
        final(out).deep_view() == old(out).deep_view() + actions_outputs(
            keys.keys(),
            *config,
            id,
            actions.deep_view(),
            pressed,
        ),
{
    let ghost was = out.deep_view();
    let ghost all = actions.deep_view();
    let mut i: usize = 0;
    while i < actions.len()
        invariant
            i <= actions.len(),
            all == actions.deep_view(),
            out.deep_view() =~= was + actions_outputs(
                keys.keys(),
                *config,
                id,
                all.take(i as int),
                pressed,
            ),
        decreases actions.len() - i,
    {
        assert(all.take(i + 1).drop_last() =~= all.take(i as int));
        assert(all.take(i + 1).last() == actions@[i as int].deep_view());
        dispatch_action(keys, config, id, &actions[i], pressed, out);
        i = i + 1;
    }
    assert(all.take(all.len() as int) =~= all);
}

fn dispatch_button(
    keys: &KeyTable,
    config: &KbmConfig,
    id: ButtonId,
    mappings: &Vec<ButtonMapping>,
    pressed: bool,
    out: &mut Vec<KbmOutput>,
)
    ensures
        final(out).deep_view() == old(out).deep_view() + button_outputs(
            keys.keys(),
            *config,
            id,
            mappings.deep_view(),
            pressed,
        ),
{
    let ghost was = out.deep_view();
    let ghost all = mappings.deep_view();
    let mut i: usize = 0;
    while i < mappings.len()
        invariant
            i <= mappings.len(),
            all == mappings.deep_view(),
            out.deep_view() =~= was + button_outputs(
                keys.keys(),
                *config,
                id,
                all.take(i as int),
                pressed,
            ),
        decreases mappings.len() - i,
    {
        assert(all.take(i + 1).drop_last() =~= all.take(i as int));
        assert(all.take(i + 1).last() == mappings@[i as int].deep_view());
        if mappings[i].source == id {
            dispatch_actions(keys, config, id, &mappings[i].actions, pressed, out);
        }
        i = i + 1;
    }
    assert(all.take(all.len() as int) =~= all);
}

fn dispatch_edges(
    keys: &KeyTable,
    config: &KbmConfig,
    before: &ButtonState,
    now: &ButtonState,
    mappings: &Vec<ButtonMapping>,
    out: &mut Vec<KbmOutput>,
)
    ensures
        final(out).deep_view() == old(out).deep_view() + edge_outputs(
            keys.keys(),
            *config,
            *before,
            *now,
            mappings.deep_view(),
            18,
        ),
{
    let ghost was = out.deep_view();
    if !config.enabled {
        assert(was + Seq::<OutputModel>::empty() =~= was);
        return ;
    }
    let ids: [ButtonId; 18] = [
        ButtonId::A,
        ButtonId::B,
        ButtonId::X,
        ButtonId::Y,
        ButtonId::Up,
        ButtonId::Down,
        ButtonId::Left,
        ButtonId::Right,
        ButtonId::L,
        ButtonId::R,
        ButtonId::Zl,
        ButtonId::Zr,
        ButtonId::Minus,
        ButtonId::Plus,
        ButtonId::Home,
        ButtonId::Capture,
        ButtonId::LStick,
        ButtonId::RStick,
    ];
    assert(ids@ =~= button_order());
    let mut i: usize = 0;
    while i < 18
        invariant
            i <= 18,
            ids@ == button_order(),
            config.enabled,
            out.deep_view() =~= was + edge_outputs(
                keys.keys(),
                *config,
                *before,
                *now,
                mappings.deep_view(),
                i as nat,
            ),
        decreases 18 - i,
    {
        let id = ids[i];
        assert(id == button_order()[i as int]);
        let pressed = now.get(id);
        if pressed != before.get(id) {
            dispatch_button(keys, config, id, mappings, pressed, out);
        }
        i = i + 1;
    }
}

/// Sends an event for each key that is held in one set and not in the other.
fn send_changes(
    keys: &KeyTable,
    held: &StickKeys,
    other: &StickKeys,
    down: bool,
    out: &mut Vec<KbmOutput>,
)
    ensures
        final(out).deep_view() == old(out).deep_view() + key_changes(
            keys.keys(),
            *held,
            *other,
            down,
            8,
        ),
{
    let ghost was = out.deep_view();
    let all: [StickKey; 8] = [
        StickKey::W,
        StickKey::S,
        StickKey::D,
        StickKey::A,
        StickKey::Up,
        StickKey::Down,
        StickKey::Right,
        StickKey::Left,
    ];
    assert(all@ =~= stick_key_order());
    let mut i: usize = 0;
    while i < 8
        invariant
            i <= 8,
            all@ == stick_key_order(),
            out.deep_view() =~= was + key_changes(keys.keys(), *held, *other, down, i as nat),
        decreases 8 - i,
    {
        let k = all[i];
        assert(k == stick_key_order()[i as int]);
        let name = key_name(k);
        match keys.vk(name.as_str()) {
            Some(vk) => {
                if held.holds(k) && !other.holds(k) {
                    ask(out, KbmOutput::Send(InputEvent::Key { vk, down }));
                }
            },
            None => {},
        }
        i = i + 1;
    }
}

/// Sends what the actions of a stick do to mouse and wheel, and collects the
/// keys they hold down.
fn run_stick_actions(
    actions: &Vec<StickAction>,
    at: StickVector,
    threshold: Real32,
    motion: StickMotion,
    out: &mut Vec<KbmOutput>,
) -> (r: StickKeys)
    ensures
        r == wanted_keys(actions@, at, threshold),
        final(out).deep_view() == old(out).deep_view() + pointer_outputs(
            actions@,
            at,
            threshold,
            motion,
        ),
{
    let ghost was = out.deep_view();
    let ghost all = actions@;
    let north = threshold.lt(at.y);
    let south = !north && at.y.lt(threshold.neg());
    let east = threshold.lt(at.x);
    let west = !east && at.x.lt(threshold.neg());
    let far_x = threshold.lt(at.x.abs());
    let far_y = threshold.lt(at.y.abs());
    let mut wasd = false;
    let mut arrows = false;
    let mut moved = false;
    let mut i: usize = 0;
    while i < actions.len()
        invariant
            i <= actions.len(),
            all == actions@,
            far_x == threshold.below(at.x.absolute()),
            far_y == threshold.below(at.y.absolute()),
            wasd == all.take(i as int).contains(StickAction::Wasd),
            arrows == all.take(i as int).contains(StickAction::ArrowKeys),
            moved == all.take(i as int).contains(StickAction::Mouse),
            out.deep_view() =~= was + pointer_outputs(all.take(i as int), at, threshold, motion),
        decreases actions.len() - i,
    {
        let ghost seen = all.take(i as int);
        let action = actions[i];
        proof {
            assert(all.take(i + 1).drop_last() =~= seen);
            assert(all.take(i + 1) =~= seen.push(action));
            lemma_contains_push(seen, action, StickAction::Wasd);
            lemma_contains_push(seen, action, StickAction::ArrowKeys);
            lemma_contains_push(seen, action, StickAction::Mouse);
        }
        match action {
            StickAction::Mouse => {
                if !moved && (far_x || far_y) {
                    ask(
                        out,
                        KbmOutput::Send(InputEvent::MouseMove { dx: motion.dx, dy: motion.dy }),
                    );
                }
                moved = true;
            },
            StickAction::Wasd => {
                wasd = true;
            },
            StickAction::ArrowKeys => {
                arrows = true;
            },
            StickAction::Scroll => {
                if far_y {
                    ask(out, KbmOutput::Send(InputEvent::MouseWheel { delta: motion.wheel }));
                }
            },
            StickAction::Disabled => {},
        }
        i = i + 1;
    }
    assert(all.take(all.len() as int) =~= all);
    StickKeys {
        w: wasd && north,
        s: wasd && south,
        d: wasd && east,
        a: wasd && west,
        up: arrows && north,
        down: arrows && south,
        right: arrows && east,
        left: arrows && west,
    }
}

proof fn lemma_contains_push(s: Seq<StickAction>, last: StickAction, v: StickAction)
    ensures
        s.push(last).contains(v) == (s.contains(v) || last == v),
{
    let t = s.push(last);
    if s.contains(v) {
        let i = choose|i: int| 0 <= i < s.len() && s[i] == v;
        assert(t[i] == v);
    }
    if last == v {
        assert(t[s.len() as int] == v);
    }
    if t.contains(v) {
        let i = choose|i: int| 0 <= i < t.len() && t[i] == v;
        if i < s.len() {
            assert(s[i] == v);
        }
    }
}

impl KbmEmulator {
    /// An emulator that is off.
    pub fn new() -> (r: Self)
        ensures
            r == (KbmEmulator {
                enabled: false,
                config: config::default_kbm(),
                left_keys: no_stick_keys(),
                right_keys: no_stick_keys(),
                last_button_state: state::no_buttons(),
            }),
    {
        let config = KbmConfig::default();
        KbmEmulator {
            enabled: config.enabled,
            config,
            left_keys: StickKeys::none(),
            right_keys: StickKeys::none(),
            last_button_state: ButtonState::default(),
        }
    }

    /// Takes in a configuration.
    pub fn set_config(&mut self, config: &KbmConfig)
        ensures
            *final(self) == configured(*old(self), *config),
    {
        self.enabled = config.enabled;
        self.config = *config;
    }

    /// A key going down or up.
    pub fn send_key(&self, vk: u16, down: bool) -> (r: InputEvent)
        ensures
            r == (InputEvent::Key { vk, down }),
    {
        InputEvent::Key { vk, down }
    }

    /// A relative motion of the mouse.
    pub fn send_mouse_move(&self, dx: i32, dy: i32) -> (r: InputEvent)
        ensures
            r == (InputEvent::MouseMove { dx, dy }),
    {
        InputEvent::MouseMove { dx, dy }
    }

    /// A mouse button going down or up.
    pub fn send_mouse_button(&self, button: u8, down: bool) -> (r: InputEvent)
        ensures
            r == (InputEvent::MouseButton { button, down }),
    {
        InputEvent::MouseButton { button, down }
    }

    /// A turn of the wheel; upwards where `delta` is positive.
    pub fn send_mouse_wheel(&self, delta: i32) -> (r: InputEvent)
        ensures
            r == (InputEvent::MouseWheel { delta }),
    {
        InputEvent::MouseWheel { delta }
    }

    /// What a button asks for when it goes down or up.
    pub fn process_button(
        &self,
        keys: &KeyTable,
        id: ButtonId,
        pressed: bool,
        mappings: &Mappings,
    ) -> (r: Vec<KbmOutput>)
        ensures
            r.deep_view() == (if self.enabled {
                button_outputs(
                    keys.keys(),
                    self.config,
                    id,
                    mappings.buttons.deep_view(),
                    pressed,
                )
            } else {
                Seq::empty()
            }),
    {
        let mut out: Vec<KbmOutput> = Vec::new();
        assert(out.deep_view() =~= Seq::<OutputModel>::empty());
        if !self.enabled {
            return out;
        }
        dispatch_button(keys, &self.config, id, &mappings.buttons, pressed, &mut out);
        assert(out.deep_view() =~= button_outputs(
            keys.keys(),
            self.config,
            id,
            mappings.buttons.deep_view(),
            pressed,
        ));
        out
    }

    fn run_stick(
        &mut self,
        keys: &KeyTable,
        side: StickSide,
        at: StickVector,
        motion: StickMotion,
        mapping: &StickMapping,
        out: &mut Vec<KbmOutput>,
    )
        ensures
            *final(self) == after_stick(*old(self), side, at, *mapping),
            final(out).deep_view() == old(out).deep_view() + stick_report(
                *old(self),
                keys.keys(),
                side,
                at,
                motion,
                *mapping,
            ),
    {
        let ghost was = out.deep_view();
        if !self.enabled {
            assert(was + Seq::<OutputModel>::empty() =~= was);
            return ;
        }
        let threshold = if Real32::zero().lt(mapping.zones.deadzone) {
            mapping.zones.deadzone
        } else {
            Real32::from_bits(QUARTER_BITS)
        };
        let (wanted, active): (StickKeys, StickKeys) = match side {
            StickSide::Left => (
                run_stick_actions(&mapping.left_actions, at, threshold, motion, out),
                self.left_keys,
            ),
            StickSide::Right => (
                run_stick_actions(&mapping.right_actions, at, threshold, motion, out),
                self.right_keys,
            ),
        };
        send_changes(keys, &wanted, &active, true, out);
        send_changes(keys, &active, &wanted, false, out);
        assert(out.deep_view() =~= was + stick_report(
            *old(self),
            keys.keys(),
            side,
            at,
            motion,
            *mapping,
        ));
        match side {
            StickSide::Left => {
                self.left_keys = wanted;
            },
            StickSide::Right => {
                self.right_keys = wanted;
            },
        }
    }

    /// What a deflection of a stick asks for.
    pub fn process_stick(
        &mut self,
        keys: &KeyTable,
        side: StickSide,
        at: StickVector,
        motion: StickMotion,
        mapping: &StickMapping,
    ) -> (r: Vec<KbmOutput>)
        ensures
            *final(self) == after_stick(*old(self), side, at, *mapping),
            r.deep_view() == stick_report(*old(self), keys.keys(), side, at, motion, *mapping),
    {
        let mut out: Vec<KbmOutput> = Vec::new();
        assert(out.deep_view() =~= Seq::<OutputModel>::empty());
        self.run_stick(keys, side, at, motion, mapping, &mut out);
        assert(out.deep_view() =~= stick_report(
            *old(self),
            keys.keys(),
            side,
            at,
            motion,
            *mapping,
        ));
        out
    }

    /// What a report of a controller asks for: first the buttons that have
    /// changed, then the left stick, then the right one.
    pub fn process_controller_state(
        &mut self,
        keys: &KeyTable,
        state: &ControllerState,
        config: &KbmConfig,
        mappings: &Mappings,
        left: StickMotion,
        right: StickMotion,
    ) -> (r: Vec<KbmOutput>)
        ensures
            r.deep_view() == report_outputs(
                *old(self),
                keys.keys(),
                state.buttons,
                state.left_output,
                state.right_output,
                *config,
                *mappings,
                left,
                right,
            ),
            *final(self) == after_report(
                *old(self),
                state.buttons,
                state.left_output,
                state.right_output,
                *config,
                *mappings,
            ),
    {
        self.set_config(config);
        let mut out: Vec<KbmOutput> = Vec::new();
        assert(out.deep_view() =~= Seq::<OutputModel>::empty());
        dispatch_edges(
            keys,
            config,
            &self.last_button_state,
            &state.buttons,
            &mappings.buttons,
            &mut out,
        );
        self.last_button_state = state.buttons;
        self.run_stick(
            keys,
            StickSide::Left,
            state.left_output,
            left,
            &mappings.sticks,
            &mut out,
        );
        self.run_stick(
            keys,
            StickSide::Right,
            state.right_output,
            right,
            &mappings.sticks,
            &mut out,
        );
        assert(out.deep_view() =~= report_outputs(
            *old(self),
            keys.keys(),
            state.buttons,
            state.left_output,
            state.right_output,
            *config,
            *mappings,
            left,
            right,
        ));
        out
    }
}

/// What a report of a controller asks for.
pub open spec fn report_outputs(
    e: KbmEmulator,
    keys: Seq<KeyEntryModel>,
    buttons: ButtonState,
    left_at: StickVector,
    right_at: StickVector,
    config: KbmConfig,
    mappings: Mappings,
    left: StickMotion,
    right: StickMotion,
) -> Seq<OutputModel> {
    let e1 = after_buttons(e, config, buttons);
    let e2 = after_stick(e1, StickSide::Left, left_at, mappings.sticks);
    edge_outputs(
        keys,
        config,
        e.last_button_state,
        buttons,
        mappings.buttons.deep_view(),
        18,
    ) + stick_report(e1, keys, StickSide::Left, left_at, left, mappings.sticks) + stick_report(
        e2,
        keys,
        StickSide::Right,
        right_at,
        right,
        mappings.sticks,
    )
}

/// The emulator after a report of a controller.
pub open spec fn after_report(
    e: KbmEmulator,
    buttons: ButtonState,
    left_at: StickVector,
    right_at: StickVector,
    config: KbmConfig,
    mappings: Mappings,
) -> KbmEmulator {
    let e1 = after_buttons(e, config, buttons);
    let e2 = after_stick(e1, StickSide::Left, left_at, mappings.sticks);
    after_stick(e2, StickSide::Right, right_at, mappings.sticks)
}

impl Default for KbmEmulator {
    fn default() -> (r: Self)
        ensures
            r.settings() == config::default_kbm(),
            r.left_keys == no_stick_keys(),
            r.right_keys == no_stick_keys(),
            r.last_button_state == state::no_buttons(),
    {
        KbmEmulator::new()
    }
}

// ---------------------------------------------------------------------------
// The emulator with its configuration
// ---------------------------------------------------------------------------

/// The emulator, its configuration and its mappings.
#[derive(Debug)]
pub struct KbmManager {
    pub emulator: KbmEmulator,
    pub config: KbmConfig,
    pub mappings: Mappings,
}

impl KbmManager {
    /// An emulator with a configuration.
    pub fn new(config: KbmConfig, mappings: Mappings) -> (r: Self)
        ensures
            r.config == config,
            r.mappings == mappings,
            r.emulator == configured(
                KbmEmulator {
                    enabled: false,
                    config: config::default_kbm(),
                    left_keys: no_stick_keys(),
                    right_keys: no_stick_keys(),
                    last_button_state: state::no_buttons(),
                },
                config,
            ),
    {
        let mut emulator = KbmEmulator::new();
        emulator.set_config(&config);
        KbmManager { emulator, config, mappings }
    }

    /// Switches the emulation on or off, now and in the configuration.
    pub fn set_enabled(&mut self, enabled: bool) -> (r: bool)
        ensures
            r == enabled,
            final(self).emulator == (KbmEmulator { enabled, ..old(self).emulator }),
            final(self).config == (KbmConfig { enabled, ..old(self).config }),
            final(self).mappings == old(self).mappings,
    {
        self.emulator.enabled = enabled;
        self.config.enabled = enabled;
        enabled
    }

    /// The configuration.
    pub fn status(&self) -> (r: KbmConfig)
        ensures
            r == self.config,
    {
        self.config
    }

    /// Replaces the mappings.
    pub fn set_mappings(&mut self, mappings: Mappings)
        ensures
            *final(self) == (KbmManager { mappings, ..*old(self) }),
    {
        self.mappings = mappings;
    }

    /// The mappings.
    pub fn get_mappings(&self) -> (r: &Mappings)
        ensures
            *r == self.mappings,
    {
        &self.mappings
    }

    /// The event for a key by its name.
    pub fn send_test_key(&self, keys: &KeyTable, key: &str, down: bool) -> (r: Result<
        InputEvent,
        String,
    >)
        ensures
            match r {
                Ok(e) => code_of(keys.keys(), key@) matches Some(vk) && e == (InputEvent::Key {
                    vk,
                    down,
                }),
                Err(e) => code_of(keys.keys(), key@) is None && e@ == "Unknown key name: "@ + key@,
            },
    {
        match keys.vk(key) {
            Some(vk) => Ok(self.emulator.send_key(vk, down)),
            None => {
                let mut e = "Unknown key name: ".to_string();
                e.append(key);
                Err(e)
            },
        }
    }

    /// What a button asks for, under the present configuration.
    pub fn button_event(&mut self, keys: &KeyTable, id: ButtonId, pressed: bool) -> (r: Vec<
        KbmOutput,
    >)
        ensures
            *final(self) == (KbmManager {
                emulator: configured(old(self).emulator, old(self).config),
                ..*old(self)
            }),
            r.deep_view() == (if old(self).config.enabled {
                button_outputs(
                    keys.keys(),
                    old(self).config,
                    id,
                    old(self).mappings.buttons.deep_view(),
                    pressed,
                )
            } else {
                Seq::empty()
            }),
    {
        let config = self.config;
        self.emulator.set_config(&config);
        self.emulator.process_button(keys, id, pressed, &self.mappings)
    }

    /// What a deflection of a stick asks for, under the present configuration.
    pub fn stick_event(
        &mut self,
        keys: &KeyTable,
        side: StickSide,
        at: StickVector,
        motion: StickMotion,
    ) -> (r: Vec<KbmOutput>)
        ensures
            *final(self) == (KbmManager {
                emulator: after_stick(
                    configured(old(self).emulator, old(self).config),
                    side,
                    at,
                    old(self).mappings.sticks,
                ),
                ..*old(self)
            }),
            r.deep_view() == stick_report(
                configured(old(self).emulator, old(self).config),
                keys.keys(),
                side,
                at,
                motion,
                old(self).mappings.sticks,
            ),
    {
        let config = self.config;
        self.emulator.set_config(&config);
        self.emulator.process_stick(keys, side, at, motion, &self.mappings.sticks)
    }
}

// ---------------------------------------------------------------------------
// Laws
// ---------------------------------------------------------------------------

/// A button that is held down gives rise to nothing after its first report.
pub proof fn law_held_buttons_are_silent(
    keys: Seq<KeyEntryModel>,
    config: KbmConfig,
    buttons: ButtonState,
    mappings: Seq<ButtonMappingModel>,
    n: nat,
)
    ensures
        edge_outputs(keys, config, buttons, buttons, mappings, n).len() == 0,
    decreases n,
{
    if n > 0 && config.enabled {
        law_held_buttons_are_silent(keys, config, buttons, mappings, (n - 1) as nat);
    }
}

/// A combination is released in the reverse of the order in which it was
/// pressed, key for key.
pub proof fn law_combo_is_released_in_reverse(
    keys: Seq<KeyEntryModel>,
    config: KbmConfig,
    id: ButtonId,
    names: Seq<Seq<char>>,
    i: int,
)
    requires
        0 <= i < codes_of(keys, names).len(),
    ensures
        ({
            let n = codes_of(keys, names).len();
            let vk = codes_of(keys, names)[i];
            let pressed = action_outputs(keys, config, id, ActionModel::KeyCombo(names), true);
            let released = action_outputs(keys, config, id, ActionModel::KeyCombo(names), false);
            &&& pressed.len() == n
            &&& released.len() == n
            &&& pressed[i] == OutputModel::Send(InputEvent::Key { vk, down: true })
            &&& released[n - 1 - i] == OutputModel::Send(InputEvent::Key { vk, down: false })
        }),
{
}

/// The repeat that pressing a key starts is the one that releasing it stops.
pub proof fn law_release_stops_the_repeat(
    keys: Seq<KeyEntryModel>,
    config: KbmConfig,
    id: ButtonId,
    name: Seq<char>,
    vk: u16,
)
    requires
        code_of(keys, name) == Some(vk),
    ensures
        action_outputs(keys, config, id, ActionModel::Key(name), true)[1] matches
            OutputModel::StartRepeat { key_id, .. } && action_outputs(
            keys,
            config,
            id,
            ActionModel::Key(name),
            false,
        )[0] == (OutputModel::StopRepeat { key_id }),
{
}

/// Switched off, a report gives rise to nothing, and the keys that the sticks
/// hold are kept as they are.
pub proof fn law_disabled_is_silent(
    e: KbmEmulator,
    keys: Seq<KeyEntryModel>,
    buttons: ButtonState,
    left_at: StickVector,
    right_at: StickVector,
    config: KbmConfig,
    mappings: Mappings,
    left: StickMotion,
    right: StickMotion,
)
    requires
        !config.enabled,
    ensures
        report_outputs(e, keys, buttons, left_at, right_at, config, mappings, left, right).len()
            == 0,
        after_report(e, buttons, left_at, right_at, config, mappings).left_keys == e.left_keys,
        after_report(e, buttons, left_at, right_at, config, mappings).right_keys == e.right_keys,
{
}

/// A stick that holds the same keys as before sends no key.
pub proof fn law_steady_stick_sends_no_key(
    keys: Seq<KeyEntryModel>,
    held: StickKeys,
    down: bool,
    n: nat,
)
    ensures
        key_changes(keys, held, held, down, n).len() == 0,
    decreases n,
{
    if n > 0 {
        law_steady_stick_sends_no_key(keys, held, down, (n - 1) as nat);
    }
}

/// A stick never holds two opposite keys.
pub proof fn law_no_opposite_keys(actions: Seq<StickAction>, at: StickVector, threshold: Real32)
    ensures
        ({
            let k = wanted_keys(actions, at, threshold);
            !(k.w && k.s) && !(k.a && k.d) && !(k.up && k.down) && !(k.left && k.right)
        }),
{
}

/// At rest a stick holds no key, so that whatever it held is released.
pub proof fn law_rest_releases_all_keys(actions: Seq<StickAction>, deadzone: Real32)
    ensures
        wanted_keys(actions, state::stick_at_rest(), stick_threshold(deadzone)) == no_stick_keys(),
{
}

/// What a stick presses and what it releases add up: a key that is held after
/// a report was held before it and not released, or is pressed.
pub proof fn law_key_changes_are_complete(
    keys: Seq<KeyEntryModel>,
    held: StickKeys,
    other: StickKeys,
    down: bool,
    n: nat,
    i: int,
    vk: u16,
)
    requires
        n <= 8,
        0 <= i < n,
        code_of(keys, stick_key_name(stick_key_order()[i])) == Some(vk),
        held.has(stick_key_order()[i]),
        !other.has(stick_key_order()[i]),
    ensures
        key_changes(keys, held, other, down, n).contains(
            OutputModel::Send(InputEvent::Key { vk, down }),
        ),
    decreases n,
{
    let e = OutputModel::Send(InputEvent::Key { vk, down });
    let all = key_changes(keys, held, other, down, n);
    let rest = key_changes(keys, held, other, down, (n - 1) as nat);
    if i == n - 1 {
        assert(all =~= rest.push(e));
        assert(all[rest.len() as int] == e);
    } else {
        law_key_changes_are_complete(keys, held, other, down, (n - 1) as nat, i, vk);
        let j = choose|j: int| 0 <= j < rest.len() && rest[j] == e;
        assert(all[j] == e);
    }
}

/// The record of an event: a key by its code, with flag 2 where it goes up; a
/// move with flag 1; the wheel with flag 0x800 and its turn in two's
/// complement; a mouse button with its own flags, twice as high where it goes
/// up, and the side buttons told apart by a number.
pub proof fn law_records(vk: u16, dx: i32, dy: i32, button: u8, down: bool)
    ensures
        raw_record(InputEvent::Key { vk, down }) == Some(
            RawInput::Keyboard { vk, flags: if down { 0u32 } else { 2u32 } },
        ),
        raw_record(InputEvent::MouseMove { dx, dy }) == Some(
            RawInput::Mouse { dx, dy, data: 0, flags: 1 },
        ),
        raw_record(InputEvent::MouseWheel { delta: dx }) matches Some(
            RawInput::Mouse { dx: x, dy: y, data, flags },
        ) && x == 0 && y == 0 && flags == 0x800 && data == (if dx < 0 {
            dx + 0x1_0000_0000
        } else {
            dx as int
        }),
        (raw_record(InputEvent::MouseButton { button, down }) is Some) == (button < 5),
        button < 5 ==> (raw_record(InputEvent::MouseButton { button, down }) matches Some(
            RawInput::Mouse { dx: x, dy: y, data, flags },
        ) && x == 0 && y == 0 && data == (if button == 3 {
            1int
        } else if button == 4 {
            2
        } else {
            0
        }) && flags == (if down {
            1int
        } else {
            2
        }) * (if button == 0 {
            0x02int
        } else if button == 1 {
            0x08
        } else if button == 2 {
            0x20
        } else {
            0x80
        })),
{
}

/// A name stands for the code of its first entry, and for none where it has no
/// entry.
pub proof fn law_first_entry_counts(keys: Seq<KeyEntryModel>, name: Seq<char>, i: int)
    ensures
        0 <= i < keys.len() && keys[i].name == name && (forall|j: int|
            0 <= j < i ==> (#[trigger] keys[j]).name != name) ==> code_of(keys, name) == Some(
            keys[i].vk,
        ),
        (forall|j: int| 0 <= j < keys.len() ==> (#[trigger] keys[j]).name != name) ==> code_of(
            keys,
            name,
        ) is None,
    decreases keys.len(),
{
    if keys.len() > 0 && keys[0].name != name {
        let rest = keys.skip(1);
        assert forall|j: int| 0 <= j < rest.len() implies #[trigger] rest[j] == keys[j + 1] by {}
        law_first_entry_counts(rest, name, i - 1);
        if 0 <= i < keys.len() && keys[i].name == name && (forall|j: int|
            0 <= j < i ==> (#[trigger] keys[j]).name != name) {
            assert(i > 0);
            assert(rest[i - 1] == keys[i]);
            assert forall|j: int| 0 <= j < i - 1 implies (#[trigger] rest[j]).name != name by {
                assert(keys[j + 1].name != name);
            }
        }
    }
}

/// The keys of a combination keep their order; a name without a code is left
/// out.
pub proof fn law_combination_codes(keys: Seq<KeyEntryModel>, names: Seq<Seq<char>>, next: Seq<char>)
    ensures
        codes_of(keys, Seq::empty()).len() == 0,
        code_of(keys, next) matches Some(vk) ==> codes_of(keys, names.push(next)) == codes_of(
            keys,
            names,
        ).push(vk),
        code_of(keys, next) is None ==> codes_of(keys, names.push(next)) == codes_of(keys, names),
{
    assert(names.push(next).drop_last() =~= names);
}

/// The names of the buttons in the identifiers of key repeats, and of the keys
/// that a stick can hold.
pub proof fn law_names(held: StickKeys, id: ButtonId, name: Seq<char>)
    ensures
        button_label(ButtonId::A) == "A"@,
        button_label(ButtonId::B) == "B"@,
        button_label(ButtonId::X) == "X"@,
        button_label(ButtonId::Y) == "Y"@,
        button_label(ButtonId::Up) == "Up"@,
        button_label(ButtonId::Down) == "Down"@,
        button_label(ButtonId::Left) == "Left"@,
        button_label(ButtonId::Right) == "Right"@,
        button_label(ButtonId::L) == "L"@,
        button_label(ButtonId::R) == "R"@,
        button_label(ButtonId::Zl) == "Zl"@,
        button_label(ButtonId::Zr) == "Zr"@,
        button_label(ButtonId::Minus) == "Minus"@,
        button_label(ButtonId::Plus) == "Plus"@,
        button_label(ButtonId::Home) == "Home"@,
        button_label(ButtonId::Capture) == "Capture"@,
        button_label(ButtonId::LStick) == "LStick"@,
        button_label(ButtonId::RStick) == "RStick"@,
        repeat_id(id, name) == "btn:"@ + button_label(id) + ":"@ + name,
        stick_key_name(StickKey::W) == "W"@,
        stick_key_name(StickKey::S) == "S"@,
        stick_key_name(StickKey::D) == "D"@,
        stick_key_name(StickKey::A) == "A"@,
        stick_key_name(StickKey::Up) == "Up"@,
        stick_key_name(StickKey::Down) == "Down"@,
        stick_key_name(StickKey::Right) == "Right"@,
        stick_key_name(StickKey::Left) == "Left"@,
        held.has(StickKey::W) == held.w,
        held.has(StickKey::S) == held.s,
        held.has(StickKey::D) == held.d,
        held.has(StickKey::A) == held.a,
        held.has(StickKey::Up) == held.up,
        held.has(StickKey::Down) == held.down,
        held.has(StickKey::Right) == held.right,
        held.has(StickKey::Left) == held.left,
{
}

/// A key repeats at the rate that is set, but never faster than every
/// millisecond and never slower than every five seconds.
pub proof fn law_repeat_rate(config: KbmConfig)
    ensures
        1 <= repeat_rate(config) <= 5000,
        1 <= config.key_repeat_rate_ms <= 5000 ==> repeat_rate(config) == config.key_repeat_rate_ms,
        config.key_repeat_rate_ms > 5000 ==> repeat_rate(config) == 5000,
{
}

/// Pressing a key sends it down and then starts its repeat, after the delay
/// that is set; releasing it stops the repeat and then sends it up. A mouse
/// button goes down and up with its button. What has no code does nothing.
pub proof fn law_actions_of_a_button(
    keys: Seq<KeyEntryModel>,
    config: KbmConfig,
    id: ButtonId,
    name: Seq<char>,
    button: u8,
)
    ensures
        ({
            let press = |a: ActionModel| action_outputs(keys, config, id, a, true);
            let release = |a: ActionModel| action_outputs(keys, config, id, a, false);
            let key = ActionModel::Key(name);
            let mouse = ActionModel::MouseButton(button);
            &&& code_of(keys, name) matches Some(vk) ==> {
                &&& press(key).len() == 2
                &&& press(key)[0] == OutputModel::Send(InputEvent::Key { vk, down: true })
                &&& press(key)[1] matches OutputModel::StartRepeat {
                    key_id,
                    vk: again,
                    delay_ms,
                    rate_ms,
                } && again == vk && delay_ms == config.key_repeat_delay_ms && rate_ms
                    == repeat_rate(config) && key_id == repeat_id(id, name)
                &&& release(key).len() == 2
                &&& release(key)[0] == (OutputModel::StopRepeat { key_id: repeat_id(id, name) })
                &&& release(key)[1] == OutputModel::Send(InputEvent::Key { vk, down: false })
            }
            &&& code_of(keys, name) is None ==> press(key).len() == 0 && release(key).len() == 0
            &&& press(mouse) == seq![
                OutputModel::Send(InputEvent::MouseButton { button, down: true }),
            ]
            &&& release(mouse) == seq![
                OutputModel::Send(InputEvent::MouseButton { button, down: false }),
            ]
        }),
{
}

/// The actions of a mapping are carried out in their order, and those of a
/// mapping only for its own button.
pub proof fn law_mappings_in_order(
    keys: Seq<KeyEntryModel>,
    config: KbmConfig,
    id: ButtonId,
    actions: Seq<ActionModel>,
    action: ActionModel,
    mappings: Seq<ButtonMappingModel>,
    mapping: ButtonMappingModel,
    pressed: bool,
)
    ensures
        actions_outputs(keys, config, id, actions.push(action), pressed) == actions_outputs(
            keys,
            config,
            id,
            actions,
            pressed,
        ) + action_outputs(keys, config, id, action, pressed),
        actions_outputs(keys, config, id, Seq::empty(), pressed).len() == 0,
        mapping.source == id ==> button_outputs(keys, config, id, mappings.push(mapping), pressed)
            == button_outputs(keys, config, id, mappings, pressed) + actions_outputs(
            keys,
            config,
            id,
            mapping.actions,
            pressed,
        ),
        mapping.source != id ==> button_outputs(keys, config, id, mappings.push(mapping), pressed)
            == button_outputs(keys, config, id, mappings, pressed),
        button_outputs(keys, config, id, Seq::empty(), pressed).len() == 0,
{
    assert(actions.push(action).drop_last() =~= actions);
    assert(mappings.push(mapping).drop_last() =~= mappings);
}

/// Every button has one place in the order of the buttons.
pub open spec fn place_in_order(id: ButtonId) -> int {
    match id {
        ButtonId::A => 0,
        ButtonId::B => 1,
        ButtonId::X => 2,
        ButtonId::Y => 3,
        ButtonId::Up => 4,
        ButtonId::Down => 5,
        ButtonId::Left => 6,
        ButtonId::Right => 7,
        ButtonId::L => 8,
        ButtonId::R => 9,
        ButtonId::Zl => 10,
        ButtonId::Zr => 11,
        ButtonId::Minus => 12,
        ButtonId::Plus => 13,
        ButtonId::Home => 14,
        ButtonId::Capture => 15,
        ButtonId::LStick => 16,
        ButtonId::RStick => 17,
    }
}

proof fn lemma_place_in_order(id: ButtonId, i: int)
    requires
        0 <= i < 18,
    ensures
        button_order().len() == 18,
        (button_order()[i] == id) == (i == place_in_order(id)),
        0 <= place_in_order(id) < 18,
{
    let o = button_order();
    assert(o[0] == ButtonId::A);
    assert(o[1] == ButtonId::B);
    assert(o[2] == ButtonId::X);
    assert(o[3] == ButtonId::Y);
    assert(o[4] == ButtonId::Up);
    assert(o[5] == ButtonId::Down);
    assert(o[6] == ButtonId::Left);
    assert(o[7] == ButtonId::Right);
    assert(o[8] == ButtonId::L);
    assert(o[9] == ButtonId::R);
    assert(o[10] == ButtonId::Zl);
    assert(o[11] == ButtonId::Zr);
    assert(o[12] == ButtonId::Minus);
    assert(o[13] == ButtonId::Plus);
    assert(o[14] == ButtonId::Home);
    assert(o[15] == ButtonId::Capture);
    assert(o[16] == ButtonId::LStick);
    assert(o[17] == ButtonId::RStick);
}

proof fn lemma_one_edge(
    keys: Seq<KeyEntryModel>,
    config: KbmConfig,
    before: ButtonState,
    now: ButtonState,
    mappings: Seq<ButtonMappingModel>,
    id: ButtonId,
    n: nat,
)
    requires
        config.enabled,
        n <= 18,
        now.held(id) != before.held(id),
        forall|other: ButtonId| other != id ==> #[trigger] now.held(other) == before.held(other),
    ensures
        edge_outputs(keys, config, before, now, mappings, n) == (if place_in_order(id) < n {
            button_outputs(keys, config, id, mappings, now.held(id))
        } else {
            Seq::empty()
        }),
    decreases n,
{
    if n > 0 {
        lemma_one_edge(keys, config, before, now, mappings, id, (n - 1) as nat);
        lemma_place_in_order(id, n - 1);
        let at = button_order()[n - 1];
        let all = button_outputs(keys, config, id, mappings, now.held(id));
        assert(Seq::<OutputModel>::empty() + all =~= all);
        if at != id {
            assert(now.held(at) == before.held(at));
        }
    }
}

/// A button that goes down or up between two reports gives rise to what its
/// mappings ask for, and nothing else does.
pub proof fn law_one_button_changes(
    keys: Seq<KeyEntryModel>,
    config: KbmConfig,
    before: ButtonState,
    now: ButtonState,
    mappings: Seq<ButtonMappingModel>,
    id: ButtonId,
)
    requires
        config.enabled,
        now.held(id) != before.held(id),
        forall|other: ButtonId| other != id ==> #[trigger] now.held(other) == before.held(other),
    ensures
        edge_outputs(keys, config, before, now, mappings, 18) == button_outputs(
            keys,
            config,
            id,
            mappings,
            now.held(id),
        ),
{
    lemma_one_edge(keys, config, before, now, mappings, id, 18);
    lemma_place_in_order(id, 0);
}

/// A stick acts beyond its deadzone, or beyond a quarter where none is set.
pub proof fn law_threshold_of_a_stick(deadzone: Real32)
    ensures
        (Real32 { bits: 0 }).below(deadzone) ==> stick_threshold(deadzone) == deadzone,
        !(Real32 { bits: 0 }).below(deadzone) ==> stick_threshold(deadzone).bits == 0x3E80_0000,
        (Real32 { bits: 0 }).below(stick_threshold(deadzone)),
{
}

/// With a WASD action a stick holds W and S exactly while it lies above the
/// threshold and below its negative, and D and A likewise to the right and to
/// the left; with an arrow action it holds the arrows so. Without the action it
/// holds none of its keys. Each stick goes by its own actions and position, and
/// leaves the other one alone.
pub proof fn law_keys_of_a_stick(
    e: KbmEmulator,
    side: StickSide,
    at: StickVector,
    mapping: StickMapping,
)
    requires
        e.enabled,
    ensures
        ({
            let t = stick_threshold(mapping.zones.deadzone);
            let after = after_stick(e, side, at, mapping);
            let (held, actions, other, other_was) = match side {
                StickSide::Left => (
                    after.left_keys,
                    mapping.left_actions@,
                    after.right_keys,
                    e.right_keys,
                ),
                StickSide::Right => (
                    after.right_keys,
                    mapping.right_actions@,
                    after.left_keys,
                    e.left_keys,
                ),
            };
            let wasd = actions.contains(StickAction::Wasd);
            let arrows = actions.contains(StickAction::ArrowKeys);
            &&& held.w == (wasd && t.below(at.y))
            &&& held.s == (wasd && at.y.below(t.negated()))
            &&& held.d == (wasd && t.below(at.x))
            &&& held.a == (wasd && at.x.below(t.negated()))
            &&& held.up == (arrows && t.below(at.y))
            &&& held.down == (arrows && at.y.below(t.negated()))
            &&& held.right == (arrows && t.below(at.x))
            &&& held.left == (arrows && at.x.below(t.negated()))
            &&& other == other_was
            &&& after.last_button_state == e.last_button_state
            &&& after.config == e.config && after.enabled
        }),
{
}

proof fn lemma_key_changes_are_sound(
    keys: Seq<KeyEntryModel>,
    held: StickKeys,
    other: StickKeys,
    down: bool,
    n: nat,
    i: int,
)
    requires
        n <= 8,
        0 <= i < key_changes(keys, held, other, down, n).len(),
    ensures
        exists|k: StickKey|
            #![trigger held.has(k)]
            held.has(k) && !other.has(k) && (code_of(keys, stick_key_name(k)) matches Some(vk)
                && key_changes(keys, held, other, down, n)[i] == OutputModel::Send(
                InputEvent::Key { vk, down },
            )),
    decreases n,
{
    if n > 0 {
        let rest = key_changes(keys, held, other, down, (n - 1) as nat);
        if i < rest.len() {
            lemma_key_changes_are_sound(keys, held, other, down, (n - 1) as nat, i);
        } else {
            let k = stick_key_order()[n - 1];
            assert(held.has(k));
        }
    }
}

/// A key that a stick comes to hold is sent down, and one that it no longer
/// holds is sent up.
pub proof fn law_stick_keys_are_sent(
    e: KbmEmulator,
    keys: Seq<KeyEntryModel>,
    side: StickSide,
    at: StickVector,
    motion: StickMotion,
    mapping: StickMapping,
    k: StickKey,
    vk: u16,
)
    requires
        e.enabled,
        code_of(keys, stick_key_name(k)) == Some(vk),
    ensures
        ({
            let before = e.active(side);
            let after = after_stick(e, side, at, mapping).active(side);
            let out = stick_report(e, keys, side, at, motion, mapping);
            &&& after.has(k) && !before.has(k) ==> out.contains(
                OutputModel::Send(InputEvent::Key { vk, down: true }),
            )
            &&& before.has(k) && !after.has(k) ==> out.contains(
                OutputModel::Send(InputEvent::Key { vk, down: false }),
            )
        }),
{
    let before = e.active(side);
    let after = after_stick(e, side, at, mapping).active(side);
    let out = stick_report(e, keys, side, at, motion, mapping);
    let i = match k {
        StickKey::W => 0int,
        StickKey::S => 1,
        StickKey::D => 2,
        StickKey::A => 3,
        StickKey::Up => 4,
        StickKey::Down => 5,
        StickKey::Right => 6,
        StickKey::Left => 7,
    };
    let o = stick_key_order();
    assert(o[0] == StickKey::W && o[1] == StickKey::S && o[2] == StickKey::D && o[3]
        == StickKey::A);
    assert(o[4] == StickKey::Up && o[5] == StickKey::Down && o[6] == StickKey::Right && o[7]
        == StickKey::Left);
    let actions = stick_actions(mapping, side);
    let t = stick_threshold(mapping.zones.deadzone);
    let moved = pointer_outputs(actions, at, t, motion);
    let pressed = key_changes(keys, after, before, true, 8);
    let released = key_changes(keys, before, after, false, 8);
    assert(out == moved + pressed + released);
    if after.has(k) && !before.has(k) {
        law_key_changes_are_complete(keys, after, before, true, 8, i, vk);
        let x = OutputModel::Send(InputEvent::Key { vk, down: true });
        let j = choose|j: int| 0 <= j < pressed.len() && pressed[j] == x;
        assert(out[moved.len() + j] == x);
    }
    if before.has(k) && !after.has(k) {
        law_key_changes_are_complete(keys, before, after, false, 8, i, vk);
        let x = OutputModel::Send(InputEvent::Key { vk, down: false });
        let j = choose|j: int| 0 <= j < released.len() && released[j] == x;
        assert(out[moved.len() + pressed.len() + j] == x);
    }
}

/// A stick that is pushed beyond the threshold from rest presses the key of
/// its direction: A to the left, D to the right, W upwards and S downwards.
pub proof fn law_pushed_stick_presses_its_key(
    e: KbmEmulator,
    keys: Seq<KeyEntryModel>,
    side: StickSide,
    at: StickVector,
    motion: StickMotion,
    mapping: StickMapping,
    vk: u16,
)
    requires
        e.enabled,
        e.active(side) == no_stick_keys(),
        stick_actions(mapping, side).contains(StickAction::Wasd),
    ensures
        ({
            let t = stick_threshold(mapping.zones.deadzone);
            let out = stick_report(e, keys, side, at, motion, mapping);
            let press = OutputModel::Send(InputEvent::Key { vk, down: true });
            &&& at.x.below(t.negated()) && code_of(keys, "A"@) == Some(vk) ==> out.contains(press)
            &&& t.below(at.x) && code_of(keys, "D"@) == Some(vk) ==> out.contains(press)
            &&& t.below(at.y) && code_of(keys, "W"@) == Some(vk) ==> out.contains(press)
            &&& at.y.below(t.negated()) && code_of(keys, "S"@) == Some(vk) ==> out.contains(press)
        }),
{
    law_keys_of_a_stick(e, side, at, mapping);
    if code_of(keys, "A"@) == Some(vk) {
        law_stick_keys_are_sent(e, keys, side, at, motion, mapping, StickKey::A, vk);
    }
    if code_of(keys, "D"@) == Some(vk) {
        law_stick_keys_are_sent(e, keys, side, at, motion, mapping, StickKey::D, vk);
    }
    if code_of(keys, "W"@) == Some(vk) {
        law_stick_keys_are_sent(e, keys, side, at, motion, mapping, StickKey::W, vk);
    }
    if code_of(keys, "S"@) == Some(vk) {
        law_stick_keys_are_sent(e, keys, side, at, motion, mapping, StickKey::S, vk);
    }
}

/// Nothing is sent by a stick but moves, turns of the wheel, presses of keys
/// that it comes to hold, and then releases of keys that it no longer holds.
pub proof fn law_stick_sends_nothing_else(
    e: KbmEmulator,
    keys: Seq<KeyEntryModel>,
    side: StickSide,
    at: StickVector,
    motion: StickMotion,
    mapping: StickMapping,
    i: int,
)
    requires
        e.enabled,
        0 <= i < stick_report(e, keys, side, at, motion, mapping).len(),
    ensures
        ({
            let before = e.active(side);
            let after = after_stick(e, side, at, mapping).active(side);
            let o = stick_report(e, keys, side, at, motion, mapping)[i];
            ||| o == OutputModel::Send(InputEvent::MouseMove { dx: motion.dx, dy: motion.dy })
            ||| o == OutputModel::Send(InputEvent::MouseWheel { delta: motion.wheel })
            ||| exists|k: StickKey|
                #![trigger after.has(k)]
                after.has(k) && !before.has(k) && (code_of(keys, stick_key_name(k)) matches Some(vk)
                    && o == OutputModel::Send(InputEvent::Key { vk, down: true }))
            ||| exists|k: StickKey|
                #![trigger before.has(k)]
                before.has(k) && !after.has(k) && (code_of(keys, stick_key_name(k)) matches Some(vk)
                    && o == OutputModel::Send(InputEvent::Key { vk, down: false }))
        }),
{
    let before = e.active(side);
    let after = after_stick(e, side, at, mapping).active(side);
    let out = stick_report(e, keys, side, at, motion, mapping);
    let actions = stick_actions(mapping, side);
    let t = stick_threshold(mapping.zones.deadzone);
    let moved = pointer_outputs(actions, at, t, motion);
    let pressed = key_changes(keys, after, before, true, 8);
    let released = key_changes(keys, before, after, false, 8);
    assert(out == moved + pressed + released);
    if i < moved.len() {
        lemma_pointer_outputs(actions, at, t, motion);
        assert(out[i] == moved[i]);
    } else if i < moved.len() + pressed.len() {
        lemma_key_changes_are_sound(keys, after, before, true, 8, i - moved.len());
        assert(out[i] == pressed[i - moved.len()]);
    } else {
        lemma_key_changes_are_sound(
            keys,
            before,
            after,
            false,
            8,
            i - moved.len() - pressed.len(),
        );
        assert(out[i] == released[i - moved.len() - pressed.len()]);
    }
}

proof fn lemma_pointer_outputs(
    actions: Seq<StickAction>,
    at: StickVector,
    threshold: Real32,
    motion: StickMotion,
)
    ensures
        ({
            let out = pointer_outputs(actions, at, threshold, motion);
            let move_by = OutputModel::Send(
                InputEvent::MouseMove { dx: motion.dx, dy: motion.dy },
            );
            let turn_by = OutputModel::Send(InputEvent::MouseWheel { delta: motion.wheel });
            let beyond = threshold.below(at.x.absolute()) || threshold.below(at.y.absolute());
            &&& forall|i: int|
                0 <= i < out.len() ==> #[trigger] out[i] == move_by || out[i] == turn_by
            &&& out.contains(move_by) == (beyond && actions.contains(StickAction::Mouse))
            &&& out.contains(turn_by) == (threshold.below(at.y.absolute()) && actions.contains(
                StickAction::Scroll,
            ))
        }),
    decreases actions.len(),
{
    let out = pointer_outputs(actions, at, threshold, motion);
    let move_by = OutputModel::Send(InputEvent::MouseMove { dx: motion.dx, dy: motion.dy });
    let turn_by = OutputModel::Send(InputEvent::MouseWheel { delta: motion.wheel });
    if actions.len() > 0 {
        let front = actions.drop_last();
        let rest = pointer_outputs(front, at, threshold, motion);
        lemma_pointer_outputs(front, at, threshold, motion);
        assert(actions =~= front.push(actions.last()));
        assert(actions.contains(actions.last())) by {
            assert(actions[actions.len() - 1] == actions.last());
        }
        assert forall|a: StickAction| front.contains(a) implies actions.contains(a) by {
            let i = choose|i: int| 0 <= i < front.len() && front[i] == a;
            assert(actions[i] == a);
        }
        assert forall|a: StickAction| actions.contains(a) && a != actions.last() implies
            front.contains(a) by {
            let i = choose|i: int| 0 <= i < actions.len() && actions[i] == a;
            assert(front[i] == a);
        }
        assert forall|o: OutputModel| rest.contains(o) implies out.contains(o) by {
            let i = choose|i: int| 0 <= i < rest.len() && rest[i] == o;
            assert(out[i] == o);
        }
        assert forall|o: OutputModel| out.contains(o) && out.len() > rest.len() && o != out.last()
            implies rest.contains(o) by {
            let i = choose|i: int| 0 <= i < out.len() && out[i] == o;
            assert(rest[i] == o);
        }
        if out.len() > rest.len() {
            assert(out[out.len() - 1] == out.last());
        }
        assert forall|i: int| 0 <= i < out.len() implies #[trigger] out[i] == move_by || out[i]
            == turn_by by {
            if i < rest.len() {
                assert(out[i] == rest[i]);
            }
        }
    }
}

/// A mouse action moves the mouse while the stick lies beyond the threshold on
/// either axis, a scroll action turns the wheel while it does so vertically;
/// without the action, or within the threshold, neither happens.
pub proof fn law_mouse_and_wheel_of_a_stick(
    actions: Seq<StickAction>,
    at: StickVector,
    threshold: Real32,
    motion: StickMotion,
)
    ensures
        ({
            let out = pointer_outputs(actions, at, threshold, motion);
            let far = |v: Real32| threshold.below(v.absolute());
            &&& out.contains(
                OutputModel::Send(InputEvent::MouseMove { dx: motion.dx, dy: motion.dy }),
            ) == ((far(at.x) || far(at.y)) && actions.contains(StickAction::Mouse))
            &&& out.contains(OutputModel::Send(InputEvent::MouseWheel { delta: motion.wheel }))
                == (far(at.y) && actions.contains(StickAction::Scroll))
        }),
{
    lemma_pointer_outputs(actions, at, threshold, motion);
}

/// A report is worked through in one order: the buttons, the left stick with
/// its own position and motion, and the right stick with its own.
pub proof fn law_report_in_order(
    e: KbmEmulator,
    keys: Seq<KeyEntryModel>,
    buttons: ButtonState,
    left_at: StickVector,
    right_at: StickVector,
    config: KbmConfig,
    mappings: Mappings,
    left: StickMotion,
    right: StickMotion,
)
    ensures
        ({
            let out = report_outputs(
                e,
                keys,
                buttons,
                left_at,
                right_at,
                config,
                mappings,
                left,
                right,
            );
            let ready = KbmEmulator {
                enabled: config.enabled,
                config,
                last_button_state: buttons,
                ..e
            };
            let first = edge_outputs(
                keys,
                config,
                e.last_button_state,
                buttons,
                mappings.buttons.deep_view(),
                18,
            );
            let then = stick_report(ready, keys, StickSide::Left, left_at, left, mappings.sticks);
            let last = stick_report(ready, keys, StickSide::Right, right_at, right, mappings.sticks);
            let after = after_report(e, buttons, left_at, right_at, config, mappings);
            &&& out == first + then + last
            &&& after.last_button_state == buttons
            &&& after.left_keys == after_stick(
                ready,
                StickSide::Left,
                left_at,
                mappings.sticks,
            ).left_keys
            &&& after.right_keys == after_stick(
                ready,
                StickSide::Right,
                right_at,
                mappings.sticks,
            ).right_keys
        }),
{
}

/// One more action of a stick adds its own effect behind those before it: a
/// scroll action a turn of the wheel, a mouse action a move unless there was one
/// already, and no other action anything.
pub proof fn law_pointer_action_by_action(
    actions: Seq<StickAction>,
    next: StickAction,
    at: StickVector,
    threshold: Real32,
    motion: StickMotion,
)
    ensures
        ({
            let before = pointer_outputs(actions, at, threshold, motion);
            let after = pointer_outputs(actions.push(next), at, threshold, motion);
            let far_x = threshold.below(at.x.absolute());
            let far_y = threshold.below(at.y.absolute());
            let moves = next == StickAction::Mouse && !actions.contains(StickAction::Mouse) && (far_x
                || far_y);
            let turns = next == StickAction::Scroll && far_y;
            &&& moves ==> after == before.push(
                OutputModel::Send(InputEvent::MouseMove { dx: motion.dx, dy: motion.dy }),
            )
            &&& turns ==> after == before.push(
                OutputModel::Send(InputEvent::MouseWheel { delta: motion.wheel }),
            )
            &&& !moves && !turns ==> after == before
            &&& pointer_outputs(Seq::empty(), at, threshold, motion).len() == 0
        }),
{
    assert(actions.push(next).drop_last() =~= actions);
}

/// A stick sends its moves first, then the keys that go down, and then those
/// that go up.
pub proof fn law_stick_order(
    e: KbmEmulator,
    keys: Seq<KeyEntryModel>,
    side: StickSide,
    at: StickVector,
    motion: StickMotion,
    mapping: StickMapping,
    i: int,
    j: int,
)
    requires
        e.enabled,
        0 <= i < j < stick_report(e, keys, side, at, motion, mapping).len(),
    ensures
        ({
            let out = stick_report(e, keys, side, at, motion, mapping);
            let key = |o: OutputModel, way: bool|
                o matches OutputModel::Send(InputEvent::Key { vk, down }) && down == way;
            &&& key(out[i], false) ==> key(out[j], false)
            &&& key(out[i], true) ==> key(out[j], true) || key(out[j], false)
        }),
{
    let before = e.active(side);
    let after = after_stick(e, side, at, mapping).active(side);
    let out = stick_report(e, keys, side, at, motion, mapping);
    let actions = stick_actions(mapping, side);
    let t = stick_threshold(mapping.zones.deadzone);
    let moved = pointer_outputs(actions, at, t, motion);
    let pressed = key_changes(keys, after, before, true, 8);
    let released = key_changes(keys, before, after, false, 8);
    assert(out == moved + pressed + released);
    let m = moved.len() as int;
    let p = m + pressed.len();
    lemma_pointer_outputs(actions, at, t, motion);
    if i < m {
        assert(out[i] == moved[i]);
    } else if i < p {
        lemma_key_changes_are_sound(keys, after, before, true, 8, i - m);
        assert(out[i] == pressed[i - m]);
    }
    if j >= p {
        lemma_key_changes_are_sound(keys, before, after, false, 8, j - p);
        assert(out[j] == released[j - p]);
    } else if j >= m {
        lemma_key_changes_are_sound(keys, after, before, true, 8, j - m);
        assert(out[j] == pressed[j - m]);
    }
}

} // verus!
