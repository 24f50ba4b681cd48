use std::cell::RefCell;
use std::collections::VecDeque;
use std::ops::Deref;
use std::rc::Rc;
use std::time::Duration;

use oxidelink::config::KbmConfig;
use oxidelink::kbm::{
    left_click, send_keypress, InputBackend, InputEvent, KbmEmulator, KbmManager, KbmOutput,
    KeyEntry, KeyTable, RawInput, StickMotion, WindowsBackend,
};
use oxidelink::mappings::{
    Action, ButtonMapping, Mappings, StickAction, StickMapping, StickSide, StickZones,
};
use oxidelink::numeric::Real32;
use oxidelink::state::{ButtonId, ButtonState, ControllerState, StickVector};

fn r32(v: f32) -> Real32 {
    Real32::from_bits(v.to_bits())
}

fn value(v: Real32) -> f32 {
    f32::from_bits(v.bits)
}

fn keys() -> KeyTable {
    let entry = |name: &str, vk: u16| KeyEntry { name: name.to_string(), vk };
    KeyTable {
        entries: vec![
            entry("W", 0x57),
            entry("A", 0x41),
            entry("S", 0x53),
            entry("D", 0x44),
            entry("X", 0x58),
            entry("LShift", 0xA0),
            entry("Left", 0x25),
            entry("Up", 0x26),
            entry("Right", 0x27),
            entry("Down", 0x28),
        ],
    }
}

/// The events that were sent.
#[derive(Clone)]
struct Queue(Rc<RefCell<VecDeque<InputEvent>>>);

impl Queue {
    fn send(&self, event: InputEvent) {
        self.0.borrow_mut().push_back(event);
    }

    fn try_recv(&mut self) -> Result<InputEvent, ()> {
        self.0.borrow_mut().pop_front().ok_or(())
    }
}

fn unbounded_channel() -> (Queue, Queue) {
    let q = Queue(Rc::new(RefCell::new(VecDeque::new())));
    (q.clone(), q)
}

/// An emulator whose events are put in a queue.
struct Emulator {
    inner: KbmEmulator,
    tx: Queue,
}

impl Deref for Emulator {
    type Target = KbmEmulator;

    fn deref(&self) -> &KbmEmulator {
        &self.inner
    }
}

fn motion(x: f32, y: f32, sensitivity: f32) -> StickMotion {
    StickMotion {
        dx: (x * sensitivity * 20.0) as i32,
        dy: (-y * sensitivity * 20.0) as i32,
        wheel: (y * sensitivity * 120.0 * 0.2) as i32,
    }
}

impl Emulator {
    fn with_queue(tx: Queue) -> Emulator {
        Emulator { inner: KbmEmulator::new(), tx }
    }

    fn pass_on(&self, outputs: Vec<KbmOutput>) {
        for output in outputs {
            if let KbmOutput::Send(event) = output {
                self.tx.send(event);
            }
        }
    }

    fn set_config(&mut self, config: &KbmConfig) {
        self.inner.set_config(config);
    }

    fn send_key(&self, vk: u16, down: bool) {
        self.tx.send(self.inner.send_key(vk, down));
    }

    fn send_mouse_move(&self, dx: i32, dy: i32) {
        self.tx.send(self.inner.send_mouse_move(dx, dy));
    }

    fn send_mouse_button(&self, button: u8, down: bool) {
        self.tx.send(self.inner.send_mouse_button(button, down));
    }

    fn send_mouse_wheel(&self, delta: i32) {
        self.tx.send(self.inner.send_mouse_wheel(delta));
    }

    fn process_button(&mut self, id: ButtonId, pressed: bool, mappings: &Mappings) {
        let outputs = self.inner.process_button(&keys(), id, pressed, mappings);
        self.pass_on(outputs);
    }

    fn process_stick(
        &mut self,
        side: StickSide,
        x: f32,
        y: f32,
        config: &KbmConfig,
        mapping: &StickMapping,
    ) {
        let at = StickVector { x: r32(x), y: r32(y) };
        let moved = motion(x, y, value(config.mouse_sensitivity));
        let outputs = self.inner.process_stick(&keys(), side, at, moved, mapping);
        self.pass_on(outputs);
    }

    fn process_controller_state(
        &mut self,
        state: &ControllerState,
        config: &KbmConfig,
        mappings: &Mappings,
    ) {
        let rest = motion(0.0, 0.0, 1.0);
        let outputs =
            self.inner.process_controller_state(&keys(), state, config, mappings, rest, rest);
        self.pass_on(outputs);
    }
}

fn mock_emulator() -> (Emulator, Queue) {
    let (tx, rx) = unbounded_channel();
    let mut emu = Emulator::with_queue(tx);
    let mut cfg = KbmConfig::default();
    cfg.enabled = true;
    emu.set_config(&cfg);
    (emu, rx)
}

fn idle_manager() -> KbmManager {
    KbmManager::new(KbmConfig::default(), Mappings::default())
}

#[test]
fn input_event_key_equality_and_clone() {
    let a = InputEvent::Key {
        vk: 0x57,
        down: true,
    };
    let b = a.clone();
    assert_eq!(a, b);
    assert_ne!(
        a,
        InputEvent::Key {
            vk: 0x57,
            down: false
        }
    );
}

#[test]
fn input_event_mouse_move_equality() {
    let a = InputEvent::MouseMove { dx: 10, dy: -5 };
    let b = InputEvent::MouseMove { dx: 10, dy: -5 };
    assert_eq!(a, b);
    assert_ne!(a, InputEvent::MouseMove { dx: 11, dy: -5 });
}

#[test]
fn input_event_mouse_button_equality() {
    let a = InputEvent::MouseButton {
        button: 2,
        down: true,
    };
    let b = a.clone();
    assert_eq!(a, b);
    assert_ne!(
        a,
        InputEvent::MouseButton {
            button: 1,
            down: true
        }
    );
}

#[test]
fn input_event_mouse_wheel_equality() {
    let a = InputEvent::MouseWheel { delta: 120 };
    assert_eq!(a, InputEvent::MouseWheel { delta: 120 });
    assert_ne!(a, InputEvent::MouseWheel { delta: -120 });
}

#[test]
fn input_event_debug_format_contains_variant() {
    let e = InputEvent::Key {
        vk: 0x41,
        down: true,
    };
    let s = format!("{:?}", e);
    assert!(s.contains("Key"));
}

/// Forwards events to a list.
struct ListBackend(std::sync::Mutex<VecDeque<InputEvent>>);

impl InputBackend for ListBackend {
    fn send(&self, event: InputEvent) {
        self.0.lock().unwrap().push_back(event);
    }
}

#[test]
fn backends_forward_events_in_order() {
    let backend = ListBackend(std::sync::Mutex::new(VecDeque::new()));
    backend.send(InputEvent::Key {
        vk: 0x41,
        down: true,
    });
    backend.send(InputEvent::MouseWheel { delta: 5 });
    let mut sent = backend.0.lock().unwrap();
    assert_eq!(
        sent.pop_front(),
        Some(InputEvent::Key {
            vk: 0x41,
            down: true
        })
    );
    assert_eq!(sent.pop_front(), Some(InputEvent::MouseWheel { delta: 5 }));
    assert!(sent.pop_front().is_none());
}

#[test]
fn emulator_default_is_disabled() {
    // WindowsBackend is used by default; we only inspect state, not events.
    let emu = KbmEmulator::new();
    assert!(!emu.enabled);
}

#[test]
fn emulator_with_backend_inherits_default_config() {
    let (tx, _rx) = unbounded_channel();
    let emu = Emulator::with_queue(tx);
    assert!(!emu.enabled);
}

#[test]
fn set_config_updates_enabled_flag() {
    let (tx, _rx) = unbounded_channel();
    let mut emu = Emulator::with_queue(tx);
    let mut cfg = KbmConfig::default();
    cfg.enabled = true;
    cfg.mouse_sensitivity = r32(3.5);
    emu.set_config(&cfg);
    assert!(emu.enabled);
    assert_eq!(value(emu.config.mouse_sensitivity), 3.5);
}

#[test]
fn send_key_emits_key_event() {
    let (tx, mut rx) = unbounded_channel();
    let emu = Emulator::with_queue(tx);
    emu.send_key(0x41, true);
    emu.send_key(0x41, false);
    assert_eq!(
        rx.try_recv(),
        Ok(InputEvent::Key {
            vk: 0x41,
            down: true
        })
    );
    assert_eq!(
        rx.try_recv(),
        Ok(InputEvent::Key {
            vk: 0x41,
            down: false
        })
    );
}

#[test]
fn send_mouse_move_emits_event() {
    let (tx, mut rx) = unbounded_channel();
    let emu = Emulator::with_queue(tx);
    emu.send_mouse_move(7, -3);
    assert_eq!(rx.try_recv(), Ok(InputEvent::MouseMove { dx: 7, dy: -3 }));
}

#[test]
fn send_mouse_button_emits_event() {
    let (tx, mut rx) = unbounded_channel();
    let emu = Emulator::with_queue(tx);
    emu.send_mouse_button(1, true);
    assert_eq!(
        rx.try_recv(),
        Ok(InputEvent::MouseButton {
            button: 1,
            down: true
        })
    );
}

#[test]
fn send_mouse_wheel_emits_event() {
    let (tx, mut rx) = unbounded_channel();
    let emu = Emulator::with_queue(tx);
    emu.send_mouse_wheel(240);
    assert_eq!(rx.try_recv(), Ok(InputEvent::MouseWheel { delta: 240 }));
}

#[test]
fn process_button_no_op_when_disabled() {
    let (tx, mut rx) = unbounded_channel();
    let mut emu = Emulator::with_queue(tx);
    // disabled by default
    let mappings = Mappings {
        buttons: vec![ButtonMapping {
            source: ButtonId::A,
            actions: vec![Action::Key("W".into())],
        }],
        ..Default::default()
    };
    emu.process_button(ButtonId::A, true, &mappings);
    assert!(rx.try_recv().is_err());
}

#[test]
fn process_button_ignores_unmapped_button() {
    let (mut emu, mut rx) = mock_emulator();
    let mappings = Mappings::default();
    emu.process_button(ButtonId::A, true, &mappings);
    assert!(rx.try_recv().is_err());
}

#[test]
fn process_button_key_combo_emits_all_down_then_all_up_reversed() {
    let (mut emu, mut rx) = mock_emulator();
    let mappings = Mappings {
        buttons: vec![ButtonMapping {
            source: ButtonId::A,
            actions: vec![Action::KeyCombo(vec!["LShift".into(), "A".into()])],
        }],
        ..Default::default()
    };
    emu.process_button(ButtonId::A, true, &mappings);
    // Down order: LShift (0xA0) then A (0x41)
    assert_eq!(
        rx.try_recv(),
        Ok(InputEvent::Key {
            vk: 0xA0,
            down: true
        })
    );
    assert_eq!(
        rx.try_recv(),
        Ok(InputEvent::Key {
            vk: 0x41,
            down: true
        })
    );
    emu.process_button(ButtonId::A, false, &mappings);
    // Up order: reversed -> A then LShift
    assert_eq!(
        rx.try_recv(),
        Ok(InputEvent::Key {
            vk: 0x41,
            down: false
        })
    );
    assert_eq!(
        rx.try_recv(),
        Ok(InputEvent::Key {
            vk: 0xA0,
            down: false
        })
    );
    assert!(rx.try_recv().is_err());
}

#[test]
fn process_button_key_combo_skips_unknown_keys() {
    let (mut emu, mut rx) = mock_emulator();
    let mappings = Mappings {
        buttons: vec![ButtonMapping {
            source: ButtonId::A,
            actions: vec![Action::KeyCombo(vec!["unknown_key".into(), "A".into()])],
        }],
        ..Default::default()
    };
    emu.process_button(ButtonId::A, true, &mappings);
    // Only the valid key (A) should be emitted.
    assert_eq!(
        rx.try_recv(),
        Ok(InputEvent::Key {
            vk: 0x41,
            down: true
        })
    );
    assert!(rx.try_recv().is_err());
}

#[test]
fn process_button_macro_action_is_no_op() {
    let (mut emu, mut rx) = mock_emulator();
    let mappings = Mappings {
        buttons: vec![ButtonMapping {
            source: ButtonId::A,
            actions: vec![Action::Macro("macro1".into())],
        }],
        ..Default::default()
    };
    emu.process_button(ButtonId::A, true, &mappings);
    emu.process_button(ButtonId::A, false, &mappings);
    assert!(rx.try_recv().is_err());
}

#[test]
fn process_button_unknown_key_name_emits_nothing() {
    let (mut emu, mut rx) = mock_emulator();
    let mappings = Mappings {
        buttons: vec![ButtonMapping {
            source: ButtonId::A,
            actions: vec![Action::Key("not_a_real_key".into())],
        }],
        ..Default::default()
    };
    emu.process_button(ButtonId::A, true, &mappings);
    assert!(rx.try_recv().is_err());
}

#[test]
fn process_button_multiple_actions_all_dispatched() {
    let (mut emu, mut rx) = mock_emulator();
    let mappings = Mappings {
        buttons: vec![ButtonMapping {
            source: ButtonId::A,
            actions: vec![Action::Key("W".into()), Action::MouseButton(0)],
        }],
        ..Default::default()
    };
    emu.process_button(ButtonId::A, true, &mappings);
    assert_eq!(
        rx.try_recv(),
        Ok(InputEvent::Key {
            vk: 0x57,
            down: true
        })
    );
    assert_eq!(
        rx.try_recv(),
        Ok(InputEvent::MouseButton {
            button: 0,
            down: true
        })
    );
}

#[test]
fn process_controller_state_emits_on_button_edge_only() {
    let (mut emu, mut rx) = mock_emulator();
    let mappings = Mappings {
        buttons: vec![ButtonMapping {
            source: ButtonId::A,
            actions: vec![Action::Key("W".into())],
        }],
        ..Default::default()
    };
    let cfg = KbmConfig {
        enabled: true,
        ..Default::default()
    };

    let mut state = ControllerState::default();
    state.buttons.a = true;
    emu.process_controller_state(&state, &cfg, &mappings);
    // First call: A went from false -> true, emits key down.
    assert_eq!(
        rx.try_recv(),
        Ok(InputEvent::Key {
            vk: 0x57,
            down: true
        })
    );

    // Second call with same state: no new edge, no events.
    emu.process_controller_state(&state, &cfg, &mappings);
    assert!(rx.try_recv().is_err());

    // Release: edge true -> false, emits key up.
    state.buttons.a = false;
    emu.process_controller_state(&state, &cfg, &mappings);
    assert_eq!(
        rx.try_recv(),
        Ok(InputEvent::Key {
            vk: 0x57,
            down: false
        })
    );
}

#[test]
fn process_controller_state_disabled_emits_nothing() {
    let (tx, mut rx) = unbounded_channel();
    let mut emu = Emulator::with_queue(tx);
    // disabled by default
    let mappings = Mappings {
        buttons: vec![ButtonMapping {
            source: ButtonId::A,
            actions: vec![Action::Key("W".into())],
        }],
        ..Default::default()
    };
    let cfg = KbmConfig::default(); // enabled = false
    let mut state = ControllerState::default();
    state.buttons.a = true;
    emu.process_controller_state(&state, &cfg, &mappings);
    assert!(rx.try_recv().is_err());
}

#[test]
fn process_stick_arrow_keys() {
    let (mut emu, mut rx) = mock_emulator();
    let mapping = StickMapping {
        left_actions: vec![StickAction::ArrowKeys],
        right_actions: vec![],
        zones: StickZones {
            deadzone: r32(0.25),
            ..Default::default()
        },
        response_curve: Default::default(),
    };
    let cfg = KbmConfig {
        enabled: true,
        ..Default::default()
    };

    // Up: y > dz
    emu.process_stick(StickSide::Left, 0.0, 1.0, &cfg, &mapping);
    assert_eq!(
        rx.try_recv(),
        Ok(InputEvent::Key {
            vk: 0x26,
            down: true
        }) // VK_UP
    );

    // Move to down: Up released, Down pressed
    emu.process_stick(StickSide::Left, 0.0, -1.0, &cfg, &mapping);
    let mut saw_up_up = false;
    let mut saw_down_down = false;
    while let Ok(ev) = rx.try_recv() {
        match ev {
            InputEvent::Key {
                vk: 0x26,
                down: false,
            } => saw_up_up = true,
            InputEvent::Key {
                vk: 0x28,
                down: true,
            } => saw_down_down = true,
            _ => {}
        }
    }
    assert!(saw_up_up, "expected Up key release");
    assert!(saw_down_down, "expected Down key press");
}

#[test]
fn process_stick_arrow_keys_left_right() {
    let (mut emu, mut rx) = mock_emulator();
    let mapping = StickMapping {
        left_actions: vec![StickAction::ArrowKeys],
        right_actions: vec![],
        zones: StickZones {
            deadzone: r32(0.3),
            ..Default::default()
        },
        response_curve: Default::default(),
    };
    let cfg = KbmConfig {
        enabled: true,
        ..Default::default()
    };

    emu.process_stick(StickSide::Left, 1.0, 0.0, &cfg, &mapping);
    assert_eq!(
        rx.try_recv(),
        Ok(InputEvent::Key {
            vk: 0x27,
            down: true
        }) // VK_RIGHT
    );

    emu.process_stick(StickSide::Left, -1.0, 0.0, &cfg, &mapping);
    let mut saw_right_up = false;
    let mut saw_left_down = false;
    while let Ok(ev) = rx.try_recv() {
        match ev {
            InputEvent::Key {
                vk: 0x27,
                down: false,
            } => saw_right_up = true,
            InputEvent::Key {
                vk: 0x25,
                down: true,
            } => saw_left_down = true,
            _ => {}
        }
    }
    assert!(saw_right_up);
    assert!(saw_left_down);
}

#[test]
fn process_stick_disabled_when_below_deadzone() {
    let (mut emu, mut rx) = mock_emulator();
    let mapping = StickMapping {
        left_actions: vec![StickAction::Wasd],
        right_actions: vec![],
        zones: StickZones {
            deadzone: r32(0.5),
            ..Default::default()
        },
        response_curve: Default::default(),
    };
    let cfg = KbmConfig {
        enabled: true,
        ..Default::default()
    };

    // Deflection below deadzone -> no keys.
    emu.process_stick(StickSide::Left, 0.3, 0.3, &cfg, &mapping);
    assert!(rx.try_recv().is_err());
}

#[test]
fn process_stick_uses_default_deadzone_when_zero() {
    let (mut emu, mut rx) = mock_emulator();
    let mapping = StickMapping {
        left_actions: vec![StickAction::Wasd],
        right_actions: vec![],
        zones: StickZones {
            deadzone: r32(0.0), // unset -> fallback 0.25
            ..Default::default()
        },
        response_curve: Default::default(),
    };
    let cfg = KbmConfig {
        enabled: true,
        ..Default::default()
    };

    // 0.2 is below the 0.25 fallback deadzone -> no event.
    emu.process_stick(StickSide::Left, 0.2, 0.0, &cfg, &mapping);
    assert!(rx.try_recv().is_err());

    // 0.3 exceeds the 0.25 fallback -> D pressed.
    emu.process_stick(StickSide::Left, 0.3, 0.0, &cfg, &mapping);
    assert_eq!(
        rx.try_recv(),
        Ok(InputEvent::Key {
            vk: 0x44,
            down: true
        })
    );
}

#[test]
fn process_stick_scroll_emits_wheel() {
    let (mut emu, mut rx) = mock_emulator();
    let mapping = StickMapping {
        left_actions: vec![],
        right_actions: vec![StickAction::Scroll],
        zones: StickZones {
            deadzone: r32(0.25),
            ..Default::default()
        },
        response_curve: Default::default(),
    };
    let cfg = KbmConfig {
        enabled: true,
        mouse_sensitivity: r32(1.0),
        ..Default::default()
    };

    emu.process_stick(StickSide::Right, 0.0, 1.0, &cfg, &mapping);
    // delta = y * sensitivity * 120 * 0.2 = 1.0 * 1.0 * 120 * 0.2 = 24
    assert_eq!(rx.try_recv(), Ok(InputEvent::MouseWheel { delta: 24 }));
}

#[test]
fn process_stick_scroll_no_event_below_deadzone() {
    let (mut emu, mut rx) = mock_emulator();
    let mapping = StickMapping {
        left_actions: vec![],
        right_actions: vec![StickAction::Scroll],
        zones: StickZones {
            deadzone: r32(0.5),
            ..Default::default()
        },
        response_curve: Default::default(),
    };
    let cfg = KbmConfig {
        enabled: true,
        ..Default::default()
    };

    emu.process_stick(StickSide::Right, 0.0, 0.3, &cfg, &mapping);
    assert!(rx.try_recv().is_err());
}

#[test]
fn process_stick_mouse_inverts_y() {
    let (mut emu, mut rx) = mock_emulator();
    let mapping = StickMapping {
        left_actions: vec![],
        right_actions: vec![StickAction::Mouse],
        zones: StickZones {
            deadzone: r32(0.25),
            ..Default::default()
        },
        response_curve: Default::default(),
    };
    let cfg = KbmConfig {
        enabled: true,
        mouse_sensitivity: r32(1.0),
        ..Default::default()
    };

    // y = 1.0 (push up) -> dy should be negative (cursor up).
    emu.process_stick(StickSide::Right, 0.0, 1.0, &cfg, &mapping);
    let ev = rx.try_recv().unwrap();
    match ev {
        InputEvent::MouseMove { dx, dy } => {
            assert_eq!(dx, 0);
            assert!(dy < 0, "expected negative dy for upward stick, got {}", dy);
        }
        other => panic!("expected MouseMove, got {:?}", other),
    }
}

#[test]
fn process_stick_mouse_only_sent_once_per_report() {
    let (mut emu, mut rx) = mock_emulator();
    let mapping = StickMapping {
        left_actions: vec![],
        right_actions: vec![StickAction::Mouse, StickAction::Mouse],
        zones: StickZones {
            deadzone: r32(0.25),
            ..Default::default()
        },
        response_curve: Default::default(),
    };
    let cfg = KbmConfig {
        enabled: true,
        mouse_sensitivity: r32(1.0),
        ..Default::default()
    };

    emu.process_stick(StickSide::Right, 0.8, 0.0, &cfg, &mapping);
    // Even though Mouse appears twice, only one MouseMove is emitted.
    assert!(rx.try_recv().is_ok());
    assert!(rx.try_recv().is_err());
}

#[test]
fn process_stick_disabled_action_emits_nothing() {
    let (mut emu, mut rx) = mock_emulator();
    let mapping = StickMapping {
        left_actions: vec![StickAction::Disabled],
        right_actions: vec![],
        zones: StickZones {
            deadzone: r32(0.25),
            ..Default::default()
        },
        response_curve: Default::default(),
    };
    let cfg = KbmConfig {
        enabled: true,
        ..Default::default()
    };

    emu.process_stick(StickSide::Left, 1.0, 1.0, &cfg, &mapping);
    assert!(rx.try_recv().is_err());
}

#[test]
fn process_stick_no_op_when_emulator_disabled() {
    let (tx, mut rx) = unbounded_channel();
    let mut emu = Emulator::with_queue(tx);
    // disabled by default
    let mapping = StickMapping {
        left_actions: vec![StickAction::Wasd],
        right_actions: vec![],
        zones: StickZones {
            deadzone: r32(0.25),
            ..Default::default()
        },
        response_curve: Default::default(),
    };
    let cfg = KbmConfig::default();
    emu.process_stick(StickSide::Left, 1.0, 0.0, &cfg, &mapping);
    assert!(rx.try_recv().is_err());
}

#[test]
fn process_stick_releases_keys_when_returning_to_center() {
    let (mut emu, mut rx) = mock_emulator();
    let mapping = StickMapping {
        left_actions: vec![StickAction::Wasd],
        right_actions: vec![],
        zones: StickZones {
            deadzone: r32(0.25),
            ..Default::default()
        },
        response_curve: Default::default(),
    };
    let cfg = KbmConfig {
        enabled: true,
        ..Default::default()
    };

    // Press D
    emu.process_stick(StickSide::Left, 1.0, 0.0, &cfg, &mapping);
    assert_eq!(
        rx.try_recv(),
        Ok(InputEvent::Key {
            vk: 0x44,
            down: true
        })
    );

    // Return to center -> D released
    emu.process_stick(StickSide::Left, 0.0, 0.0, &cfg, &mapping);
    assert_eq!(
        rx.try_recv(),
        Ok(InputEvent::Key {
            vk: 0x44,
            down: false
        })
    );
}

#[test]
fn process_stick_diagonal_emits_two_keys() {
    let (mut emu, mut rx) = mock_emulator();
    let mapping = StickMapping {
        left_actions: vec![StickAction::Wasd],
        right_actions: vec![],
        zones: StickZones {
            deadzone: r32(0.25),
            ..Default::default()
        },
        response_curve: Default::default(),
    };
    let cfg = KbmConfig {
        enabled: true,
        ..Default::default()
    };

    // Up-right diagonal: W and D
    emu.process_stick(StickSide::Left, 1.0, 1.0, &cfg, &mapping);
    let mut saw_w = false;
    let mut saw_d = false;
    while let Ok(ev) = rx.try_recv() {
        if ev
            == (InputEvent::Key {
                vk: 0x57,
                down: true,
            })
        {
            saw_w = true;
        }
        if ev
            == (InputEvent::Key {
                vk: 0x44,
                down: true,
            })
        {
            saw_d = true;
        }
    }
    assert!(saw_w, "expected W key down");
    assert!(saw_d, "expected D key down");
}

fn started_rate(rate: u32) -> u32 {
    let mut emu = KbmEmulator::new();
    let mut cfg = KbmConfig::default();
    cfg.enabled = true;
    cfg.key_repeat_rate_ms = rate;
    emu.set_config(&cfg);
    let outputs = emu.process_button(&keys(), ButtonId::A, true, &key_on_a("W"));
    match &outputs[1] {
        KbmOutput::StartRepeat { rate_ms, .. } => *rate_ms,
        other => panic!("expected a repeat, got {:?}", other),
    }
}

#[test]
fn key_repeat_rate_is_clamped_to_minimum_1ms() {
    assert_eq!(started_rate(0), 1);
}

#[test]
fn key_repeat_rate_is_clamped_to_maximum_5000ms() {
    assert_eq!(started_rate(999_999), 5_000);
}

#[test]
fn key_repeat_delay_zero_is_valid_duration() {
    // delay = Duration::from_millis(0) -> Duration::ZERO, which skips sleep.
    let delay = Duration::from_millis(0u64);
    assert_eq!(delay, Duration::ZERO);
}

#[test]
fn key_repeat_delay_nonzero_is_respected() {
    let delay = Duration::from_millis(250u64);
    assert_eq!(delay, Duration::from_millis(250));
}

#[test]
fn kbm_manager_status_returns_default_config() {
    let manager = idle_manager();
    let status = manager.status();
    assert!(!status.enabled);
    assert_eq!(value(status.mouse_sensitivity), 1.0);
}

#[test]
fn kbm_manager_set_enabled_updates_config_and_emulator() {
    let mut manager = idle_manager();
    let result = manager.set_enabled(true);
    assert!(result);
    assert!(manager.status().enabled);
    assert!(manager.emulator.enabled);
}

#[test]
fn kbm_manager_set_and_get_mappings_roundtrip() {
    let mut manager = idle_manager();
    let mappings = Mappings {
        buttons: vec![ButtonMapping {
            source: ButtonId::B,
            actions: vec![Action::Key("X".into())],
        }],
        ..Default::default()
    };
    manager.set_mappings(mappings);
    let got = manager.get_mappings();
    assert_eq!(got.buttons.len(), 1);
    assert_eq!(got.buttons[0].source, ButtonId::B);
}

#[test]
fn kbm_manager_send_test_key_unknown_returns_error() {
    let manager = idle_manager();
    let result = manager.send_test_key(&keys(), "not_a_key", true);
    assert!(result.is_err());
}

#[test]
fn kbm_manager_send_test_key_known_succeeds() {
    let manager = idle_manager();
    let result = manager.send_test_key(&keys(), "W", true);
    assert!(result.is_ok());
}

#[test]
fn kbm_manager_button_event_respects_disabled_state() {
    let mut manager = idle_manager();
    manager.set_mappings(key_on_a("W"));
    assert!(manager.button_event(&keys(), ButtonId::A, true).is_empty());
}

#[test]
fn kbm_manager_stick_event_respects_disabled_state() {
    let mut manager = idle_manager();
    let at = StickVector { x: r32(1.0), y: r32(1.0) };
    let moved = motion(1.0, 1.0, 1.0);
    assert!(manager.stick_event(&keys(), StickSide::Left, at, moved).is_empty());
}

#[test]
fn kbm_config_default_values() {
    let cfg = KbmConfig::default();
    assert!(!cfg.enabled);
    assert!(!cfg.anti_cheat_mode);
    assert_eq!(value(cfg.mouse_sensitivity), 1.0);
    assert_eq!(cfg.key_repeat_delay_ms, 250);
    assert_eq!(cfg.key_repeat_rate_ms, 33);
}

#[test]
fn button_state_get_set_roundtrip() {
    let mut bs = ButtonState::default();
    bs.set(ButtonId::A, true);
    assert!(bs.get(ButtonId::A));
    bs.set(ButtonId::A, false);
    assert!(!bs.get(ButtonId::A));
}

fn key_on_a(name: &str) -> Mappings {
    Mappings {
        buttons: vec![ButtonMapping {
            source: ButtonId::A,
            actions: vec![Action::Key(name.to_string())],
        }],
        ..Default::default()
    }
}

#[test]
fn records_for_the_operating_system() {
    let b = WindowsBackend::default();
    let key = |down| b.record(InputEvent::Key { vk: 0x57, down });
    assert_eq!(key(true), Some(RawInput::Keyboard { vk: 0x57, flags: 0 }));
    assert_eq!(key(false), Some(RawInput::Keyboard { vk: 0x57, flags: 2 }));
    assert_eq!(
        b.record(InputEvent::MouseMove { dx: 3, dy: -4 }),
        Some(RawInput::Mouse { dx: 3, dy: -4, data: 0, flags: 1 })
    );
    let button = |button, down| match b.record(InputEvent::MouseButton { button, down }) {
        Some(RawInput::Mouse { data, flags, .. }) => Some((data, flags)),
        _ => None,
    };
    assert_eq!(button(0, true), Some((0, 0x0002)));
    assert_eq!(button(0, false), Some((0, 0x0004)));
    assert_eq!(button(1, true), Some((0, 0x0008)));
    assert_eq!(button(1, false), Some((0, 0x0010)));
    assert_eq!(button(2, true), Some((0, 0x0020)));
    assert_eq!(button(2, false), Some((0, 0x0040)));
    assert_eq!(button(3, true), Some((1, 0x0080)));
    assert_eq!(button(4, false), Some((2, 0x0100)));
    assert_eq!(button(5, true), None);
    assert_eq!(
        b.record(InputEvent::MouseWheel { delta: -120 }),
        Some(RawInput::Mouse { dx: 0, dy: 0, data: (-120i32) as u32, flags: 0x0800 })
    );
}

#[test]
fn presses_come_in_pairs() {
    assert_eq!(
        send_keypress(0x41),
        [InputEvent::Key { vk: 0x41, down: true }, InputEvent::Key { vk: 0x41, down: false }]
    );
    assert_eq!(
        left_click(),
        [
            InputEvent::MouseButton { button: 0, down: true },
            InputEvent::MouseButton { button: 0, down: false }
        ]
    );
}

#[test]
fn first_entry_of_a_name_counts() {
    let mut table = keys();
    table.entries.push(KeyEntry { name: "W".to_string(), vk: 1 });
    assert_eq!(table.vk("W"), Some(0x57));
    assert_eq!(table.vk("w"), None);
}

#[test]
fn held_key_is_repeated_until_release() {
    let (emu, _rx) = mock_emulator();
    let down = emu.inner.process_button(&keys(), ButtonId::A, true, &key_on_a("W"));
    assert_eq!(
        down,
        vec![
            KbmOutput::Send(InputEvent::Key { vk: 0x57, down: true }),
            KbmOutput::StartRepeat {
                key_id: "btn:A:W".to_string(),
                vk: 0x57,
                delay_ms: 250,
                rate_ms: 33
            },
        ]
    );
    let up = emu.inner.process_button(&keys(), ButtonId::A, false, &key_on_a("W"));
    assert_eq!(
        up,
        vec![
            KbmOutput::StopRepeat { key_id: "btn:A:W".to_string() },
            KbmOutput::Send(InputEvent::Key { vk: 0x57, down: false }),
        ]
    );
}

#[test]
fn unknown_key_is_named_in_the_error() {
    assert_eq!(
        idle_manager().send_test_key(&keys(), "Q9", true),
        Err("Unknown key name: Q9".to_string())
    );
    assert_eq!(
        idle_manager().send_test_key(&keys(), "W", false),
        Ok(InputEvent::Key { vk: 0x57, down: false })
    );
}

#[test]
fn manager_uses_its_mappings() {
    let mut manager = idle_manager();
    manager.set_enabled(true);
    manager.set_mappings(key_on_a("D"));
    let outputs = manager.button_event(&keys(), ButtonId::A, true);
    assert_eq!(outputs[0], KbmOutput::Send(InputEvent::Key { vk: 0x44, down: true }));
    assert!(manager.button_event(&keys(), ButtonId::B, true).is_empty());
    let mut mappings = Mappings::default();
    mappings.sticks.left_actions = vec![StickAction::Wasd];
    manager.set_mappings(mappings);
    let at = StickVector { x: r32(0.0), y: r32(-1.0) };
    let outputs = manager.stick_event(&keys(), StickSide::Left, at, motion(0.0, -1.0, 1.0));
    assert_eq!(outputs, vec![KbmOutput::Send(InputEvent::Key { vk: 0x53, down: true })]);
}

#[test]
fn a_steady_stick_sends_no_key_again() {
    let (mut emu, mut rx) = mock_emulator();
    let mut mapping = StickMapping::default();
    mapping.left_actions = vec![StickAction::Wasd];
    let cfg = KbmConfig::default();
    emu.process_stick(StickSide::Left, 0.0, 1.0, &cfg, &mapping);
    assert!(rx.try_recv().is_ok());
    emu.process_stick(StickSide::Left, 0.0, 0.9, &cfg, &mapping);
    assert!(rx.try_recv().is_err());
}
