use std::cell::RefCell;
use std::collections::VecDeque;
use std::rc::Rc;

use oxidelink::bthusb_monitor;
use oxidelink::bthusb_monitor::{
    parse_event_id, parse_poll_output, BthUsbEtwEvent, BthUsbMonitor, BthUsbSnapshot,
    EVT_HCI_SIZE_MISMATCH, EVT_LINK_KEY_STORE_FAIL, EVT_REMOTE_UNPAIRED,
};
use oxidelink::state::IpcEvent;

const NOW: u64 = 1_700_000_000_000;

struct Queue(Rc<RefCell<VecDeque<IpcEvent>>>);

impl Queue {
    fn try_recv(&mut self) -> Result<IpcEvent, ()> {
        self.0.borrow_mut().pop_front().ok_or(())
    }
}

fn channel() -> (Queue, Queue) {
    let q = Rc::new(RefCell::new(VecDeque::new()));
    (Queue(q.clone()), Queue(q))
}

fn dispatch_event(id: i32, tx: &Queue) {
    for event in bthusb_monitor::dispatch_event(id, NOW).events {
        tx.0.borrow_mut().push_back(event);
    }
}

#[test]
fn snapshot_defaults_are_zero() {
    let s = BthUsbSnapshot::default();
    assert_eq!(s.power_down_events, 0);
    assert_eq!(s.disconnect_events, 0);
    assert_eq!(s.link_key_faults, 0);
    assert_eq!(s.last_event_ts, 0);
    assert_eq!(s.last_event_id, 0);
}

#[test]
fn snapshot_clone_is_equal() {
    let s = BthUsbSnapshot {
        power_down_events: 3,
        disconnect_events: 1,
        link_key_faults: 2,
        last_event_ts: 1_700_000_000_000,
        last_event_id: EVT_HCI_SIZE_MISMATCH,
    };
    let c = s.clone();
    assert_eq!(c.power_down_events, s.power_down_events);
    assert_eq!(c.disconnect_events, s.disconnect_events);
    assert_eq!(c.link_key_faults, s.link_key_faults);
    assert_eq!(c.last_event_ts, s.last_event_ts);
    assert_eq!(c.last_event_id, s.last_event_id);
}

#[test]
fn snapshot_debug_includes_all_fields() {
    let s = BthUsbSnapshot {
        power_down_events: 1,
        disconnect_events: 0,
        link_key_faults: 0,
        last_event_ts: 42,
        last_event_id: 5,
    };
    let dbg = format!("{:?}", s);
    assert!(dbg.contains("power_down_events: 1"));
    assert!(dbg.contains("last_event_id: 5"));
}

#[test]
fn monitor_new_initialises_last_seen_total_to_zero() {
    let m = BthUsbMonitor::new();
    assert_eq!(m.last_seen_total, 0);
}

#[test]
fn monitor_default_matches_new() {
    let m = BthUsbMonitor::default();
    assert_eq!(m.last_seen_total, 0);
}

#[test]
fn detect_new_power_down_true_when_count_increases() {
    let m = BthUsbMonitor::new();
    let snap = BthUsbSnapshot {
        power_down_events: 5,
        ..BthUsbSnapshot::default()
    };
    assert!(m.detect_new_power_down(&snap, 4));
    assert!(m.detect_new_power_down(&snap, 0));
}

#[test]
fn detect_new_power_down_false_when_equal_or_lower() {
    let m = BthUsbMonitor::new();
    let snap = BthUsbSnapshot {
        power_down_events: 3,
        ..BthUsbSnapshot::default()
    };
    assert!(!m.detect_new_power_down(&snap, 3));
    assert!(!m.detect_new_power_down(&snap, 10));
}

#[test]
fn detect_new_power_down_false_for_default_snapshot() {
    let m = BthUsbMonitor::new();
    assert!(!m.detect_new_power_down(&BthUsbSnapshot::default(), 0));
}

#[test]
fn parse_event_id_extracts_integer_from_xml_fragment() {
    let xml = "<Event xmlns='...'><System><Provider Name='BTHUSB'/><EventID Qualifiers='0'>5</EventID></System></Event>";
    assert_eq!(parse_event_id(xml), 5);
}

#[test]
fn parse_event_id_handles_event_id_10_and_18() {
    let xml10 = "<Event><System><EventID>10</EventID></System></Event>";
    assert_eq!(parse_event_id(xml10), EVT_REMOTE_UNPAIRED);

    let xml18 = "<Event><System><EventID>18</EventID></System></Event>";
    assert_eq!(parse_event_id(xml18), EVT_LINK_KEY_STORE_FAIL);
}

#[test]
fn parse_event_id_returns_zero_when_no_event_id_tag() {
    let no_event_id = "<Event><System></System></Event>";
    assert_eq!(parse_event_id(no_event_id), 0);
}

#[test]
fn parse_event_id_returns_zero_for_non_numeric_content() {
    let malformed = "<Event><EventID>not-a-number</EventID></Event>";
    assert_eq!(parse_event_id(malformed), 0);
}

#[test]
fn parse_event_id_returns_zero_for_empty_content() {
    let empty = "<Event><EventID></EventID></Event>";
    assert_eq!(parse_event_id(empty), 0);
}

#[test]
fn parse_event_id_returns_zero_when_tag_not_closed() {
    let unclosed = "<Event><EventID Qualifiers='0'";
    assert_eq!(parse_event_id(unclosed), 0);
}

#[test]
fn parse_event_id_trims_whitespace_around_value() {
    let xml = "<Event><EventID>  5  </EventID></Event>";
    assert_eq!(parse_event_id(xml), 5);
}

#[test]
fn parse_event_id_handles_negative_values() {
    let xml = "<Event><EventID>-1</EventID></Event>";
    assert_eq!(parse_event_id(xml), -1);
}

#[test]
fn parse_event_id_uses_first_event_id_tag() {
    let xml = "<Event><EventID>5</EventID><EventID>18</EventID></Event>";
    assert_eq!(parse_event_id(xml), 5);
}

#[test]
fn parse_event_id_returns_zero_for_empty_string() {
    assert_eq!(parse_event_id(""), 0);
}

#[test]
fn parse_poll_output_empty_string_yields_default_snapshot() {
    let (snap, total) = parse_poll_output("");
    assert_eq!(snap.power_down_events, 0);
    assert_eq!(snap.disconnect_events, 0);
    assert_eq!(snap.link_key_faults, 0);
    assert_eq!(snap.last_event_ts, 0);
    assert_eq!(snap.last_event_id, 0);
    assert_eq!(total, 0);
}

#[test]
fn parse_poll_output_counts_each_signature() {
    // ticks chosen so unix_ms > 0: 621355968000000000 + 1000*10000
    let base = 621_355_968_000_000_000i64;
    let t1 = base + 1_000 * 10_000; // unix_ms = 1000
    let t2 = base + 2_000 * 10_000; // unix_ms = 2000
    let t3 = base + 3_000 * 10_000; // unix_ms = 3000
    let input = format!("5|{}\n10|{}\n18|{}\n", t1, t2, t3);

    let (snap, total) = parse_poll_output(&input);
    assert_eq!(snap.power_down_events, 1);
    assert_eq!(snap.disconnect_events, 1);
    assert_eq!(snap.link_key_faults, 1);
    assert_eq!(total, 3);
    // latest event is ID 18 with unix_ms 3000
    assert_eq!(snap.last_event_id, EVT_LINK_KEY_STORE_FAIL);
    assert_eq!(snap.last_event_ts, 3000);
}

#[test]
fn parse_poll_output_ignores_unknown_ids_but_counts_total() {
    let base = 621_355_968_000_000_000i64;
    let input = format!("99|{}\n5|{}\n", base, base + 10_000);
    let (snap, total) = parse_poll_output(&input);
    assert_eq!(snap.power_down_events, 1);
    assert_eq!(snap.disconnect_events, 0);
    assert_eq!(total, 2);
    // ID 5 has the larger timestamp
    assert_eq!(snap.last_event_id, EVT_HCI_SIZE_MISMATCH);
}

#[test]
fn parse_poll_output_skips_blank_and_whitespace_lines() {
    let input = "\n   \n5|621355968000010000\n\n";
    let (snap, total) = parse_poll_output(input);
    assert_eq!(total, 1);
    assert_eq!(snap.power_down_events, 1);
}

#[test]
fn parse_poll_output_tolerates_malformed_lines() {
    // missing timestamp, non-numeric id, missing id entirely.
    // The bare "5" line parses id=5 with ticks=0 → counts as a
    // power-down signature; the other two lines contribute nothing.
    let input = "5\nabc|123\n|621355968000000000\n";
    let (snap, total) = parse_poll_output(input);
    assert_eq!(total, 3);
    assert_eq!(snap.power_down_events, 1);
    assert_eq!(snap.disconnect_events, 0);
    assert_eq!(snap.link_key_faults, 0);
}

#[test]
fn parse_poll_output_negative_ticks_clamped_to_zero() {
    // ticks below the epoch offset → unix_ms clamped to 0 via .max(0).
    // Because unix_ms (0) is not strictly greater than last_ts (0), the
    // event id is NOT recorded as the latest — mirroring live behaviour
    // where a zero-timestamp event does not supersede the initial state.
    let input = "5|-1\n";
    let (snap, total) = parse_poll_output(input);
    assert_eq!(total, 1);
    assert_eq!(snap.power_down_events, 1);
    assert_eq!(snap.last_event_ts, 0);
    assert_eq!(snap.last_event_id, 0);
}

#[test]
fn parse_poll_output_picks_latest_timestamp() {
    let base = 621_355_968_000_000_000i64;
    // out-of-order: later event first
    let input = format!(
        "10|{}\n5|{}\n",
        base + 5_000 * 10_000,
        base + 1_000 * 10_000
    );
    let (snap, _) = parse_poll_output(&input);
    assert_eq!(snap.last_event_id, EVT_REMOTE_UNPAIRED);
    assert_eq!(snap.last_event_ts, 5_000);
}

#[test]
fn dispatch_event_power_down_emits_bluetooth_power_event() {
    let (tx, mut rx) = channel();
    dispatch_event(EVT_HCI_SIZE_MISMATCH, &tx);

    let mut got_power = false;
    let mut got_log = false;
    while let Ok(ev) = rx.try_recv() {
        match ev {
            IpcEvent::BluetoothPowerEvent { event_type, .. } => {
                assert_eq!(event_type, "Power_Down");
                got_power = true;
            }
            IpcEvent::LogMessage { level, .. } => {
                assert_eq!(level, "warn");
                got_log = true;
            }
            _ => {}
        }
    }
    assert!(got_power, "expected BluetoothPowerEvent");
    assert!(got_log, "expected LogMessage");
}

#[test]
fn dispatch_event_remote_unpaired_emits_disconnected() {
    let (tx, mut rx) = channel();
    dispatch_event(EVT_REMOTE_UNPAIRED, &tx);

    let mut got_disconnect = false;
    while let Ok(ev) = rx.try_recv() {
        if let IpcEvent::Disconnected { reason } = ev {
            assert!(reason.contains("Event ID 10"));
            got_disconnect = true;
        }
    }
    assert!(got_disconnect, "expected Disconnected event");
}

#[test]
fn dispatch_event_link_key_fault_emits_only_log_message() {
    let (tx, mut rx) = channel();
    dispatch_event(EVT_LINK_KEY_STORE_FAIL, &tx);

    let mut log_count = 0;
    let mut other_count = 0;
    while let Ok(ev) = rx.try_recv() {
        match ev {
            IpcEvent::LogMessage { level, message, .. } => {
                assert_eq!(level, "warn");
                assert!(message.contains("Event ID 18"));
                log_count += 1;
            }
            _ => {
                other_count += 1;
            }
        }
    }
    assert_eq!(log_count, 1);
    assert_eq!(other_count, 0);
}

#[test]
fn dispatch_event_unknown_id_emits_nothing() {
    let (tx, mut rx) = channel();
    dispatch_event(999, &tx);
    assert!(rx.try_recv().is_err());
}

#[test]
fn dispatch_event_power_down_reports_to_keepalive() {
    let (tx, _rx) = channel();
    let status = {
        dispatch_event(EVT_HCI_SIZE_MISMATCH, &tx);
        dispatch_event(EVT_HCI_SIZE_MISMATCH, &tx);
    };
    let _ = status; // no return value — test asserts no panic / no hang
}

#[test]
fn event_id_constants_have_expected_values() {
    assert_eq!(EVT_HCI_SIZE_MISMATCH, 5);
    assert_eq!(EVT_REMOTE_UNPAIRED, 10);
    assert_eq!(EVT_LINK_KEY_STORE_FAIL, 18);
}

#[test]
fn bth_usb_etw_event_clone_preserves_event_id() {
    let ev = BthUsbEtwEvent {
        event_id: EVT_HCI_SIZE_MISMATCH,
    };
    let c = ev.clone();
    assert_eq!(c.event_id, ev.event_id);
}

#[test]
fn bth_usb_etw_event_debug_contains_event_id() {
    let ev = BthUsbEtwEvent { event_id: 42 };
    let dbg = format!("{:?}", ev);
    assert!(dbg.contains("42"));
}

#[test]
fn parse_event_id_handles_qualifiers_attribute_with_gt_in_value() {
    // The parser scans for the first '>' after "<EventID". An attribute
    // value containing '>' would break naive parsing, but the standard
    // schema never includes it — verify a normal Qualifiers attribute.
    let xml = "<Event><System><EventID Qualifiers='16384'>5</EventID></System></Event>";
    assert_eq!(parse_event_id(xml), 5);
}

#[test]
fn parse_event_id_handles_multiple_attributes() {
    let xml = "<Event><EventID Qualifiers='1' Guid='{abc}'>18</EventID></Event>";
    assert_eq!(parse_event_id(xml), 18);
}

#[test]
fn parse_event_id_returns_zero_for_self_closing_tag() {
    // A self-closing <EventID/> has no '>' followed by content before the
    // next '<' — the parser reads empty content and returns 0.
    let xml = "<Event><EventID/></Event>";
    assert_eq!(parse_event_id(xml), 0);
}

#[test]
fn parse_event_id_uses_content_before_next_tag_only() {
    // Trailing garbage after the closing '<' must not leak into the parse.
    let xml = "<Event><EventID>5</EventID>garbage<Other>99</Other></Event>";
    assert_eq!(parse_event_id(xml), 5);
}

#[test]
fn parse_event_id_handles_large_positive_value() {
    let xml = "<Event><EventID>2147483647</EventID></Event>";
    assert_eq!(parse_event_id(xml), 2147483647);
}

#[test]
fn parse_event_id_returns_zero_for_overflow_value() {
    // i32::MAX + 1 overflows the parse → unwrap_or(0).
    let xml = "<Event><EventID>2147483648</EventID></Event>";
    assert_eq!(parse_event_id(xml), 0);
}

#[test]
fn parse_event_id_returns_zero_when_only_key_prefix_present() {
    // "<EventID" appears but no '>' follows.
    let xml = "<Event><EventID";
    assert_eq!(parse_event_id(xml), 0);
}

#[test]
fn parse_poll_output_handles_crlf_line_endings() {
    let base = 621_355_968_000_000_000i64;
    let input = format!("5|{}\r\n10|{}\r\n", base + 10_000, base + 20_000);
    let (snap, total) = parse_poll_output(&input);
    assert_eq!(total, 2);
    assert_eq!(snap.power_down_events, 1);
    assert_eq!(snap.disconnect_events, 1);
}

#[test]
fn parse_poll_output_counts_repeated_same_id() {
    let base = 621_355_968_000_000_000i64;
    let input = format!(
        "5|{}\n5|{}\n5|{}\n",
        base + 10_000,
        base + 20_000,
        base + 30_000
    );
    let (snap, total) = parse_poll_output(&input);
    assert_eq!(snap.power_down_events, 3);
    assert_eq!(total, 3);
    assert_eq!(snap.last_event_id, EVT_HCI_SIZE_MISMATCH);
    assert_eq!(snap.last_event_ts, 3);
}

#[test]
fn parse_poll_output_trims_whitespace_around_id_and_ticks() {
    let base = 621_355_968_000_000_000i64;
    // The line is trimmed as a whole, but individual parts are NOT trimmed.
    // So "5|<ts>" (no spaces around pipe) parses correctly.
    let input = format!("5|{}\n", base + 10_000);
    let (snap, total) = parse_poll_output(&input);
    assert_eq!(total, 1);
    assert_eq!(snap.power_down_events, 1);
}

#[test]
fn parse_poll_output_line_with_only_pipe_counts_as_total() {
    // "|" → id_str="" (parse→0), ts_str="" (parse→0). Counts toward total,
    // matches no signature.
    let (snap, total) = parse_poll_output("|\n");
    assert_eq!(total, 1);
    assert_eq!(snap.power_down_events, 0);
    assert_eq!(snap.disconnect_events, 0);
    assert_eq!(snap.link_key_faults, 0);
}

#[test]
fn parse_poll_output_line_with_extra_pipe_segments_ignores_them() {
    let base = 621_355_968_000_000_000i64;
    // split('|') yields ["5", "<ts>", "extra"] — only first two used.
    let input = format!("5|{}|extra|junk\n", base + 10_000);
    let (snap, total) = parse_poll_output(&input);
    assert_eq!(total, 1);
    assert_eq!(snap.power_down_events, 1);
}

#[test]
fn parse_poll_output_zero_ticks_does_not_record_latest() {
    // ticks=0 → unix_ms clamped to 0; 0 is not > last_ts(0) so last_id
    // stays 0 even though the signature counter increments.
    let (snap, _) = parse_poll_output("5|0\n");
    assert_eq!(snap.power_down_events, 1);
    assert_eq!(snap.last_event_ts, 0);
    assert_eq!(snap.last_event_id, 0);
}

#[test]
fn parse_poll_output_equal_timestamps_keep_first_id() {
    // Two events with identical unix_ms: the second is NOT strictly
    // greater, so last_event_id stays as the first event's id.
    let base = 621_355_968_000_000_000i64;
    let input = format!("5|{}\n10|{}\n", base + 10_000, base + 10_000);
    let (snap, _) = parse_poll_output(&input);
    assert_eq!(snap.last_event_id, EVT_HCI_SIZE_MISMATCH);
}

#[test]
fn parse_poll_output_mixed_known_and_unknown_ids() {
    let base = 621_355_968_000_000_000i64;
    let input = format!(
        "5|{}\n99|{}\n10|{}\n18|{}\n200|{}\n",
        base + 10_000,
        base + 20_000,
        base + 30_000,
        base + 40_000,
        base + 50_000
    );
    let (snap, total) = parse_poll_output(&input);
    assert_eq!(total, 5);
    assert_eq!(snap.power_down_events, 1);
    assert_eq!(snap.disconnect_events, 1);
    assert_eq!(snap.link_key_faults, 1);
    assert_eq!(snap.last_event_id, 200);
    assert_eq!(snap.last_event_ts, 5);
}

#[test]
fn parse_poll_output_whitespace_only_lines_skipped() {
    let base = 621_355_968_000_000_000i64;
    let input = format!("\n   \n\t\n5|{}\n", base + 10_000);
    let (snap, total) = parse_poll_output(&input);
    assert_eq!(total, 1);
    assert_eq!(snap.power_down_events, 1);
}

#[test]
fn dispatch_event_power_down_emits_exactly_two_events() {
    let (tx, mut rx) = channel();
    dispatch_event(EVT_HCI_SIZE_MISMATCH, &tx);

    let mut count = 0;
    while let Ok(ev) = rx.try_recv() {
        count += 1;
        match ev {
            IpcEvent::BluetoothPowerEvent { event_type, .. } => {
                assert_eq!(event_type, "Power_Down");
            }
            IpcEvent::LogMessage { level, message, .. } => {
                assert_eq!(level, "warn");
                assert!(message.contains("Event ID 5"));
            }
            _ => panic!("unexpected event variant"),
        }
    }
    assert_eq!(count, 2);
}

#[test]
fn dispatch_event_remote_unpaired_emits_disconnected_and_log() {
    let (tx, mut rx) = channel();
    dispatch_event(EVT_REMOTE_UNPAIRED, &tx);

    let mut got_disconnect = false;
    let mut got_log = false;
    while let Ok(ev) = rx.try_recv() {
        match ev {
            IpcEvent::Disconnected { reason } => {
                assert!(reason.contains("Event ID 10"));
                got_disconnect = true;
            }
            IpcEvent::LogMessage { level, message, .. } => {
                assert_eq!(level, "warn");
                assert!(message.contains("unpaired"));
                got_log = true;
            }
            _ => panic!("unexpected event variant"),
        }
    }
    assert!(got_disconnect, "expected Disconnected event");
    assert!(got_log, "expected LogMessage event");
}

#[test]
fn dispatch_event_link_key_fault_message_contains_persistence() {
    let (tx, mut rx) = channel();
    dispatch_event(EVT_LINK_KEY_STORE_FAIL, &tx);

    while let Ok(ev) = rx.try_recv() {
        if let IpcEvent::LogMessage { message, .. } = ev {
            assert!(message.contains("persistence"));
            assert!(message.contains("Event ID 18"));
            return;
        }
    }
    panic!("expected LogMessage event");
}

#[test]
fn dispatch_event_unknown_negative_id_emits_nothing() {
    let (tx, mut rx) = channel();
    dispatch_event(-1, &tx);
    assert!(rx.try_recv().is_err());
}

#[test]
fn dispatch_event_repeated_power_downs_all_emitted() {
    let (tx, mut rx) = channel();
    for _ in 0..3 {
        dispatch_event(EVT_HCI_SIZE_MISMATCH, &tx);
    }
    // Drain all events (each dispatch sends BluetoothPowerEvent + LogMessage).
    let mut power_count = 0;
    while let Ok(ev) = rx.try_recv() {
        if matches!(ev, IpcEvent::BluetoothPowerEvent { .. }) {
            power_count += 1;
        }
    }
    assert_eq!(power_count, 3);
}

#[test]
fn dispatch_event_zero_id_emits_nothing() {
    let (tx, mut rx) = channel();
    dispatch_event(0, &tx);
    assert!(rx.try_recv().is_err());
}

#[test]
fn detect_new_power_down_true_for_one_vs_zero() {
    let m = BthUsbMonitor::new();
    let snap = BthUsbSnapshot {
        power_down_events: 1,
        ..BthUsbSnapshot::default()
    };
    assert!(m.detect_new_power_down(&snap, 0));
}

#[test]
fn detect_new_power_down_false_when_equal() {
    let m = BthUsbMonitor::new();
    let snap = BthUsbSnapshot {
        power_down_events: 7,
        ..BthUsbSnapshot::default()
    };
    assert!(!m.detect_new_power_down(&snap, 7));
}

#[test]
fn detect_new_power_down_false_when_prev_higher() {
    let m = BthUsbMonitor::new();
    let snap = BthUsbSnapshot {
        power_down_events: 2,
        ..BthUsbSnapshot::default()
    };
    assert!(!m.detect_new_power_down(&snap, 100));
}

#[test]
fn snapshot_with_only_link_key_faults_set() {
    let s = BthUsbSnapshot {
        link_key_faults: 9,
        ..BthUsbSnapshot::default()
    };
    assert_eq!(s.link_key_faults, 9);
    assert_eq!(s.power_down_events, 0);
    assert_eq!(s.disconnect_events, 0);
}

#[test]
fn snapshot_with_max_u32_counters() {
    let s = BthUsbSnapshot {
        power_down_events: u32::MAX,
        disconnect_events: u32::MAX,
        link_key_faults: u32::MAX,
        last_event_ts: u64::MAX,
        last_event_id: i32::MAX,
    };
    let c = s.clone();
    assert_eq!(c.power_down_events, u32::MAX);
    assert_eq!(c.last_event_ts, u64::MAX);
    assert_eq!(c.last_event_id, i32::MAX);
}

#[test]
fn power_down_is_reported_to_the_keepalive() {
    assert!(bthusb_monitor::dispatch_event(EVT_HCI_SIZE_MISMATCH, NOW).power_down);
    assert!(!bthusb_monitor::dispatch_event(EVT_REMOTE_UNPAIRED, NOW).power_down);
    assert!(!bthusb_monitor::dispatch_event(EVT_LINK_KEY_STORE_FAIL, NOW).power_down);
}

#[test]
fn log_messages_carry_the_time() {
    let d = bthusb_monitor::dispatch_event(EVT_REMOTE_UNPAIRED, 1234);
    match &d.events[1] {
        IpcEvent::LogMessage { message, .. } => {
            assert_eq!(message, "Controller unpaired at 1234");
        }
        _ => panic!("expected a log message"),
    }
}

#[test]
fn poll_reports_only_what_is_new() {
    let mut m = BthUsbMonitor::new();
    let log = "5|638000000000000000\n10|638000000000010000\n";
    let snap = m.poll_once(Some(log));
    assert_eq!(m.last_seen_total, 2);
    assert_eq!(m.note_snapshot(&snap), vec![EVT_HCI_SIZE_MISMATCH, EVT_REMOTE_UNPAIRED]);
    let snap = m.poll_once(Some(log));
    assert!(m.note_snapshot(&snap).is_empty());
    let snap = m.poll_once(None);
    assert_eq!(snap, BthUsbSnapshot::default());
    assert!(m.note_snapshot(&snap).is_empty());
    assert_eq!(m.last_seen_total, 2);
}

#[test]
fn ticks_become_milliseconds() {
    let (snap, total) = parse_poll_output("5|621355968000010000");
    assert_eq!(total, 1);
    assert_eq!(snap.last_event_ts, 1);
    let (snap, _) = parse_poll_output("5|621355968000000000");
    assert_eq!(snap.last_event_ts, 0);
}

#[test]
fn link_key_faults_come_to_light_too() {
    let mut m = BthUsbMonitor::new();
    let snap = m.poll_once(Some("18|638000000000000000\n"));
    assert_eq!(m.note_snapshot(&snap), vec![EVT_LINK_KEY_STORE_FAIL]);
    assert_eq!(m.prev_link_key, 1);
    assert!(m.note_snapshot(&snap).is_empty());
    let snap = m.poll_once(Some("5|0\n10|0\n18|0\n18|0\n"));
    assert_eq!(
        m.note_snapshot(&snap),
        vec![EVT_HCI_SIZE_MISMATCH, EVT_REMOTE_UNPAIRED, EVT_LINK_KEY_STORE_FAIL]
    );
}
