use oxidelink::config::{text_path, AppConfig};
use oxidelink::crash;
use oxidelink::crash::{
    assemble_panic, before_send, crash_dir, crash_dir_in, crash_file_name, crash_file_name_now,
    init_crash_reporting, is_test_dsn, panic_report, panic_route, scrub_pii, scrub_stacktrace,
    set_crash_reporting, set_crash_reporting_enabled, set_up, show_address, status, validate_dsn,
    CrashEvent, CrashException, CrashFrame, CrashReportingStatus, CrashState, DsnParts,
    PanicRoute,
};

fn text(s: &str) -> Option<String> {
    Some(s.to_string())
}

fn empty_event() -> CrashEvent {
    CrashEvent {
        server_name: None,
        environment: None,
        release: None,
        dist: None,
        user: false,
        request: false,
        contexts: vec![],
        tags: vec![],
        extra: vec![],
        message: None,
        exceptions: vec![],
    }
}

fn empty_exception() -> CrashException {
    CrashException { value: None, stacktrace: None, raw_stacktrace: None }
}

fn redact_dsn(dsn: String) -> String {
    crash::redact_dsn(&dsn)
}

#[test]
fn empty_dsn_initialization_does_not_panic() {
    let mut state = CrashState::new();
    assert!(!init_crash_reporting(&mut state, Some(String::new()), false));
}

#[test]
fn test_dsn_is_accepted_without_a_network_dsn() {
    assert!(validate_dsn("test"));
    assert!(!validate_dsn("not a dsn"));
}

#[test]
fn crash_reporting_defaults_to_disabled() {
    let mut state = CrashState::new();
    init_crash_reporting(&mut state, None, false);
    let st = status(&state);
    assert!(!st.enabled);
    assert!(!st.test_mode);
    assert_eq!(st.dsn, None);
}

#[test]
fn empty_dsn_is_treated_as_disabled() {
    let mut state = CrashState::new();
    init_crash_reporting(&mut state, Some("   ".to_string()), false);
    let st = status(&state);
    assert!(!st.enabled);
    assert!(!st.test_mode);
    assert_eq!(st.dsn, None);
}

#[test]
fn test_dsn_enables_local_test_mode() {
    let mut state = CrashState::new();
    init_crash_reporting(&mut state, Some("test".to_string()), false);
    let st = status(&state);
    assert!(st.enabled);
    assert!(st.test_mode);
    assert_eq!(st.dsn, Some("test".to_string()));
}

#[test]
fn valid_sentry_dsn_passes_validation() {
    let dsn = "https://public@o447951.ingest.sentry.io/5439417";
    assert!(validate_dsn(dsn));
}

#[test]
fn pii_scrubbing_redacts_common_patterns() {
    // Keep IP and serial before the Windows path so the path regex does not
    // over-consume the rest of the string.
    let input =
        "IP 192.168.0.1 serial ABC123456789 MAC 00:1A:2B:3C:4D:5E path C:\\Users\\Me\\file.txt";
    let out = scrub_pii(input);
    assert!(out.contains("<MAC>"));
    assert!(out.contains("<PATH>"));
    assert!(out.contains("<IP>"));
    assert!(out.contains("<SERIAL>"));
}

#[test]
fn crash_reporting_status_clones_correctly() {
    let st = CrashReportingStatus {
        enabled: true,
        test_mode: true,
        dsn: Some("test".to_string()),
    };
    let cloned = st.clone();
    assert_eq!(st.enabled, cloned.enabled);
    assert_eq!(st.test_mode, cloned.test_mode);
    assert_eq!(st.dsn, cloned.dsn);
}

#[test]
fn validate_dsn_rejects_empty_string() {
    assert!(!validate_dsn(""));
}

#[test]
fn validate_dsn_accepts_test_variants() {
    assert!(validate_dsn("test"));
    assert!(validate_dsn("TEST"));
    assert!(validate_dsn("Test"));
    assert!(validate_dsn("test://anything"));
}

#[test]
fn validate_dsn_accepts_valid_sentry_dsn() {
    let dsn = "https://public@o447951.ingest.sentry.io/5439417";
    assert!(validate_dsn(dsn));
}

#[test]
fn validate_dsn_rejects_invalid_formats() {
    assert!(!validate_dsn("not a dsn"));
    assert!(!validate_dsn("http://"));
    assert!(!validate_dsn("ftp://example.com"));
    assert!(!validate_dsn("garbage"));
    assert!(!validate_dsn("https://"));
}

#[test]
fn is_test_dsn_handles_none() {
    assert!(!is_test_dsn(None));
}

#[test]
fn is_test_dsn_recognizes_test_literal_case_insensitive() {
    assert!(is_test_dsn(Some("test")));
    assert!(is_test_dsn(Some("TEST")));
    assert!(is_test_dsn(Some("TeSt")));
}

#[test]
fn is_test_dsn_recognizes_test_scheme() {
    assert!(is_test_dsn(Some("test://foo")));
    assert!(is_test_dsn(Some("test://")));
}

#[test]
fn is_test_dsn_rejects_other_values() {
    assert!(!is_test_dsn(Some("")));
    assert!(!is_test_dsn(Some("other")));
    assert!(!is_test_dsn(Some(
        "https://o447951.ingest.sentry.io/5439417"
    )));
}

#[test]
fn scrub_pii_passes_through_clean_text() {
    let input = "nothing sensitive here";
    assert_eq!(scrub_pii(input), input);
}

#[test]
fn scrub_pii_handles_empty_string() {
    assert_eq!(scrub_pii(""), "");
}

#[test]
fn scrub_pii_redacts_mac_addresses() {
    let out = scrub_pii("mac 00:1A:2B:3C:4D:5E and 01-23-45-67-89-ab");
    assert!(out.contains("<MAC>"));
    assert!(!out.contains("00:1A:2B"));
    assert!(!out.contains("01-23-45"));
}

#[test]
fn scrub_pii_redacts_ipv4_addresses() {
    let out = scrub_pii("server 192.168.0.1 and 10.0.0.255");
    assert!(out.contains("<IP>"));
    assert!(!out.contains("192.168.0.1"));
    assert!(!out.contains("10.0.0.255"));
}

#[test]
fn scrub_pii_redacts_windows_paths() {
    let out = scrub_pii("file at C:\\Users\\Me\\secret.txt");
    assert!(out.contains("<PATH>"));
    assert!(!out.contains("C:\\Users"));
}

#[test]
fn scrub_pii_redacts_unix_paths() {
    let out = scrub_pii("config /etc/passwd and /home/user/data");
    assert!(out.contains("<PATH>"));
    assert!(!out.contains("/etc/passwd"));
    assert!(!out.contains("/home/user"));
}

#[test]
fn scrub_pii_redacts_long_serial_numbers() {
    let out = scrub_pii("serial ABC123456789 and XYZ999888777");
    assert!(out.contains("<SERIAL>"));
    assert!(!out.contains("ABC123456789"));
    assert!(!out.contains("XYZ999888777"));
}

#[test]
fn scrub_pii_does_not_redact_short_alphanumeric() {
    // Tokens shorter than 12 chars should be left alone.
    let out = scrub_pii("id ABC123");
    assert_eq!(out, "id ABC123");
}

#[test]
fn scrub_pii_redacts_multiple_patterns_at_once() {
    let input = "ip 192.168.1.1 mac AA:BB:CC:DD:EE:FF serial DEADBEEF1234";
    let out = scrub_pii(input);
    assert!(out.contains("<IP>"));
    assert!(out.contains("<MAC>"));
    assert!(out.contains("<SERIAL>"));
}

#[test]
fn redact_dsn_passes_through_test_literal() {
    assert_eq!(redact_dsn("test".to_string()), "test");
}

#[test]
fn redact_dsn_passes_through_test_scheme() {
    assert_eq!(redact_dsn("test://foo".to_string()), "test://foo");
}

#[test]
fn redact_dsn_redacts_valid_sentry_dsn() {
    let dsn = "https://public@o447951.ingest.sentry.io/5439417";
    let redacted = redact_dsn(dsn.to_string());
    assert!(!redacted.contains("public"));
    assert!(redacted.contains("https"));
    assert!(redacted.contains("o447951.ingest.sentry.io"));
    assert!(redacted.contains("5439417"));
}

#[test]
fn redact_dsn_returns_invalid_for_garbage() {
    assert_eq!(redact_dsn("garbage".to_string()), "invalid");
}

#[test]
fn before_send_returns_none_when_disabled() {
    let event = empty_event();
    let result = before_send(false, &event);
    assert!(result.is_none());
}

#[test]
fn before_send_strips_pii_metadata_fields_when_enabled() {
    let mut event = empty_event();
    event.server_name = text("my-server");
    event.environment = text("production");
    event.release = text("1.0.0");
    event.dist = text("dist1");
    event.user = true;
    event.request = true;
    event.contexts.push("os".to_string());
    event.tags.push("host".to_string());
    event.extra.push("note".to_string());

    let result = before_send(true, &event).expect("event should be returned when enabled");
    assert!(result.server_name.is_none());
    assert!(result.environment.is_none());
    assert!(result.release.is_none());
    assert!(result.dist.is_none());
    assert!(!result.user);
    assert!(!result.request);
    assert!(result.contexts.is_empty());
    assert!(result.tags.is_empty());
    assert!(result.extra.is_empty());
}

#[test]
fn before_send_scrubs_message_pii() {
    let mut event = empty_event();
    event.message = Some("error at 192.168.0.1 for C:\\Users\\me\\file.txt".to_string());
    let result = before_send(true, &event).expect("event returned");
    let msg = result.message.expect("message present");
    assert!(msg.contains("<IP>"));
    assert!(msg.contains("<PATH>"));
    assert!(!msg.contains("192.168.0.1"));
    assert!(!msg.contains("C:\\Users"));
}

#[test]
fn before_send_scrubs_exception_value_and_stacktrace() {
    let mut event = empty_event();
    let mut ex = empty_exception();
    ex.value = Some("panic involving 10.0.0.5".to_string());
    let frame = CrashFrame {
        abs_path: Some("C:\\Users\\bob\\src\\main.rs".to_string()),
        filename: Some("main.rs".to_string()),
    };
    ex.stacktrace = Some(vec![frame]);
    event.exceptions = vec![ex];

    let result = before_send(true, &event).expect("event returned");
    let ex_out = &result.exceptions[0];
    let val = ex_out.value.as_ref().expect("exception value present");
    assert!(val.contains("<IP>"));
    assert!(!val.contains("10.0.0.5"));
    let st_out = ex_out.stacktrace.as_ref().expect("stacktrace present");
    let frame_out = &st_out[0];
    let abs = frame_out.abs_path.as_ref().expect("abs_path present");
    assert!(abs.contains("<PATH>"));
    assert!(!abs.contains("C:\\Users\\bob"));
}

#[test]
fn before_send_scrubs_raw_stacktrace() {
    let mut event = empty_event();
    let mut ex = empty_exception();
    let frame = CrashFrame {
        abs_path: Some("/home/alice/app/index.js".to_string()),
        filename: None,
    };
    ex.raw_stacktrace = Some(vec![frame]);
    event.exceptions = vec![ex];

    let result = before_send(true, &event).expect("event returned");
    let ex_out = &result.exceptions[0];
    let st_out = ex_out
        .raw_stacktrace
        .as_ref()
        .expect("raw stacktrace present");
    let abs = st_out[0]
        .abs_path
        .as_ref()
        .expect("abs_path present");
    assert!(abs.contains("<PATH>"));
    assert!(!abs.contains("/home/alice"));
}

#[test]
fn scrub_stacktrace_redacts_all_frames() {
    let st = vec![
        CrashFrame {
            abs_path: Some("C:\\Users\\a\\f1.rs".to_string()),
            filename: Some("f1.rs".to_string()),
        },
        CrashFrame {
            abs_path: Some("/home/b/f2.js".to_string()),
            filename: Some("f2.js".to_string()),
        },
    ];
    let st = scrub_stacktrace(&st);
    for frame in &st {
        let abs = frame.abs_path.as_ref().expect("abs_path present");
        assert!(abs.contains("<PATH>"));
        assert!(!abs.contains("Users"));
        assert!(!abs.contains("home"));
    }
}

#[test]
fn crash_dir_ends_with_oxide_link_crashes() {
    let dir = String::from_utf8(crash_dir().bytes).unwrap();
    let components: Vec<_> = dir.split('/').collect();
    assert!(components.iter().any(|c| *c == "OxideLink"));
    assert!(components.iter().any(|c| *c == "crashes"));
}

#[test]
fn set_crash_reporting_disabled_clears_state() {
    let mut state = CrashState::new();
    let (st, _) = set_crash_reporting_enabled(&mut state, false, None, false);
    assert!(!st.enabled);
    assert!(!st.test_mode);
    assert_eq!(st.dsn, None);
}

#[test]
fn set_crash_reporting_enabled_with_test_dsn() {
    let mut state = CrashState::new();
    let (st, _) = set_crash_reporting_enabled(&mut state, true, Some("test".to_string()), false);
    assert!(st.enabled);
    assert!(st.test_mode);
}

#[test]
fn redacted_address_has_no_key() {
    let parts = DsnParts {
        scheme: "https".to_string(),
        host: "host.io".to_string(),
        project_id: "42".to_string(),
    };
    assert_eq!(show_address("https://key@host.io/42", Some(parts)), "https://...@host.io /42");
    assert_eq!(show_address("nonsense", None), "invalid");
    assert_eq!(show_address("TEST", None), "TEST");
    assert_eq!(
        redact_dsn("https://public@o447951.ingest.sentry.io/5439417".to_string()),
        "https://...@o447951.ingest.sentry.io /5439417"
    );
}

#[test]
fn scrubbing_replaces_exactly_what_identifies() {
    assert_eq!(scrub_pii("id ABC123DEF456 at 10.0.0.1"), "id <SERIAL> at <IP>");
    assert_eq!(scrub_pii("mac 00:1A:2B:3C:4D:5E end"), "mac <MAC> end");
    assert_eq!(scrub_pii("see /etc/passwd now"), "see <PATH> now");
}

#[test]
fn valid_address_connects() {
    let mut state = CrashState::new();
    let dsn = "https://public@o447951.ingest.sentry.io/5439417";
    assert!(init_crash_reporting(&mut state, text(dsn), false));
    let st = status(&state);
    assert!(st.enabled);
    assert!(!st.test_mode);
    assert_eq!(st.dsn, text("https://...@o447951.ingest.sentry.io /5439417"));
}

#[test]
fn invalid_address_keeps_reporting_off() {
    let mut state = CrashState::new();
    assert!(!init_crash_reporting(&mut state, text("not a dsn"), false));
    assert!(!status(&state).enabled);
    assert!(!set_up(&mut state, text("anything"), false, false));
    assert!(!state.enabled);
    assert!(set_up(&mut state, text("anything"), false, true));
    assert!(state.enabled);
}

#[test]
fn local_mode_of_the_environment_connects_nowhere() {
    let mut state = CrashState::new();
    let dsn = "https://public@o447951.ingest.sentry.io/5439417";
    assert!(!init_crash_reporting(&mut state, text(dsn), true));
    assert!(state.enabled);
    assert!(state.test_mode);
}

#[test]
fn switching_off_forgets_the_address() {
    let mut state = CrashState::new();
    let (st, connect) = set_crash_reporting_enabled(&mut state, true, text("test"), false);
    assert!(st.enabled && st.test_mode && !connect);
    assert_eq!(st.dsn, text("test"));
    let (st, connect) = set_crash_reporting_enabled(&mut state, false, text("test"), false);
    assert!(!st.enabled && !connect);
    assert_eq!(st.dsn, None);
}

#[test]
fn unchanged_address_is_not_connected_to_again() {
    let mut state = CrashState::new();
    let dsn = "https://public@o447951.ingest.sentry.io/5439417";
    let (_, connect) = set_crash_reporting_enabled(&mut state, true, text(dsn), false);
    assert!(connect);
    let (st, connect) = set_crash_reporting_enabled(&mut state, true, text(dsn), false);
    assert!(st.enabled && !connect);
}

#[test]
fn setting_is_kept_in_the_configuration() {
    let mut config = AppConfig::default();
    let mut state = CrashState::new();
    let (st, connect, save) =
        set_crash_reporting(&mut config, &mut state, true, text("test"), false);
    assert!(st.enabled && !connect && save);
    assert!(config.crash_reporting_enabled);
    assert_eq!(config.crash_reporting_dsn, text("test"));
    config.config_persistence_enabled = false;
    let (st, _, save) = set_crash_reporting(&mut config, &mut state, false, None, false);
    assert!(!st.enabled && !save);
    assert_eq!(config.crash_reporting_dsn, None);
}

#[test]
fn panics_go_where_reporting_points() {
    let mut state = CrashState::new();
    assert_eq!(panic_route(&state, true), PanicRoute::Nowhere);
    state.enabled = true;
    assert_eq!(panic_route(&state, true), PanicRoute::Service);
    assert_eq!(panic_route(&state, false), PanicRoute::Nowhere);
    state.test_mode = true;
    assert_eq!(panic_route(&state, true), PanicRoute::LocalFile);
}

#[test]
fn panic_reports_are_scrubbed() {
    assert_eq!(panic_report("no route to 10.0.0.1", None), "panic: no route to <IP>");
    assert_eq!(panic_report("oops", Some(("main.rs", 7))), "panic: oops at main.rs:7");
    assert_eq!(
        panic_report("oops", Some(("/home/me/src/main.rs", 7))),
        "panic: oops at <PATH>"
    );
    assert_eq!(assemble_panic("a", Some("b")), "panic: a at b");
}

#[test]
fn crash_files_are_named_by_the_time() {
    assert_eq!(crash_file_name(1700000000), "crash_1700000000.txt");
    let name = crash_file_name_now();
    let secs: u64 = name["crash_".len()..name.len() - ".txt".len()].parse().unwrap();
    assert!(secs > 1_600_000_000);
    assert_eq!(crash_dir_in(Some(text_path("/data"))).bytes, b"/data/OxideLink/crashes");
    assert_eq!(crash_dir_in(None).bytes, b"./OxideLink/crashes");
}
