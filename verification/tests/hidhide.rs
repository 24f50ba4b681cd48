use oxidelink::hidhide::{
    compute_hidden_flag, compute_nt_path, control_device, ctl_code, decode_multi_sz_bytes,
    drive_of, encode_multi_sz_bytes, first_pro_controller, from_wide, get_hidhide_status,
    guid_devclass_hidclass, hidhide_ioctl, is_installed, is_pro_controller, is_pro_hardware_id,
    list_size, read_list, service_key, session_blacklist_bytes, setup_for_oxidelink,
    strip_verbatim_prefix, to_wide, try_compute_nt_path, unhide_steps, whitelist_with,
    HidHideStatus, HideStep, ListSize, IOCTL_ADD_SESSION_BLACKLIST, IOCTL_CLR_SESSION_BLACKLIST,
    IOCTL_GET_ACTIVE, IOCTL_GET_BLACKLIST, IOCTL_GET_WHITELIST, IOCTL_GET_WLINVERSE,
    IOCTL_SET_ACTIVE, IOCTL_SET_BLACKLIST, IOCTL_SET_WHITELIST, IOCTL_SET_WLINVERSE,
};

#[test]
fn default_status_and_multi_sz_helpers_are_consistent() {
    let status = HidHideStatus::default();
    assert!(!status.installed);
    assert!(!status.enabled);
    assert!(!status.hidden);
    assert!(status.device_path.is_empty());
    assert!(status.message.is_empty());
}

#[test]
fn hidhide_status_clone_is_equal() {
    let status = HidHideStatus {
        installed: true,
        enabled: false,
        hidden: false,
        device_path: "dev".to_string(),
        message: "msg".to_string(),
    };
    let cloned = status.clone();
    assert_eq!(cloned.installed, status.installed);
    assert_eq!(cloned.enabled, status.enabled);
    assert_eq!(cloned.hidden, status.hidden);
    assert_eq!(cloned.device_path, status.device_path);
    assert_eq!(cloned.message, status.message);
}

#[test]
fn ioctl_helper_uses_standard_ctl_code_layout() {
    assert_eq!(hidhide_ioctl(0x805), IOCTL_SET_ACTIVE);
    assert_eq!(IOCTL_GET_WHITELIST, ctl_code(0x8000, 0x800, 0, 0));
}

#[test]
fn ctl_code_matches_windows_macro_formula() {
    // CTL_CODE(DeviceType, Function, Method, Access) =
    //   (DeviceType << 16) | (Access << 14) | (Function << 2) | Method
    assert_eq!(ctl_code(0x8000, 0x800, 0, 0), 0x80002000);
    assert_eq!(ctl_code(0x8000, 0x801, 0, 0), 0x80002004);
    // (0x2<<16)|(0x1<<14)|(0x1<<2)|0x3 = 0x24007
    assert_eq!(ctl_code(0x2, 0x1, 0x3, 0x1), 0x0002_4007);
}

#[test]
fn hidhide_ioctl_uses_correct_device_type_and_method() {
    // device_type 0x8000, method 0 (BUFFERED), access 0 (ANY)
    // so result = (0x8000 << 16) | (function << 2)
    assert_eq!(hidhide_ioctl(0), 0x80000000);
    assert_eq!(hidhide_ioctl(0x800), 0x80002000);
    assert_eq!(hidhide_ioctl(0x809), 0x80002024);
}

#[test]
fn ioctl_constants_are_sequential_and_well_formed() {
    // Functions 0x800..0x809, each step adds 4 (<< 2).
    let codes = [
        IOCTL_GET_WHITELIST,
        IOCTL_SET_WHITELIST,
        IOCTL_GET_BLACKLIST,
        IOCTL_SET_BLACKLIST,
        IOCTL_GET_ACTIVE,
        IOCTL_SET_ACTIVE,
        IOCTL_GET_WLINVERSE,
        IOCTL_SET_WLINVERSE,
        IOCTL_ADD_SESSION_BLACKLIST,
        IOCTL_CLR_SESSION_BLACKLIST,
    ];
    for (i, &code) in codes.iter().enumerate() {
        let function = 0x800u32 + i as u32;
        assert_eq!(code, hidhide_ioctl(function));
        assert_eq!(code, 0x80000000 | (function << 2));
    }
    // Verify monotonic increase by 4.
    for w in codes.windows(2) {
        assert_eq!(w[1] - w[0], 4);
    }
}

#[test]
fn ioctl_get_and_set_blacklist_are_distinct() {
    assert_ne!(IOCTL_GET_BLACKLIST, IOCTL_SET_BLACKLIST);
    assert_ne!(IOCTL_GET_WHITELIST, IOCTL_SET_WHITELIST);
    assert_ne!(IOCTL_GET_ACTIVE, IOCTL_SET_ACTIVE);
    assert_ne!(IOCTL_GET_WLINVERSE, IOCTL_SET_WLINVERSE);
}

#[test]
fn control_device_path_is_expected() {
    assert_eq!(control_device(), r"\\.\HidHide");
}

#[test]
fn encode_multi_sz_bytes_round_trips_multiple_paths() {
    let paths = vec![
        "\\Device\\HarddiskVolume3\\Users\\me\\app.exe".to_string(),
        "\\Device\\HarddiskVolume3\\Program Files\\other.exe".to_string(),
    ];
    let encoded = encode_multi_sz_bytes(&paths);
    assert_eq!(decode_multi_sz_bytes(&encoded), paths);
}

#[test]
fn encode_multi_sz_bytes_empty_list_produces_terminator_only() {
    let encoded = encode_multi_sz_bytes(&[]);
    // Just the final double-null terminator.
    assert_eq!(encoded, vec![0, 0]);
    assert!(decode_multi_sz_bytes(&encoded).is_empty());
}

#[test]
fn encode_multi_sz_bytes_single_string_terminates_correctly() {
    let paths = vec!["hello".to_string()];
    let encoded = encode_multi_sz_bytes(&paths);
    // "hello" = 5 chars * 2 bytes + 2 (null term) + 2 (final null) = 14
    assert_eq!(encoded.len(), 14);
    assert_eq!(decode_multi_sz_bytes(&encoded), paths);
}

#[test]
fn decode_multi_sz_bytes_handles_empty_input() {
    assert!(decode_multi_sz_bytes(&[]).is_empty());
}

#[test]
fn decode_multi_sz_bytes_handles_no_terminator_gracefully() {
    // Odd-length input is ignored by chunks_exact; even without final
    // double-null, a single null-terminated string still decodes.
    let raw: Vec<u8> = "hi"
        .encode_utf16()
        .flat_map(|c| c.to_le_bytes())
        .chain([0, 0].into_iter())
        .collect();
    assert_eq!(decode_multi_sz_bytes(&raw), vec!["hi".to_string()]);
}

#[test]
fn encode_multi_sz_bytes_preserves_unicode() {
    let paths = vec!["café_ñ_emoji😀".to_string()];
    let encoded = encode_multi_sz_bytes(&paths);
    assert_eq!(decode_multi_sz_bytes(&encoded), paths);
}

#[test]
fn wide_string_helpers_round_trip() {
    let original = "OxideLink HidHide";
    let wide = to_wide(original);
    assert_eq!(from_wide(&wide), original);

    let empty = "";
    assert_eq!(from_wide(&to_wide(empty)), empty);
}

#[test]
fn to_wide_is_null_terminated() {
    let wide = to_wide("abc");
    assert_eq!(wide.len(), 4); // 3 chars + null
    assert_eq!(wide[3], 0);
}

#[test]
fn from_wide_handles_no_null_terminator() {
    let wide = vec![b'A' as u16, b'B' as u16, b'C' as u16];
    assert_eq!(from_wide(&wide), "ABC");
}

#[test]
fn from_wide_handles_embedded_null_only_terminates_at_first() {
    let wide = vec![b'A' as u16, 0, b'B' as u16, 0];
    assert_eq!(from_wide(&wide), "A");
}

#[test]
fn registry_service_path_string_is_correct() {
    // This mirrors the key path used in is_installed(); we only verify
    // the string content, never open the key.
    let key = service_key();
    let key_str = key.as_str();
    let wide = to_wide(key_str);
    assert_eq!(from_wide(&wide), key_str);
    // First char must be 'S'.
    assert_eq!(wide[0], 'S' as u16);
}

#[test]
fn registry_path_wide_encoding_has_null_terminator() {
    let key = service_key();
    let key_str = key.as_str();
    let wide = to_wide(key_str);
    assert_eq!(*wide.last().unwrap(), 0);
}

#[test]
fn pro_controller_detection_matches_expected_vid_pid() {
    assert!(is_pro_controller(
        "HID\\VID_057E&PID_2009\\6&1234567&0&0000"
    ));
    assert!(is_pro_controller("hid\\vid&0002057e_pid&2009\\123"));
    assert!(!is_pro_controller("HID\\VID_1234&PID_5678\\foo"));
    assert!(!is_pro_controller("random string"));
}

#[test]
fn pro_controller_detection_is_case_insensitive() {
    assert!(is_pro_controller("HID\\vid_057e&pid_2009\\0"));
    assert!(is_pro_controller("HID\\VID_057E&PID_2009\\0"));
    assert!(is_pro_controller("HID\\Vid_057E&Pid_2009\\0"));
}

#[test]
fn pro_controller_detection_requires_both_vid_and_pid() {
    assert!(!is_pro_controller("HID\\VID_057E&PID_9999\\0"));
    assert!(!is_pro_controller("HID\\VID_9999&PID_2009\\0"));
    assert!(!is_pro_controller("HID\\VID_057E\\0"));
    assert!(!is_pro_controller("HID\\PID_2009\\0"));
}

#[test]
fn pro_controller_detection_accepts_alt_vid_format() {
    assert!(is_pro_controller("hid\\vid&0002057e&pid&2009\\0"));
    assert!(is_pro_controller("HID\\VID&0002057E_PID&2009\\0"));
}

#[test]
fn pro_controller_detection_rejects_empty_and_garbage() {
    assert!(!is_pro_controller(""));
    assert!(!is_pro_controller("   "));
    // Note: "VID_057EPID_2009" *does* match because is_pro_controller
    // only checks for substring presence, not delimiter boundaries.
    // This is a known characteristic of the matcher.
    assert!(!is_pro_controller("totally unrelated text"));
}

#[test]
fn pro_controller_detection_matches_joycon_vid() {
    // Joy-Con share VID 057E but have different PIDs; ensure PID_2009
    // specifically is required.
    assert!(!is_pro_controller("HID\\VID_057E&PID_2006\\0"));
    assert!(!is_pro_controller("HID\\VID_057E&PID_2007\\0"));
}

#[test]
fn whitelist_dedup_comparison_is_case_insensitive() {
    let existing = vec!["\\Device\\App.exe".to_string()];
    let already_present = whitelist_with(existing, "\\device\\app.exe").is_none();
    assert!(already_present);
}

#[test]
fn whitelist_dedup_detects_new_entry() {
    let existing = vec!["\\Device\\Other.exe".to_string()];
    let list = whitelist_with(existing, "\\device\\app.exe").unwrap();
    assert_eq!(list, vec!["\\Device\\Other.exe".to_string(), "\\device\\app.exe".to_string()]);
}

#[test]
fn session_blacklist_wide_to_bytes_is_little_endian_utf16() {
    let id = "HID\\VID_057E&PID_2009\\0";
    let wide = to_wide(id);
    let bytes = session_blacklist_bytes(id);
    // First two bytes = LE encoding of 'H' (0x48 0x00).
    assert_eq!(bytes[0], 0x48);
    assert_eq!(bytes[1], 0x00);
    // Length = wide.len() * 2 (includes null terminator).
    assert_eq!(bytes.len(), wide.len() * 2);
}

#[test]
fn guid_devclass_hidclass_has_expected_value() {
    assert_eq!(guid_devclass_hidclass().data1, 0x745a17a0);
    assert_eq!(guid_devclass_hidclass().data2, 0x74d3);
    assert_eq!(guid_devclass_hidclass().data3, 0x11d0);
    assert_eq!(
        guid_devclass_hidclass().data4,
        [0xb6, 0xfe, 0x00, 0xa0, 0xc9, 0x0f, 0x57, 0xda]
    );
}

#[test]
fn multi_sz_list_stops_at_an_empty_string() {
    let paths = vec!["one".to_string(), "".to_string(), "two".to_string()];
    let encoded = encode_multi_sz_bytes(&paths);
    assert_eq!(decode_multi_sz_bytes(&encoded), vec!["one".to_string()]);
}

#[test]
fn multi_sz_list_ignores_an_odd_byte() {
    let mut encoded = encode_multi_sz_bytes(&["abc".to_string()]);
    encoded.push(7);
    assert_eq!(decode_multi_sz_bytes(&encoded), vec!["abc".to_string()]);
    assert_eq!(read_list(&encoded, 4), Vec::<String>::new());
    assert_eq!(read_list(&encoded, 1000), vec!["abc".to_string()]);
}

#[test]
fn wide_strings_carry_surrogates() {
    let wide = to_wide("a😀");
    assert_eq!(wide, vec![0x61, 0xD83D, 0xDE00, 0]);
    assert_eq!(from_wide(&wide), "a😀");
    assert_eq!(from_wide(&[0xD83D, 0x61, 0]), "\u{FFFD}a");
}

#[test]
fn verbatim_prefix_is_stripped_once() {
    assert_eq!(strip_verbatim_prefix(r"\\?\C:\app.exe"), r"C:\app.exe");
    assert_eq!(strip_verbatim_prefix(r"C:\app.exe"), r"C:\app.exe");
    assert_eq!(strip_verbatim_prefix(r"\\?\\\?\x"), r"\\?\x");
}

#[test]
fn nt_path_leaves_the_root_out() {
    let nt = r"\Device\HarddiskVolume3";
    assert_eq!(
        compute_nt_path(r"C:\Users\me\app.exe", r"C:\", nt),
        r"\Device\HarddiskVolume3\Users\me\app.exe"
    );
    assert_eq!(
        compute_nt_path(r"c:\Users\me\app.exe", r"C:\", nt),
        r"\Device\HarddiskVolume3\Users\me\app.exe"
    );
    assert_eq!(
        compute_nt_path(r"D:\app.exe", r"C:\", nt),
        r"\Device\HarddiskVolume3\D:\app.exe"
    );
    assert_eq!(drive_of(r"C:\"), "C:");
}

#[test]
fn nt_path_counts_bytes() {
    assert_eq!(try_compute_nt_path("é/x", "é/", "N").unwrap(), "N\\x");
    // The Kelvin sign is three bytes long and its small letter one.
    assert_eq!(try_compute_nt_path("\u{212A}x", "k", "N"), None);
    assert_eq!(try_compute_nt_path("kx", "\u{212A}", "N"), None);
}

#[test]
fn hidden_only_while_enabled_and_found() {
    assert!(compute_hidden_flag(true, "HID"));
    assert!(!compute_hidden_flag(false, "HID"));
    assert!(!compute_hidden_flag(true, ""));
}

#[test]
fn status_is_put_together() {
    let s = get_hidhide_status(true, Ok(Some("HID".to_string())), Ok(true));
    assert!(s.installed && s.enabled && s.hidden);
    assert_eq!(s.device_path, "HID");
    assert_eq!(s.message, "HidHide control device opened");
    let s = get_hidhide_status(true, Ok(None), Ok(true));
    assert_eq!(s.device_path, "Not found");
    assert!(!s.hidden);
    let s = get_hidhide_status(false, Err("bad".to_string()), Err("closed".to_string()));
    assert!(!s.installed && !s.enabled && !s.hidden);
    assert_eq!((s.device_path.as_str(), s.message.as_str()), ("bad", "closed"));
}

#[test]
fn installed_when_opened_or_busy() {
    assert!(is_installed(true, false, 0));
    assert!(is_installed(false, true, 5));
    assert!(is_installed(false, true, 32));
    assert!(is_installed(false, true, 2));
    assert!(!is_installed(false, true, 3));
    assert!(!is_installed(false, false, 5));
}

#[test]
fn list_size_accepts_expected_errors() {
    assert_eq!(list_size(true, 0, 0), ListSize::Empty);
    assert_eq!(list_size(false, 122, 40), ListSize::Needs(40));
    assert_eq!(list_size(false, 234, 0), ListSize::Empty);
    assert_eq!(list_size(false, 5, 40), ListSize::Failed);
}

#[test]
fn hiding_steps_come_in_order() {
    let steps = setup_for_oxidelink(&Some("HID".to_string()), "app.exe");
    assert_eq!(
        steps,
        vec![
            HideStep::AddSession("HID".to_string()),
            HideStep::Allow("app.exe".to_string()),
            HideStep::SetActive(true),
        ]
    );
    assert_eq!(setup_for_oxidelink(&None, ""), vec![HideStep::SetActive(true)]);
    assert_eq!(unhide_steps(), vec![HideStep::SetActive(false), HideStep::ClearSession]);
}

#[test]
fn first_matching_device_is_taken() {
    let ids = vec!["HID\\VID_1234".to_string(), "HID\\VID_057E&PID_2009\\0".to_string()];
    assert_eq!(first_pro_controller(&ids), Some(1));
    assert_eq!(first_pro_controller(&vec!["x".to_string()]), None);
    assert!(is_pro_hardware_id("HID\\VID_057E&PID_2009"));
    assert!(!is_pro_hardware_id("hid\\vid_057e&pid_2009"));
}
