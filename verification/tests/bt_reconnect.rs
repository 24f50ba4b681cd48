use oxidelink::bt_reconnect::{
    format_bt_address, hid_service_guid, is_pro_controller_name, wide_to_string, DeviceStep,
    RadioStep, Search, MAX_DEVICES, MAX_RADIOS,
};

#[test]
fn test_is_pro_controller_name() {
    assert!(is_pro_controller_name("Pro Controller"));
    assert!(is_pro_controller_name("Nintendo Pro Controller"));
    assert!(is_pro_controller_name("pro controller"));
    assert!(!is_pro_controller_name("Joy-Con (L)"));
    assert!(!is_pro_controller_name(""));
    assert!(!is_pro_controller_name("Unknown Device"));
}

#[test]
fn test_wide_to_string() {
    let buf: [u16; 248] = {
        let mut arr = [0u16; 248];
        let s = "Pro Controller";
        for (i, c) in s.encode_utf16().enumerate() {
            arr[i] = c;
        }
        arr
    };
    assert_eq!(wide_to_string(&buf), "Pro Controller");
}

#[test]
fn test_wide_to_string_empty() {
    let buf = [0u16; 248];
    assert_eq!(wide_to_string(&buf), "");
}

#[test]
fn test_format_bt_address() {
    let addr = [0x22, 0x6C, 0x78, 0x77, 0x31, 0x48];
    assert_eq!(format_bt_address(&addr), "48:31:77:78:6C:22");
}

#[test]
fn test_hid_service_guid() {
    // Verify the GUID matches the Bluetooth HID service UUID.
    assert_eq!(hid_service_guid().data1, 0x00001124);
}

#[test]
fn search_enables_a_disconnected_controller() {
    let mut s = Search::new();
    s.begin_radio();
    assert_eq!(s.see_device("Headset", true), DeviceStep::Next);
    assert_eq!(s.see_device("PRO CONTROLLER", false), DeviceStep::Enable);
    assert!(s.found && !s.connected);
    assert_eq!(s.see_enabled(true), DeviceStep::Finish);
    assert!(s.connected);
    assert_eq!(s.end_radio(), RadioStep::Stop);
}

#[test]
fn search_goes_on_when_enabling_fails() {
    let mut s = Search::new();
    s.begin_radio();
    assert_eq!(s.see_device("Pro Controller", false), DeviceStep::Enable);
    assert_eq!(s.see_enabled(false), DeviceStep::Next);
    assert_eq!(s.see_device("Pro Controller", true), DeviceStep::Finish);
    assert_eq!(s.devices, 2);
}

#[test]
fn search_gives_up_at_its_limits() {
    let mut s = Search::new();
    for radio in 0..MAX_RADIOS {
        s.begin_radio();
        for i in 1..=MAX_DEVICES {
            let step = s.see_device("Mouse", false);
            assert_eq!(step, if i == MAX_DEVICES { DeviceStep::GiveUp } else { DeviceStep::Next });
        }
        let want = if radio + 1 == MAX_RADIOS { RadioStep::Stop } else { RadioStep::Next };
        assert_eq!(s.end_radio(), want);
    }
    assert!(!s.found && !s.connected);
}
