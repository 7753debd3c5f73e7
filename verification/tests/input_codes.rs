use asset_core::input::{ActionState, ActionTrigger, HostPlatform, MouseButton, PointerKind,
    ScanCode, ScrollDirection};

#[test]
fn usb_hid_codes_round_trip() {
    assert_eq!(ScanCode::from_usb_hid(4), Some(ScanCode::A));
    assert_eq!(ScanCode::from_usb_hid(40), Some(ScanCode::Enter));
    assert_eq!(ScanCode::from_usb_hid(224), Some(ScanCode::LeftControl));
    // Codes below the table's first entry name no key.
    assert_eq!(ScanCode::from_usb_hid(3), None);
    // Only the low byte carries the usage: 260 selects like 4 does.
    assert_eq!(ScanCode::from_usb_hid(260), Some(ScanCode::A));
    assert_eq!(ScanCode::from_usb_hid(1000), None);
}

#[test]
fn platform_maps_translate_raw_scancodes() {
    assert_eq!(ScanCode::from_windows(1), Some(ScanCode::Escape));
    assert_eq!(ScanCode::from_windows(30), Some(ScanCode::A));
    assert_eq!(ScanCode::from_windows(0), None);
    assert_eq!(ScanCode::from_macos(0), Some(ScanCode::A));
    assert_eq!(ScanCode::from_macos(53), Some(ScanCode::Escape));
    assert_eq!(ScanCode::from_linux(9), Some(ScanCode::Escape));
    assert_eq!(ScanCode::from_linux(38), Some(ScanCode::A));
    assert_eq!(ScanCode::from_linux(0), None);
}

#[test]
fn from_platform_dispatches_on_the_host() {
    assert_eq!(
        ScanCode::from_platform(HostPlatform::Windows, 1),
        ScanCode::from_windows(1),
    );
    assert_eq!(ScanCode::from_platform(HostPlatform::Macos, 0), Some(ScanCode::A));
    assert_eq!(ScanCode::from_platform(HostPlatform::Linux, 9), Some(ScanCode::Escape));
}

#[test]
fn action_triggers_compare_by_binding() {
    let a = ActionTrigger::Key(ScanCode::Space);
    let b = ActionTrigger::Key(ScanCode::Space);
    assert_eq!(a, b);
    assert_ne!(a, ActionTrigger::Mouse(MouseButton::Left));
    assert_ne!(
        ActionTrigger::Scroll(ScrollDirection::Vertical),
        ActionTrigger::Scroll(ScrollDirection::Horizontal),
    );
    assert_ne!(MouseButton::Other(3), MouseButton::Other(4));
    assert_eq!(PointerKind::Primary, PointerKind::Primary);
    assert_ne!(ActionState::Start, ActionState::End);
}
