use evdevil::event::Key;
use rm_pad::eraser::EraserAction;

#[test]
fn test_default_is_right_click() {
    assert_eq!(EraserAction::default(), EraserAction::RightClick);
}

#[test]
fn test_from_str() {
    assert_eq!("none".parse::<EraserAction>().unwrap(), EraserAction::NoAction);
    assert_eq!("right-click".parse::<EraserAction>().unwrap(), EraserAction::RightClick);
    assert_eq!("left_click".parse::<EraserAction>().unwrap(), EraserAction::LeftClick);
    assert_eq!("MiddleClick".parse::<EraserAction>().unwrap(), EraserAction::MiddleClick);
    assert_eq!("touchpad".parse::<EraserAction>().unwrap(), EraserAction::Touchpad);
    assert_eq!("touchscreen".parse::<EraserAction>().unwrap(), EraserAction::Touchscreen);
    assert!("invalid".parse::<EraserAction>().is_err());
}

#[test]
fn test_display_roundtrip() {
    for action in [
        EraserAction::NoAction,
        EraserAction::RightClick,
        EraserAction::LeftClick,
        EraserAction::MiddleClick,
        EraserAction::Touchpad,
        EraserAction::Touchscreen,
    ] {
        assert_eq!(action.to_string().parse::<EraserAction>().unwrap(), action);
    }
}

#[test]
fn test_button_key() {
    assert_eq!(EraserAction::LeftClick.button_key(), Some(Key::BTN_LEFT));
    assert_eq!(EraserAction::RightClick.button_key(), Some(Key::BTN_RIGHT));
    assert_eq!(EraserAction::MiddleClick.button_key(), Some(Key::BTN_MIDDLE));
    assert_eq!(EraserAction::NoAction.button_key(), None);
    assert_eq!(EraserAction::Touchpad.button_key(), None);
}

#[test]
fn test_flags() {
    assert!(EraserAction::Touchpad.is_touchpad());
    assert!(!EraserAction::RightClick.is_touchpad());
    assert!(EraserAction::Touchpad.is_implemented());
    assert!(!EraserAction::Touchscreen.is_implemented());
}

#[test]
fn eraser_aliases_and_case_folding() {
    assert_eq!(EraserAction::try_from_str("RIGHTCLICK"), Ok(EraserAction::RightClick));
    assert_eq!(EraserAction::try_from_str("middle_click"), Ok(EraserAction::MiddleClick));
    assert_eq!(EraserAction::try_from_str("LeftClick"), Ok(EraserAction::LeftClick));
    assert_eq!(EraserAction::try_from_str("TouchPad"), Ok(EraserAction::Touchpad));
}

#[test]
fn eraser_error_message_names_input() {
    assert_eq!(
        EraserAction::try_from_str("Bogus"),
        Err("Invalid eraser action 'Bogus'. Valid values: none, left-click, middle-click, right-click, touchpad, touchscreen".to_string())
    );
}

#[test]
fn eraser_button_codes() {
    assert_eq!(EraserAction::LeftClick.button_code(), Some(0x110));
    assert_eq!(EraserAction::RightClick.button_code(), Some(0x111));
    assert_eq!(EraserAction::MiddleClick.button_code(), Some(0x112));
    assert_eq!(EraserAction::Touchscreen.button_code(), None);
    assert_eq!(EraserAction::Touchscreen.button_key(), None);
}

#[test]
fn eraser_canonical_names() {
    assert_eq!(EraserAction::NoAction.to_string(), "none");
    assert_eq!(EraserAction::MiddleClick.to_string(), "middle-click");
    assert_eq!(EraserAction::from_lowercase("leftclick"), Some(EraserAction::LeftClick));
    assert_eq!(EraserAction::from_lowercase("LEFTCLICK"), None);
}

#[test]
fn eraser_non_ascii_lowercase() {
    // U+212A KELVIN SIGN lowercases to an ASCII 'k'.
    assert_eq!(EraserAction::try_from_str("LEFTCLIC\u{212A}"), Ok(EraserAction::LeftClick));
}
