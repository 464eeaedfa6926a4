use rm_pad::eraser::EraserAction;
use rm_pad::pen::{
    eraser_pad_frame, PenState, RawEvent, ABS_MT_POSITION_X, ABS_MT_POSITION_Y, ABS_MT_SLOT,
    ABS_MT_TRACKING_ID, ABS_PRESSURE, ABS_TILT_X, ABS_TILT_Y, ABS_X, ABS_Y, BTN_TOOL_FINGER,
    BTN_TOOL_RUBBER, BTN_TOUCH, EV_ABS, EV_KEY, EV_SYN, SYN_REPORT,
};

fn abs(code: u16, value: i32) -> RawEvent {
    RawEvent { ty: EV_ABS, code, value }
}
fn key(code: u16, value: i32) -> RawEvent {
    RawEvent { ty: EV_KEY, code, value }
}
fn syn() -> RawEvent {
    RawEvent { ty: EV_SYN, code: SYN_REPORT, value: 0 }
}

#[test]
fn pen_frame_puts_contact_and_position_first() {
    let mut s = PenState::new();
    assert!(s.on_event(abs(ABS_X, 100)).is_none());
    assert!(s.on_event(abs(ABS_Y, 200)).is_none());
    assert!(s.on_event(abs(ABS_TILT_X, 3)).is_none());
    assert!(s.on_event(abs(ABS_TILT_Y, 4)).is_none());
    assert!(s.on_event(abs(ABS_PRESSURE, 50)).is_none());
    let f = s.on_event(syn()).unwrap();
    assert_eq!(f.pos, Some((100, 200)));
    assert_eq!(f.tilt, Some((3, 4)));
    let out = s.finish_frame(EraserAction::RightClick, Some((10, 20)), Some((30, 40)));
    assert!(out.now_touching && out.first_frame && !out.report_count);
    assert_eq!(out.frames_forwarded, 1);
    assert!(out.pad_events.is_empty());
    assert_eq!(
        out.pen_events,
        vec![
            key(BTN_TOUCH, 1),
            abs(ABS_TILT_X, 30),
            abs(ABS_TILT_Y, 40),
            abs(ABS_X, 10),
            abs(ABS_Y, 20),
            abs(ABS_PRESSURE, 50),
            syn()
        ]
    );
    // Lifting the pen releases the touch.
    s.on_event(abs(ABS_PRESSURE, 0));
    let f = s.on_event(syn()).unwrap();
    assert_eq!(f.pos, None);
    let out = s.finish_frame(EraserAction::RightClick, None, None);
    assert_eq!(out.pen_events, vec![key(BTN_TOUCH, 0), abs(ABS_PRESSURE, 0), syn()]);
    assert!(!out.first_frame);
    assert_eq!(s.frames_forwarded(), 2);
}

#[test]
fn eraser_click_holds_button() {
    let mut s = PenState::new();
    s.on_event(key(BTN_TOOL_RUBBER, 1));
    s.on_event(abs(ABS_PRESSURE, 9));
    s.on_event(syn()).unwrap();
    let out = s.finish_frame(EraserAction::LeftClick, None, None);
    assert_eq!(out.pen_events, vec![key(0x110, 1), key(BTN_TOOL_RUBBER, 1), abs(ABS_PRESSURE, 9), syn()]);
    s.on_event(abs(ABS_PRESSURE, 0));
    s.on_event(syn()).unwrap();
    let out = s.finish_frame(EraserAction::LeftClick, None, None);
    assert_eq!(out.pen_events, vec![key(0x110, 0), abs(ABS_PRESSURE, 0), syn()]);
}

#[test]
fn eraser_touchpad_routes_to_pad() {
    let mut s = PenState::new();
    // Pen tip touching first.
    s.on_event(abs(ABS_PRESSURE, 5));
    s.on_event(syn());
    s.finish_frame(EraserAction::Touchpad, Some((1, 1)), None);
    // Flip to eraser and press: the pen touch is released, the pad starts a contact.
    s.on_event(key(BTN_TOOL_RUBBER, 1));
    s.on_event(abs(ABS_PRESSURE, 5));
    s.on_event(syn());
    let out = s.finish_frame(EraserAction::Touchpad, Some((7, 8)), None);
    assert!(!out.pad_first);
    assert_eq!(out.pen_events, vec![key(BTN_TOUCH, 0), syn()]);
    assert_eq!(
        out.pad_events,
        vec![
            abs(ABS_MT_SLOT, 0),
            abs(ABS_MT_TRACKING_ID, 1),
            abs(ABS_MT_POSITION_X, 7),
            abs(ABS_MT_POSITION_Y, 8),
            abs(ABS_X, 7),
            abs(ABS_Y, 8),
            key(BTN_TOUCH, 1),
            key(BTN_TOOL_FINGER, 1),
            syn()
        ]
    );
    // Back to the tip: the pad contact is lifted before the pen frame.
    s.on_event(key(BTN_TOOL_RUBBER, 0));
    s.on_event(abs(ABS_PRESSURE, 0));
    s.on_event(syn());
    let out = s.finish_frame(EraserAction::Touchpad, None, None);
    assert!(out.pad_first);
    assert_eq!(
        out.pad_events,
        vec![abs(ABS_MT_SLOT, 0), abs(ABS_MT_TRACKING_ID, -1), key(BTN_TOUCH, 0), key(BTN_TOOL_FINGER, 0), syn()]
    );
}

#[test]
fn unimplemented_action_warns_once() {
    let mut s = PenState::new();
    s.on_event(key(BTN_TOOL_RUBBER, 1));
    s.on_event(abs(ABS_PRESSURE, 1));
    s.on_event(syn());
    let out = s.finish_frame(EraserAction::Touchscreen, None, None);
    assert!(out.warn_unimplemented);
    assert_eq!(out.pen_events, vec![key(BTN_TOOL_RUBBER, 1), abs(ABS_PRESSURE, 1), syn()]);
    s.on_event(syn());
    let out = s.finish_frame(EraserAction::Touchscreen, None, None);
    assert!(!out.warn_unimplemented);
}

#[test]
fn report_every_interval() {
    let mut s = PenState::new();
    let mut reports = 0;
    for _ in 0..1000 {
        s.on_event(syn());
        if s.finish_frame(EraserAction::NoAction, None, None).report_count {
            reports += 1;
        }
    }
    assert_eq!(reports, 2);
}

#[test]
fn pad_tracking_id_wraps_non_negative() {
    let mut down = false;
    let mut id = i32::MAX;
    let f = eraser_pad_frame(true, Some((1, 2)), &mut down, &mut id);
    assert_eq!(id, 0);
    assert!(down);
    assert_eq!(f[1], abs(ABS_MT_TRACKING_ID, 0));
    // No position yet: nothing to report.
    let mut down = false;
    let mut id = 5;
    assert!(eraser_pad_frame(true, None, &mut down, &mut id).is_empty());
    assert!(!down);
    assert_eq!(id, 5);
    // Moving contact reports the position only.
    let mut down = true;
    let f = eraser_pad_frame(true, Some((3, 4)), &mut down, &mut id);
    assert_eq!(f.len(), 6);
    assert!(eraser_pad_frame(false, None, &mut false, &mut id).is_empty());
}
