//! The decisions of pen forwarding, as a state machine over raw input
//! events.
//!
//! Events from the tablet's pen device are fed in one by one. Position and
//! tilt are held back until the frame's `SYN_REPORT`; the caller then
//! transforms them for the screen orientation and asks for the frame's
//! output: the events to write to the virtual pen device and, when the eraser
//! drives a touchpad-style device, to that device.
use vstd::prelude::*;

use crate::eraser::{eraser_button_code, EraserAction};
use crate::keys::{btn_tool_finger_code, btn_touch_code};

verus! {

pub const EV_SYN: u16 = 0x00;

pub const EV_KEY: u16 = 0x01;

pub const EV_ABS: u16 = 0x03;

pub const SYN_REPORT: u16 = 0;

pub const ABS_X: u16 = 0x00;

pub const ABS_Y: u16 = 0x01;

pub const ABS_PRESSURE: u16 = 0x18;

pub const ABS_TILT_X: u16 = 0x1a;

pub const ABS_TILT_Y: u16 = 0x1b;

pub const ABS_MT_SLOT: u16 = 0x2f;

pub const ABS_MT_POSITION_X: u16 = 0x35;

pub const ABS_MT_POSITION_Y: u16 = 0x36;

pub const ABS_MT_TRACKING_ID: u16 = 0x39;

pub const BTN_TOOL_RUBBER: u16 = 0x141;

/// Key code of `BTN_TOUCH`.
pub const BTN_TOUCH: u16 = 0x14a;

/// Key code of `BTN_TOOL_FINGER`.
pub const BTN_TOOL_FINGER: u16 = 0x145;

/// Frames between two progress reports.
pub const FRAME_REPORT_INTERVAL: u64 = 500;

/// An input event: type, code and value.
#[derive(Debug, Clone, Copy, PartialEq, Eq, Structural)]
pub struct RawEvent {
    pub ty: u16,
    pub code: u16,
    pub value: i32,
}

/// An absolute-axis event.
pub open spec fn abs_ev(code: u16, value: i32) -> RawEvent {
    RawEvent { ty: EV_ABS, code, value }
}

/// A key event.
pub open spec fn key_ev(code: u16, value: i32) -> RawEvent {
    RawEvent { ty: EV_KEY, code, value }
}

/// The end-of-frame event.
pub open spec fn syn_ev() -> RawEvent {
    RawEvent { ty: EV_SYN, code: SYN_REPORT, value: 0 }
}

fn abs_event(code: u16, value: i32) -> (r: RawEvent)
    ensures
        r == abs_ev(code, value),
{
    RawEvent { ty: EV_ABS, code, value }
}

fn key_event(code: u16, value: i32) -> (r: RawEvent)
    ensures
        r == key_ev(code, value),
{
    RawEvent { ty: EV_KEY, code, value }
}

fn syn_event() -> (r: RawEvent)
    ensures
        r == syn_ev(),
{
    RawEvent { ty: EV_SYN, code: SYN_REPORT, value: 0 }
}

/// The next touchpad tracking id: one more, wrapping, kept non-negative.
pub open spec fn next_tracking_id(t: i32) -> i32 {
    t.wrapping_add(1) & 0x7fff_ffff
}

/// A touchpad frame: slot 0 selected, the body, then the end of frame.
pub open spec fn pad_frame_of(body: Seq<RawEvent>) -> Seq<RawEvent> {
    seq![abs_ev(ABS_MT_SLOT, 0)] + body + seq![syn_ev()]
}

/// What one touchpad frame holds, and the contact state and tracking id
/// after it, for the current contact state and position: a new contact
/// starts only once there is a position, moves report the position, and a
/// lifted contact ends the touch. The frame is empty when nothing changed.
pub open spec fn pad_frame(now_touching: bool, pos: Option<(i32, i32)>, pad_down: bool, tid: i32) -> (
    Seq<RawEvent>,
    bool,
    i32,
) {
    if now_touching {
        if !pad_down {
            match pos {
                Some((x, y)) => {
                    let t = next_tracking_id(tid);
                    (
                        pad_frame_of(
                            seq![
                                abs_ev(ABS_MT_TRACKING_ID, t),
                                abs_ev(ABS_MT_POSITION_X, x),
                                abs_ev(ABS_MT_POSITION_Y, y),
                                abs_ev(ABS_X, x),
                                abs_ev(ABS_Y, y),
                                key_ev(BTN_TOUCH, 1),
                                key_ev(BTN_TOOL_FINGER, 1),
                            ],
                        ),
                        true,
                        t,
                    )
                },
                None => (Seq::empty(), false, tid),
            }
        } else {
            match pos {
                Some((x, y)) => (
                    pad_frame_of(
                        seq![
                            abs_ev(ABS_MT_POSITION_X, x),
                            abs_ev(ABS_MT_POSITION_Y, y),
                            abs_ev(ABS_X, x),
                            abs_ev(ABS_Y, y),
                        ],
                    ),
                    true,
                    tid,
                ),
                None => (Seq::empty(), true, tid),
            }
        }
    } else if pad_down {
        (
            pad_frame_of(
                seq![
                    abs_ev(ABS_MT_TRACKING_ID, -1i32),
                    key_ev(BTN_TOUCH, 0),
                    key_ev(BTN_TOOL_FINGER, 0),
                ],
            ),
            false,
            tid,
        )
    } else {
        (Seq::empty(), false, tid)
    }
}

/// The events of one frame for the eraser's touchpad-style device, for the
/// current contact state; updates whether a contact is down and the contact's
/// tracking id. Returns no events when nothing changed.
pub fn eraser_pad_frame(
    now_touching: bool,
    pos: Option<(i32, i32)>,
    pad_down: &mut bool,
    tracking_id: &mut i32,
) -> (r: Vec<RawEvent>)
    ensures
        (r@, *final(pad_down), *final(tracking_id)) == pad_frame(
            now_touching,
            pos,
            *old(pad_down),
            *old(tracking_id),
        ),
{
    let mut body: Vec<RawEvent> = Vec::new();
    let touch = btn_touch_code();
    let finger = btn_tool_finger_code();
    if now_touching {
        if !*pad_down {
            match pos {
                Some((x, y)) => {
                    *tracking_id = tracking_id.wrapping_add(1) & 0x7fff_ffff;
                    body.push(abs_event(ABS_MT_TRACKING_ID, *tracking_id));
                    body.push(abs_event(ABS_MT_POSITION_X, x));
                    body.push(abs_event(ABS_MT_POSITION_Y, y));
                    body.push(abs_event(ABS_X, x));
                    body.push(abs_event(ABS_Y, y));
                    body.push(key_event(touch, 1));
                    body.push(key_event(finger, 1));
                    *pad_down = true;
                },
                None => {
                    return Vec::new();
                },
            }
        } else if let Some((x, y)) = pos {
            body.push(abs_event(ABS_MT_POSITION_X, x));
            body.push(abs_event(ABS_MT_POSITION_Y, y));
            body.push(abs_event(ABS_X, x));
            body.push(abs_event(ABS_Y, y));
        }
    } else if *pad_down {
        body.push(abs_event(ABS_MT_TRACKING_ID, -1));
        body.push(key_event(touch, 0));
        body.push(key_event(finger, 0));
        *pad_down = false;
    }
    if body.len() == 0 {
        return Vec::new();
    }
    let mut frame: Vec<RawEvent> = Vec::new();
    frame.push(abs_event(ABS_MT_SLOT, 0));
    frame.append(&mut body);
    frame.push(syn_event());
    frame
}

/// Position and tilt of a completed frame, as the tablet reported them.
#[derive(Debug, Clone, Copy, PartialEq, Eq)]
pub struct PendingFrame {
    /// `(x, y)` when both were reported in the frame.
    pub pos: Option<(i32, i32)>,
    /// `(tilt_x, tilt_y)` when both were reported in the frame.
    pub tilt: Option<(i32, i32)>,
}

/// The output of one frame.
pub struct FrameOutput {
    /// Whether `pad_events` are written before `pen_events`.
    pub pad_first: bool,
    /// Events for the virtual pen device (not written when empty).
    pub pen_events: Vec<RawEvent>,
    /// Events for the eraser's touchpad device (not written when empty).
    pub pad_events: Vec<RawEvent>,
    /// Whether the pen (tip or eraser) is pressed on the surface.
    pub now_touching: bool,
    /// The eraser is used with an action that is not implemented, for the
    /// first time.
    pub warn_unimplemented: bool,
    /// This is the first frame forwarded.
    pub first_frame: bool,
    /// The number of frames forwarded is a multiple of the report interval.
    pub report_count: bool,
    /// Frames forwarded so far, this one included.
    pub frames_forwarded: u64,
}

/// A frame's output as plain values.
pub struct FrameView {
    pub pad_first: bool,
    pub pen_events: Seq<RawEvent>,
    pub pad_events: Seq<RawEvent>,
    pub now_touching: bool,
    pub warn_unimplemented: bool,
    pub first_frame: bool,
    pub report_count: bool,
    pub frames_forwarded: u64,
}

impl View for FrameOutput {
    type V = FrameView;

    open spec fn view(&self) -> FrameView {
        FrameView {
            pad_first: self.pad_first,
            pen_events: self.pen_events@,
            pad_events: self.pad_events@,
            now_touching: self.now_touching,
            warn_unimplemented: self.warn_unimplemented,
            first_frame: self.first_frame,
            report_count: self.report_count,
            frames_forwarded: self.frames_forwarded,
        }
    }
}

/// The forwarding state, as plain values.
pub struct PenView {
    /// `BTN_TOUCH` is asserted on the pen device.
    pub touch_down: bool,
    /// The pen is flipped to its eraser end.
    pub eraser_active: bool,
    /// The mouse button held for the eraser on the pen device.
    pub button_held: Option<u16>,
    /// A contact is down on the eraser's touchpad device.
    pub pad_down: bool,
    /// Tracking id of the last touchpad contact.
    pub tracking_id: i32,
    /// The unimplemented-action warning was already given.
    pub warned: bool,
    pub pending_x: Option<i32>,
    pub pending_y: Option<i32>,
    pub pending_tilt_x: Option<i32>,
    pub pending_tilt_y: Option<i32>,
    /// Events of the current frame, other than position and tilt.
    pub batch: Seq<RawEvent>,
    /// Frames forwarded so far.
    pub frame_count: u64,
}

/// The state of pen forwarding between events.
pub struct PenState {
    touch_down: bool,
    eraser_active: bool,
    button_held: Option<u16>,
    pad_down: bool,
    tracking_id: i32,
    warned: bool,
    pending_x: Option<i32>,
    pending_y: Option<i32>,
    pending_tilt_x: Option<i32>,
    pending_tilt_y: Option<i32>,
    batch: Vec<RawEvent>,
    frame_count: u64,
}

impl View for PenState {
    type V = PenView;

    closed spec fn view(&self) -> PenView {
        PenView {
            touch_down: self.touch_down,
            eraser_active: self.eraser_active,
            button_held: self.button_held,
            pad_down: self.pad_down,
            tracking_id: self.tracking_id,
            warned: self.warned,
            pending_x: self.pending_x,
            pending_y: self.pending_y,
            pending_tilt_x: self.pending_tilt_x,
            pending_tilt_y: self.pending_tilt_y,
            batch: self.batch@,
            frame_count: self.frame_count,
        }
    }
}

/// Both values, when both are present.
pub open spec fn both(a: Option<i32>, b: Option<i32>) -> Option<(i32, i32)> {
    match (a, b) {
        (Some(x), Some(y)) => Some((x, y)),
        _ => None,
    }
}

/// The state and result after one input event: the eraser flag follows
/// `BTN_TOOL_RUBBER`; position and tilt are held back; other events join the
/// frame, and `SYN_REPORT` completes it, handing out the held-back position
/// and tilt.
pub open spec fn on_event_spec(s: PenView, ev: RawEvent) -> (PenView, Option<PendingFrame>) {
    let s1 = if ev.ty == EV_KEY && ev.code == BTN_TOOL_RUBBER {
        PenView { eraser_active: ev.value != 0, ..s }
    } else {
        s
    };
    if ev.ty == EV_ABS && ev.code == ABS_X {
        (PenView { pending_x: Some(ev.value), ..s1 }, None)
    } else if ev.ty == EV_ABS && ev.code == ABS_Y {
        (PenView { pending_y: Some(ev.value), ..s1 }, None)
    } else if ev.ty == EV_ABS && ev.code == ABS_TILT_X {
        (PenView { pending_tilt_x: Some(ev.value), ..s1 }, None)
    } else if ev.ty == EV_ABS && ev.code == ABS_TILT_Y {
        (PenView { pending_tilt_y: Some(ev.value), ..s1 }, None)
    } else {
        let s2 = PenView { batch: s1.batch.push(ev), ..s1 };
        if ev.ty != EV_SYN || ev.code != SYN_REPORT {
            (s2, None)
        } else {
            (
                PenView {
                    pending_x: None,
                    pending_y: None,
                    pending_tilt_x: None,
                    pending_tilt_y: None,
                    ..s2
                },
                Some(
                    PendingFrame {
                        pos: both(s1.pending_x, s1.pending_y),
                        tilt: both(s1.pending_tilt_x, s1.pending_tilt_y),
                    },
                ),
            )
        }
    }
}

/// The value of the last pressure event of the frame, or 0.
pub open spec fn last_pressure(b: Seq<RawEvent>) -> i32
    decreases b.len(),
{
    if b.len() == 0 {
        0
    } else if b.last().ty == EV_ABS && b.last().code == ABS_PRESSURE {
        b.last().value
    } else {
        last_pressure(b.drop_last())
    }
}

/// The action in effect: an unimplemented action does nothing while the
/// eraser is in use.
pub open spec fn effective_action(eraser_active: bool, action: EraserAction) -> EraserAction {
    if eraser_active && action == EraserAction::Touchscreen {
        EraserAction::NoAction
    } else {
        action
    }
}

/// Releases for the pen device when the eraser moves to the touchpad device:
/// lift the touch and the held button, then end the frame (nothing when
/// nothing is asserted).
pub open spec fn release_events(touch_down: bool, held: Option<u16>) -> Seq<RawEvent> {
    let r1 = if touch_down {
        seq![key_ev(BTN_TOUCH, 0)]
    } else {
        Seq::empty()
    };
    let r2 = match held {
        Some(b) => r1.push(key_ev(b, 0)),
        None => r1,
    };
    if r2.len() > 0 {
        r2.push(syn_ev())
    } else {
        r2
    }
}

/// The pen device's touch and button for this frame: with the eraser in use,
/// no touch and the action's button while pressed; otherwise the touch
/// follows the pressure.
pub open spec fn desired_contact(eraser_active: bool, now: bool, effective: EraserAction) -> (
    bool,
    Option<u16>,
) {
    if eraser_active {
        (
            false,
            if now {
                eraser_button_code(effective)
            } else {
                None
            },
        )
    } else {
        (now, None)
    }
}

/// The pen device's frame: touch change, button changes, tilt and position
/// ahead of the frame's other events.
pub open spec fn pen_frame(
    batch: Seq<RawEvent>,
    pos: Option<(i32, i32)>,
    tilt: Option<(i32, i32)>,
    touch_down: bool,
    held: Option<u16>,
    desired_touch: bool,
    desired_button: Option<u16>,
) -> Seq<RawEvent> {
    let b1 = match pos {
        Some((x, y)) => seq![abs_ev(ABS_X, x), abs_ev(ABS_Y, y)] + batch,
        None => batch,
    };
    let b2 = match tilt {
        Some((tx, ty)) => seq![abs_ev(ABS_TILT_X, tx), abs_ev(ABS_TILT_Y, ty)] + b1,
        None => b1,
    };
    let b3 = if desired_button != held {
        let c1 = match held {
            Some(o) => seq![key_ev(o, 0)] + b2,
            None => b2,
        };
        match desired_button {
            Some(n) => seq![key_ev(n, 1)] + c1,
            None => c1,
        }
    } else {
        b2
    };
    if desired_touch != touch_down {
        seq![key_ev(BTN_TOUCH, if desired_touch { 1 } else { 0 })] + b3
    } else {
        b3
    }
}

/// The state and output after completing a frame with (transformed)
/// position and tilt, under the configured eraser action.
pub open spec fn finish_spec(
    s: PenView,
    action: EraserAction,
    pos: Option<(i32, i32)>,
    tilt: Option<(i32, i32)>,
) -> (PenView, FrameView) {
    let now = last_pressure(s.batch) > 0;
    let unimplemented = s.eraser_active && action == EraserAction::Touchscreen;
    let warn = unimplemented && !s.warned;
    let warned = s.warned || unimplemented;
    let eff = effective_action(s.eraser_active, action);
    let count = (s.frame_count + 1) as u64;
    let first = s.frame_count == 0;
    let report = count % FRAME_REPORT_INTERVAL == 0;
    if s.eraser_active && eff == EraserAction::Touchpad {
        let (pad, pd, tid) = pad_frame(now, pos, s.pad_down, s.tracking_id);
        (
            PenView {
                touch_down: false,
                button_held: None,
                pad_down: pd,
                tracking_id: tid,
                warned,
                batch: Seq::empty(),
                frame_count: count,
                ..s
            },
            FrameView {
                pad_first: false,
                pen_events: release_events(s.touch_down, s.button_held),
                pad_events: pad,
                now_touching: now,
                warn_unimplemented: warn,
                first_frame: first,
                report_count: report,
                frames_forwarded: count,
            },
        )
    } else {
        let (pad, pd, tid) = if s.pad_down {
            pad_frame(false, None, true, s.tracking_id)
        } else {
            (Seq::empty(), false, s.tracking_id)
        };
        let (dt, db) = desired_contact(s.eraser_active, now, eff);
        (
            PenView {
                touch_down: dt,
                button_held: db,
                pad_down: pd,
                tracking_id: tid,
                warned,
                batch: Seq::empty(),
                frame_count: count,
                ..s
            },
            FrameView {
                pad_first: true,
                pen_events: pen_frame(s.batch, pos, tilt, s.touch_down, s.button_held, dt, db),
                pad_events: pad,
                now_touching: now,
                warn_unimplemented: warn,
                first_frame: first,
                report_count: report,
                frames_forwarded: count,
            },
        )
    }
}

/// The state before any event.
pub open spec fn initial_pen_view() -> PenView {
    PenView {
        touch_down: false,
        eraser_active: false,
        button_held: None,
        pad_down: false,
        tracking_id: 0,
        warned: false,
        pending_x: None,
        pending_y: None,
        pending_tilt_x: None,
        pending_tilt_y: None,
        batch: Seq::empty(),
        frame_count: 0,
    }
}


/// The releases for the pen device when the eraser moves to the touchpad.
fn release_for_pad(touch_down: bool, held: Option<u16>) -> (r: Vec<RawEvent>)
    ensures
        r@ == release_events(touch_down, held),
{
    let mut release: Vec<RawEvent> = Vec::new();
    if touch_down {
        release.push(key_event(btn_touch_code(), 0));
    }
    if let Some(btn) = held {
        release.push(key_event(btn, 0));
    }
    if release.len() > 0 {
        release.push(syn_event());
    }
    release
}

/// The pen device's frame: the frame's events with position, tilt, button
/// and touch changes put in front.
fn build_pen_events(
    batch: Vec<RawEvent>,
    pos: Option<(i32, i32)>,
    tilt: Option<(i32, i32)>,
    touch_down: bool,
    held: Option<u16>,
    desired_touch: bool,
    desired_button: Option<u16>,
) -> (r: Vec<RawEvent>)
    ensures
        r@ == pen_frame(batch@, pos, tilt, touch_down, held, desired_touch, desired_button),
{
    let mut batch = batch;
    let ghost b0 = batch@;
    if let Some((out_x, out_y)) = pos {
        batch.insert(0, abs_event(ABS_X, out_x));
        batch.insert(1, abs_event(ABS_Y, out_y));
        assert(batch@ == seq![abs_ev(ABS_X, out_x), abs_ev(ABS_Y, out_y)] + b0);
    }
    let ghost b1 = batch@;
    if let Some((out_tx, out_ty)) = tilt {
        batch.insert(0, abs_event(ABS_TILT_X, out_tx));
        batch.insert(1, abs_event(ABS_TILT_Y, out_ty));
        assert(batch@ == seq![abs_ev(ABS_TILT_X, out_tx), abs_ev(ABS_TILT_Y, out_ty)] + b1);
    }
    let ghost b2 = batch@;
    if desired_button != held {
        if let Some(old) = held {
            batch.insert(0, key_event(old, 0));
            assert(batch@ == seq![key_ev(old, 0)] + b2);
        }
        let ghost c1 = batch@;
        if let Some(new) = desired_button {
            batch.insert(0, key_event(new, 1));
            assert(batch@ == seq![key_ev(new, 1)] + c1);
        }
    }
    let ghost b3 = batch@;
    if desired_touch != touch_down {
        batch.insert(0, key_event(btn_touch_code(), if desired_touch { 1 } else { 0 }));
        assert(batch@ == seq![key_ev(BTN_TOUCH, if desired_touch { 1 } else { 0 })] + b3);
    }
    batch
}

impl PenState {
    /// The state before any event.
    pub fn new() -> (r: Self)
        ensures
            r@ == initial_pen_view(),
    {
        PenState {
            touch_down: false,
            eraser_active: false,
            button_held: None,
            pad_down: false,
            tracking_id: 0,
            warned: false,
            pending_x: None,
            pending_y: None,
            pending_tilt_x: None,
            pending_tilt_y: None,
            batch: Vec::new(),
            frame_count: 0,
        }
    }

    /// Frames forwarded so far.
    pub fn frames_forwarded(&self) -> (r: u64)
        ensures
            r == self@.frame_count,
    {
        self.frame_count
    }

    /// Takes one input event; returns the frame's position and tilt when the
    /// event completes a frame.
    pub fn on_event(&mut self, ev: RawEvent) -> (r: Option<PendingFrame>)
        ensures
            (final(self)@, r) == on_event_spec(old(self)@, ev),
    {
        // Track eraser tool engagement (pen flipped to the rubber end).
        if ev.ty == EV_KEY && ev.code == BTN_TOOL_RUBBER {
            self.eraser_active = ev.value != 0;
        }
        // Collect position and tilt values, defer transformation until SYN_REPORT.
        if ev.ty == EV_ABS {
            if ev.code == ABS_X {
                self.pending_x = Some(ev.value);
                return None;
            } else if ev.code == ABS_Y {
                self.pending_y = Some(ev.value);
                return None;
            } else if ev.code == ABS_TILT_X {
                self.pending_tilt_x = Some(ev.value);
                return None;
            } else if ev.code == ABS_TILT_Y {
                self.pending_tilt_y = Some(ev.value);
                return None;
            }
        }
        self.batch.push(ev);
        if ev.ty != EV_SYN || ev.code != SYN_REPORT {
            return None;
        }
        let pos = match (self.pending_x, self.pending_y) {
            (Some(x), Some(y)) => Some((x, y)),
            _ => None,
        };
        let tilt = match (self.pending_tilt_x, self.pending_tilt_y) {
            (Some(tx), Some(ty)) => Some((tx, ty)),
            _ => None,
        };
        self.pending_x = None;
        self.pending_y = None;
        self.pending_tilt_x = None;
        self.pending_tilt_y = None;
        Some(PendingFrame { pos, tilt })
    }

    /// The value of the frame's last pressure event, or 0.
    fn frame_pressure(&self) -> (r: i32)
        ensures
            r == last_pressure(self@.batch),
    {
        let mut i = self.batch.len();
        assert(self.batch@.take(i as int) == self.batch@);
        while i > 0
            invariant
                i <= self.batch@.len(),
                last_pressure(self.batch@) == last_pressure(self.batch@.take(i as int)),
            decreases i,
        {
            let e = self.batch[i - 1];
            assert(self.batch@.take(i as int).drop_last() == self.batch@.take(i - 1));
            assert(self.batch@.take(i as int).last() == e);
            if e.ty == EV_ABS && e.code == ABS_PRESSURE {
                return e.value;
            }
            i = i - 1;
        }
        0
    }

    /// Completes the frame: decides the pen contact, the eraser button and
    /// the touchpad contact for it, with `pos` and `tilt` already transformed
    /// for the screen orientation.
    pub fn finish_frame(
        &mut self,
        action: EraserAction,
        pos: Option<(i32, i32)>,
        tilt: Option<(i32, i32)>,
    ) -> (r: FrameOutput)
        requires
            old(self)@.frame_count < u64::MAX,
        ensures
            (final(self)@, r@) == finish_spec(old(self)@, action, pos, tilt),
    {
        let ghost s = self@;
        let pressure = self.frame_pressure();
        let now_touching = pressure > 0;

        // Resolve the eraser action, treating unimplemented ones as a no-op.
        let mut warn = false;
        let effective = if self.eraser_active && !action.is_implemented() {
            if !self.warned {
                warn = true;
                self.warned = true;
            }
            EraserAction::NoAction
        } else {
            action
        };

        let first_frame = self.frame_count == 0;
        self.frame_count = self.frame_count + 1;
        let frames_forwarded = self.frame_count;
        let report_count = frames_forwarded % FRAME_REPORT_INTERVAL == 0;

        if self.eraser_active && effective.is_touchpad() {
            // Route the eraser to its own touchpad device. Make sure nothing is
            // left asserted on the pen device first.
            let release = release_for_pad(self.touch_down, self.button_held);
            self.touch_down = false;
            self.button_held = None;
            let pad_events = eraser_pad_frame(
                now_touching,
                pos,
                &mut self.pad_down,
                &mut self.tracking_id,
            );
            self.batch = Vec::new();
            return FrameOutput {
                pad_first: false,
                pen_events: release,
                pad_events,
                now_touching,
                warn_unimplemented: warn,
                first_frame,
                report_count,
                frames_forwarded,
            };
        }
        // Pen-device path (normal pen tip, or eraser mapped to a click / none).
        // If we just left touchpad mode with a contact still down, lift it.
        let pad_events = if self.pad_down {
            eraser_pad_frame(false, None, &mut self.pad_down, &mut self.tracking_id)
        } else {
            Vec::new()
        };

        // Decide the pen contact / eraser button for this frame.
        let (desired_touch, desired_button) = if self.eraser_active {
            let button = if now_touching {
                effective.button_code()
            } else {
                None
            };
            (false, button)
        } else {
            (now_touching, None)
        };

        let mut batch = Vec::new();
        core::mem::swap(&mut batch, &mut self.batch);
        let pen_events = build_pen_events(
            batch,
            pos,
            tilt,
            self.touch_down,
            self.button_held,
            desired_touch,
            desired_button,
        );
        self.button_held = desired_button;
        self.touch_down = desired_touch;
        FrameOutput {
            pad_first: true,
            pen_events,
            pad_events,
            now_touching,
            warn_unimplemented: warn,
            first_frame,
            report_count,
            frames_forwarded,
        }
    }
}


/// A touchpad frame is either empty or selects slot 0 first and ends the
/// frame last.
pub proof fn lemma_pad_frame_well_formed(now_touching: bool, pos: Option<(i32, i32)>, pad_down: bool, tid: i32)
    ensures
        ({
            let f = pad_frame(now_touching, pos, pad_down, tid).0;
            f.len() == 0 || (f.len() >= 3 && f[0] == abs_ev(ABS_MT_SLOT, 0) && f.last() == syn_ev())
        }),
{
}

/// Touchpad tracking ids handed out are never negative (negative ids mean
/// "no contact").
pub proof fn lemma_tracking_id_non_negative(t: i32)
    ensures
        next_tracking_id(t) >= 0,
{
    let w = t.wrapping_add(1);
    assert(w & 0x7fff_ffff >= 0) by (bit_vector);
}

/// After any frame, the eraser's touchpad contact and an asserted pen touch
/// or eraser button never coexist: switching devices always releases the
/// other one.
pub proof fn lemma_devices_never_both_asserted(
    s: PenView,
    action: EraserAction,
    pos: Option<(i32, i32)>,
    tilt: Option<(i32, i32)>,
)
    ensures
        ({
            let n = finish_spec(s, action, pos, tilt).0;
            !(n.pad_down && (n.touch_down || n.button_held is Some))
        }),
{
}

/// A held eraser button is always one of the mouse buttons of a click
/// action, and only while the eraser is pressed on the surface.
pub proof fn lemma_button_only_for_click(
    s: PenView,
    action: EraserAction,
    pos: Option<(i32, i32)>,
    tilt: Option<(i32, i32)>,
)
    ensures
        ({
            let (n, out) = finish_spec(s, action, pos, tilt);
            n.button_held matches Some(b) ==> (n.eraser_active && out.now_touching && (b == 0x110
                || b == 0x111 || b == 0x112))
        }),
{
}

/// The unimplemented-action warning is given at most once.
pub proof fn lemma_warns_once(
    s: PenView,
    action: EraserAction,
    pos: Option<(i32, i32)>,
    tilt: Option<(i32, i32)>,
)
    ensures
        ({
            let (n, out) = finish_spec(s, action, pos, tilt);
            &&& out.warn_unimplemented ==> !s.warned
            &&& out.warn_unimplemented ==> n.warned
            &&& s.warned ==> n.warned
        }),
{
}

/// The event ends a frame.
pub open spec fn is_frame_end(e: RawEvent) -> bool {
    e.ty == EV_SYN && e.code == SYN_REPORT
}

/// A completed frame ends with `SYN_REPORT`, and the pen device's frame built
/// from it still ends with it.
pub proof fn lemma_pen_frame_ends_with_syn(
    s: PenView,
    ev: RawEvent,
    pos: Option<(i32, i32)>,
    tilt: Option<(i32, i32)>,
    touch_down: bool,
    held: Option<u16>,
    desired_touch: bool,
    desired_button: Option<u16>,
)
    ensures
        ({
            let (n, r) = on_event_spec(s, ev);
            r is Some ==> n.batch.len() > 0 && is_frame_end(n.batch.last()) && is_frame_end(pen_frame(
                n.batch,
                pos,
                tilt,
                touch_down,
                held,
                desired_touch,
                desired_button,
            ).last())
        }),
{
    let (n, r) = on_event_spec(s, ev);
    if r is Some {
        let b0 = n.batch;
        let b1 = match pos {
            Some((x, y)) => seq![abs_ev(ABS_X, x), abs_ev(ABS_Y, y)] + b0,
            None => b0,
        };
        lemma_prepend_keeps_last(seq![abs_ev(ABS_X, 0), abs_ev(ABS_Y, 0)], b0);
        if let Some((x, y)) = pos {
            lemma_prepend_keeps_last(seq![abs_ev(ABS_X, x), abs_ev(ABS_Y, y)], b0);
        }
        let b2 = match tilt {
            Some((tx, ty)) => seq![abs_ev(ABS_TILT_X, tx), abs_ev(ABS_TILT_Y, ty)] + b1,
            None => b1,
        };
        if let Some((tx, ty)) = tilt {
            lemma_prepend_keeps_last(seq![abs_ev(ABS_TILT_X, tx), abs_ev(ABS_TILT_Y, ty)], b1);
        }
        let c1 = match held {
            Some(o) => seq![key_ev(o, 0)] + b2,
            None => b2,
        };
        if let Some(o) = held {
            lemma_prepend_keeps_last(seq![key_ev(o, 0)], b2);
        }
        let c2 = match desired_button {
            Some(m) => seq![key_ev(m, 1)] + c1,
            None => c1,
        };
        if let Some(m) = desired_button {
            lemma_prepend_keeps_last(seq![key_ev(m, 1)], c1);
        }
        let b3 = if desired_button != held { c2 } else { b2 };
        lemma_prepend_keeps_last(seq![key_ev(BTN_TOUCH, if desired_touch { 1 } else { 0 })], b3);
    }
}

/// Putting events in front of a non-empty sequence keeps its last event.
proof fn lemma_prepend_keeps_last(p: Seq<RawEvent>, q: Seq<RawEvent>)
    requires
        q.len() > 0,
    ensures
        (p + q).len() > 0,
        (p + q).last() == q.last(),
{
    assert((p + q)[(p + q).len() - 1] == q[q.len() - 1]);
}

/// The event carries a pressure reading.
pub open spec fn is_pressure(e: RawEvent) -> bool {
    e.ty == EV_ABS && e.code == ABS_PRESSURE
}

/// A frame without a pressure reading has pressure 0.
pub proof fn lemma_no_reading_no_pressure(b: Seq<RawEvent>)
    requires
        forall|j: int| 0 <= j < b.len() ==> !is_pressure(#[trigger] b[j]),
    ensures
        last_pressure(b) == 0,
    decreases b.len(),
{
    if b.len() > 0 {
        let c = b.drop_last();
        assert(!is_pressure(b[b.len() - 1]));
        assert forall|j: int| 0 <= j < c.len() implies !is_pressure(#[trigger] c[j]) by {
            assert(c[j] == b[j]);
        }
        lemma_no_reading_no_pressure(c);
    }
}

/// A frame's pressure is the reading of its last pressure event.
pub proof fn lemma_pressure_is_last_reading(b: Seq<RawEvent>, j: int)
    requires
        0 <= j < b.len(),
        is_pressure(b[j]),
        forall|k: int| j < k < b.len() ==> !is_pressure(#[trigger] b[k]),
    ensures
        last_pressure(b) == b[j].value,
    decreases b.len(),
{
    let n = b.len() - 1;
    if j < n {
        let c = b.drop_last();
        assert(!is_pressure(b[n]));
        assert(c[j] == b[j]);
        assert forall|k: int| j < k < c.len() implies !is_pressure(#[trigger] c[k]) by {
            assert(c[k] == b[k]);
        }
        lemma_pressure_is_last_reading(c, j);
    }
}

/// A frame with no pressure reading is a hover: the pen is not touching,
/// and after it neither a touch, an eraser button nor a touchpad contact is
/// down; the frame starts none of them, so neither device is sent a touch
/// that the tablet did not send. With pressure readings, the pen touches
/// exactly when the last one is positive.
pub proof fn lemma_frame_touch_follows_last_reading(
    s: PenView,
    action: EraserAction,
    pos: Option<(i32, i32)>,
    tilt: Option<(i32, i32)>,
    j: int,
)
    ensures
        ({
            let (n, out) = finish_spec(s, action, pos, tilt);
            &&& (forall|i: int| 0 <= i < s.batch.len() ==> !is_pressure(#[trigger] s.batch[i])) ==> {
                &&& !out.now_touching
                &&& !n.touch_down
                &&& n.button_held is None
                &&& !n.pad_down
                &&& !out.pad_events.contains(key_ev(BTN_TOUCH, 1))
                &&& !s.batch.contains(key_ev(BTN_TOUCH, 1)) ==> !out.pen_events.contains(
                    key_ev(BTN_TOUCH, 1),
                )
            }
            &&& (0 <= j < s.batch.len() && is_pressure(s.batch[j]) && (forall|k: int|
                j < k < s.batch.len() ==> !is_pressure(#[trigger] s.batch[k]))) ==> (out.now_touching
                <==> s.batch[j].value > 0)
        }),
{
    let (n, out) = finish_spec(s, action, pos, tilt);
    let touch = key_ev(BTN_TOUCH, 1);
    if 0 <= j < s.batch.len() && is_pressure(s.batch[j]) && (forall|k: int|
        j < k < s.batch.len() ==> !is_pressure(#[trigger] s.batch[k])) {
        lemma_pressure_is_last_reading(s.batch, j);
    }
    if forall|i: int| 0 <= i < s.batch.len() ==> !is_pressure(#[trigger] s.batch[i]) {
        lemma_no_reading_no_pressure(s.batch);
        let eff = effective_action(s.eraser_active, action);
        if s.eraser_active && eff == EraserAction::Touchpad {
            let r1 = if s.touch_down {
                seq![key_ev(BTN_TOUCH, 0)]
            } else {
                Seq::<RawEvent>::empty()
            };
            let r2 = match s.button_held {
                Some(b) => r1.push(key_ev(b, 0)),
                None => r1,
            };
            assert(!r1.contains(touch));
            assert(!r2.contains(touch));
            assert(!r2.push(syn_ev()).contains(touch));
            assert(!out.pen_events.contains(touch));
        } else if !s.batch.contains(touch) {
            let b0 = s.batch;
            let b1 = match pos {
                Some((x, y)) => seq![abs_ev(ABS_X, x), abs_ev(ABS_Y, y)] + b0,
                None => b0,
            };
            if let Some((x, y)) = pos {
                lemma_concat_lacks(seq![abs_ev(ABS_X, x), abs_ev(ABS_Y, y)], b0, touch);
            }
            let b2 = match tilt {
                Some((tx, ty)) => seq![abs_ev(ABS_TILT_X, tx), abs_ev(ABS_TILT_Y, ty)] + b1,
                None => b1,
            };
            if let Some((tx, ty)) = tilt {
                lemma_concat_lacks(seq![abs_ev(ABS_TILT_X, tx), abs_ev(ABS_TILT_Y, ty)], b1, touch);
            }
            let b3 = match s.button_held {
                Some(o) => seq![key_ev(o, 0)] + b2,
                None => b2,
            };
            if let Some(o) = s.button_held {
                lemma_concat_lacks(seq![key_ev(o, 0)], b2, touch);
            }
            lemma_concat_lacks(seq![key_ev(BTN_TOUCH, 0)], b3, touch);
            assert(!out.pen_events.contains(touch));
        }
    }
}

/// A sequence made of two parts lacks an event that both parts lack.
proof fn lemma_concat_lacks(p: Seq<RawEvent>, q: Seq<RawEvent>, e: RawEvent)
    requires
        !p.contains(e),
        !q.contains(e),
    ensures
        !(p + q).contains(e),
{
    assert forall|i: int| 0 <= i < (p + q).len() implies (p + q)[i] != e by {
        if i < p.len() {
            assert((p + q)[i] == p[i]);
        } else {
            assert((p + q)[i] == q[i - p.len()]);
        }
    }
}

/// While the eraser is pressed with a known position, the touchpad frame
/// reports that position: it holds the position on both the multi-touch and
/// the single-touch axes, and every X axis event carries `x` and every Y
/// axis event `y`, for a new contact and for a move alike. A new contact
/// also starts a touch under the next tracking id.
pub proof fn lemma_pad_frame_reports_position(x: i32, y: i32, pad_down: bool, tid: i32)
    ensures
        ({
            let (f, pd, t) = pad_frame(true, Some((x, y)), pad_down, tid);
            &&& pd
            &&& f.contains(abs_ev(ABS_MT_POSITION_X, x))
            &&& f.contains(abs_ev(ABS_MT_POSITION_Y, y))
            &&& f.contains(abs_ev(ABS_X, x))
            &&& f.contains(abs_ev(ABS_Y, y))
            &&& forall|i: int|
                0 <= i < f.len() && f[i].ty == EV_ABS && (f[i].code == ABS_MT_POSITION_X || f[i].code
                    == ABS_X) ==> f[i].value == x
            &&& forall|i: int|
                0 <= i < f.len() && f[i].ty == EV_ABS && (f[i].code == ABS_MT_POSITION_Y || f[i].code
                    == ABS_Y) ==> f[i].value == y
            &&& !pad_down ==> t == next_tracking_id(tid) && f.contains(abs_ev(ABS_MT_TRACKING_ID, t))
                && f.contains(key_ev(BTN_TOUCH, 1))
            &&& pad_down ==> t == tid
        }),
{
    let (f, pd, t) = pad_frame(true, Some((x, y)), pad_down, tid);
    if pad_down {
        assert(f[1] == abs_ev(ABS_MT_POSITION_X, x));
        assert(f[2] == abs_ev(ABS_MT_POSITION_Y, y));
        assert(f[3] == abs_ev(ABS_X, x));
        assert(f[4] == abs_ev(ABS_Y, y));
    } else {
        assert(f[1] == abs_ev(ABS_MT_TRACKING_ID, t));
        assert(f[2] == abs_ev(ABS_MT_POSITION_X, x));
        assert(f[3] == abs_ev(ABS_MT_POSITION_Y, y));
        assert(f[4] == abs_ev(ABS_X, x));
        assert(f[5] == abs_ev(ABS_Y, y));
        assert(f[6] == key_ev(BTN_TOUCH, 1));
    }
}

/// A completed frame hands out a position only when both axes were
/// reported since the previous frame, and then exactly the reported values;
/// likewise the tilt. Only `SYN_REPORT` completes a frame, after which
/// nothing is held back; an axis event is held back with its value and
/// leaves the other axes and the frame's events as they were.
pub proof fn lemma_frame_axes_held_until_report(s: PenView, ev: RawEvent)
    ensures
        ({
            let (n, r) = on_event_spec(s, ev);
            &&& r is Some <==> is_frame_end(ev)
            &&& n.eraser_active == if ev.ty == EV_KEY && ev.code == BTN_TOOL_RUBBER {
                ev.value != 0
            } else {
                s.eraser_active
            }
            &&& r is Some ==> {
                let f = r->0;
                &&& f.pos is Some <==> (s.pending_x is Some && s.pending_y is Some)
                &&& f.pos is Some ==> f.pos == Some((s.pending_x->0, s.pending_y->0))
                &&& f.tilt is Some <==> (s.pending_tilt_x is Some && s.pending_tilt_y is Some)
                &&& f.tilt is Some ==> f.tilt == Some((s.pending_tilt_x->0, s.pending_tilt_y->0))
                &&& n.pending_x is None && n.pending_y is None
                &&& n.pending_tilt_x is None && n.pending_tilt_y is None
                &&& n.batch == s.batch.push(ev)
            }
            &&& (ev.ty == EV_ABS && ev.code == ABS_X) ==> (n.pending_x == Some(ev.value)
                && n.pending_y == s.pending_y && n.batch == s.batch)
            &&& (ev.ty == EV_ABS && ev.code == ABS_Y) ==> (n.pending_y == Some(ev.value)
                && n.pending_x == s.pending_x && n.batch == s.batch)
            &&& (ev.ty == EV_ABS && ev.code == ABS_TILT_X) ==> (n.pending_tilt_x == Some(ev.value)
                && n.pending_tilt_y == s.pending_tilt_y && n.batch == s.batch)
            &&& (ev.ty == EV_ABS && ev.code == ABS_TILT_Y) ==> (n.pending_tilt_y == Some(ev.value)
                && n.pending_tilt_x == s.pending_tilt_x && n.batch == s.batch)
        }),
{
}

/// Lifting the eraser ends a touchpad contact that is down: the frame
/// ends the contact's tracking and releases the touch, and no contact is
/// down after it. Without a contact down, or pressed without a position
/// while no contact is down, the frame is empty and nothing changes.
pub proof fn lemma_pad_frame_lift_and_idle(pos: Option<(i32, i32)>, pad_down: bool, tid: i32)
    ensures
        ({
            let (f, pd, t) = pad_frame(false, pos, pad_down, tid);
            &&& !pd
            &&& t == tid
            &&& pad_down ==> f.contains(abs_ev(ABS_MT_TRACKING_ID, -1i32)) && f.contains(
                key_ev(BTN_TOUCH, 0),
            ) && !f.contains(key_ev(BTN_TOUCH, 1))
            &&& !pad_down ==> f.len() == 0
        }),
        ({
            let (f, pd, t) = pad_frame(true, None, pad_down, tid);
            &&& !pad_down ==> f.len() == 0 && !pd && t == tid
            &&& pad_down ==> f.len() == 0 && pd && t == tid
        }),
{
    let (f, pd, t) = pad_frame(false, pos, pad_down, tid);
    if pad_down {
        assert(f[1] == abs_ev(ABS_MT_TRACKING_ID, -1i32));
        assert(f[2] == key_ev(BTN_TOUCH, 0));
        assert forall|i: int| 0 <= i < f.len() implies f[i] != key_ev(BTN_TOUCH, 1) by {
            assert(f.len() == 5);
        }
    }
}

/// On the pen device's path the pen's frame reaches the pen device whole:
/// its events come last, in order, behind the position and the tilt of the
/// frame. Without the eraser the touch follows the pen's contact, and a
/// change of contact is the frame's first event; with the eraser no touch is
/// asserted, and the click action's button is held exactly while it is
/// pressed. A touchpad contact left from the eraser is lifted.
pub proof fn lemma_pen_path_frame(
    s: PenView,
    action: EraserAction,
    pos: Option<(i32, i32)>,
    tilt: Option<(i32, i32)>,
)
    requires
        !(s.eraser_active && action == EraserAction::Touchpad),
    ensures
        ({
            let (n, out) = finish_spec(s, action, pos, tilt);
            let f = out.pen_events;
            &&& out.pad_first
            &&& f.len() >= s.batch.len()
            &&& f.subrange(f.len() - s.batch.len(), f.len() as int) == s.batch
            &&& pos matches Some((x, y)) ==> f.contains(abs_ev(ABS_X, x)) && f.contains(abs_ev(ABS_Y, y))
            &&& tilt matches Some((tx, ty)) ==> f.contains(abs_ev(ABS_TILT_X, tx)) && f.contains(
                abs_ev(ABS_TILT_Y, ty),
            )
            &&& !s.eraser_active ==> n.touch_down == out.now_touching && n.button_held is None
            &&& !s.eraser_active && out.now_touching != s.touch_down ==> f[0] == key_ev(
                BTN_TOUCH,
                if out.now_touching {
                    1
                } else {
                    0
                },
            )
            &&& s.eraser_active ==> !n.touch_down && n.button_held == if out.now_touching {
                eraser_button_code(action)
            } else {
                None
            }
            &&& !n.pad_down
            &&& s.pad_down ==> out.pad_events.contains(key_ev(BTN_TOUCH, 0))
        }),
{
    let (n, out) = finish_spec(s, action, pos, tilt);
    let now = last_pressure(s.batch) > 0;
    let eff = effective_action(s.eraser_active, action);
    let (dt, db) = desired_contact(s.eraser_active, now, eff);
    lemma_pen_frame_shape(s.batch, pos, tilt, s.touch_down, s.button_held, dt, db);
    if s.pad_down {
        lemma_pad_frame_lift_and_idle(None, true, s.tracking_id);
    }
}

/// The pen device's frame is the frame's events with the position, the
/// tilt, the button changes and the touch change put in front, the touch
/// change first.
proof fn lemma_pen_frame_shape(
    batch: Seq<RawEvent>,
    pos: Option<(i32, i32)>,
    tilt: Option<(i32, i32)>,
    touch_down: bool,
    held: Option<u16>,
    desired_touch: bool,
    desired_button: Option<u16>,
)
    ensures
        ({
            let f = pen_frame(batch, pos, tilt, touch_down, held, desired_touch, desired_button);
            &&& f.len() >= batch.len()
            &&& f.subrange(f.len() - batch.len(), f.len() as int) == batch
            &&& pos matches Some((x, y)) ==> f.contains(abs_ev(ABS_X, x)) && f.contains(abs_ev(ABS_Y, y))
            &&& tilt matches Some((tx, ty)) ==> f.contains(abs_ev(ABS_TILT_X, tx)) && f.contains(
                abs_ev(ABS_TILT_Y, ty),
            )
            &&& desired_touch != touch_down ==> f[0] == key_ev(
                BTN_TOUCH,
                if desired_touch {
                    1
                } else {
                    0
                },
            )
        }),
{
    let b0 = batch;
    assert(b0.subrange(0, b0.len() as int) == b0);
    let b1 = match pos {
        Some((x, y)) => seq![abs_ev(ABS_X, x), abs_ev(ABS_Y, y)] + b0,
        None => b0,
    };
    if let Some((x, y)) = pos {
        let p = seq![abs_ev(ABS_X, x), abs_ev(ABS_Y, y)];
        lemma_prepend_keeps(p, b0, batch);
        assert(b1[0] == abs_ev(ABS_X, x) && b1[1] == abs_ev(ABS_Y, y));
        assert(b1.contains(abs_ev(ABS_X, x)) && b1.contains(abs_ev(ABS_Y, y)));
    }
    let b2 = match tilt {
        Some((tx, ty)) => seq![abs_ev(ABS_TILT_X, tx), abs_ev(ABS_TILT_Y, ty)] + b1,
        None => b1,
    };
    if let Some((tx, ty)) = tilt {
        let p = seq![abs_ev(ABS_TILT_X, tx), abs_ev(ABS_TILT_Y, ty)];
        lemma_prepend_keeps(p, b1, batch);
        assert(b2[0] == abs_ev(ABS_TILT_X, tx) && b2[1] == abs_ev(ABS_TILT_Y, ty));
        assert(b2.contains(abs_ev(ABS_TILT_X, tx)) && b2.contains(abs_ev(ABS_TILT_Y, ty)));
    }
    let c1 = match held {
        Some(o) => seq![key_ev(o, 0)] + b2,
        None => b2,
    };
    if let Some(o) = held {
        lemma_prepend_keeps(seq![key_ev(o, 0)], b2, batch);
    }
    let c2 = match desired_button {
        Some(m) => seq![key_ev(m, 1)] + c1,
        None => c1,
    };
    if let Some(m) = desired_button {
        lemma_prepend_keeps(seq![key_ev(m, 1)], c1, batch);
    }
    let b3 = if desired_button != held {
        c2
    } else {
        b2
    };
    let t = seq![key_ev(BTN_TOUCH, if desired_touch { 1 } else { 0 })];
    lemma_prepend_keeps(t, b3, batch);
}

/// Putting events in front of a sequence keeps its tail and everything it
/// contains.
proof fn lemma_prepend_keeps(p: Seq<RawEvent>, q: Seq<RawEvent>, b: Seq<RawEvent>)
    requires
        q.len() >= b.len(),
        q.subrange(q.len() - b.len(), q.len() as int) == b,
    ensures
        (p + q).len() >= b.len(),
        (p + q).subrange((p + q).len() - b.len(), (p + q).len() as int) == b,
        forall|e: RawEvent| q.contains(e) ==> (p + q).contains(e),
        forall|i: int| 0 <= i < p.len() ==> (p + q)[i] == p[i],
{
    assert((p + q).subrange((p + q).len() - b.len(), (p + q).len() as int) =~= q.subrange(
        q.len() - b.len(),
        q.len() as int,
    ));
    assert forall|e: RawEvent| q.contains(e) implies (p + q).contains(e) by {
        let i = choose|i: int| 0 <= i < q.len() && q[i] == e;
        assert((p + q)[p.len() + i] == q[i]);
    }
}

/// With the eraser routed to the touchpad device, the pen device is left
/// with nothing asserted: the frame releases the touch and the button that
/// were down (and is empty when none was), and the touchpad device gets the
/// frame after it. A contact is down after the frame exactly when the eraser
/// is pressed and a position is known or a contact was already down; a
/// pressed eraser with a position reports that position on the touchpad.
pub proof fn lemma_touchpad_path_frame(
    s: PenView,
    action: EraserAction,
    pos: Option<(i32, i32)>,
    tilt: Option<(i32, i32)>,
)
    requires
        s.eraser_active,
        action == EraserAction::Touchpad,
    ensures
        ({
            let (n, out) = finish_spec(s, action, pos, tilt);
            let r = out.pen_events;
            &&& !out.pad_first
            &&& !n.touch_down
            &&& n.button_held is None
            &&& s.touch_down ==> r.contains(key_ev(BTN_TOUCH, 0))
            &&& s.button_held matches Some(b) ==> r.contains(key_ev(b, 0))
            &&& r.len() == 0 <==> (!s.touch_down && s.button_held is None)
            &&& !r.contains(key_ev(BTN_TOUCH, 1))
            &&& n.pad_down == (out.now_touching && (s.pad_down || pos is Some))
            &&& out.now_touching ==> (pos matches Some((x, y)) ==> out.pad_events.contains(
                abs_ev(ABS_MT_POSITION_X, x),
            ) && out.pad_events.contains(abs_ev(ABS_MT_POSITION_Y, y)))
        }),
{
    let (n, out) = finish_spec(s, action, pos, tilt);
    let r1 = if s.touch_down {
        seq![key_ev(BTN_TOUCH, 0)]
    } else {
        Seq::<RawEvent>::empty()
    };
    let r2 = match s.button_held {
        Some(b) => r1.push(key_ev(b, 0)),
        None => r1,
    };
    if s.touch_down {
        assert(r2[0] == key_ev(BTN_TOUCH, 0));
        assert(r2.push(syn_ev())[0] == key_ev(BTN_TOUCH, 0));
    }
    if let Some(b) = s.button_held {
        assert(r2[r2.len() - 1] == key_ev(b, 0));
        assert(r2.push(syn_ev())[r2.len() - 1] == key_ev(b, 0));
    }
    let touch = key_ev(BTN_TOUCH, 1);
    assert(!r1.contains(touch));
    assert(!r2.contains(touch));
    assert(!r2.push(syn_ev()).contains(touch));
    if let Some((x, y)) = pos {
        lemma_pad_frame_reports_position(x, y, s.pad_down, s.tracking_id);
    }
}

/// Each new touchpad contact gets a tracking id other than the last one:
/// the next number, wrapping round to 0 after the largest.
pub proof fn lemma_tracking_id_advances(t: i32)
    ensures
        next_tracking_id(t) != t,
        0 <= t < i32::MAX ==> next_tracking_id(t) == t + 1,
        t == i32::MAX ==> next_tracking_id(t) == 0,
{
    let w = t.wrapping_add(1);
    if t == i32::MAX {
        assert(w == i32::MIN);
        assert(i32::MIN & 0x7fff_ffff == 0i32) by (bit_vector);
    } else {
        assert(w == t + 1);
        assert(0 <= w ==> w & 0x7fff_ffff == w) by (bit_vector);
        assert(w < 0 ==> w & 0x7fff_ffff >= 0) by (bit_vector);
    }
}

} // verus!
