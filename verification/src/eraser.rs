//! Configurable behaviour for the pen's eraser end.
//!
//! The reMarkable stylus reports `BTN_TOOL_RUBBER` when flipped to the eraser
//! end. This enum lets the user map eraser contact to a mouse button, a
//! touchpad-style pointer, or nothing at all.
use vstd::prelude::*;

use evdevil::event::Key;

use crate::keys::{btn_left_code, btn_middle_code, btn_right_code, key_for_code, key_from_code};
use crate::text::{all_ascii, ascii_lower, lowercase_of, str_eq, str_to_lowercase};

verus! {

/// What the eraser end of the pen should do when it touches the screen.
#[derive(Debug, Clone, Copy, PartialEq, Eq, Structural)]
pub enum EraserAction {
    /// Ignore the eraser entirely (cursor may hover, but no click).
    NoAction,
    /// Hold the right mouse button while the eraser is in contact.
    RightClick,
    /// Hold the left mouse button while the eraser is in contact.
    LeftClick,
    /// Hold the middle mouse button while the eraser is in contact.
    MiddleClick,
    /// Drive a dedicated touchpad-style pointer device (relative motion + tap).
    Touchpad,
    /// Reserved: drive an absolute touchscreen device. Not yet implemented.
    Touchscreen,
}

impl Default for EraserAction {
    fn default() -> (r: Self)
        ensures
            r == EraserAction::RightClick,
    {
        EraserAction::RightClick
    }
}

/// The canonical name of an eraser action.
pub open spec fn eraser_action_text(a: EraserAction) -> Seq<char> {
    match a {
        EraserAction::NoAction => "none"@,
        EraserAction::RightClick => "right-click"@,
        EraserAction::LeftClick => "left-click"@,
        EraserAction::MiddleClick => "middle-click"@,
        EraserAction::Touchpad => "touchpad"@,
        EraserAction::Touchscreen => "touchscreen"@,
    }
}

/// The action that a lowercase name denotes, with the accepted spellings.
pub open spec fn eraser_action_from_lower(l: Seq<char>) -> Option<EraserAction> {
    if l == "none"@ {
        Some(EraserAction::NoAction)
    } else if l == "right-click"@ || l == "rightclick"@ || l == "right_click"@ {
        Some(EraserAction::RightClick)
    } else if l == "left-click"@ || l == "leftclick"@ || l == "left_click"@ {
        Some(EraserAction::LeftClick)
    } else if l == "middle-click"@ || l == "middleclick"@ || l == "middle_click"@ {
        Some(EraserAction::MiddleClick)
    } else if l == "touchpad"@ {
        Some(EraserAction::Touchpad)
    } else if l == "touchscreen"@ {
        Some(EraserAction::Touchscreen)
    } else {
        None
    }
}

/// The message for text that names no eraser action.
pub open spec fn eraser_action_error(s: Seq<char>) -> Seq<char> {
    "Invalid eraser action '"@ + s
        + "'. Valid values: none, left-click, middle-click, right-click, touchpad, touchscreen"@
}

/// What parsing yields from the lowercase form `lower` of the text `s`.
pub open spec fn eraser_action_parse(lower: Seq<char>, s: Seq<char>) -> Result<EraserAction, Seq<char>> {
    match eraser_action_from_lower(lower) {
        Some(a) => Ok(a),
        None => Err(eraser_action_error(s)),
    }
}

/// A parse result with the message as plain characters.
pub open spec fn eraser_result_view(r: Result<EraserAction, String>) -> Result<EraserAction, Seq<char>> {
    match r {
        Ok(a) => Ok(a),
        Err(e) => Err(e@),
    }
}

/// The raw code of the mouse button held while the eraser touches.
pub open spec fn eraser_button_code(a: EraserAction) -> Option<u16> {
    match a {
        EraserAction::LeftClick => Some(0x110u16),
        EraserAction::RightClick => Some(0x111u16),
        EraserAction::MiddleClick => Some(0x112u16),
        _ => None,
    }
}

impl EraserAction {
    /// The raw code of the mouse button held while the eraser touches, for
    /// click actions.
    pub fn button_code(&self) -> (r: Option<u16>)
        ensures
            r == eraser_button_code(*self),
    {
        match self {
            EraserAction::LeftClick => Some(btn_left_code()),
            EraserAction::RightClick => Some(btn_right_code()),
            EraserAction::MiddleClick => Some(btn_middle_code()),
            _ => None,
        }
    }

    /// The mouse button held while the eraser touches, for click actions.
    pub fn button_key(&self) -> (r: Option<Key>)
        ensures
            r == match eraser_button_code(*self) {
                Some(c) => Some(key_for_code(c)),
                None => None,
            },
    {
        match self.button_code() {
            Some(c) => Some(key_from_code(c)),
            None => None,
        }
    }

    /// Whether this action routes the eraser through a touchpad-style device.
    pub fn is_touchpad(&self) -> (r: bool)
        ensures
            r == (*self == EraserAction::Touchpad),
    {
        matches!(self, EraserAction::Touchpad)
    }

    /// Whether this action is implemented. `Touchscreen` is reserved for later.
    pub fn is_implemented(&self) -> (r: bool)
        ensures
            r == (*self != EraserAction::Touchscreen),
    {
        !matches!(self, EraserAction::Touchscreen)
    }

    /// The canonical name of the action.
    pub fn to_string(&self) -> (r: String)
        ensures
            r@ == eraser_action_text(*self),
    {
        let s = match self {
            EraserAction::NoAction => "none",
            EraserAction::RightClick => "right-click",
            EraserAction::LeftClick => "left-click",
            EraserAction::MiddleClick => "middle-click",
            EraserAction::Touchpad => "touchpad",
            EraserAction::Touchscreen => "touchscreen",
        };
        String::from_str(s)
    }

    /// The action named by `lower`, already in lowercase.
    pub fn from_lowercase(lower: &str) -> (r: Option<Self>)
        ensures
            r == eraser_action_from_lower(lower@),
    {
        if str_eq(lower, "none") {
            Some(EraserAction::NoAction)
        } else if str_eq(lower, "right-click") || str_eq(lower, "rightclick") || str_eq(
            lower,
            "right_click",
        ) {
            Some(EraserAction::RightClick)
        } else if str_eq(lower, "left-click") || str_eq(lower, "leftclick") || str_eq(
            lower,
            "left_click",
        ) {
            Some(EraserAction::LeftClick)
        } else if str_eq(lower, "middle-click") || str_eq(lower, "middleclick") || str_eq(
            lower,
            "middle_click",
        ) {
            Some(EraserAction::MiddleClick)
        } else if str_eq(lower, "touchpad") {
            Some(EraserAction::Touchpad)
        } else if str_eq(lower, "touchscreen") {
            Some(EraserAction::Touchscreen)
        } else {
            None
        }
    }

    /// Parses an action name, case-insensitively.
    pub fn try_from_str(s: &str) -> (r: Result<Self, String>)
        ensures
            eraser_result_view(r) == eraser_action_parse(lowercase_of(s@), s@),
            all_ascii(s@) ==> eraser_result_view(r) == eraser_action_parse(ascii_lower(s@), s@),
    {
        let lower = str_to_lowercase(s);
        match Self::from_lowercase(lower.as_str()) {
            Some(a) => Ok(a),
            None => {
                let mut m = String::from_str("Invalid eraser action '");
                m.append(s);
                m.append(
                    "'. Valid values: none, left-click, middle-click, right-click, touchpad, touchscreen",
                );
                Err(m)
            },
        }
    }
}

impl core::str::FromStr for EraserAction {
    type Err = String;

    fn from_str(s: &str) -> (r: Result<Self, Self::Err>)
        ensures
            eraser_result_view(r) == eraser_action_parse(lowercase_of(s@), s@),
            all_ascii(s@) ==> eraser_result_view(r) == eraser_action_parse(ascii_lower(s@), s@),
    {
        Self::try_from_str(s)
    }
}

/// Every action's canonical name is ASCII and lowercase, and parses back to
/// the action.
pub proof fn lemma_eraser_action_text_roundtrip(a: EraserAction)
    ensures
        all_ascii(eraser_action_text(a)),
        ascii_lower(eraser_action_text(a)) == eraser_action_text(a),
        eraser_action_parse(ascii_lower(eraser_action_text(a)), eraser_action_text(a)) == Ok::<
            EraserAction,
            Seq<char>,
        >(a),
{
    reveal_strlit("none");
    reveal_strlit("right-click");
    reveal_strlit("rightclick");
    reveal_strlit("right_click");
    reveal_strlit("left-click");
    reveal_strlit("leftclick");
    reveal_strlit("left_click");
    reveal_strlit("middle-click");
    reveal_strlit("middleclick");
    reveal_strlit("middle_click");
    reveal_strlit("touchpad");
    reveal_strlit("touchscreen");
    let t = eraser_action_text(a);
    assert(ascii_lower(t) =~= t);
    assert(t.len() > 0);
    // The accepted spellings differ in their first character or in length.
    assert("none"@[0] == 'n' && "right-click"@[0] == 'r' && "rightclick"@[0] == 'r'
        && "right_click"@[0] == 'r' && "left-click"@[0] == 'l' && "leftclick"@[0] == 'l'
        && "left_click"@[0] == 'l' && "middle-click"@[0] == 'm' && "middleclick"@[0] == 'm'
        && "middle_click"@[0] == 'm' && "touchpad"@[0] == 't' && "touchscreen"@[0] == 't');
}

/// Every accepted spelling parses to its action, whatever text it came
/// from: the canonical names, and for the click actions the run-together and
/// underscore forms as well; no other lowercase text parses.
pub proof fn lemma_eraser_action_spellings(l: Seq<char>, s: Seq<char>)
    ensures
        eraser_action_parse("none"@, s) == Ok::<EraserAction, Seq<char>>(EraserAction::NoAction),
        eraser_action_parse("right-click"@, s) == Ok::<EraserAction, Seq<char>>(EraserAction::RightClick),
        eraser_action_parse("rightclick"@, s) == Ok::<EraserAction, Seq<char>>(EraserAction::RightClick),
        eraser_action_parse("right_click"@, s) == Ok::<EraserAction, Seq<char>>(EraserAction::RightClick),
        eraser_action_parse("left-click"@, s) == Ok::<EraserAction, Seq<char>>(EraserAction::LeftClick),
        eraser_action_parse("leftclick"@, s) == Ok::<EraserAction, Seq<char>>(EraserAction::LeftClick),
        eraser_action_parse("left_click"@, s) == Ok::<EraserAction, Seq<char>>(EraserAction::LeftClick),
        eraser_action_parse("middle-click"@, s) == Ok::<EraserAction, Seq<char>>(EraserAction::MiddleClick),
        eraser_action_parse("middleclick"@, s) == Ok::<EraserAction, Seq<char>>(EraserAction::MiddleClick),
        eraser_action_parse("middle_click"@, s) == Ok::<EraserAction, Seq<char>>(EraserAction::MiddleClick),
        eraser_action_parse("touchpad"@, s) == Ok::<EraserAction, Seq<char>>(EraserAction::Touchpad),
        eraser_action_parse("touchscreen"@, s) == Ok::<EraserAction, Seq<char>>(EraserAction::Touchscreen),
        eraser_action_parse(l, s) is Ok <==> (l == "none"@ || l == "right-click"@ || l == "rightclick"@
            || l == "right_click"@ || l == "left-click"@ || l == "leftclick"@ || l == "left_click"@
            || l == "middle-click"@ || l == "middleclick"@ || l == "middle_click"@ || l == "touchpad"@
            || l == "touchscreen"@),
{
    reveal_strlit("none");
    reveal_strlit("right-click");
    reveal_strlit("rightclick");
    reveal_strlit("right_click");
    reveal_strlit("left-click");
    reveal_strlit("leftclick");
    reveal_strlit("left_click");
    reveal_strlit("middle-click");
    reveal_strlit("middleclick");
    reveal_strlit("middle_click");
    reveal_strlit("touchpad");
    reveal_strlit("touchscreen");
    // The spellings differ in length, in their first character, or at the
    // separator.
    assert("none"@.len() == 4 && "right-click"@.len() == 11 && "rightclick"@.len() == 10
        && "right_click"@.len() == 11 && "left-click"@.len() == 10 && "leftclick"@.len() == 9
        && "left_click"@.len() == 10 && "middle-click"@.len() == 12 && "middleclick"@.len() == 11
        && "middle_click"@.len() == 12 && "touchpad"@.len() == 8 && "touchscreen"@.len() == 11);
    assert("none"@[0] == 'n' && "right-click"@[0] == 'r' && "rightclick"@[0] == 'r'
        && "right_click"@[0] == 'r' && "left-click"@[0] == 'l' && "leftclick"@[0] == 'l'
        && "left_click"@[0] == 'l' && "middle-click"@[0] == 'm' && "middleclick"@[0] == 'm'
        && "middle_click"@[0] == 'm' && "touchpad"@[0] == 't' && "touchscreen"@[0] == 't');
    assert("right-click"@[5] == '-' && "right_click"@[5] == '_');
    assert("left-click"@[4] == '-' && "left_click"@[4] == '_');
    assert("middle-click"@[6] == '-' && "middle_click"@[6] == '_');
}

} // verus!
