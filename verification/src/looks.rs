//! Icons and tooltips of the buttons that switch something on and off: a
//! chat's mute and pin buttons, and the call window's microphone and speaker
//! buttons. Each shows what pressing it will do.

use vstd::prelude::*;
use crate::i18n::{current_wf, t, translate, I18n};

verus! {

/// A button's icon and tooltip.
pub struct ButtonLook {
    pub icon: &'static str,
    pub tooltip: String,
}

/// The look of a button that is `on`: the icon and the tooltip key for each
/// state.
pub open spec fn look_spec(
    cur: Option<I18n>,
    on: bool,
    on_icon: Seq<char>,
    on_key: Seq<char>,
    off_icon: Seq<char>,
    off_key: Seq<char>,
    look: ButtonLook,
) -> bool {
    &&& look.icon@ == (if on { on_icon } else { off_icon })
    &&& look.tooltip@ == translate(cur, if on { on_key } else { off_key })
}

fn look(
    cur: &Option<I18n>,
    on: bool,
    on_icon: &'static str,
    on_key: &str,
    off_icon: &'static str,
    off_key: &str,
) -> (l: ButtonLook)
    requires
        current_wf(*cur),
    ensures
        look_spec(*cur, on, on_icon@, on_key@, off_icon@, off_key@, l),
{
    if on {
        ButtonLook { icon: on_icon, tooltip: t(cur, on_key) }
    } else {
        ButtonLook { icon: off_icon, tooltip: t(cur, off_key) }
    }
}

/// The mute button of a chat.
pub fn chat_mute_button(cur: &Option<I18n>, muted: bool) -> (l: ButtonLook)
    requires
        current_wf(*cur),
    ensures
        look_spec(
            *cur,
            muted,
            "audio-volume-muted-symbolic"@,
            "unmute_chat"@,
            "audio-volume-high-symbolic"@,
            "mute_chat"@,
            l,
        ),
{
    look(cur, muted, "audio-volume-muted-symbolic", "unmute_chat", "audio-volume-high-symbolic", "mute_chat")
}

/// The pin button of a chat.
pub fn chat_pin_button(cur: &Option<I18n>, pinned: bool) -> (l: ButtonLook)
    requires
        current_wf(*cur),
    ensures
        look_spec(*cur, pinned, "starred-symbolic"@, "unpin_chat"@, "non-starred-symbolic"@, "pin_chat"@, l),
{
    look(cur, pinned, "starred-symbolic", "unpin_chat", "non-starred-symbolic", "pin_chat")
}

/// The microphone button of the call window.
pub fn call_mic_button(cur: &Option<I18n>, muted: bool) -> (l: ButtonLook)
    requires
        current_wf(*cur),
    ensures
        look_spec(
            *cur,
            muted,
            "microphone-sensitivity-muted-symbolic"@,
            "call_unmute_mic"@,
            "microphone-sensitivity-high-symbolic"@,
            "call_mute_mic"@,
            l,
        ),
{
    look(
        cur,
        muted,
        "microphone-sensitivity-muted-symbolic",
        "call_unmute_mic",
        "microphone-sensitivity-high-symbolic",
        "call_mute_mic",
    )
}

/// The speaker button of the call window.
pub fn call_speaker_button(cur: &Option<I18n>, deafened: bool) -> (l: ButtonLook)
    requires
        current_wf(*cur),
    ensures
        look_spec(
            *cur,
            deafened,
            "audio-volume-muted-symbolic"@,
            "call_undeafen"@,
            "audio-volume-high-symbolic"@,
            "call_deafen"@,
            l,
        ),
{
    look(cur, deafened, "audio-volume-muted-symbolic", "call_undeafen", "audio-volume-high-symbolic", "call_deafen")
}

/// The looks of the call window.
#[derive(Clone, Copy, Debug, PartialEq, Eq)]
pub enum CallWindowMode {
    /// Dialling or answering: the hang-up row.
    Outgoing,
    /// Ringing here: the answer and decline row.
    Incoming,
    /// Talking: the hang-up row and the running timer.
    Connected,
}

/// Which rows of the call window show, and whether the call timer runs:
/// `(hang-up row, answer row, timer)`.
pub fn call_window_rows(mode: CallWindowMode) -> (r: (bool, bool, bool))
    ensures
        r == (match mode {
            CallWindowMode::Outgoing => (true, false, false),
            CallWindowMode::Incoming => (false, true, false),
            CallWindowMode::Connected => (true, false, true),
        }),
{
    match mode {
        CallWindowMode::Outgoing => (true, false, false),
        CallWindowMode::Incoming => (false, true, false),
        CallWindowMode::Connected => (true, false, true),
    }
}

} // verus!
