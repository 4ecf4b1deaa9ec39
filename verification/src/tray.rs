//! The system tray: its title, the labels of its menu, and the menu itself as
//! plain values (recent chats, notification mute, Discord presence, quit).

use vstd::prelude::*;
use crate::text::{append_str, chars_of, decimal, decimal_signed, i64_to_string, push_char, to_owned_string};

verus! {

/// What a click in the tray or on a notification asks the window to do.
#[derive(Clone, Debug, PartialEq, Eq)]
pub enum TrayAction {
    Show,
    Quit,
    OpenChat { mid: String },
    /// `secs == 0` clears the timed mute; otherwise notifications stay muted
    /// for that many seconds.
    MuteFor { secs: u64 },
    /// Turns Discord Rich Presence on or off (kept in the settings).
    ToggleDiscordRpc,
}

/// A recent chat listed in the tray menu.
#[derive(Clone, Debug)]
pub struct TrayChatItem {
    pub mid: String,
    pub name: String,
    pub unread: i64,
}

// ---------------------------------------------------------------------------
// Labels
// ---------------------------------------------------------------------------

/// A menu label with each `_` doubled: the tray protocol reads a single `_`
/// as an accelerator marker.
pub open spec fn escape_underscores(s: Seq<char>) -> Seq<char>
    decreases s.len(),
{
    if s.len() == 0 {
        Seq::empty()
    } else {
        let prev = escape_underscores(s.drop_last());
        if s.last() == '_' {
            prev + seq!['_', '_']
        } else {
            prev.push(s.last())
        }
    }
}

pub fn menu_label(s: &str) -> (out: String)
    ensures
        out@ == escape_underscores(s@),
{
    let v = chars_of(s);
    let mut out = String::new();
    let mut i: usize = 0;
    while i < v.len()
        invariant
            v@ == s@,
            i <= v@.len(),
            out@ == escape_underscores(v@.take(i as int)),
        decreases v@.len() - i,
    {
        assert(v@.take(i + 1).drop_last() =~= v@.take(i as int));
        if v[i] == '_' {
            push_char(&mut out, '_');
            push_char(&mut out, '_');
            assert(out@ =~= escape_underscores(v@.take(i as int)) + seq!['_', '_']);
        } else {
            push_char(&mut out, v[i]);
        }
        i = i + 1;
    }
    assert(v@.take(v@.len() as int) =~= v@);
    out
}

/// A name of at most `max` characters: longer ones keep `max - 1` characters
/// and end in `…`.
pub open spec fn truncated(name: Seq<char>, max: nat) -> Seq<char> {
    if name.len() <= max {
        name
    } else {
        name.take(if max == 0 { 0 } else { max - 1 }).push('…')
    }
}

pub fn truncate_name(name: &str, max_chars: usize) -> (out: String)
    ensures
        out@ == truncated(name@, max_chars as nat),
{
    let v = chars_of(name);
    if v.len() <= max_chars {
        return to_owned_string(name);
    }
    let keep = if max_chars == 0 {
        0
    } else {
        max_chars - 1
    };
    let mut out = String::new();
    let mut i: usize = 0;
    while i < keep
        invariant
            v@ == name@,
            keep < v@.len(),
            i <= keep,
            out@ == v@.take(i as int),
        decreases keep - i,
    {
        push_char(&mut out, v[i]);
        i = i + 1;
        assert(out@ =~= v@.take(i as int));
    }
    push_char(&mut out, '…');
    out
}

/// Label of a recent chat: its name cut to 28 characters, the unread count
/// in brackets when there is one, underscores escaped.
pub open spec fn chat_label(name: Seq<char>, unread: i64) -> Seq<char> {
    let base = truncated(name, 28);
    escape_underscores(if unread > 0 { base + " ("@ + decimal_signed(unread as int) + ")"@ } else { base })
}

/// Icon of a recent chat: an unread envelope when there is something unread.
pub open spec fn chat_icon(unread: i64) -> Seq<char> {
    if unread > 0 {
        "mail-unread-symbolic"@
    } else {
        "avatar-default-symbolic"@
    }
}

/// Notifications are muted while the mute ends after `now`.
pub open spec fn is_muted(muted_until: i64, now: i64) -> bool {
    muted_until > now
}

/// The mute deadline that a choice of the tray's mute menu sets at `now`:
/// `secs == 0` clears the timed mute, anything else mutes for that many
/// seconds.
pub open spec fn mute_deadline_spec(secs: u64, now: i64) -> int {
    if secs == 0 {
        0
    } else {
        now + secs
    }
}

pub fn mute_deadline(secs: u64, now: i64) -> (until: i64)
    requires
        secs == 0 || (secs <= 0x7FFF_FFFF_FFFF_FFFF && i64::MIN <= now + secs <= i64::MAX),
    ensures
        until == mute_deadline_spec(secs, now),
{
    if secs == 0 {
        0
    } else {
        now + secs as i64
    }
}

/// Muting from the tray silences notifications from now on, and "unmute now"
/// ends it (for any time after the epoch).
pub proof fn lemma_mute_choice_takes_effect(secs: u64, now: i64)
    requires
        0 < now,
        now + secs <= i64::MAX,
    ensures
        is_muted(mute_deadline_spec(secs, now) as i64, now) == (secs > 0),
{
}

/// The window title in the tray.
pub fn tray_title(muted_until: i64, now: i64) -> (s: &'static str)
    ensures
        s@ == (if is_muted(muted_until, now) { "LINE GTK (muted)"@ } else { "LINE GTK"@ }),
{
    if muted_until > now {
        "LINE GTK (muted)"
    } else {
        "LINE GTK"
    }
}

/// Minutes of mute left, rounded up.
pub open spec fn minutes_left(muted_until: i64, now: i64) -> int {
    (muted_until - now + 59) / 60
}

/// Title of the mute submenu: the time left, in hours (rounded up) from an
/// hour on, in minutes below that.
pub open spec fn mute_label_spec(muted_until: i64, now: i64) -> Seq<char> {
    if is_muted(muted_until, now) {
        let mins = minutes_left(muted_until, now);
        if mins >= 60 {
            "Mute notifications ("@ + decimal(((mins + 59) / 60) as nat) + "h left)"@
        } else {
            "Mute notifications ("@ + decimal(mins as nat) + "m left)"@
        }
    } else {
        "Mute notifications"@
    }
}

pub fn mute_label(muted_until: i64, now: i64) -> (s: String)
    requires
        0 <= now,
        muted_until - now + 59 <= i64::MAX,
    ensures
        s@ == mute_label_spec(muted_until, now),
{
    if muted_until > now {
        let left = muted_until - now;
        let mins = (left + 59) / 60;
        let mut s = to_owned_string("Mute notifications (");
        if mins >= 60 {
            let hours = (mins + 59) / 60;
            let digits = i64_to_string(hours);
            append_str(&mut s, digits.as_str());
            append_str(&mut s, "h left)");
        } else {
            let digits = i64_to_string(mins);
            append_str(&mut s, digits.as_str());
            append_str(&mut s, "m left)");
        }
        s
    } else {
        to_owned_string("Mute notifications")
    }
}

// ---------------------------------------------------------------------------
// The menu
// ---------------------------------------------------------------------------

/// A recent chat in the menu.
pub struct ChatEntry {
    pub label: String,
    pub icon: &'static str,
    pub mid: String,
}

/// A choice of the mute submenu: its label and the mute length it asks for
/// (0 unmutes).
pub struct MuteEntry {
    pub label: &'static str,
    pub secs: u64,
}

/// The tray menu: "Show window"; the recent chats (or a disabled
/// "No recent chats"); the mute submenu; the Discord presence checkmark;
/// "Quit".
pub struct TrayMenu {
    pub chats: Vec<ChatEntry>,
    pub mute_title: String,
    pub muted: bool,
    /// "Unmute now" first while muted, then the five mute lengths.
    pub mute_entries: Vec<MuteEntry>,
    pub discord_rpc: bool,
}

/// The fixed mute lengths: 15 minutes, 1, 3, 8 and 24 hours.
pub open spec fn mute_choices() -> Seq<(Seq<char>, u64)> {
    seq![
        ("Mute for 15 minutes"@, 900u64),
        ("Mute for 1 hour"@, 3600u64),
        ("Mute for 3 hours"@, 10800u64),
        ("Mute for 8 hours"@, 28800u64),
        ("Mute for 24 hours"@, 86400u64),
    ]
}

pub open spec fn mute_entries_spec(muted: bool) -> Seq<(Seq<char>, u64)> {
    if muted {
        seq![("Unmute now"@, 0u64)] + mute_choices()
    } else {
        mute_choices()
    }
}

fn chat_entry(chat: &TrayChatItem) -> (e: ChatEntry)
    ensures
        e.label@ == chat_label(chat.name@, chat.unread),
        e.icon@ == chat_icon(chat.unread),
        e.mid@ == chat.mid@,
{
    let mut label = truncate_name(chat.name.as_str(), 28);
    if chat.unread > 0 {
        append_str(&mut label, " (");
        let n = i64_to_string(chat.unread);
        append_str(&mut label, n.as_str());
        append_str(&mut label, ")");
    }
    let label = menu_label(label.as_str());
    let icon = if chat.unread > 0 {
        "mail-unread-symbolic"
    } else {
        "avatar-default-symbolic"
    };
    ChatEntry { label, icon, mid: chat.mid.clone() }
}

/// Builds the tray menu for the recent chats, the mute deadline and the
/// presence switch at time `now`.
pub fn tray_menu(recent: &Vec<TrayChatItem>, muted_until: i64, now: i64, discord_rpc: bool) -> (m: TrayMenu)
    requires
        0 <= now,
        muted_until - now + 59 <= i64::MAX,
    ensures
        m.chats@.len() == recent@.len(),
        forall|i: int|
            0 <= i < recent@.len() ==> {
                &&& (#[trigger] m.chats@[i]).label@ == chat_label(recent@[i].name@, recent@[i].unread)
                &&& m.chats@[i].icon@ == chat_icon(recent@[i].unread)
                &&& m.chats@[i].mid@ == recent@[i].mid@
            },
        m.muted == is_muted(muted_until, now),
        m.mute_title@ == mute_label_spec(muted_until, now),
        m.mute_entries@.map_values(|e: MuteEntry| (e.label@, e.secs)) == mute_entries_spec(m.muted),
        m.discord_rpc == discord_rpc,
{
    let mut chats: Vec<ChatEntry> = Vec::new();
    let mut i: usize = 0;
    while i < recent.len()
        invariant
            i <= recent@.len(),
            chats@.len() == i,
            forall|k: int|
                0 <= k < i ==> {
                    &&& (#[trigger] chats@[k]).label@ == chat_label(recent@[k].name@, recent@[k].unread)
                    &&& chats@[k].icon@ == chat_icon(recent@[k].unread)
                    &&& chats@[k].mid@ == recent@[k].mid@
                },
        decreases recent@.len() - i,
    {
        chats.push(chat_entry(&recent[i]));
        i = i + 1;
    }
    let muted = muted_until > now;
    let mut mute_entries: Vec<MuteEntry> = Vec::new();
    if muted {
        mute_entries.push(MuteEntry { label: "Unmute now", secs: 0 });
    }
    mute_entries.push(MuteEntry { label: "Mute for 15 minutes", secs: 900 });
    mute_entries.push(MuteEntry { label: "Mute for 1 hour", secs: 3600 });
    mute_entries.push(MuteEntry { label: "Mute for 3 hours", secs: 10800 });
    mute_entries.push(MuteEntry { label: "Mute for 8 hours", secs: 28800 });
    mute_entries.push(MuteEntry { label: "Mute for 24 hours", secs: 86400 });
    assert(mute_entries@.map_values(|e: MuteEntry| (e.label@, e.secs)) =~= mute_entries_spec(muted));
    TrayMenu { chats, mute_title: mute_label(muted_until, now), muted, mute_entries, discord_rpc }
}

// ---------------------------------------------------------------------------
// The tray icon
// ---------------------------------------------------------------------------

/// RGBA pixels as the tray protocol wants them, ARGB: each whole pixel's
/// alpha byte moves to the front; bytes after the last whole pixel stay.
pub open spec fn argb_of(rgba: Seq<u8>) -> Seq<u8> {
    Seq::new(
        rgba.len(),
        |i: int|
            if i < rgba.len() - rgba.len() % 4 {
                if i % 4 == 0 {
                    rgba[i + 3]
                } else {
                    rgba[i - 1]
                }
            } else {
                rgba[i]
            },
    )
}

/// Reorders icon pixels from RGBA to ARGB.
pub fn rgba_to_argb(data: Vec<u8>) -> (out: Vec<u8>)
    ensures
        out@ == argb_of(data@),
{
    let n = data.len();
    let whole = n - n % 4;
    assert(whole % 4 == 0) by (nonlinear_arith)
        requires
            whole == n - n % 4,
    ;
    let mut out: Vec<u8> = Vec::new();
    let mut i: usize = 0;
    while i < n
        invariant
            n == data@.len(),
            whole == n - n % 4,
            i <= n,
            whole % 4 == 0,
            i < whole ==> i % 4 == 0,
            out@.len() == i,
            forall|k: int| 0 <= k < i ==> out@[k] == argb_of(data@)[k],
        decreases n - i,
    {
        if i < whole {
            assert(whole - i >= 4);
            out.push(data[i + 3]);
            out.push(data[i]);
            out.push(data[i + 1]);
            out.push(data[i + 2]);
            i = i + 4;
        } else {
            out.push(data[i]);
            i = i + 1;
        }
    }
    assert(out@ =~= argb_of(data@));
    out
}

/// What `image` decodes from the bytes of a PNG file: width, height and RGBA
/// pixels.
pub uninterp spec fn decoded_png_rgba(bytes: Seq<u8>) -> Option<(u32, u32, Seq<u8>)>;

/// `image::load_from_memory_with_format(.., ImageFormat::Png)`, then the
/// picture's `width`, `height` and `into_rgba8().into_vec()`: four bytes a
/// pixel. The decoded picture is named, not described.
#[verifier::external_body]
fn png_to_rgba(bytes: &[u8]) -> (r: Option<(u32, u32, Vec<u8>)>)
    ensures
        match r {
            Some(t) => decoded_png_rgba(bytes@) == Some((t.0, t.1, t.2@)) && t.2@.len() == (t.0 as int) * (t.1 as int) * 4,
            None => decoded_png_rgba(bytes@) is None,
        },
{
    image::load_from_memory_with_format(bytes, image::ImageFormat::Png)
        .ok()
        .map(|img| (img.width(), img.height(), img.into_rgba8().into_vec()))
}

/// A picture for the tray: width, height and ARGB pixels.
pub struct TrayIcon {
    pub width: i32,
    pub height: i32,
    pub data: Vec<u8>,
}

/// The tray icon made from the bytes of a PNG file; `None` when they do not
/// decode.
pub fn tray_icon_from_png(png: &[u8]) -> (r: Option<TrayIcon>)
    ensures
        match decoded_png_rgba(png@) {
            Some((w, h, px)) => r is Some && r->0.width == w as i32 && r->0.height == h as i32 && r->0.data@
                == argb_of(px),
            None => r is None,
        },
{
    match png_to_rgba(png) {
        Some((w, h, px)) => Some(
            TrayIcon {
                width: #[verifier::truncate] (w as i32),
                height: #[verifier::truncate] (h as i32),
                data: rgba_to_argb(px),
            },
        ),
        None => None,
    }
}

} // verus!
