//! What the window does about each event of the protocol engine: sign-in
//! steps, incoming messages, loading progress, failed requests, calls, and
//! restarting a crashed engine. Each decision is a plain value that the UI
//! carries out.

use vstd::prelude::*;
use std::collections::HashMap;
use crate::i18n::{current_wf, pair_views, t, tf, translate, translate_with, I18n};
use crate::chats::{can_call, can_call_spec};
use crate::protocol::{ChatInfo, FlexAction, MessageInfo};
use crate::text::{
    append_str, ascii_lower, chars_of, lower_seq, seq_contains, seq_eq, str_contains, str_eq, to_owned_string, u64_to_string,
    decimal,
};

verus! {

broadcast use vstd::std_specs::hash::group_hash_axioms;

// ---------------------------------------------------------------------------
// Signing in
// ---------------------------------------------------------------------------

/// What the engine's "ready" asks for.
#[derive(Clone, Copy, Debug, PartialEq, Eq, Structural)]
pub enum ReadyPlan {
    /// A saved session is being restored: keep the main view (no QR flash).
    ShowRestoring,
    /// Show the sign-in page and ask for a QR code.
    RequestQr,
}

/// On "ready": a saved session restores quietly unless the engine was
/// restarted on purpose, which always goes through the QR code again. The
/// restart flag is cleared.
pub fn on_ready(restarting: &mut bool, has_auth: bool) -> (plan: ReadyPlan)
    ensures
        !*final(restarting),
        plan == (if has_auth && !*old(restarting) {
            ReadyPlan::ShowRestoring
        } else {
            ReadyPlan::RequestQr
        }),
{
    let was = *restarting;
    *restarting = false;
    if has_auth && !was {
        ReadyPlan::ShowRestoring
    } else {
        ReadyPlan::RequestQr
    }
}

/// The message shown when restoring the session failed: a hint to sign in on
/// Android again, a "signed out" hint, or the engine's own words.
pub open spec fn session_failure_spec(cur: Option<I18n>, error: Seq<char>) -> Seq<char> {
    if seq_contains(error, "relogin_android_required"@) {
        translate(cur, "relogin_android_required"@)
    } else if seq_contains(error, "NOT_AUTHORIZED_DEVICE"@) || seq_contains(error, "V3_TOKEN_CLIENT_LOGGED_OUT"@)
        || seq_contains(error, "LOGGED_OUT"@) {
        translate(cur, "logged_out_hint"@)
    } else {
        error
    }
}

pub fn session_failure_text(cur: &Option<I18n>, error: &str) -> (s: String)
    requires
        current_wf(*cur),
    ensures
        s@ == session_failure_spec(*cur, error@),
{
    if str_contains(error, "relogin_android_required") {
        t(cur, "relogin_android_required")
    } else if str_contains(error, "NOT_AUTHORIZED_DEVICE") || str_contains(error, "V3_TOKEN_CLIENT_LOGGED_OUT")
        || str_contains(error, "LOGGED_OUT") {
        t(cur, "logged_out_hint")
    } else {
        to_owned_string(error)
    }
}

// ---------------------------------------------------------------------------
// Incoming messages
// ---------------------------------------------------------------------------

/// The conversation a message belongs to: its chat when the engine names one,
/// else the other party.
pub open spec fn message_peer_spec(msg: MessageInfo) -> Seq<char> {
    if msg.chat_mid@.len() > 0 {
        msg.chat_mid@
    } else if msg.mine {
        msg.to@
    } else {
        msg.from@
    }
}

pub fn message_peer(msg: &MessageInfo) -> (p: String)
    ensures
        p@ == message_peer_spec(*msg),
{
    if !msg.chat_mid.as_str().is_empty() {
        msg.chat_mid.clone()
    } else if msg.mine {
        msg.to.clone()
    } else {
        msg.from.clone()
    }
}

/// The kind of a conversation by its id: `m…` OpenChat, `c…` group, else a
/// direct chat.
pub open spec fn peer_kind_spec(peer: Seq<char>) -> Seq<char> {
    if peer.len() > 0 && peer[0] == 'm' {
        "openchat"@
    } else if peer.len() > 0 && peer[0] == 'c' {
        "group"@
    } else {
        "dm"@
    }
}

pub fn peer_chat_kind(peer: &str) -> (k: &'static str)
    ensures
        k@ == peer_kind_spec(peer@),
{
    let v = chars_of(peer);
    if v.len() > 0 && v[0] == 'm' {
        "openchat"
    } else if v.len() > 0 && v[0] == 'c' {
        "group"
    } else {
        "dm"
    }
}

/// Who a preview names: "You", the sender's name, or "They".
pub open spec fn sender_label_spec(cur: Option<I18n>, msg: MessageInfo) -> Seq<char> {
    if msg.mine {
        translate(cur, "you"@)
    } else if msg.sender_name@.len() > 0 {
        msg.sender_name@
    } else {
        translate(cur, "they"@)
    }
}

pub fn sender_label(cur: &Option<I18n>, msg: &MessageInfo) -> (s: String)
    requires
        current_wf(*cur),
    ensures
        s@ == sender_label_spec(*cur, *msg),
{
    if msg.mine {
        t(cur, "you")
    } else if !msg.sender_name.as_str().is_empty() {
        msg.sender_name.clone()
    } else {
        t(cur, "they")
    }
}

/// What an incoming message does besides updating the chat list.
#[derive(Clone, Copy, Debug, PartialEq, Eq, Structural)]
pub struct IncomingPlan {
    /// Append it to the open conversation.
    pub append: bool,
    /// Put a "new messages" line above it.
    pub new_marker: bool,
    /// Keep the view at the newest message.
    pub follow: bool,
    /// Count it among the unseen messages below the view.
    pub count_below: bool,
    /// Mark the conversation read.
    pub mark_read: bool,
    /// Raise the unread badge.
    pub bump_unread: bool,
    /// Show a desktop notification.
    pub notify: bool,
}

/// The plan for a message in a conversation that is open (`viewing`) or not,
/// in a window that has the focus or not, with the view at the newest
/// message (`at_bottom`) or scrolled up.
pub open spec fn incoming_plan_spec(viewing: bool, focused: bool, at_bottom: bool, mine: bool) -> IncomingPlan {
    if viewing {
        IncomingPlan {
            append: true,
            new_marker: !mine && !at_bottom,
            follow: at_bottom,
            count_below: !at_bottom && !mine,
            mark_read: at_bottom && !mine && focused,
            bump_unread: !mine && !(at_bottom && focused),
            notify: !mine && !(at_bottom && focused),
        }
    } else {
        IncomingPlan {
            append: false,
            new_marker: false,
            follow: false,
            count_below: false,
            mark_read: false,
            bump_unread: !mine,
            notify: !mine,
        }
    }
}

/// A message in the open conversation, scrolled to the newest message, keeps
/// the view pinned to the newest message, whoever sent it and whether the
/// window has the focus; a message is followed only there. Whether a message
/// is one's own never changes whether it is appended or followed.
pub proof fn lemma_bottom_of_open_chat_follows(viewing: bool, focused: bool, at_bottom: bool, mine: bool)
    ensures
        incoming_plan_spec(viewing, focused, at_bottom, mine).follow == (viewing && at_bottom),
        incoming_plan_spec(viewing, focused, at_bottom, mine).append == viewing,
        incoming_plan_spec(viewing, focused, at_bottom, true).follow == incoming_plan_spec(
            viewing,
            focused,
            at_bottom,
            false,
        ).follow,
        incoming_plan_spec(viewing, focused, at_bottom, mine).follow ==> !incoming_plan_spec(
            viewing,
            focused,
            at_bottom,
            mine,
        ).new_marker && !incoming_plan_spec(viewing, focused, at_bottom, mine).count_below,
{
}

pub fn incoming_plan(viewing: bool, focused: bool, at_bottom: bool, mine: bool) -> (p: IncomingPlan)
    ensures
        p == incoming_plan_spec(viewing, focused, at_bottom, mine),
        p.follow == (viewing && at_bottom),
        p.append == viewing,
        mine ==> !p.notify && !p.bump_unread && !p.mark_read,
        viewing && focused && at_bottom ==> !p.notify && !p.bump_unread,
        !mine ==> (p.notify == p.bump_unread) && (p.notify != p.mark_read),
{
    if viewing {
        let quiet = at_bottom && focused;
        IncomingPlan {
            append: true,
            new_marker: !mine && !at_bottom,
            follow: at_bottom,
            count_below: !at_bottom && !mine,
            mark_read: at_bottom && !mine && focused,
            bump_unread: !mine && !quiet,
            notify: !mine && !quiet,
        }
    } else {
        IncomingPlan {
            append: false,
            new_marker: false,
            follow: false,
            count_below: false,
            mark_read: false,
            bump_unread: !mine,
            notify: !mine,
        }
    }
}

/// Whether a saved session can be restored: the saved token file was read and
/// holds more than white space.
pub fn auth_token_present(contents: Option<&str>) -> (r: bool)
    ensures
        r == (match contents {
            Some(c) => crate::text::strip_both(c@, |ch: char| crate::text::is_ws(ch)).len() > 0,
            None => false,
        }),
{
    match contents {
        Some(c) => {
            let t = crate::text::trim(c);
            chars_of(t.as_str()).len() > 0
        },
        None => false,
    }
}

/// What the header shows of the signed-in account: its picture (the web
/// address, else the local file), and its status message as the name's
/// tooltip when there is one.
pub fn self_profile_view(profile: &crate::protocol::Profile) -> (r: (Option<String>, Option<String>))
    ensures
        r.0 == (if profile.picture_url is Some { profile.picture_url } else { profile.picture_path }),
        r.1 == (if profile.status_message@.len() > 0 { Some(profile.status_message) } else { None::<String> }),
{
    let picture = match &profile.picture_url {
        Some(u) => Some(u.clone()),
        None => profile.picture_path.clone(),
    };
    let tooltip = if chars_of(profile.status_message.as_str()).len() > 0 {
        Some(profile.status_message.clone())
    } else {
        None
    };
    (picture, tooltip)
}

// ---------------------------------------------------------------------------
// Loading progress
// ---------------------------------------------------------------------------

/// The pages of the chat list and of a conversation.
#[derive(Clone, Copy, Debug, PartialEq, Eq, Structural)]
pub enum Pane {
    Loading,
    List,
    Empty,
}

/// What a progress report changes: the spinner, the page (with the text of
/// the empty page), the status line, the subtitle, and a toast.
pub struct ProgressPlan {
    pub spinner: Option<bool>,
    pub pane: Option<Pane>,
    pub empty_text: Option<String>,
    pub status: Option<String>,
    pub subtitle: Option<String>,
    pub toast: Option<String>,
}

pub open spec fn opt_view(s: Option<String>) -> Option<Seq<char>> {
    match s {
        Some(x) => Some(x@),
        None => None,
    }
}

pub open spec fn opt_str_view(s: Option<&str>) -> Option<Seq<char>> {
    match s {
        Some(x) => Some(x@),
        None => None,
    }
}

pub open spec fn or_default(s: Option<&str>, d: Seq<char>) -> Seq<char> {
    match s {
        Some(x) => x@,
        None => d,
    }
}

/// A plan as plain values: spinner, page, empty text, status, subtitle, toast.
pub open spec fn plan_view(p: ProgressPlan) -> (Option<bool>, Option<Pane>, Option<Seq<char>>, Option<Seq<char>>, Option<Seq<char>>, Option<Seq<char>>) {
    (p.spinner, p.pane, opt_view(p.empty_text), opt_view(p.status), opt_view(p.subtitle), opt_view(p.toast))
}

/// Progress of the chat list: `loading`, `ready`, `empty`, `error`; other
/// states change nothing.
pub open spec fn chats_progress_spec(cur: Option<I18n>, state: Seq<char>, error: Option<&str>, no_chats: bool) -> (Option<bool>, Option<Pane>, Option<Seq<char>>, Option<Seq<char>>, Option<Seq<char>>, Option<Seq<char>>) {
    if state == "loading"@ {
        (Some(true), if no_chats { Some(Pane::Loading) } else { None }, None, Some(translate(cur, "refreshing_chats"@)), None, None)
    } else if state == "ready"@ {
        (Some(false), if no_chats { None } else { Some(Pane::List) }, None, None, None, None)
    } else if state == "empty"@ {
        (Some(false), Some(Pane::Empty), Some(translate(cur, "no_chats"@)), Some(translate(cur, "status_no_chats"@)), None, None)
    } else if state == "error"@ {
        let msg = or_default(error, "Failed to load chats"@);
        (Some(false), Some(Pane::Empty), Some(msg), None, None, Some(msg))
    } else {
        (None, None, None, None, None, None)
    }
}

pub fn chats_progress(cur: &Option<I18n>, state: &str, error: Option<&str>, no_chats: bool) -> (p: ProgressPlan)
    requires
        current_wf(*cur),
    ensures
        plan_view(p) == chats_progress_spec(*cur, state@, error, no_chats),
{
    let none = ProgressPlan { spinner: None, pane: None, empty_text: None, status: None, subtitle: None, toast: None };
    if str_eq(state, "loading") {
        ProgressPlan {
            spinner: Some(true),
            pane: if no_chats {
                Some(Pane::Loading)
            } else {
                None
            },
            status: Some(t(cur, "refreshing_chats")),
            ..none
        }
    } else if str_eq(state, "ready") {
        ProgressPlan {
            spinner: Some(false),
            pane: if no_chats {
                None
            } else {
                Some(Pane::List)
            },
            ..none
        }
    } else if str_eq(state, "empty") {
        ProgressPlan {
            spinner: Some(false),
            pane: Some(Pane::Empty),
            empty_text: Some(t(cur, "no_chats")),
            status: Some(t(cur, "status_no_chats")),
            ..none
        }
    } else if str_eq(state, "error") {
        let msg = match error {
            Some(e) => to_owned_string(e),
            None => to_owned_string("Failed to load chats"),
        };
        let msg2 = msg.clone();
        ProgressPlan { spinner: Some(false), pane: Some(Pane::Empty), empty_text: Some(msg), toast: Some(msg2), ..none }
    } else {
        none
    }
}

/// Progress of the open conversation: reports for another conversation are
/// ignored, and a conversation that already shows messages is not blanked.
pub open spec fn messages_progress_spec(
    cur: Option<I18n>,
    same_chat: bool,
    state: Seq<char>,
    error: Option<&str>,
    has_rows: bool,
) -> (Option<bool>, Option<Pane>, Option<Seq<char>>, Option<Seq<char>>, Option<Seq<char>>, Option<Seq<char>>) {
    if !same_chat {
        (None, None, None, None, None, None)
    } else if state == "loading"@ {
        if has_rows {
            (None, None, None, None, Some(translate(cur, "refreshing"@)), None)
        } else {
            (None, Some(Pane::Loading), None, None, None, None)
        }
    } else if state == "ready"@ {
        (None, if has_rows { Some(Pane::List) } else { None }, None, None, None, None)
    } else if state == "empty"@ {
        if has_rows {
            (None, None, None, None, None, None)
        } else {
            (None, Some(Pane::Empty), Some(translate(cur, "no_messages"@)), None, Some(translate(cur, "empty"@)), None)
        }
    } else if state == "error"@ {
        let msg = or_default(error, "Failed to load messages"@);
        (None, Some(Pane::Empty), Some(msg), None, None, Some(msg))
    } else {
        (None, None, None, None, None, None)
    }
}

pub fn messages_progress(
    cur: &Option<I18n>,
    current_chat: Option<&str>,
    chat_mid: Option<&str>,
    state: &str,
    error: Option<&str>,
    has_rows: bool,
) -> (p: ProgressPlan)
    requires
        current_wf(*cur),
    ensures
        plan_view(p) == messages_progress_spec(
            *cur,
            opt_str_view(current_chat) == opt_str_view(chat_mid),
            state@,
            error,
            has_rows,
        ),
{
    let none = ProgressPlan { spinner: None, pane: None, empty_text: None, status: None, subtitle: None, toast: None };
    let same = match (current_chat, chat_mid) {
        (Some(a), Some(b)) => str_eq(a, b),
        (None, None) => true,
        _ => false,
    };
    if !same {
        return none;
    }
    if str_eq(state, "loading") {
        if has_rows {
            ProgressPlan { subtitle: Some(t(cur, "refreshing")), ..none }
        } else {
            ProgressPlan { pane: Some(Pane::Loading), ..none }
        }
    } else if str_eq(state, "ready") {
        if has_rows {
            ProgressPlan { pane: Some(Pane::List), ..none }
        } else {
            none
        }
    } else if str_eq(state, "empty") {
        if has_rows {
            none
        } else {
            ProgressPlan {
                pane: Some(Pane::Empty),
                empty_text: Some(t(cur, "no_messages")),
                subtitle: Some(t(cur, "empty")),
                ..none
            }
        }
    } else if str_eq(state, "error") {
        let msg = match error {
            Some(e) => to_owned_string(e),
            None => to_owned_string("Failed to load messages"),
        };
        let msg2 = msg.clone();
        ProgressPlan { pane: Some(Pane::Empty), empty_text: Some(msg), toast: Some(msg2), ..none }
    } else {
        none
    }
}

// ---------------------------------------------------------------------------
// Failed requests
// ---------------------------------------------------------------------------

/// What a request was for, as far as its failure matters.
#[derive(Clone, Copy, Debug, PartialEq, Eq, Structural)]
pub enum PendingKind {
    Login,
    ListChats,
    ListFriends,
    FetchMessages,
    Send,
    ListStickers,
    DownloadMedia,
    ProfileLookup,
    ProfileAddFriend,
    ReactMessage,
    UnsendMessage,
    CallScreenStart,
    CallScreenStop,
}

/// The requests that wait for an answer, by id, with what each was for.
pub struct PendingBook {
    entries: HashMap<u64, PendingKind>,
}

impl PendingBook {
    /// The waiting requests: id to kind.
    pub closed spec fn kinds(&self) -> Map<u64, PendingKind> {
        self.entries@
    }

    pub fn new() -> (b: Self)
        ensures
            b.kinds() == Map::<u64, PendingKind>::empty(),
    {
        PendingBook { entries: HashMap::new() }
    }

    /// Takes the request `id` out of the book, with what it was for.
    pub fn take(&mut self, id: u64) -> (r: Option<PendingKind>)
        ensures
            r == (if old(self).kinds().contains_key(id) { Some(old(self).kinds()[id]) } else { None }),
            final(self).kinds() == old(self).kinds().remove(id),
    {
        self.entries.remove(&id)
    }

    /// Records that the request `id`, made for `kind`, waits for an answer; an
    /// earlier request of the same id is forgotten.
    pub fn insert(&mut self, id: u64, kind: PendingKind)
        ensures
            final(self).kinds() == old(self).kinds().insert(id, kind),
    {
        let _ = self.entries.insert(id, kind);
    }
}

/// The reaction to a failed request.
pub struct FailurePlan {
    /// Nothing at all (a sign-in request cut short by a deliberate restart).
    pub ignore: bool,
    /// Back to the sign-in page with this text.
    pub login_text: Option<String>,
    /// The chat list's empty page with this text.
    pub chats_empty: Option<String>,
    /// The conversation's empty page with this text.
    pub messages_empty: Option<String>,
    /// The friends list's empty page with this text.
    pub friends_empty: Option<String>,
    /// Drop the sending placeholder and the upload bar.
    pub drop_placeholder: bool,
    /// The profile card's status text and whether "add friend" stays enabled.
    pub profile: Option<(String, bool)>,
    /// Screen sharing is known to be on (`true`) or off.
    pub screen_sharing: Option<bool>,
    pub toast: Option<String>,
}

/// The toast for a failed request without a more specific one.
pub open spec fn generic_failure_spec(cur: Option<I18n>, err: Seq<char>) -> Seq<char> {
    if seq_contains(err, "sticker_not_owned"@) || seq_contains(err, "USER_NOT_STICKER_OWNER"@) {
        translate(cur, "sticker_not_owned"@)
    } else {
        err
    }
}

pub open spec fn with_error(cur: Option<I18n>, key: Seq<char>, err: Seq<char>) -> Seq<char> {
    translate_with(cur, key, seq![("error"@, err)])
}

fn error_text(cur: &Option<I18n>, key: &str, err: &str) -> (s: String)
    requires
        current_wf(*cur),
    ensures
        s@ == with_error(*cur, key@, err@),
{
    let pairs = [("error", err)];
    let s = tf(cur, key, &pairs);
    assert(pair_views(pairs@) =~= seq![("error"@, err@)]);
    s
}

/// What to do when the request `pending` (if it is known) failed with
/// `error`.
pub fn failure_plan(cur: &Option<I18n>, pending: Option<PendingKind>, restarting: bool, error: Option<&str>) -> (p: FailurePlan)
    requires
        current_wf(*cur),
    ensures
        p.ignore == (pending == Some(PendingKind::Login) && restarting),
        !p.ignore ==> {
            let err = or_default(error, "request failed"@);
            &&& opt_view(p.login_text) == (if pending == Some(PendingKind::Login) {
                Some(or_default(error, "Login failed. Tap Retry to start over."@))
            } else {
                None
            })
            &&& opt_view(p.chats_empty) == (if pending == Some(PendingKind::ListChats) {
                Some(or_default(error, "Failed to load chats"@))
            } else {
                None
            })
            &&& opt_view(p.messages_empty) == (if pending == Some(PendingKind::FetchMessages) {
                Some(or_default(error, "Failed to load messages"@))
            } else {
                None
            })
            &&& opt_view(p.friends_empty) == (if pending == Some(PendingKind::ListFriends) {
                Some(or_default(error, translate(*cur, "friends_load_failed"@)))
            } else {
                None
            })
            &&& p.drop_placeholder == (pending == Some(PendingKind::Send))
            &&& (match p.profile {
                Some((s, add)) => Some((s@, add)),
                None => None,
            }) == (if pending == Some(PendingKind::ProfileLookup) {
                Some((with_error(*cur, "profile_check_failed"@, err), false))
            } else if pending == Some(PendingKind::ProfileAddFriend) {
                Some((with_error(*cur, "profile_add_failed"@, err), true))
            } else {
                None
            })
            &&& p.screen_sharing == (if pending == Some(PendingKind::CallScreenStart) {
                Some(false)
            } else if pending == Some(PendingKind::CallScreenStop) {
                Some(true)
            } else {
                None
            })
            &&& opt_view(p.toast) == Some(
                if pending == Some(PendingKind::ProfileLookup) {
                    with_error(*cur, "profile_check_failed"@, err)
                } else if pending == Some(PendingKind::ProfileAddFriend) {
                    with_error(*cur, "profile_add_failed"@, err)
                } else if pending == Some(PendingKind::CallScreenStart) || pending == Some(PendingKind::CallScreenStop) {
                    with_error(*cur, "call_share_failed"@, err)
                } else if pending == Some(PendingKind::ReactMessage) {
                    with_error(*cur, "message_reaction_failed"@, err)
                } else if pending == Some(PendingKind::UnsendMessage) {
                    with_error(*cur, "message_unsend_failed"@, err)
                } else {
                    generic_failure_spec(*cur, err)
                },
            )
        },
{
    let mut p = FailurePlan {
        ignore: false,
        login_text: None,
        chats_empty: None,
        messages_empty: None,
        friends_empty: None,
        drop_placeholder: false,
        profile: None,
        screen_sharing: None,
        toast: None,
    };
    let is_login = match pending {
        Some(PendingKind::Login) => true,
        _ => false,
    };
    if is_login && restarting {
        p.ignore = true;
        return p;
    }
    let or = |d: &str| -> (s: String)
        ensures
            s@ == or_default(error, d@),
        {
            match error {
                Some(e) => to_owned_string(e),
                None => to_owned_string(d),
            }
        };
    let err: String = or("request failed");
    match pending {
        Some(PendingKind::Login) => {
            p.login_text = Some(or("Login failed. Tap Retry to start over."));
        },
        Some(PendingKind::ListChats) => {
            p.chats_empty = Some(or("Failed to load chats"));
        },
        Some(PendingKind::FetchMessages) => {
            p.messages_empty = Some(or("Failed to load messages"));
        },
        Some(PendingKind::ListFriends) => {
            p.friends_empty = Some(
                match error {
                    Some(e) => to_owned_string(e),
                    None => t(cur, "friends_load_failed"),
                },
            );
        },
        Some(PendingKind::Send) => {
            p.drop_placeholder = true;
        },
        _ => {},
    }
    match pending {
        Some(PendingKind::ProfileLookup) => {
            let m = error_text(cur, "profile_check_failed", err.as_str());
            p.profile = Some((m.clone(), false));
            p.toast = Some(m);
        },
        Some(PendingKind::ProfileAddFriend) => {
            let m = error_text(cur, "profile_add_failed", err.as_str());
            p.profile = Some((m.clone(), true));
            p.toast = Some(m);
        },
        Some(PendingKind::CallScreenStart) => {
            p.screen_sharing = Some(false);
            p.toast = Some(error_text(cur, "call_share_failed", err.as_str()));
        },
        Some(PendingKind::CallScreenStop) => {
            p.screen_sharing = Some(true);
            p.toast = Some(error_text(cur, "call_share_failed", err.as_str()));
        },
        Some(PendingKind::ReactMessage) => {
            p.toast = Some(error_text(cur, "message_reaction_failed", err.as_str()));
        },
        Some(PendingKind::UnsendMessage) => {
            p.toast = Some(error_text(cur, "message_unsend_failed", err.as_str()));
        },
        _ => {
            if str_contains(err.as_str(), "sticker_not_owned") || str_contains(err.as_str(), "USER_NOT_STICKER_OWNER") {
                p.toast = Some(t(cur, "sticker_not_owned"));
            } else {
                p.toast = Some(err);
            }
        },
    }
    p
}

// ---------------------------------------------------------------------------
// Restarting a crashed engine
// ---------------------------------------------------------------------------

/// Restarts tried in a row before giving up.
pub const MAX_RECOVERY_ATTEMPTS: u8 = 3;

/// The next step after the engine exited unexpectedly.
#[derive(Clone, Copy, Debug, PartialEq, Eq, Structural)]
pub enum RecoveryPlan {
    /// Stop trying and offer a manual retry.
    GiveUp,
    /// Restart after `delay_secs` seconds; this is try number `attempt`.
    Retry { attempt: u8, delay_secs: u64 },
}

/// Counts the try and waits 1, 2, then 4 seconds; gives up after three tries
/// in a row. A restored session resets the count.
pub fn recovery_step(attempts: &mut u8) -> (plan: RecoveryPlan)
    ensures
        *old(attempts) >= MAX_RECOVERY_ATTEMPTS ==> plan == RecoveryPlan::GiveUp && *final(attempts) == *old(attempts),
        *old(attempts) < MAX_RECOVERY_ATTEMPTS ==> *final(attempts) == *old(attempts) + 1 && plan == (RecoveryPlan::Retry {
            attempt: (*old(attempts) + 1) as u8,
            delay_secs: if *old(attempts) == 0 { 1 } else if *old(attempts) == 1 { 2 } else { 4 },
        }),
{
    if *attempts >= MAX_RECOVERY_ATTEMPTS {
        return RecoveryPlan::GiveUp;
    }
    *attempts = *attempts + 1;
    let attempt = *attempts;
    let delay_secs: u64 = if attempt == 1 {
        1
    } else if attempt == 2 {
        2
    } else {
        4
    };
    RecoveryPlan::Retry { attempt, delay_secs }
}

/// Whether an exit of the engine calls for a restart: not when it was
/// stopped on purpose.
pub fn should_recover(restarting: bool) -> (r: bool)
    ensures
        r == !restarting,
{
    !restarting
}

/// The status line while reconnecting.
pub fn reconnecting_text(cur: &Option<I18n>, attempt: u8) -> (s: String)
    requires
        current_wf(*cur),
    ensures
        s@ == translate_with(*cur, "protocol_reconnecting"@, seq![("attempt"@, decimal(attempt as nat))]),
{
    let n = u64_to_string(attempt as u64);
    let pairs = [("attempt", n.as_str())];
    let s = tf(cur, "protocol_reconnecting", &pairs);
    assert(pair_views(pairs@) =~= seq![("attempt"@, decimal(attempt as nat))]);
    s
}

// ---------------------------------------------------------------------------
// Calls
// ---------------------------------------------------------------------------

/// What a call state reported by the engine does.
pub enum CallPlan {
    /// Calls are locked: end the call and close its window.
    EndLocked,
    /// Dialling: the call window in its outgoing look.
    Outgoing,
    /// The call window in its connected look.
    Connected,
    /// Close the call window and say the call ended.
    Ended(String),
    /// Close the call window and say why the call failed.
    Failed(String),
    /// Nothing to do.
    Nothing,
}

/// The message for a failed call: a sign-in hint when the desktop session is
/// the problem, else "call failed" with the engine's words.
pub open spec fn call_failure_spec(cur: Option<I18n>, err: Seq<char>) -> Seq<char> {
    if seq_contains(err, "relogin_android_required"@) {
        translate(cur, "relogin_android_required"@)
    } else {
        with_error(cur, "call_failed"@, err)
    }
}

/// The toast for an error of a call action: a sign-in hint, or "call failed"
/// with the error.
pub fn call_error_text(cur: &Option<I18n>, err: &str) -> (s: String)
    requires
        current_wf(*cur),
    ensures
        s@ == (if seq_contains(err@, "relogin_android_required"@) {
            translate(*cur, "relogin_android_required"@)
        } else {
            with_error(*cur, "call_failed"@, err@)
        }),
{
    if str_contains(err, "relogin_android_required") {
        t(cur, "relogin_android_required")
    } else {
        error_text(cur, "call_failed", err)
    }
}

/// Whether the call state is one of a call in progress.
pub open spec fn live_call_state(state: Seq<char>) -> bool {
    state == "ringing"@ || state == "connecting"@ || state == "connected"@ || state == "acquiring"@
}

/// What the call state `state` does; with calls locked, a call that rings or
/// connects is ended at once.
pub open spec fn call_plan_spec(p: CallPlan, cur: Option<I18n>, calls_enabled: bool, state: Seq<char>, error: Option<&str>) -> bool {
    if !calls_enabled && live_call_state(state) {
        p is EndLocked
    } else if state == "acquiring"@ || state == "ringing"@ || state == "starting"@ {
        p is Outgoing
    } else if state == "connected"@ {
        p is Connected
    } else if state == "ended"@ {
        p matches CallPlan::Ended(s) && s@ == translate(cur, "call_ended"@)
    } else if state == "failed"@ {
        p matches CallPlan::Failed(s) && s@ == call_failure_spec(cur, or_default(error, "call failed"@))
    } else {
        p is Nothing
    }
}

pub fn call_state_plan(cur: &Option<I18n>, calls_enabled: bool, state: &str, error: Option<&str>) -> (p: CallPlan)
    requires
        current_wf(*cur),
    ensures
        call_plan_spec(p, *cur, calls_enabled, state@, error),
{
    let live = str_eq(state, "ringing") || str_eq(state, "connecting") || str_eq(state, "connected") || str_eq(
        state,
        "acquiring",
    );
    if !calls_enabled && live {
        return CallPlan::EndLocked;
    }
    if str_eq(state, "acquiring") || str_eq(state, "ringing") || str_eq(state, "starting") {
        CallPlan::Outgoing
    } else if str_eq(state, "connected") {
        CallPlan::Connected
    } else if str_eq(state, "ended") {
        CallPlan::Ended(t(cur, "call_ended"))
    } else if str_eq(state, "failed") {
        let err = match error {
            Some(e) => to_owned_string(e),
            None => to_owned_string("call failed"),
        };
        if str_contains(err.as_str(), "relogin_android_required") || str_contains(err.as_str(), "DESKTOPWIN") {
            CallPlan::Failed(call_error_text(cur, err.as_str()))
        } else {
            CallPlan::Failed(error_text(cur, "call_failed", err.as_str()))
        }
    } else {
        CallPlan::Nothing
    }
}

/// Whether a canceled call was ringing here or is the active one: then its
/// window closes (and a ringing call is forgotten).
pub fn canceled_call_closes(incoming_from: Option<&str>, active_peer: Option<&str>, from: &str) -> (r: (bool, bool))
    ensures
        r.0 == (opt_str_view(incoming_from) == Some(from@)),
        r.1 == (r.0 || opt_str_view(active_peer) == Some(from@)),
{
    let was_incoming = match incoming_from {
        Some(f) => str_eq(f, from),
        None => false,
    };
    let was_active = match active_peer {
        Some(p) => str_eq(p, from),
        None => false,
    };
    (was_incoming, was_incoming || was_active)
}

/// The running time of a connected call, `mm:ss` (minutes keep counting past
/// 99).
pub open spec fn call_timer_spec(secs: nat) -> Seq<char> {
    crate::media::two_digits(secs / 60) + ":"@ + crate::media::two_digits(secs % 60)
}

pub fn call_timer_text(secs: u64) -> (s: String)
    ensures
        s@ == call_timer_spec(secs as nat),
{
    let m = secs / 60;
    let r = secs % 60;
    let mut s = String::new();
    if m < 10 {
        crate::text::push_char(&mut s, '0');
    }
    let ms = u64_to_string(m);
    append_str(&mut s, ms.as_str());
    crate::text::push_char(&mut s, ':');
    if r < 10 {
        crate::text::push_char(&mut s, '0');
    }
    let rs = u64_to_string(r);
    append_str(&mut s, rs.as_str());
    proof {
        reveal_strlit(":");
    }
    s
}


/// The call button of the conversation header.
pub struct CallButton {
    pub visible: bool,
    pub sensitive: bool,
    pub tooltip: Option<String>,
}

/// The call button: hidden while calls are not switched on in the settings;
/// otherwise shown, and usable only where a call can be placed.
pub fn call_button(cur: &Option<I18n>, unlocked: bool, chats: &Vec<ChatInfo>, current: &Option<String>) -> (b: CallButton)
    requires
        current_wf(*cur),
    ensures
        !unlocked ==> !b.visible && !b.sensitive && b.tooltip is None,
        unlocked ==> b.visible && b.tooltip is Some && b.sensitive == can_call_spec(chats@, opt_view(*current))
            && b.tooltip->0@ == (if b.sensitive {
                translate(*cur, "voice_call"@) + ": "@ + translate(*cur, "voice_call_note"@)
            } else {
                translate(*cur, "voice_call_unavailable"@)
            }),
{
    if !unlocked {
        return CallButton { visible: false, sensitive: false, tooltip: None };
    }
    let ok = can_call(chats, current);
    assert(opt_view(*current) == match *current { Some(m) => Some(m@), None => None::<Seq<char>> });
    let tip = if ok {
        let mut s = t(cur, "voice_call");
        append_str(&mut s, ": ");
        let note = t(cur, "voice_call_note");
        append_str(&mut s, note.as_str());
        s
    } else {
        t(cur, "voice_call_unavailable")
    };
    CallButton { visible: true, sensitive: ok, tooltip: Some(tip) }
}


/// Why the call button cannot place a call now, if it cannot: calls are not
/// switched on, no chat is open, the chat is not a one-to-one chat, or a call
/// is already going on.
pub open spec fn call_start_refusal(cur: Option<I18n>, unlocked: bool, current: Option<Seq<char>>, call_active: bool) -> Option<Seq<char>> {
    if !unlocked {
        Some(translate(cur, "call_experimental_toast"@))
    } else if current is None {
        Some(translate(cur, "select_chat_first"@))
    } else if !(current->0.len() > 0 && current->0[0] == 'u') {
        Some(translate(cur, "voice_call_unavailable"@))
    } else if call_active {
        Some(translate(cur, "call_already_active"@))
    } else {
        None
    }
}

/// Before placing a call: the peer to call, or the toast that says why not.
pub fn check_call_start(cur: &Option<I18n>, unlocked: bool, current: &Option<String>, call_active: bool) -> (r: Result<String, String>)
    requires
        current_wf(*cur),
    ensures
        match call_start_refusal(*cur, unlocked, opt_view(*current), call_active) {
            Some(msg) => r is Err && r->Err_0@ == msg,
            None => r is Ok && r->Ok_0 == current->0,
        },
{
    if !unlocked {
        return Err(t(cur, "call_experimental_toast"));
    }
    let mid = match current {
        Some(m) => m,
        None => return Err(t(cur, "select_chat_first")),
    };
    let v = chars_of(mid.as_str());
    if !(v.len() > 0 && v[0] == 'u') {
        return Err(t(cur, "voice_call_unavailable"));
    }
    if call_active {
        return Err(t(cur, "call_already_active"));
    }
    Ok(mid.clone())
}

/// What the answer button does.
#[derive(Debug)]
pub enum AnswerStep {
    /// Calls are not switched on: decline the call and show the toast.
    Decline(String),
    /// Nothing to answer, or a call is already going on: show the toast.
    Refuse(String),
    /// Answer the call from this peer.
    Answer(String),
}

/// The answer button: with calls switched off the call is declined; it needs
/// a ringing call and no call going on.
pub fn answer_step(cur: &Option<I18n>, unlocked: bool, incoming_from: &Option<String>, call_active: bool) -> (r: AnswerStep)
    requires
        current_wf(*cur),
    ensures
        !unlocked ==> (r matches AnswerStep::Decline(m) && m@ == translate(*cur, "call_experimental_toast"@)),
        unlocked && incoming_from is None ==> (r matches AnswerStep::Refuse(m) && m@ == translate(
            *cur,
            "call_no_incoming"@,
        )),
        unlocked && incoming_from is Some && call_active ==> (r matches AnswerStep::Refuse(m) && m@ == translate(
            *cur,
            "call_already_active"@,
        )),
        unlocked && incoming_from is Some && !call_active ==> (r matches AnswerStep::Answer(p) && p
            == incoming_from->0),
{
    if !unlocked {
        return AnswerStep::Decline(t(cur, "call_experimental_toast"));
    }
    let from = match incoming_from {
        Some(f) => f,
        None => return AnswerStep::Refuse(t(cur, "call_no_incoming")),
    };
    if call_active {
        return AnswerStep::Refuse(t(cur, "call_already_active"));
    }
    AnswerStep::Answer(from.clone())
}

/// The call window's line while dialling (`call_calling`) or answering
/// (`call_answering`) the peer `name`.
pub fn call_progress_text(cur: &Option<I18n>, answering: bool, name: &str) -> (s: String)
    requires
        current_wf(*cur),
    ensures
        s@ == translate_with(*cur, if answering { "call_answering"@ } else { "call_calling"@ }, seq![("name"@, name@)]),
{
    let pairs = [("name", name)];
    let s = if answering {
        tf(cur, "call_answering", &pairs)
    } else {
        tf(cur, "call_calling", &pairs)
    };
    assert(pair_views(pairs@) =~= seq![("name"@, name@)]);
    s
}

// ---------------------------------------------------------------------------
// Media downloads
// ---------------------------------------------------------------------------

/// What to do about a message's media once the engine reports on it.
#[derive(Clone, Debug, PartialEq, Eq)]
pub enum MediaStep {
    Nothing,
    /// Hook the voice file at this path to its player.
    AttachAudio(String),
    /// Show the attachment as failed.
    MarkFailed,
    /// Queue the picture at this path for decoding.
    Queue(String),
}

/// The reaction to a "media ready" report: whether to remember the picture's
/// path for the message, and the step for the open conversation.
pub struct MediaReadyPlan {
    pub remember: bool,
    pub step: MediaStep,
}

/// A downloaded picture is remembered whatever chat is open, when it is on
/// disk. For the open chat a voice file is attached when it is on disk (and
/// nothing else is done), a missing picture marks the attachment failed, and
/// a picture on disk is queued.
pub fn media_ready_plan(
    is_current: bool,
    image_path: &str,
    image_exists: bool,
    audio_path: &Option<String>,
    audio_exists: bool,
) -> (p: MediaReadyPlan)
    ensures
        p.remember == (image_path@.len() > 0 && image_exists),
        !is_current ==> p.step == MediaStep::Nothing,
        is_current && audio_path is Some ==> p.step == (if audio_exists {
            MediaStep::AttachAudio(audio_path->0)
        } else {
            MediaStep::Nothing
        }),
        is_current && audio_path is None ==> if image_path@.len() == 0 || !image_exists {
            p.step == MediaStep::MarkFailed
        } else {
            p.step is Queue && p.step->Queue_0@ == image_path@
        },
{
    let has_image = chars_of(image_path).len() > 0;
    let remember = has_image && image_exists;
    if !is_current {
        return MediaReadyPlan { remember, step: MediaStep::Nothing };
    }
    let step = match audio_path {
        Some(a) => if audio_exists {
            MediaStep::AttachAudio(a.clone())
        } else {
            MediaStep::Nothing
        },
        None => if !has_image || !image_exists {
            MediaStep::MarkFailed
        } else {
            MediaStep::Queue(to_owned_string(image_path))
        },
    };
    MediaReadyPlan { remember, step }
}

/// The reaction to a "media failed" report for the open chat: a picture that
/// an earlier report left on disk is queued after all; else the attachment
/// is marked failed. Reports for other chats are ignored.
pub fn media_failed_plan(is_current: bool, ready_path: &Option<String>, ready_exists: bool) -> (step: MediaStep)
    ensures
        step == (if !is_current {
            MediaStep::Nothing
        } else if ready_path is Some && ready_exists {
            MediaStep::Queue(ready_path->0)
        } else {
            MediaStep::MarkFailed
        }),
{
    if !is_current {
        return MediaStep::Nothing;
    }
    match ready_path {
        Some(p) => if ready_exists {
            MediaStep::Queue(p.clone())
        } else {
            MediaStep::MarkFailed
        },
        None => MediaStep::MarkFailed,
    }
}

/// Records the paths of a "media ready" report on the message: a non-empty
/// picture path, a voice path and a file path, each where one was given.
pub fn apply_media_paths(meta: &mut MessageInfo, image_path: &str, audio_path: &Option<String>, file_path: &Option<String>)
    ensures
        *final(meta) == (MessageInfo {
            image_path: final(meta).image_path,
            audio_path: final(meta).audio_path,
            file_path: final(meta).file_path,
            ..*old(meta)
        }),
        opt_view(final(meta).image_path) == (if image_path@.len() > 0 {
            Some(image_path@)
        } else {
            opt_view(old(meta).image_path)
        }),
        final(meta).audio_path == (if audio_path is Some { *audio_path } else { old(meta).audio_path }),
        final(meta).file_path == (if file_path is Some { *file_path } else { old(meta).file_path }),
{
    if chars_of(image_path).len() > 0 {
        meta.image_path = Some(to_owned_string(image_path));
    }
    if let Some(a) = audio_path {
        meta.audio_path = Some(a.clone());
    }
    if let Some(f) = file_path {
        meta.file_path = Some(f.clone());
    }
}

/// Records where a requested download was stored: always as the message's
/// file, and also as its picture or voice file for those kinds (content type
/// compared without case).
pub fn record_download(meta: &mut MessageInfo, content_type: &str, path: &str)
    ensures
        *final(meta) == (MessageInfo {
            image_path: final(meta).image_path,
            audio_path: final(meta).audio_path,
            file_path: final(meta).file_path,
            ..*old(meta)
        }),
        opt_view(final(meta).file_path) == Some(path@),
        opt_view(final(meta).image_path) == (if lower_seq(content_type@) == "image"@ {
            Some(path@)
        } else {
            opt_view(old(meta).image_path)
        }),
        opt_view(final(meta).audio_path) == (if lower_seq(content_type@) != "image"@ && lower_seq(content_type@)
            == "audio"@ {
            Some(path@)
        } else {
            opt_view(old(meta).audio_path)
        }),
{
    meta.file_path = Some(to_owned_string(path));
    let lower = ascii_lower(content_type);
    let image = chars_of("image");
    let audio = chars_of("audio");
    if seq_eq(&lower, &image) {
        meta.image_path = Some(to_owned_string(path));
    } else if seq_eq(&lower, &audio) {
        meta.audio_path = Some(to_owned_string(path));
    }
}

/// What happens to a message's media once it is on disk.
#[derive(Clone, Copy, Debug, PartialEq, Eq, Structural)]
pub enum MediaAction {
    OpenViewer,
    SaveDialog,
    PlayAudio,
}

/// The media action named by a request: `open_viewer`, `play_audio`, and
/// saving for anything else.
pub fn media_action_of(action: &str) -> (a: MediaAction)
    ensures
        a == (if action@ == "open_viewer"@ {
            MediaAction::OpenViewer
        } else if action@ == "play_audio"@ {
            MediaAction::PlayAudio
        } else {
            MediaAction::SaveDialog
        }),
{
    if str_eq(action, "open_viewer") {
        MediaAction::OpenViewer
    } else if str_eq(action, "play_audio") {
        MediaAction::PlayAudio
    } else {
        MediaAction::SaveDialog
    }
}

/// Before a message's media is fetched: the open chat to fetch it in, or the
/// toast when no chat is open or the message has no id yet.
pub fn check_media_download(cur: &Option<I18n>, current: &Option<String>, message_id: &str) -> (r: Result<String, String>)
    requires
        current_wf(*cur),
    ensures
        current is None ==> r is Err && r->Err_0@ == translate(*cur, "select_chat_first"@),
        current is Some && message_id@.len() == 0 ==> r is Err && r->Err_0@ == translate(*cur, "media_download_failed"@),
        current is Some && message_id@.len() > 0 ==> r is Ok && r->Ok_0 == current->0,
{
    let chat = match current {
        Some(c) => c,
        None => return Err(t(cur, "select_chat_first")),
    };
    if chars_of(message_id).len() == 0 {
        return Err(t(cur, "media_download_failed"));
    }
    Ok(chat.clone())
}

/// The toast after a chat was muted or unmuted.
pub fn mute_toast(cur: &Option<I18n>, muted: bool) -> (s: String)
    requires
        current_wf(*cur),
    ensures
        s@ == translate(*cur, if muted { "chat_muted"@ } else { "chat_unmuted"@ }),
{
    if muted {
        t(cur, "chat_muted")
    } else {
        t(cur, "chat_unmuted")
    }
}

// ---------------------------------------------------------------------------
// Flex message buttons and the "new messages" banner
// ---------------------------------------------------------------------------

/// What pressing a button of a flex message does.
#[derive(Debug)]
pub enum FlexPlan {
    /// Open this address in the browser.
    OpenUri(String),
    /// Send this text to the chat.
    SendText(String),
    /// Post this data back to the bot, with the button's address if any.
    Postback { data: String, uri: Option<String> },
}

/// A link button (kind `uri` or `url`, any case, with an address) opens it; a
/// `message` button sends its data (or its label); anything else posts its
/// data (or its label) back.
pub open spec fn flex_plan_ok(p: FlexPlan, a: FlexAction) -> bool {
    let kind = crate::text::lower_seq(a.kind@);
    let data = match a.data {
        Some(d) => d@,
        None => a.label@,
    };
    if (kind == "uri"@ || kind == "url"@) && a.uri is Some {
        p matches FlexPlan::OpenUri(u) && u@ == a.uri->Some_0@
    } else if kind == "message"@ {
        p matches FlexPlan::SendText(t) && t@ == data
    } else {
        p matches FlexPlan::Postback { data: d, uri: u } && d@ == data && opt_view(u) == opt_view(a.uri)
    }
}

pub fn flex_action_plan(action: &FlexAction) -> (p: FlexPlan)
    ensures
        flex_plan_ok(p, *action),
{
    let kind_chars = crate::text::ascii_lower(action.kind.as_str());
    let kind = crate::text::string_from_chars(kind_chars.as_slice());
    let link = str_eq(kind.as_str(), "uri") || str_eq(kind.as_str(), "url");
    if link {
        if let Some(u) = &action.uri {
            return FlexPlan::OpenUri(u.clone());
        }
    }
    let data = match &action.data {
        Some(d) => d.clone(),
        None => action.label.clone(),
    };
    if str_eq(kind.as_str(), "message") {
        FlexPlan::SendText(data)
    } else {
        FlexPlan::Postback { data, uri: action.uri.clone() }
    }
}

/// The banner over a scrolled-up conversation: shown while new messages
/// arrived below and the view is not at the bottom, saying how many.
pub fn jump_banner_text(cur: &Option<I18n>, new_below: u64, at_bottom: bool) -> (s: Option<String>)
    requires
        current_wf(*cur),
    ensures
        opt_view(s) == (if new_below > 0 && !at_bottom {
            Some(if new_below == 1 {
                translate(*cur, "jump_new_one"@)
            } else {
                translate_with(*cur, "jump_new_n"@, seq![("n"@, decimal(new_below as nat))])
            })
        } else {
            None
        }),
{
    if new_below > 0 && !at_bottom {
        if new_below == 1 {
            Some(t(cur, "jump_new_one"))
        } else {
            let n = u64_to_string(new_below);
            let pairs = [("n", n.as_str())];
            let text = tf(cur, "jump_new_n", &pairs);
            assert(pair_views(pairs@) =~= seq![("n"@, decimal(new_below as nat))]);
            Some(text)
        }
    } else {
        None
    }
}

} // verus!
