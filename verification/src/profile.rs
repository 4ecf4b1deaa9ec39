//! The profile card of a message's sender: what it shows before the engine
//! answers, and how the engine's answer about the friendship is shown.

use vstd::prelude::*;
use crate::events::opt_view;
use crate::i18n::{current_wf, t, translate, I18n};
use crate::protocol::ChatInfo;
use crate::text::{append_str, chars_of, str_eq, to_owned_string};

verus! {

/// Who the card is about, as the private-chat button opens them.
pub struct ProfileTarget {
    pub mid: String,
    pub name: String,
    pub avatar_path: Option<String>,
}

/// The card before the engine's answer.
pub struct ProfileIntro {
    /// The window title and name line.
    pub title: String,
    /// The account line under the name.
    pub account: String,
    /// The status line.
    pub status: String,
    /// Whether to ask the engine about the friendship.
    pub lookup: bool,
}

/// The sender's shown name: the name the engine gave, else the account id.
pub open spec fn shown_sender(from: Seq<char>, sender_name: Seq<char>) -> Seq<char> {
    if sender_name.len() == 0 { from } else { sender_name }
}

/// An OpenChat member, or an account that is not a user's (`u…`): their
/// profile cannot be looked up.
pub open spec fn opaque_member(from: Seq<char>, sender_kind: Seq<char>) -> bool {
    sender_kind == "openchat"@ || !(from.len() > 0 && from[0] == 'u')
}

/// The card for the sender `from` of a message: OpenChat members and the
/// signed-in account itself are not looked up.
pub fn sender_profile_intro(
    cur: &Option<I18n>,
    from: &str,
    sender_name: &str,
    sender_kind: &str,
    self_mid: &Option<String>,
) -> (p: ProfileIntro)
    requires
        current_wf(*cur),
    ensures
        p.title@ == shown_sender(from@, sender_name@),
        p.account@ == (if sender_kind@ == "openchat"@ { "OpenChat member · "@ } else { "LINE · "@ }) + from@,
        opaque_member(from@, sender_kind@) ==> !p.lookup && p.status@ == translate(
            *cur,
            "profile_openchat_private_unavailable"@,
        ),
        !opaque_member(from@, sender_kind@) && opt_view(*self_mid) == Some(from@) ==> !p.lookup && p.status@
            == translate(*cur, "profile_self"@),
        !opaque_member(from@, sender_kind@) && opt_view(*self_mid) != Some(from@) ==> p.lookup && p.status@
            == translate(*cur, "profile_checking"@),
{
    let title = if chars_of(sender_name).len() == 0 {
        to_owned_string(from)
    } else {
        to_owned_string(sender_name)
    };
    let openchat = str_eq(sender_kind, "openchat");
    let mut account = if openchat {
        to_owned_string("OpenChat member · ")
    } else {
        to_owned_string("LINE · ")
    };
    append_str(&mut account, from);
    let v = chars_of(from);
    let is_user = v.len() > 0 && v[0] == 'u';
    if openchat || !is_user {
        return ProfileIntro { title, account, status: t(cur, "profile_openchat_private_unavailable"), lookup: false };
    }
    let is_self = match self_mid {
        Some(m) => str_eq(m.as_str(), from),
        None => false,
    };
    if is_self {
        ProfileIntro { title, account, status: t(cur, "profile_self"), lookup: false }
    } else {
        ProfileIntro { title, account, status: t(cur, "profile_checking"), lookup: true }
    }
}

/// The engine's answer about a profile; each part may be missing.
pub struct ProfileReply {
    pub mid: Option<String>,
    pub display_name: Option<String>,
    pub avatar_path: Option<String>,
    pub status_message: Option<String>,
    pub is_friend: Option<bool>,
    pub blocked: Option<bool>,
    pub can_add: Option<bool>,
    pub can_chat: Option<bool>,
}

/// What the card shows after the answer.
pub struct ProfileView {
    /// A new name for the name line.
    pub name: Option<String>,
    /// A picture to load as the avatar.
    pub avatar: Option<String>,
    pub bio: String,
    pub bio_visible: bool,
    pub add_visible: bool,
    pub add_sensitive: bool,
    pub chat_sensitive: bool,
    pub status: String,
    pub toast: Option<String>,
}

pub open spec fn flag_or(v: Option<bool>, d: bool) -> bool {
    match v {
        Some(b) => b,
        None => d,
    }
}

/// A friend after the answer: just added, or so reported.
pub open spec fn now_friend(reply: ProfileReply, just_added: bool) -> bool {
    just_added || flag_or(reply.is_friend, false)
}

/// The status line after the answer.
pub open spec fn relation_status(cur: Option<I18n>, reply: ProfileReply, just_added: bool) -> Seq<char> {
    if just_added {
        translate(cur, "profile_add_success"@)
    } else if now_friend(reply, just_added) {
        translate(cur, "profile_friend"@)
    } else if flag_or(reply.blocked, false) {
        translate(cur, "profile_blocked"@)
    } else {
        translate(cur, "profile_not_friend"@)
    }
}

/// Shows the engine's answer about a profile (`just_added` after a friend
/// request went through). The target takes the reported id, a non-empty
/// reported name and a reported avatar that is on disk (`avatar_exists`).
/// Friends cannot be added again; the private chat opens only for friends
/// that the engine does not say it is closed to.
pub fn apply_profile_relation(
    cur: &Option<I18n>,
    target: &mut ProfileTarget,
    reply: &ProfileReply,
    avatar_exists: bool,
    just_added: bool,
) -> (v: ProfileView)
    requires
        current_wf(*cur),
    ensures
        final(target).mid@ == (match reply.mid {
            Some(m) => m@,
            None => old(target).mid@,
        }),
        match reply.display_name {
            Some(n) if n@.len() > 0 => final(target).name@ == n@ && opt_view(v.name) == Some(n@),
            _ => final(target).name == old(target).name && v.name is None,
        },
        match reply.avatar_path {
            Some(p) if avatar_exists => opt_view(final(target).avatar_path) == Some(p@) && opt_view(v.avatar)
                == Some(p@),
            _ => final(target).avatar_path == old(target).avatar_path && v.avatar is None,
        },
        v.bio@ == (match reply.status_message {
            Some(s) => s@,
            None => Seq::empty(),
        }),
        v.bio_visible == (v.bio@.len() > 0),
        v.add_visible == !now_friend(*reply, just_added),
        v.add_sensitive == (!just_added && flag_or(reply.can_add, false)),
        v.chat_sensitive == (now_friend(*reply, just_added) && flag_or(reply.can_chat, true)),
        v.status@ == relation_status(*cur, *reply, just_added),
        just_added ==> v.toast is Some && v.toast->0@ == translate(*cur, "profile_add_success"@),
        !just_added ==> v.toast is None,
{
    if let Some(m) = &reply.mid {
        target.mid = m.clone();
    }
    let mut name: Option<String> = None;
    if let Some(n) = &reply.display_name {
        if chars_of(n.as_str()).len() > 0 {
            target.name = n.clone();
            name = Some(n.clone());
        }
    }
    let mut avatar: Option<String> = None;
    if let Some(p) = &reply.avatar_path {
        if avatar_exists {
            target.avatar_path = Some(p.clone());
            avatar = Some(p.clone());
        }
    }
    let bio = match &reply.status_message {
        Some(s) => s.clone(),
        None => String::new(),
    };
    let bio_visible = chars_of(bio.as_str()).len() > 0;
    let is_friend = just_added || match reply.is_friend {
        Some(b) => b,
        None => false,
    };
    let blocked = match reply.blocked {
        Some(b) => b,
        None => false,
    };
    let can_add = !just_added && match reply.can_add {
        Some(b) => b,
        None => false,
    };
    let can_chat = is_friend && match reply.can_chat {
        Some(b) => b,
        None => is_friend,
    };
    let status = if just_added {
        t(cur, "profile_add_success")
    } else if is_friend {
        t(cur, "profile_friend")
    } else if blocked {
        t(cur, "profile_blocked")
    } else {
        t(cur, "profile_not_friend")
    };
    let toast = if just_added {
        Some(t(cur, "profile_add_success"))
    } else {
        None
    };
    ProfileView {
        name,
        avatar,
        bio,
        bio_visible,
        add_visible: !is_friend,
        add_sensitive: can_add,
        chat_sensitive: can_chat,
        status,
        toast,
    }
}

/// The chat that the card's private-chat button opens: a direct chat with the
/// target, with no activity yet.
pub fn profile_chat(target: &ProfileTarget) -> (c: ChatInfo)
    ensures
        c.mid == target.mid,
        c.name == target.name,
        c.kind@ == "dm"@,
        c.avatar_path == target.avatar_path,
        c.last_activity == 0,
        c.unread == 0,
        c.preview@.len() == 0,
        !c.muted,
        !c.pinned,
{
    ChatInfo {
        mid: target.mid.clone(),
        name: target.name.clone(),
        kind: to_owned_string("dm"),
        avatar_path: target.avatar_path.clone(),
        last_activity: 0,
        unread: 0,
        preview: String::new(),
        muted: false,
        pinned: false,
    }
}

} // verus!
