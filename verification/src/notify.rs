//! Desktop notifications for incoming messages: a stable replace-id per
//! message, and which pictures and hints a notification carries.

use vstd::prelude::*;
use crate::text::to_owned_string;
use std::hash::{Hash, Hasher};

verus! {

/// The 64-bit hash that `std::collections::hash_map::DefaultHasher::new()`
/// gives of a string (`Hash for str`: its bytes, then `0xff`).
pub uninterp spec fn default_hash(s: Seq<char>) -> u64;

/// `DefaultHasher::new()`, `str::hash` into it, `Hasher::finish`. Hashers
/// made by `DefaultHasher::new` all start from the same keys.
#[verifier::external_body]
fn hash_str(s: &str) -> (h: u64)
    ensures
        h == default_hash(s@),
{
    let mut hasher = std::collections::hash_map::DefaultHasher::new();
    s.hash(&mut hasher);
    hasher.finish()
}

/// The replace-id of a message: the low 32 bits of its hash, and 1 where those
/// are 0 (an id of 0 asks for a new notification).
pub open spec fn notification_id_spec(message_id: Seq<char>) -> u32 {
    let low = (default_hash(message_id) % 0x1_0000_0000) as u32;
    if low == 0 { 1 } else { low }
}

/// Stable notification replace-id for a message id.
pub fn notification_id(message_id: &str) -> (id: u32)
    ensures
        id == notification_id_spec(message_id@),
        id >= 1,
{
    let h = hash_str(message_id);
    let low = (h % 0x1_0000_0000) as u32;
    if low == 0 {
        1
    } else {
        low
    }
}

/// A message notification: title, body, optional pictures, the chat a click
/// opens, and the message it stands for.
pub struct ChatNotification<'a> {
    pub title: &'a str,
    pub body: &'a str,
    pub avatar_path: Option<&'a str>,
    pub image_path: Option<&'a str>,
    pub chat_mid: &'a str,
    pub message_id: &'a str,
    pub suppress_sound: bool,
}

/// What is shown: the icon (the avatar, else the application's icon), the
/// large picture if any, the replace-id, and whether the sound is suppressed.
pub struct NotificationPlan {
    pub icon: String,
    pub image: Option<String>,
    pub id: u32,
    pub suppress_sound: bool,
}

/// A picture path is used when it is non-empty and exists.
pub open spec fn usable(path: Option<&str>, exists: bool) -> Option<Seq<char>> {
    match path {
        Some(p) => if p@.len() > 0 && exists { Some(p@) } else { None },
        None => None,
    }
}

/// Decides the pictures and hints of `request`; `avatar_exists` and
/// `image_exists` say whether those files exist.
pub fn notification_plan(request: &ChatNotification, avatar_exists: bool, image_exists: bool) -> (p: NotificationPlan)
    ensures
        p.icon@ == (match usable(request.avatar_path, avatar_exists) {
            Some(a) => a,
            None => "line-gtk"@,
        }),
        (match p.image {
            Some(s) => Some(s@),
            None => None,
        }) == usable(request.image_path, image_exists),
        p.id == notification_id_spec(request.message_id@),
        p.suppress_sound == request.suppress_sound,
{
    let icon = match request.avatar_path {
        Some(a) => {
            if !a.is_empty() && avatar_exists {
                to_owned_string(a)
            } else {
                to_owned_string("line-gtk")
            }
        },
        None => to_owned_string("line-gtk"),
    };
    let image = match request.image_path {
        Some(i) => {
            if !i.is_empty() && image_exists {
                Some(to_owned_string(i))
            } else {
                None
            }
        },
        None => None,
    };
    NotificationPlan {
        icon,
        image,
        id: notification_id(request.message_id),
        suppress_sound: request.suppress_sound,
    }
}

} // verus!
