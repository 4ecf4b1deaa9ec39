//! Chat backgrounds: the preset colours, a picture of the user's own, and
//! how such a picture is stored.

use vstd::prelude::*;
use crate::text::{append_str, chars_of, push_char, str_eq, to_owned_string};

verus! {

/// The background chosen for a chat: a preset name, or `custom` with the path
/// of the stored picture.
pub struct ChatBackground {
    pub preset: String,
    pub image_path: String,
}

/// How the message area of a chat looks.
#[derive(Debug, PartialEq, Eq)]
pub enum BackgroundLook {
    /// The default colour.
    Default,
    /// A preset: the style class to add.
    Preset(String),
    /// A picture of the user's own, at this path.
    Custom(String),
}

/// A chat without a setting has the default look; a custom picture shows when
/// its file is there (`image_is_file`), and otherwise so does the default; a
/// preset other than `default` adds its style class `line-chat-bg-<preset>`.
pub fn background_look(setting: Option<&ChatBackground>, image_is_file: bool) -> (look: BackgroundLook)
    ensures
        match setting {
            None => look == BackgroundLook::Default,
            Some(s) => if s.preset@ == "custom"@ && image_is_file {
                look matches BackgroundLook::Custom(p) && p@ == s.image_path@
            } else if s.preset@ != "default"@ {
                look matches BackgroundLook::Preset(c) && c@ == "line-chat-bg-"@ + s.preset@
            } else {
                look == BackgroundLook::Default
            },
        },
{
    match setting {
        None => BackgroundLook::Default,
        Some(s) => {
            if str_eq(s.preset.as_str(), "custom") && image_is_file {
                BackgroundLook::Custom(s.image_path.clone())
            } else if !str_eq(s.preset.as_str(), "default") {
                let mut class = to_owned_string("line-chat-bg-");
                append_str(&mut class, s.preset.as_str());
                BackgroundLook::Preset(class)
            } else {
                BackgroundLook::Default
            }
        },
    }
}

/// A preset in the background menu.
pub struct BackgroundChoice {
    pub preset: &'static str,
    /// The key of its label in the language tables.
    pub label_key: &'static str,
    /// The style class of its colour swatch.
    pub swatch_class: &'static str,
    pub selected: bool,
}

/// The presets, in menu order: name, label key, swatch class.
pub open spec fn preset_table() -> Seq<(Seq<char>, Seq<char>, Seq<char>)> {
    seq![
        ("default"@, "chat_background_default"@, "line-bg-swatch-default"@),
        ("mint"@, "chat_background_mint"@, "line-bg-swatch-mint"@),
        ("ocean"@, "chat_background_ocean"@, "line-bg-swatch-ocean"@),
        ("dusk"@, "chat_background_dusk"@, "line-bg-swatch-dusk"@),
        ("graphite"@, "chat_background_graphite"@, "line-bg-swatch-graphite"@),
    ]
}

/// The background menu's presets, the chosen one (`selected`) marked.
pub fn background_choices(selected: &str) -> (v: Vec<BackgroundChoice>)
    ensures
        v@.len() == preset_table().len(),
        forall|i: int|
            0 <= i < v@.len() ==> (#[trigger] v@[i]).preset@ == preset_table()[i].0 && v@[i].label_key@
                == preset_table()[i].1 && v@[i].swatch_class@ == preset_table()[i].2 && v@[i].selected == (
            selected@ == preset_table()[i].0),
{
    let table: [(&'static str, &'static str, &'static str); 5] = [
        ("default", "chat_background_default", "line-bg-swatch-default"),
        ("mint", "chat_background_mint", "line-bg-swatch-mint"),
        ("ocean", "chat_background_ocean", "line-bg-swatch-ocean"),
        ("dusk", "chat_background_dusk", "line-bg-swatch-dusk"),
        ("graphite", "chat_background_graphite", "line-bg-swatch-graphite"),
    ];
    let ghost views = table@.map_values(|e: (&'static str, &'static str, &'static str)| (e.0@, e.1@, e.2@));
    assert(views =~= preset_table());
    let mut v: Vec<BackgroundChoice> = Vec::new();
    let mut i: usize = 0;
    while i < 5
        invariant
            i <= 5,
            table@.len() == 5,
            views == preset_table(),
            views == table@.map_values(|e: (&'static str, &'static str, &'static str)| (e.0@, e.1@, e.2@)),
            v@.len() == i,
            forall|k: int|
                0 <= k < i ==> (#[trigger] v@[k]).preset@ == preset_table()[k].0 && v@[k].label_key@
                    == preset_table()[k].1 && v@[k].swatch_class@ == preset_table()[k].2 && v@[k].selected == (
                selected@ == preset_table()[k].0),
        decreases 5 - i,
    {
        let (preset, label_key, swatch_class) = table[i];
        assert(views[i as int] == (preset@, label_key@, swatch_class@));
        v.push(BackgroundChoice { preset, label_key, swatch_class, selected: str_eq(selected, preset) });
        i = i + 1;
    }
    v
}

/// The largest picture taken as a background: 32 MB.
pub const MAX_BACKGROUND_BYTES: u64 = 33554432;

/// Why a picture cannot become a background, if it cannot: it must be a
/// regular file of at most 32 MB that decodes as a picture.
pub open spec fn background_refusal(is_file: bool, len: u64, decodable: bool) -> Option<Seq<char>> {
    if !is_file {
        Some("not a file"@)
    } else if len > MAX_BACKGROUND_BYTES {
        Some("image is larger than 32 MB"@)
    } else if !decodable {
        Some("unsupported image"@)
    } else {
        None
    }
}

/// Checks a picture chosen as a background, from what the disk says of it.
pub fn check_background_source(is_file: bool, len: u64, decodable: bool) -> (r: Result<(), String>)
    ensures
        match background_refusal(is_file, len, decodable) {
            Some(msg) => r is Err && r->Err_0@ == msg,
            None => r is Ok,
        },
{
    if !is_file {
        Err(to_owned_string("not a file"))
    } else if len > MAX_BACKGROUND_BYTES {
        Err(to_owned_string("image is larger than 32 MB"))
    } else if !decodable {
        Err(to_owned_string("unsupported image"))
    } else {
        Ok(())
    }
}

/// A character kept in the stored picture's name: an ASCII letter or digit,
/// or `-`.
pub open spec fn name_safe(c: char) -> bool {
    ('a' <= c && c <= 'z') || ('A' <= c && c <= 'Z') || ('0' <= c && c <= '9') || c == '-'
}

/// The chat id's safe characters, in order.
pub open spec fn safe_chars(s: Seq<char>) -> Seq<char>
    decreases s.len(),
{
    if s.len() == 0 {
        s
    } else if name_safe(s.last()) {
        safe_chars(s.drop_last()).push(s.last())
    } else {
        safe_chars(s.drop_last())
    }
}

/// At most the first 80 safe characters of the chat id.
pub open spec fn safe_chat_name(mid: Seq<char>) -> Seq<char> {
    let s = safe_chars(mid);
    if s.len() <= 80 { s } else { s.take(80) }
}

/// The stored picture's name is made of safe characters only (so it never
/// holds a `/` or a `.` and stays in the backgrounds directory), and of at
/// most 80 of them.
pub proof fn lemma_background_name_is_plain(mid: Seq<char>)
    ensures
        forall|i: int| 0 <= i < safe_chat_name(mid).len() ==> name_safe(#[trigger] safe_chat_name(mid)[i]),
        safe_chat_name(mid).len() <= 80,
{
    lemma_safe_chars(mid);
}

proof fn lemma_safe_chars(s: Seq<char>)
    ensures
        forall|i: int| 0 <= i < safe_chars(s).len() ==> name_safe(#[trigger] safe_chars(s)[i]),
    decreases s.len(),
{
    if s.len() > 0 {
        let prev = safe_chars(s.drop_last());
        lemma_safe_chars(s.drop_last());
        if name_safe(s.last()) {
            assert forall|i: int| 0 <= i < safe_chars(s).len() implies name_safe(#[trigger] safe_chars(s)[i]) by {
                if i < prev.len() {
                    assert(safe_chars(s)[i] == prev[i]);
                }
            }
        }
    }
}

/// The file names of a chat's stored background and of the temporary copy
/// that is renamed into place: `<id>.image` and `.<id>.image.tmp`, where the
/// id keeps at most 80 of the chat id's safe characters. A chat id without
/// any is refused.
pub fn background_file_names(chat_mid: &str) -> (r: Result<(String, String), String>)
    ensures
        safe_chat_name(chat_mid@).len() == 0 ==> r is Err && r->Err_0@ == "invalid chat id"@,
        safe_chat_name(chat_mid@).len() > 0 ==> r is Ok && r->Ok_0.0@ == safe_chat_name(chat_mid@) + ".image"@
            && r->Ok_0.1@ == "."@ + safe_chat_name(chat_mid@) + ".image.tmp"@,
{
    let v = chars_of(chat_mid);
    let mut safe = String::new();
    let mut i: usize = 0;
    let mut kept: usize = 0;
    assert(v@.take(0) =~= Seq::<char>::empty());
    while i < v.len()
        invariant
            i <= v@.len(),
            v@ == chat_mid@,
            kept == safe@.len(),
            kept <= 80,
            safe@ == (if safe_chars(v@.take(i as int)).len() <= 80 {
                safe_chars(v@.take(i as int))
            } else {
                safe_chars(v@.take(i as int)).take(80)
            }),
        decreases v@.len() - i,
    {
        let c = v[i];
        proof {
            assert(v@.take(i + 1).drop_last() =~= v@.take(i as int));
            assert(v@.take(i + 1).last() == c);
        }
        let ok = ('a' <= c && c <= 'z') || ('A' <= c && c <= 'Z') || ('0' <= c && c <= '9') || c == '-';
        if ok && kept < 80 {
            push_char(&mut safe, c);
            kept = kept + 1;
        }
        proof {
            let prev = safe_chars(v@.take(i as int));
            let next = safe_chars(v@.take(i + 1));
            if ok {
                assert(next == prev.push(c));
                if prev.len() >= 80 {
                    assert(next.take(80) =~= prev.take(80));
                } else if prev.len() < 80 {
                    assert(safe@ =~= next);
                }
            }
        }
        i = i + 1;
    }
    assert(v@.take(v@.len() as int) =~= v@);
    if kept == 0 {
        return Err(to_owned_string("invalid chat id"));
    }
    let mut dest = safe.clone();
    append_str(&mut dest, ".image");
    let mut tmp = to_owned_string(".");
    append_str(&mut tmp, safe.as_str());
    append_str(&mut tmp, ".image.tmp");
    Ok((dest, tmp))
}

} // verus!
