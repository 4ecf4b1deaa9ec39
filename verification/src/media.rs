//! Media attachments: file names and kinds, which viewer opens a file, the
//! gallery's navigation, voice-message durations, reactions and message
//! previews.

use vstd::prelude::*;
use crate::i18n::{current_wf, t as tr, translate, I18n};
use crate::protocol::MessageInfo;
use crate::text::{
    append_str, ascii_lower, ascii_upper, chars_of, contains_chars, lower_seq, push_char,
    seq_contains, seq_eq, str_eq, to_owned_string, upper_seq, decimal, u64_to_string, trim, strip_both,
    is_ws, occurs_at, matches_at,
};
use crate::downloads::split_extension;

verus! {

// ---------------------------------------------------------------------------
// Small helpers
// ---------------------------------------------------------------------------

fn chars_equal(v: &Vec<char>, s: &str) -> (r: bool)
    ensures
        r == (v@ == s@),
{
    let w = chars_of(s);
    seq_eq(v, &w)
}

fn chars_contain(v: &Vec<char>, s: &str) -> (r: bool)
    ensures
        r == seq_contains(v@, s@),
{
    let w = chars_of(s);
    contains_chars(v, &w)
}

/// Some pattern of `pats` occurs in `hay`.
pub open spec fn contains_any(hay: Seq<char>, pats: Seq<&str>) -> bool {
    exists|k: int| 0 <= k < pats.len() && seq_contains(hay, #[trigger] pats[k]@)
}

fn chars_contain_any(v: &Vec<char>, pats: &[&str]) -> (r: bool)
    ensures
        r == contains_any(v@, pats@),
{
    let mut i: usize = 0;
    while i < pats.len()
        invariant
            i <= pats@.len(),
            forall|k: int| 0 <= k < i ==> !seq_contains(v@, #[trigger] pats@[k]@),
        decreases pats@.len() - i,
    {
        if chars_contain(v, pats[i]) {
            return true;
        }
        i = i + 1;
    }
    false
}

fn string_of(v: &Vec<char>) -> (s: String)
    ensures
        s@ == v@,
{
    crate::text::string_from_chars(v.as_slice())
}

// ---------------------------------------------------------------------------
// Names and kinds
// ---------------------------------------------------------------------------

/// The file name offered when saving an attachment: its own name when it has
/// one; else the message id with an extension by content type; a file
/// message's text (other than `[File]`); or `line-<id>`.
pub open spec fn suggested_name(msg: MessageInfo) -> Seq<char> {
    let ct = upper_seq(msg.content_type@);
    if msg.file_name matches Some(n) && n@.len() > 0 {
        msg.file_name->Some_0@
    } else if ct == "IMAGE"@ {
        msg.id@ + ".jpg"@
    } else if ct == "VIDEO"@ {
        msg.id@ + ".mp4"@
    } else if ct == "AUDIO"@ {
        msg.id@ + ".m4a"@
    } else if ct == "FILE"@ && msg.text@.len() > 0 && msg.text@ != "[File]"@ {
        msg.text@
    } else {
        "line-"@ + msg.id@
    }
}

pub fn suggest_media_name(msg: &MessageInfo) -> (name: String)
    ensures
        name@ == suggested_name(*msg),
{
    match &msg.file_name {
        Some(n) => {
            if !n.as_str().is_empty() {
                return n.clone();
            }
        },
        None => {},
    }
    let ct = ascii_upper(msg.content_type.as_str());
    if chars_equal(&ct, "IMAGE") {
        let mut s = msg.id.clone();
        append_str(&mut s, ".jpg");
        s
    } else if chars_equal(&ct, "VIDEO") {
        let mut s = msg.id.clone();
        append_str(&mut s, ".mp4");
        s
    } else if chars_equal(&ct, "AUDIO") {
        let mut s = msg.id.clone();
        append_str(&mut s, ".m4a");
        s
    } else if chars_equal(&ct, "FILE") && !msg.text.as_str().is_empty() && !str_eq(msg.text.as_str(), "[File]") {
        msg.text.clone()
    } else {
        let mut s = to_owned_string("line-");
        append_str(&mut s, msg.id.as_str());
        s
    }
}

/// A chat-size preview: `.thumb.` in the lower-cased path.
pub open spec fn is_thumb_path(path: Seq<char>) -> bool {
    seq_contains(lower_seq(path), ".thumb."@)
}

pub fn is_thumb_media_path(path: &str) -> (r: bool)
    ensures
        r == is_thumb_path(path@),
{
    let lower = ascii_lower(path);
    chars_contain(&lower, ".thumb.")
}

/// A full-size download: `.full.` in the lower-cased path.
pub open spec fn is_full_path(path: Seq<char>) -> bool {
    seq_contains(lower_seq(path), ".full."@)
}

pub fn is_full_media_path(path: &str) -> (r: bool)
    ensures
        r == is_full_path(path@),
{
    let lower = ascii_lower(path);
    chars_contain(&lower, ".full.")
}

/// Whether a picture is probably a small preview rather than the full image:
/// a `.full.` download never is, a `.thumb.` file always is, and otherwise a
/// picture of at most 512 by 512 pixels is. `size` is the width and height
/// that the file's header gives, `None` where it could not be read.
pub open spec fn looks_low_res(path: Seq<char>, size: Option<(i32, i32)>) -> bool {
    if is_full_path(path) {
        false
    } else if is_thumb_path(path) {
        true
    } else {
        match size {
            Some((w, h)) => w <= 512 && h <= 512,
            None => false,
        }
    }
}

pub fn image_looks_low_res(path: &str, size: Option<(i32, i32)>) -> (r: bool)
    ensures
        r == looks_low_res(path@, size),
{
    if is_full_media_path(path) {
        return false;
    }
    if is_thumb_media_path(path) {
        return true;
    }
    match size {
        Some((w, h)) => w <= 512 && h <= 512,
        None => false,
    }
}

/// Whether the message has an attachment to keep track of.
pub open spec fn tracks_media(msg: MessageInfo) -> bool {
    let ct = upper_seq(msg.content_type@);
    ct == "IMAGE"@ || ct == "VIDEO"@ || ct == "AUDIO"@ || ct == "FILE"@ || ct == "STICKER"@
        || msg.image_path is Some || msg.audio_path is Some || msg.file_path is Some || msg.flex is Some
}

pub fn message_tracks_media(msg: &MessageInfo) -> (r: bool)
    ensures
        r == tracks_media(*msg),
{
    let ct = ascii_upper(msg.content_type.as_str());
    chars_equal(&ct, "IMAGE") || chars_equal(&ct, "VIDEO") || chars_equal(&ct, "AUDIO")
        || chars_equal(&ct, "FILE") || chars_equal(&ct, "STICKER") || msg.image_path.is_some()
        || msg.audio_path.is_some() || msg.file_path.is_some() || msg.flex.is_some()
}

// ---------------------------------------------------------------------------
// Paths
// ---------------------------------------------------------------------------

/// A path without trailing `/` and trailing `/.` components.
pub open spec fn trimmed_path(s: Seq<char>) -> Seq<char>
    decreases s.len(),
{
    if s.len() > 0 && s.last() == '/' {
        trimmed_path(s.drop_last())
    } else if s.len() >= 2 && s.last() == '.' && s[s.len() - 2] == '/' {
        trimmed_path(s.drop_last())
    } else {
        s
    }
}

/// Index just after the last `/` of `s`, 0 without one.
pub open spec fn after_last_slash(s: Seq<char>) -> int
    decreases s.len(),
{
    if s.len() == 0 {
        0
    } else if s.last() == '/' {
        s.len() as int
    } else {
        after_last_slash(s.drop_last())
    }
}

/// `Path::extension` on Unix: the part after the last dot of the last normal
/// component, if there is one.
pub open spec fn path_extension(path: Seq<char>) -> Option<Seq<char>> {
    let t = trimmed_path(path);
    let name = t.skip(after_last_slash(t));
    if name.len() == 0 || name == "."@ {
        None
    } else {
        split_extension(name).1
    }
}

fn trim_path(v: &Vec<char>) -> (end: usize)
    ensures
        end <= v@.len(),
        v@.take(end as int) == trimmed_path(v@),
{
    let mut end = v.len();
    assert(v@.take(end as int) =~= v@);
    while end > 0 && (v[end - 1] == '/' || (end >= 2 && v[end - 1] == '.' && v[end - 2] == '/'))
        invariant
            end <= v@.len(),
            trimmed_path(v@.take(end as int)) == trimmed_path(v@),
        decreases end,
    {
        assert(v@.take(end as int).drop_last() =~= v@.take(end - 1));
        end = end - 1;
    }
    end
}

fn last_slash_end(v: &Vec<char>, end: usize) -> (start: usize)
    requires
        end <= v@.len(),
    ensures
        start <= end,
        start == after_last_slash(v@.take(end as int)),
{
    let mut i = end;
    while i > 0 && v[i - 1] != '/'
        invariant
            i <= end,
            end <= v@.len(),
            after_last_slash(v@.take(end as int)) == after_last_slash(v@.take(i as int)),
        decreases i,
    {
        assert(v@.take(i as int).drop_last() =~= v@.take(i - 1));
        i = i - 1;
    }
    i
}

/// The extension of `path` as `Path::extension` finds it.
pub fn file_extension(path: &str) -> (r: Option<String>)
    ensures
        match r {
            Some(e) => path_extension(path@) == Some(e@),
            None => path_extension(path@) is None,
        },
{
    let v = chars_of(path);
    let end = trim_path(&v);
    let start = last_slash_end(&v, end);
    let mut name: Vec<char> = Vec::new();
    let mut i = start;
    while i < end
        invariant
            start <= i <= end,
            end <= v@.len(),
            name@ == v@.subrange(start as int, i as int),
        decreases end - i,
    {
        name.push(v[i]);
        i = i + 1;
        assert(name@ =~= v@.subrange(start as int, i as int));
    }
    assert(name@ =~= v@.take(end as int).skip(start as int));
    if name.len() == 0 || (name.len() == 1 && name[0] == '.') {
        proof {
            if name.len() == 1 {
                assert(name@ =~= "."@) by {
                    reveal_strlit(".");
                }
            }
        }
        return None;
    }
    proof {
        reveal_strlit(".");
    }
    let (_, ext) = crate::downloads::stem_and_extension(&name);
    {
        let e = chars_of(ext.as_str());
        if e.len() > 0 && e[0] == '.' {
            let mut out: Vec<char> = Vec::new();
            let mut k: usize = 1;
            while k < e.len()
                invariant
                    1 <= k <= e@.len(),
                    out@ == e@.subrange(1, k as int),
                decreases e@.len() - k,
            {
                out.push(e[k]);
                k = k + 1;
                assert(out@ =~= e@.subrange(1, k as int));
            }
            return Some(string_of(&out));
        }
    }
    None
}

/// The attachment type the engine is told when sending a file, by extension.
pub open spec fn media_o_type(ext: Seq<char>) -> Seq<char> {
    if ext == "gif"@ {
        "gif"@
    } else if ext == "png"@ || ext == "jpg"@ || ext == "jpeg"@ || ext == "webp"@ || ext == "bmp"@ || ext
        == "heic"@ {
        "image"@
    } else if ext == "mp4"@ || ext == "webm"@ || ext == "mov"@ || ext == "mkv"@ || ext == "m4v"@ {
        "video"@
    } else if ext == "m4a"@ || ext == "mp3"@ || ext == "wav"@ || ext == "ogg"@ || ext == "oga"@ || ext
        == "aac"@ || ext == "flac"@ {
        "audio"@
    } else {
        "file"@
    }
}

/// The picture extensions that are sent as photos.
pub open spec fn picture_extension(e: Seq<char>) -> bool {
    e == "png"@ || e == "jpg"@ || e == "jpeg"@ || e == "webp"@ || e == "bmp"@ || e == "heic"@
}

/// The video extensions that are sent as videos.
pub open spec fn video_extension(e: Seq<char>) -> bool {
    e == "mp4"@ || e == "webm"@ || e == "mov"@ || e == "mkv"@ || e == "m4v"@
}

/// The sound extensions that are sent as audio.
pub open spec fn audio_extension(e: Seq<char>) -> bool {
    e == "m4a"@ || e == "mp3"@ || e == "wav"@ || e == "ogg"@ || e == "oga"@ || e == "aac"@ || e
        == "flac"@
}

/// Every common picture extension is sent as an image, every video extension
/// as a video, every sound extension as audio and `gif` as a gif, in any
/// letter case (what is compared is the extension lower-cased).
pub proof fn lemma_extension_kinds(e: Seq<char>)
    ensures
        picture_extension(lower_seq(e)) ==> media_o_type(lower_seq(e)) == "image"@,
        video_extension(lower_seq(e)) ==> media_o_type(lower_seq(e)) == "video"@,
        audio_extension(lower_seq(e)) ==> media_o_type(lower_seq(e)) == "audio"@,
        lower_seq(e) == "gif"@ ==> media_o_type(lower_seq(e)) == "gif"@,
{
    reveal_strlit("gif");
    reveal_strlit("png");
    reveal_strlit("jpg");
    reveal_strlit("jpeg");
    reveal_strlit("webp");
    reveal_strlit("bmp");
    reveal_strlit("heic");
    reveal_strlit("mp4");
    reveal_strlit("webm");
    reveal_strlit("mov");
    reveal_strlit("mkv");
    reveal_strlit("m4v");
    reveal_strlit("m4a");
    reveal_strlit("mp3");
    reveal_strlit("wav");
    reveal_strlit("ogg");
    reveal_strlit("oga");
    reveal_strlit("aac");
    reveal_strlit("flac");
    // Each extension differs from those tested before it in a letter or in length.
    assert("png"@[0] != "gif"@[0]);
    assert("jpg"@[0] != "gif"@[0]);
    assert("jpeg"@.len() != "gif"@.len());
    assert("webp"@.len() != "gif"@.len());
    assert("bmp"@[0] != "gif"@[0]);
    assert("heic"@.len() != "gif"@.len());
    assert({
        &&& "mp4"@[0] != "gif"@[0]
        &&& "mp4"@[0] != "png"@[0]
        &&& "mp4"@[0] != "jpg"@[0]
        &&& "mp4"@.len() != "jpeg"@.len()
        &&& "mp4"@.len() != "webp"@.len()
        &&& "mp4"@[0] != "bmp"@[0]
        &&& "mp4"@.len() != "heic"@.len()
    });
    assert({
        &&& "webm"@.len() != "gif"@.len()
        &&& "webm"@.len() != "png"@.len()
        &&& "webm"@.len() != "jpg"@.len()
        &&& "webm"@[0] != "jpeg"@[0]
        &&& "webm"@[3] != "webp"@[3]
        &&& "webm"@.len() != "bmp"@.len()
        &&& "webm"@[0] != "heic"@[0]
    });
    assert({
        &&& "mov"@[0] != "gif"@[0]
        &&& "mov"@[0] != "png"@[0]
        &&& "mov"@[0] != "jpg"@[0]
        &&& "mov"@.len() != "jpeg"@.len()
        &&& "mov"@.len() != "webp"@.len()
        &&& "mov"@[0] != "bmp"@[0]
        &&& "mov"@.len() != "heic"@.len()
    });
    assert({
        &&& "mkv"@[0] != "gif"@[0]
        &&& "mkv"@[0] != "png"@[0]
        &&& "mkv"@[0] != "jpg"@[0]
        &&& "mkv"@.len() != "jpeg"@.len()
        &&& "mkv"@.len() != "webp"@.len()
        &&& "mkv"@[0] != "bmp"@[0]
        &&& "mkv"@.len() != "heic"@.len()
    });
    assert({
        &&& "m4v"@[0] != "gif"@[0]
        &&& "m4v"@[0] != "png"@[0]
        &&& "m4v"@[0] != "jpg"@[0]
        &&& "m4v"@.len() != "jpeg"@.len()
        &&& "m4v"@.len() != "webp"@.len()
        &&& "m4v"@[0] != "bmp"@[0]
        &&& "m4v"@.len() != "heic"@.len()
    });
    assert({
        &&& "m4a"@[0] != "gif"@[0]
        &&& "m4a"@[0] != "png"@[0]
        &&& "m4a"@[0] != "jpg"@[0]
        &&& "m4a"@.len() != "jpeg"@.len()
        &&& "m4a"@.len() != "webp"@.len()
        &&& "m4a"@[0] != "bmp"@[0]
        &&& "m4a"@.len() != "heic"@.len()
        &&& "m4a"@[1] != "mp4"@[1]
        &&& "m4a"@.len() != "webm"@.len()
        &&& "m4a"@[1] != "mov"@[1]
        &&& "m4a"@[1] != "mkv"@[1]
        &&& "m4a"@[2] != "m4v"@[2]
    });
    assert({
        &&& "mp3"@[0] != "gif"@[0]
        &&& "mp3"@[0] != "png"@[0]
        &&& "mp3"@[0] != "jpg"@[0]
        &&& "mp3"@.len() != "jpeg"@.len()
        &&& "mp3"@.len() != "webp"@.len()
        &&& "mp3"@[0] != "bmp"@[0]
        &&& "mp3"@.len() != "heic"@.len()
        &&& "mp3"@[2] != "mp4"@[2]
        &&& "mp3"@.len() != "webm"@.len()
        &&& "mp3"@[1] != "mov"@[1]
        &&& "mp3"@[1] != "mkv"@[1]
        &&& "mp3"@[1] != "m4v"@[1]
    });
    assert({
        &&& "wav"@[0] != "gif"@[0]
        &&& "wav"@[0] != "png"@[0]
        &&& "wav"@[0] != "jpg"@[0]
        &&& "wav"@.len() != "jpeg"@.len()
        &&& "wav"@.len() != "webp"@.len()
        &&& "wav"@[0] != "bmp"@[0]
        &&& "wav"@.len() != "heic"@.len()
        &&& "wav"@[0] != "mp4"@[0]
        &&& "wav"@.len() != "webm"@.len()
        &&& "wav"@[0] != "mov"@[0]
        &&& "wav"@[0] != "mkv"@[0]
        &&& "wav"@[0] != "m4v"@[0]
    });
    assert({
        &&& "ogg"@[0] != "gif"@[0]
        &&& "ogg"@[0] != "png"@[0]
        &&& "ogg"@[0] != "jpg"@[0]
        &&& "ogg"@.len() != "jpeg"@.len()
        &&& "ogg"@.len() != "webp"@.len()
        &&& "ogg"@[0] != "bmp"@[0]
        &&& "ogg"@.len() != "heic"@.len()
        &&& "ogg"@[0] != "mp4"@[0]
        &&& "ogg"@.len() != "webm"@.len()
        &&& "ogg"@[0] != "mov"@[0]
        &&& "ogg"@[0] != "mkv"@[0]
        &&& "ogg"@[0] != "m4v"@[0]
    });
    assert({
        &&& "oga"@[0] != "gif"@[0]
        &&& "oga"@[0] != "png"@[0]
        &&& "oga"@[0] != "jpg"@[0]
        &&& "oga"@.len() != "jpeg"@.len()
        &&& "oga"@.len() != "webp"@.len()
        &&& "oga"@[0] != "bmp"@[0]
        &&& "oga"@.len() != "heic"@.len()
        &&& "oga"@[0] != "mp4"@[0]
        &&& "oga"@.len() != "webm"@.len()
        &&& "oga"@[0] != "mov"@[0]
        &&& "oga"@[0] != "mkv"@[0]
        &&& "oga"@[0] != "m4v"@[0]
    });
    assert({
        &&& "aac"@[0] != "gif"@[0]
        &&& "aac"@[0] != "png"@[0]
        &&& "aac"@[0] != "jpg"@[0]
        &&& "aac"@.len() != "jpeg"@.len()
        &&& "aac"@.len() != "webp"@.len()
        &&& "aac"@[0] != "bmp"@[0]
        &&& "aac"@.len() != "heic"@.len()
        &&& "aac"@[0] != "mp4"@[0]
        &&& "aac"@.len() != "webm"@.len()
        &&& "aac"@[0] != "mov"@[0]
        &&& "aac"@[0] != "mkv"@[0]
        &&& "aac"@[0] != "m4v"@[0]
    });
    assert({
        &&& "flac"@.len() != "gif"@.len()
        &&& "flac"@.len() != "png"@.len()
        &&& "flac"@.len() != "jpg"@.len()
        &&& "flac"@[0] != "jpeg"@[0]
        &&& "flac"@[0] != "webp"@[0]
        &&& "flac"@.len() != "bmp"@.len()
        &&& "flac"@[0] != "heic"@[0]
        &&& "flac"@.len() != "mp4"@.len()
        &&& "flac"@[0] != "webm"@[0]
        &&& "flac"@.len() != "mov"@.len()
        &&& "flac"@.len() != "mkv"@.len()
        &&& "flac"@.len() != "m4v"@.len()
    });
}

pub fn guess_media_o_type(path: &str) -> (t: &'static str)
    ensures
        t@ == media_o_type(match path_extension(path@) {
            Some(e) => lower_seq(e),
            None => Seq::empty(),
        }),
        path_extension(path@) matches Some(e) && picture_extension(lower_seq(e)) ==> t@ == "image"@,
        path_extension(path@) matches Some(e) && video_extension(lower_seq(e)) ==> t@ == "video"@,
        path_extension(path@) matches Some(e) && audio_extension(lower_seq(e)) ==> t@ == "audio"@,
{
    proof {
        if let Some(e) = path_extension(path@) {
            lemma_extension_kinds(e);
        }
    }
    let ext = match file_extension(path) {
        Some(e) => ascii_lower(e.as_str()),
        None => Vec::new(),
    };
    proof {
        if path_extension(path@) is None {
            assert(ext@ =~= Seq::<char>::empty());
        }
    }
    if chars_equal(&ext, "gif") {
        "gif"
    } else if chars_equal(&ext, "png") || chars_equal(&ext, "jpg") || chars_equal(&ext, "jpeg")
        || chars_equal(&ext, "webp") || chars_equal(&ext, "bmp") || chars_equal(&ext, "heic") {
        "image"
    } else if chars_equal(&ext, "mp4") || chars_equal(&ext, "webm") || chars_equal(&ext, "mov")
        || chars_equal(&ext, "mkv") || chars_equal(&ext, "m4v") {
        "video"
    } else if chars_equal(&ext, "m4a") || chars_equal(&ext, "mp3") || chars_equal(&ext, "wav")
        || chars_equal(&ext, "ogg") || chars_equal(&ext, "oga") || chars_equal(&ext, "aac")
        || chars_equal(&ext, "flac") {
        "audio"
    } else {
        "file"
    }
}

// ---------------------------------------------------------------------------
// The gallery
// ---------------------------------------------------------------------------

/// The image `delta` steps from `current` in a gallery of `length` images;
/// `None` past either end.
pub open spec fn adjacent_index(current: int, length: int, delta: int) -> Option<int> {
    let next = current + delta;
    if 0 <= next < length {
        Some(next)
    } else {
        None
    }
}

pub fn adjacent_image_index(current: usize, length: usize, delta: isize) -> (r: Option<usize>)
    ensures
        match r {
            Some(i) => adjacent_index(current as int, length as int, delta as int) == Some(i as int),
            None => adjacent_index(current as int, length as int, delta as int) is None,
        },
{
    let next: i128 = current as i128 + delta as i128;
    if 0 <= next && next < length as i128 {
        Some(next as usize)
    } else {
        None
    }
}

// ---------------------------------------------------------------------------
// Viewers
// ---------------------------------------------------------------------------

/// The viewer a file opens in.
#[derive(Clone, Copy, Debug, PartialEq, Eq, Structural)]
pub enum ViewerKind {
    Image,
    Video,
    Pdf,
    Text,
    Audio,
    Generic,
}

/// A byte counted as text: printable ASCII or ASCII whitespace.
pub open spec fn texty(b: u8) -> bool {
    (0x21 <= b <= 0x7E) || b == 0x20 || b == 0x09 || b == 0x0A || b == 0x0C || b == 0x0D
}

pub open spec fn count_texty(s: Seq<u8>) -> nat
    decreases s.len(),
{
    if s.len() == 0 {
        0
    } else {
        count_texty(s.drop_last()) + if texty(s.last()) { 1nat } else { 0nat }
    }
}

/// The first bytes of a file look like text: there are some, none is zero,
/// and at least 90% are printable ASCII or whitespace.
pub open spec fn looks_like_text(sample: Seq<u8>) -> bool {
    sample.len() > 0 && !sample.contains(0u8) && count_texty(sample) * 100 / sample.len() >= 90
}

proof fn lemma_count_texty_bound(s: Seq<u8>)
    ensures
        count_texty(s) <= s.len(),
    decreases s.len(),
{
    if s.len() > 0 {
        lemma_count_texty_bound(s.drop_last());
    }
}

/// Whether the sample (the first bytes of a file) looks like text.
pub fn sample_is_text(sample: &[u8]) -> (r: bool)
    ensures
        r == looks_like_text(sample@),
{
    let n = sample.len();
    if n == 0 {
        return false;
    }
    let mut count: usize = 0;
    let mut i: usize = 0;
    while i < n
        invariant
            n == sample@.len(),
            i <= n,
            count == count_texty(sample@.take(i as int)),
            forall|k: int| 0 <= k < i ==> sample@[k] != 0u8,
        decreases n - i,
    {
        let b = sample[i];
        if b == 0 {
            assert(sample@.contains(0u8));
            return false;
        }
        proof {
            assert(sample@.take(i + 1).drop_last() =~= sample@.take(i as int));
            lemma_count_texty_bound(sample@.take(i as int));
        }
        if (0x21 <= b && b <= 0x7E) || b == 0x20 || b == 0x09 || b == 0x0A || b == 0x0C || b == 0x0D {
            count = count + 1;
        }
        i = i + 1;
    }
    assert(sample@.take(n as int) =~= sample@);
    proof {
        lemma_count_texty_bound(sample@);
    }
    (count as u128) * 100 / (n as u128) >= 90
}

/// Extensions of video, image, audio and text files, as they are searched
/// for in the path and name.
pub open spec fn video_marks() -> Seq<&'static str> {
    seq![".mp4", ".webm", ".mkv", ".mov", ".m4v"]
}

pub open spec fn image_marks() -> Seq<&'static str> {
    seq![".jpg", ".jpeg", ".png", ".webp", ".gif", ".bmp"]
}

pub open spec fn audio_marks() -> Seq<&'static str> {
    seq![".m4a", ".mp3", ".aac", ".ogg", ".wav", ".flac"]
}

pub open spec fn text_marks() -> Seq<&'static str> {
    seq![
        ".txt", ".md", ".log", ".json", ".csv", ".xml", ".yaml", ".yml", ".toml", ".rs", ".py", ".js",
        ".ts", ".css", ".html", ".c", ".h", ".go",
    ]
}

/// The viewer for a file of content type `content_type` at `path` named
/// `name`: by content type or by an extension found in the lower-cased
/// `path name`; a file without a known extension whose first bytes (`head`)
/// look like text opens as text.
pub open spec fn viewer_kind_spec(content_type: Seq<char>, path: Seq<char>, name: Seq<char>, head: Seq<u8>) -> ViewerKind {
    let ct = upper_seq(content_type);
    let lower = lower_seq(path) + " "@ + lower_seq(name);
    if ct == "VIDEO"@ || contains_any(lower, video_marks()) {
        ViewerKind::Video
    } else if ct == "IMAGE"@ || contains_any(lower, image_marks()) {
        ViewerKind::Image
    } else if ct == "AUDIO"@ || contains_any(lower, audio_marks()) {
        ViewerKind::Audio
    } else if seq_contains(lower, ".pdf"@) {
        ViewerKind::Pdf
    } else if contains_any(lower, text_marks()) {
        ViewerKind::Text
    } else if (ct == "FILE"@ || ct.len() == 0) && looks_like_text(head) {
        ViewerKind::Text
    } else {
        ViewerKind::Generic
    }
}

/// Picks the viewer; `head` holds the first bytes of the file (up to 512,
/// none when it cannot be read).
pub fn viewer_kind_for(content_type: &str, path: &str, name: &str, head: &[u8]) -> (k: ViewerKind)
    ensures
        k == viewer_kind_spec(content_type@, path@, name@, head@),
{
    let ct = ascii_upper(content_type);
    let mut lower = ascii_lower(path);
    lower.push(' ');
    let ln = ascii_lower(name);
    let mut i: usize = 0;
    let ghost base = lower@;
    while i < ln.len()
        invariant
            i <= ln@.len(),
            lower@ == base + ln@.take(i as int),
        decreases ln@.len() - i,
    {
        lower.push(ln[i]);
        i = i + 1;
        assert(lower@ =~= base + ln@.take(i as int));
    }
    assert(ln@.take(ln@.len() as int) =~= ln@);
    assert(lower@ =~= lower_seq(path@) + " "@ + lower_seq(name@)) by {
        reveal_strlit(" ");
    }
    let video = [".mp4", ".webm", ".mkv", ".mov", ".m4v"];
    let image = [".jpg", ".jpeg", ".png", ".webp", ".gif", ".bmp"];
    let audio = [".m4a", ".mp3", ".aac", ".ogg", ".wav", ".flac"];
    let text = [
        ".txt", ".md", ".log", ".json", ".csv", ".xml", ".yaml", ".yml", ".toml", ".rs", ".py", ".js",
        ".ts", ".css", ".html", ".c", ".h", ".go",
    ];
    assert(video@ =~= video_marks());
    assert(image@ =~= image_marks());
    assert(audio@ =~= audio_marks());
    assert(text@ =~= text_marks());
    if chars_equal(&ct, "VIDEO") || chars_contain_any(&lower, &video) {
        ViewerKind::Video
    } else if chars_equal(&ct, "IMAGE") || chars_contain_any(&lower, &image) {
        ViewerKind::Image
    } else if chars_equal(&ct, "AUDIO") || chars_contain_any(&lower, &audio) {
        ViewerKind::Audio
    } else if chars_contain(&lower, ".pdf") {
        ViewerKind::Pdf
    } else if chars_contain_any(&lower, &text) {
        ViewerKind::Text
    } else if (chars_equal(&ct, "FILE") || ct.len() == 0) && sample_is_text(head) {
        ViewerKind::Text
    } else {
        ViewerKind::Generic
    }
}

/// The icon of a viewer kind, as file cards show it.
pub open spec fn kind_icon(k: ViewerKind) -> Seq<char> {
    match k {
        ViewerKind::Pdf => "application-pdf-symbolic"@,
        ViewerKind::Text => "text-x-generic-symbolic"@,
        ViewerKind::Image => "image-x-generic-symbolic"@,
        ViewerKind::Video => "video-x-generic-symbolic"@,
        ViewerKind::Audio => "audio-x-generic-symbolic"@,
        ViewerKind::Generic => "folder-download-symbolic"@,
    }
}

/// The name on a file card: the file's name, else the message text unless it
/// is empty or the `[File]` placeholder, else the word for a file.
pub open spec fn file_card_name(cur: Option<I18n>, msg: MessageInfo) -> Seq<char> {
    match msg.file_name {
        Some(n) if n@.len() > 0 => n@,
        _ => if msg.text@.len() == 0 || msg.text@ == "[File]"@ {
            translate(cur, "preview_file"@)
        } else {
            msg.text@
        },
    }
}

/// The name and icon of a file attachment's card; the icon follows the viewer
/// that the name opens in.
pub fn file_card(cur: &Option<I18n>, msg: &MessageInfo) -> (r: (String, &'static str))
    requires
        current_wf(*cur),
    ensures
        r.0@ == file_card_name(*cur, *msg),
        r.1@ == kind_icon(viewer_kind_spec("FILE"@, Seq::empty(), file_card_name(*cur, *msg), Seq::empty())),
{
    let name = match &msg.file_name {
        Some(n) if chars_of(n.as_str()).len() > 0 => n.clone(),
        _ => if chars_of(msg.text.as_str()).len() == 0 || str_eq(msg.text.as_str(), "[File]") {
            tr(cur, "preview_file")
        } else {
            msg.text.clone()
        },
    };
    let empty: [u8; 0] = [];
    let kind = viewer_kind_for("FILE", "", name.as_str(), &empty);
    proof {
        reveal_strlit("");
        assert(empty@ =~= Seq::<u8>::empty());
    }
    let icon = match kind {
        ViewerKind::Pdf => "application-pdf-symbolic",
        ViewerKind::Text => "text-x-generic-symbolic",
        ViewerKind::Image => "image-x-generic-symbolic",
        ViewerKind::Video => "video-x-generic-symbolic",
        ViewerKind::Audio => "audio-x-generic-symbolic",
        ViewerKind::Generic => "folder-download-symbolic",
    };
    (name, icon)
}

/// Sent messages that the server has numbered get the message menu (react,
/// unsend); those still waiting (no id, or a `pending-` one) do not.
pub fn message_has_actions(id: &str) -> (r: bool)
    ensures
        r == (id@.len() > 0 && !crate::text::seq_starts_with(id@, "pending-"@)),
{
    let v = chars_of(id);
    let p = chars_of("pending-");
    if v.len() == 0 {
        return false;
    }
    !crate::text::starts_with_chars(&v, &p)
}

/// The most of a file that the text viewer shows: 1.5 MB.
pub const TEXT_VIEW_LIMIT: u64 = 1500000;

/// What `String::from_utf8_lossy` makes of some bytes.
pub uninterp spec fn utf8_lossy(bytes: Seq<u8>) -> Seq<char>;

/// `String::from_utf8_lossy`: the bytes as text, each invalid sequence
/// replaced by U+FFFD; the result is named, not described.
#[verifier::external_body]
fn lossy_text(bytes: &[u8]) -> (s: String)
    ensures
        s@ == utf8_lossy(bytes@),
{
    String::from_utf8_lossy(bytes).into_owned()
}

/// The text viewer's content for a file that was read (`read`, or the read
/// error) and whose size is `file_len`: at most the first 1.5 MB as text,
/// under a note when the file is longer.
pub open spec fn text_view_spec(cur: Option<I18n>, read: Result<Seq<u8>, Seq<char>>, file_len: Option<u64>) -> Seq<char> {
    match read {
        Err(e) => crate::i18n::translate_with(cur, "file_read_failed"@, seq![("error"@, e)]),
        Ok(bytes) => {
            let text = utf8_lossy(if bytes.len() > TEXT_VIEW_LIMIT { bytes.take(TEXT_VIEW_LIMIT as int) } else { bytes });
            if file_len matches Some(n) && n > TEXT_VIEW_LIMIT {
                translate(cur, "media_text_truncated"@) + "\n\n"@ + text
            } else {
                text
            }
        },
    }
}

pub fn text_view_content(cur: &Option<I18n>, read: Result<Vec<u8>, String>, file_len: Option<u64>) -> (s: String)
    requires
        current_wf(*cur),
    ensures
        s@ == text_view_spec(
            *cur,
            match read {
                Ok(b) => Ok(b@),
                Err(e) => Err(e@),
            },
            file_len,
        ),
{
    match read {
        Err(e) => {
            let pairs = [("error", e.as_str())];
            let msg = crate::i18n::tf(cur, "file_read_failed", &pairs);
            assert(crate::i18n::pair_views(pairs@) =~= seq![("error"@, e@)]);
            msg
        },
        Ok(bytes) => {
            let mut bytes = bytes;
            if bytes.len() as u64 > TEXT_VIEW_LIMIT {
                bytes.truncate(TEXT_VIEW_LIMIT as usize);
            }
            let text = lossy_text(bytes.as_slice());
            let truncated = match file_len {
                Some(n) => n > TEXT_VIEW_LIMIT,
                None => false,
            };
            if truncated {
                let mut out = tr(cur, "media_text_truncated");
                append_str(&mut out, "\n\n");
                append_str(&mut out, text.as_str());
                out
            } else {
                text
            }
        },
    }
}

// ---------------------------------------------------------------------------
// Reactions
// ---------------------------------------------------------------------------

/// The reactions offered on a message, with their emoji.
pub open spec fn reaction_table() -> Seq<(&'static str, &'static str)> {
    seq![("NICE", "👍"), ("LOVE", "❤️"), ("FUN", "😂"), ("AMAZING", "😮"), ("SAD", "😢"), ("OMG", "😱")]
}

pub fn reaction_choices() -> (r: Vec<(&'static str, &'static str)>)
    ensures
        r@ == reaction_table(),
{
    let r = vec![("NICE", "👍"), ("LOVE", "❤️"), ("FUN", "😂"), ("AMAZING", "😮"), ("SAD", "😢"), ("OMG", "😱")];
    assert(r@ =~= reaction_table());
    r
}

/// The emoji of the first reaction named `kind`, else a smiling face.
pub open spec fn reaction_emoji_spec(kind: Seq<char>) -> Seq<char> {
    let t = reaction_table();
    if exists|i: int| 0 <= i < t.len() && (#[trigger] t[i]).0@ == kind {
        t[choose|i: int| 0 <= i < t.len() && (#[trigger] t[i]).0@ == kind && forall|j: int|
            0 <= j < i ==> (#[trigger] t[j]).0@ != kind].1@
    } else {
        "🙂"@
    }
}

pub fn reaction_emoji(kind: &str) -> (e: &'static str)
    ensures
        e@ == reaction_emoji_spec(kind@),
{
    let table = reaction_choices();
    let mut i: usize = 0;
    while i < table.len()
        invariant
            table@ == reaction_table(),
            i <= table@.len(),
            forall|j: int| 0 <= j < i ==> (#[trigger] table@[j]).0@ != kind@,
        decreases table@.len() - i,
    {
        if str_eq(table[i].0, kind) {
            let ghost t = reaction_table();
            proof {
                let c = choose|c: int| 0 <= c < t.len() && (#[trigger] t[c]).0@ == kind@ && forall|j: int|
                    0 <= j < c ==> (#[trigger] t[j]).0@ != kind@;
                assert(forall|j: int| 0 <= j < i ==> (#[trigger] t[j]).0@ != kind@);
                if c < i {
                    assert(t[c].0@ != kind@);
                } else if c > i {
                    assert(t[i as int].0@ != kind@);
                }
            }
            return table[i].1;
        }
        i = i + 1;
    }
    "🙂"
}

// ---------------------------------------------------------------------------
// Voice messages
// ---------------------------------------------------------------------------

/// Two digits, with a leading zero below ten.
pub open spec fn two_digits(n: nat) -> Seq<char> {
    if n < 10 {
        seq!['0'] + decimal(n)
    } else {
        decimal(n)
    }
}

/// `m:ss` of a duration in milliseconds, rounded to the nearest second and
/// at least one second.
pub open spec fn voice_duration_spec(ms: nat) -> Seq<char> {
    let secs = if (ms + 500) / 1000 < 1 { 1 } else { (ms + 500) / 1000 };
    decimal(secs / 60) + ":"@ + two_digits(secs % 60)
}

pub fn format_voice_duration(ms: u64) -> (s: String)
    requires
        ms <= u64::MAX - 500,
    ensures
        s@ == voice_duration_spec(ms as nat),
{
    let rounded = (ms + 500) / 1000;
    let secs = if rounded < 1 {
        1
    } else {
        rounded
    };
    let mut s = u64_to_string(secs / 60);
    push_char(&mut s, ':');
    if secs % 60 < 10 {
        push_char(&mut s, '0');
    }
    let tail = u64_to_string(secs % 60);
    append_str(&mut s, tail.as_str());
    proof {
        reveal_strlit(":");
    }
    s
}

// ---------------------------------------------------------------------------
// Message lists
// ---------------------------------------------------------------------------

/// A message list is told apart by its length and its first and last ids.
pub open spec fn fingerprint_spec(ms: Seq<MessageInfo>) -> (nat, Seq<char>, Seq<char>) {
    (
        ms.len(),
        if ms.len() > 0 { ms[0].id@ } else { Seq::empty() },
        if ms.len() > 0 { ms.last().id@ } else { Seq::empty() },
    )
}

pub fn message_list_fingerprint(messages: &[MessageInfo]) -> (fp: (usize, String, String))
    ensures
        (fp.0 as nat, fp.1@, fp.2@) == fingerprint_spec(messages@),
{
    let n = messages.len();
    if n == 0 {
        (0, String::new(), String::new())
    } else {
        (n, messages[0].id.clone(), messages[n - 1].id.clone())
    }
}

/// Whether `messages` for `chat_mid` match the list on screen, remembered as
/// `(chat, length, first id, last id)`.
pub fn same_message_list(shown: &Option<(String, usize, String, String)>, chat_mid: &str, messages: &[MessageInfo]) -> (r: bool)
    ensures
        r == (match shown {
            Some(s) => s.0@ == chat_mid@ && (s.1 as nat, s.2@, s.3@) == fingerprint_spec(messages@),
            None => false,
        }),
{
    match shown {
        Some((mid, len, first, last)) => {
            let fp = message_list_fingerprint(messages);
            str_eq(mid.as_str(), chat_mid) && *len == fp.0 && str_eq(first.as_str(), fp.1.as_str())
                && str_eq(last.as_str(), fp.2.as_str())
        },
        None => false,
    }
}

// ---------------------------------------------------------------------------
// Previews
// ---------------------------------------------------------------------------

pub open spec fn trimmed(s: Seq<char>) -> Seq<char> {
    strip_both(s, |c: char| is_ws(c))
}

/// The chat-list preview of a message's content: a word for media, the text
/// of a flex message, else the trimmed text cut to 64 characters (63 and `…`);
/// an empty text shows "Message", or the content type in lower case.
pub open spec fn preview_body_spec(cur: Option<I18n>, msg: MessageInfo) -> Seq<char> {
    let ct = upper_seq(msg.content_type@);
    let t = trimmed(msg.text@);
    if ct == "IMAGE"@ {
        translate(cur, "preview_photo"@)
    } else if ct == "VIDEO"@ {
        translate(cur, "preview_video"@)
    } else if ct == "STICKER"@ {
        translate(cur, "preview_sticker"@)
    } else if ct == "AUDIO"@ {
        translate(cur, "voice_message"@)
    } else if ct == "FILE"@ {
        translate(cur, "preview_file"@)
    } else if ct == "FLEX"@ {
        if t.len() == 0 { translate(cur, "preview_flex"@) } else { t }
    } else if t.len() == 0 {
        if ct.len() == 0 { translate(cur, "preview_message"@) } else { lower_seq(ct) }
    } else if t.len() > 64 {
        t.take(63).push('…')
    } else {
        t
    }
}

pub fn preview_body_ui(cur: &Option<I18n>, msg: &MessageInfo) -> (p: String)
    requires
        current_wf(*cur),
    ensures
        p@ == preview_body_spec(*cur, *msg),
{
    let ct = ascii_upper(msg.content_type.as_str());
    if chars_equal(&ct, "IMAGE") {
        return tr(cur, "preview_photo");
    } else if chars_equal(&ct, "VIDEO") {
        return tr(cur, "preview_video");
    } else if chars_equal(&ct, "STICKER") {
        return tr(cur, "preview_sticker");
    } else if chars_equal(&ct, "AUDIO") {
        return tr(cur, "voice_message");
    } else if chars_equal(&ct, "FILE") {
        return tr(cur, "preview_file");
    }
    let t = trim(msg.text.as_str());
    let tv = chars_of(t.as_str());
    if chars_equal(&ct, "FLEX") {
        if tv.len() == 0 {
            return tr(cur, "preview_flex");
        }
        return t;
    }
    if tv.len() == 0 {
        if ct.len() == 0 {
            return tr(cur, "preview_message");
        }
        let s = string_of(&ct);
        let l = ascii_lower(s.as_str());
        return string_of(&l);
    }
    if tv.len() > 64 {
        let mut out: Vec<char> = Vec::new();
        let mut i: usize = 0;
        while i < 63
            invariant
                i <= 63,
                tv@.len() > 64,
                out@ == tv@.take(i as int),
            decreases 63 - i,
        {
            out.push(tv[i]);
            i = i + 1;
            assert(out@ =~= tv@.take(i as int));
        }
        out.push('…');
        return string_of(&out);
    }
    t
}

/// Who-prefixes of cached previews, in English and Thai, with their keys.
pub open spec fn who_prefixes() -> Seq<(&'static str, &'static str)> {
    seq![("You: ", "you"), ("They: ", "they"), ("คุณ: ", "you"), ("เขา: ", "they")]
}

/// Cached media placeholders, in English and Thai, with their keys.
pub open spec fn placeholders() -> Seq<(&'static str, &'static str)> {
    seq![
        ("Photo", "preview_photo"),
        ("Video", "preview_video"),
        ("Sticker", "preview_sticker"),
        ("Voice message", "voice_message"),
        ("File", "preview_file"),
        ("Flex message", "preview_flex"),
        ("Message", "preview_message"),
        ("Tap to open", "tap_open"),
        ("Loading last message…", "loading_last"),
        ("Loading last message...", "loading_last"),
        ("No recent messages", "no_recent"),
        ("รูปภาพ", "preview_photo"),
        ("วิดีโอ", "preview_video"),
        ("สติกเกอร์", "preview_sticker"),
        ("ข้อความเสียง", "voice_message"),
        ("ไฟล์", "preview_file"),
        ("ข้อความ Flex", "preview_flex"),
        ("ข้อความ", "preview_message"),
        ("แตะเพื่อเปิด", "tap_open"),
        ("กำลังโหลดข้อความล่าสุด…", "loading_last"),
        ("ไม่มีข้อความล่าสุด", "no_recent"),
    ]
}

/// `s` with the first who-prefix from index `k` on rewritten as
/// `<translated who>: `.
pub open spec fn rewrite_who(cur: Option<I18n>, s: Seq<char>, k: int) -> Seq<char>
    decreases who_prefixes().len() - k,
{
    if k < 0 || k >= who_prefixes().len() {
        s
    } else {
        let p = who_prefixes()[k];
        if s.len() >= p.0@.len() && s.take(p.0@.len() as int) == p.0@ {
            translate(cur, p.1@) + ": "@ + s.skip(p.0@.len() as int)
        } else {
            rewrite_who(cur, s, k + 1)
        }
    }
}

/// `body` translated when it is one of the placeholders from index `k` on.
pub open spec fn localize_body(cur: Option<I18n>, body: Seq<char>, k: int) -> Seq<char>
    decreases placeholders().len() - k,
{
    if k < 0 || k >= placeholders().len() {
        body
    } else if body == placeholders()[k].0@ {
        translate(cur, placeholders()[k].1@)
    } else {
        localize_body(cur, body, k + 1)
    }
}

/// Index of the first `: ` of `s` at or after `i`.
pub open spec fn first_colon_space(s: Seq<char>, i: int) -> Option<int>
    decreases s.len() - i,
{
    if i < 0 || i >= s.len() {
        None
    } else if occurs_at(s, ": "@, i) {
        Some(i)
    } else {
        first_colon_space(s, i + 1)
    }
}

/// A cached preview in the current language: its who-prefix and, after the
/// first `: ` (or the whole text), a media placeholder translated.
pub open spec fn localized_preview(cur: Option<I18n>, preview: Seq<char>) -> Seq<char> {
    let s = rewrite_who(cur, preview, 0);
    match first_colon_space(s, 0) {
        Some(i) => s.take(i) + ": "@ + localize_body(cur, s.skip(i + 2), 0),
        None => localize_body(cur, s, 0),
    }
}

proof fn lemma_first_colon_space_at(s: Seq<char>, i: int, j: int)
    requires
        0 <= i <= j < s.len(),
        forall|k: int| i <= k < j ==> !occurs_at(s, ": "@, k),
        occurs_at(s, ": "@, j),
    ensures
        first_colon_space(s, i) == Some(j),
    decreases j - i,
{
    if i < j {
        lemma_first_colon_space_at(s, i + 1, j);
    }
}

/// `who` followed by `: ` and `rest`, where `who` holds no `: `: the first
/// `: ` is the one after `who`.
proof fn lemma_colon_after_who(who: Seq<char>, rest: Seq<char>)
    requires
        !seq_contains(who, ": "@),
    ensures
        first_colon_space(who + ": "@ + rest, 0) == Some(who.len() as int),
{
    reveal_strlit(": ");
    let s = who + ": "@ + rest;
    let n = who.len() as int;
    assert(s.subrange(n, n + 2) =~= ": "@);
    assert forall|k: int| 0 <= k < n implies !occurs_at(s, ": "@, k) by {
        if occurs_at(s, ": "@, k) {
            if k + 2 <= n {
                assert(s.subrange(k, k + 2) =~= who.subrange(k, k + 2));
                assert(occurs_at(who, ": "@, k));
            } else {
                assert(s.subrange(k, k + 2)[1] == s[k + 1]);
                assert(s[k + 1] == ':');
            }
        }
    }
    lemma_first_colon_space_at(s, 0, n);
}

/// A cached preview of one's own message, "You: <body>", reads in the current
/// language as "<you>: " and the body, with a media placeholder translated,
/// as long as the word for "you" holds no ": ".
pub proof fn lemma_own_preview_localized(cur: Option<I18n>, body: Seq<char>)
    requires
        !seq_contains(translate(cur, "you"@), ": "@),
    ensures
        localized_preview(cur, "You: "@ + body) == translate(cur, "you"@) + ": "@ + localize_body(cur, body, 0),
{
    reveal_strlit("You: ");
    reveal_strlit(": ");
    let s = "You: "@ + body;
    assert(s.take(5) =~= "You: "@);
    assert(s.skip(5) =~= body);
    assert(rewrite_who(cur, s, 0) == translate(cur, "you"@) + ": "@ + body);
    lemma_colon_after_who(translate(cur, "you"@), body);
    let t = translate(cur, "you"@) + ": "@ + body;
    let n = translate(cur, "you"@).len() as int;
    assert(t.take(n) =~= translate(cur, "you"@));
    assert(t.skip(n + 2) =~= body);
}

/// A cached preview of the other side's message, "They: <body>", reads in
/// the current language as "<they>: " and the body, with a media placeholder
/// translated, as long as the word for "they" holds no ": ".
pub proof fn lemma_their_preview_localized(cur: Option<I18n>, body: Seq<char>)
    requires
        !seq_contains(translate(cur, "they"@), ": "@),
    ensures
        localized_preview(cur, "They: "@ + body) == translate(cur, "they"@) + ": "@ + localize_body(cur, body, 0),
{
    reveal_strlit("They: ");
    reveal_strlit("You: ");
    reveal_strlit(": ");
    let s = "They: "@ + body;
    assert(s.take(6) =~= "They: "@);
    assert(s.skip(6) =~= body);
    assert(s.take(5) != "You: "@) by {
        assert(s.take(5)[0] == 'T');
    }
    assert(who_prefixes()[0].0@ == "You: "@);
    assert(who_prefixes()[1].0@ == "They: "@);
    assert(who_prefixes()[1].1@ == "they"@);
    assert(rewrite_who(cur, s, 0) == rewrite_who(cur, s, 1));
    assert(rewrite_who(cur, s, 1) == translate(cur, "they"@) + ": "@ + body);
    lemma_colon_after_who(translate(cur, "they"@), body);
    let t = translate(cur, "they"@) + ": "@ + body;
    let n = translate(cur, "they"@).len() as int;
    assert(t.take(n) =~= translate(cur, "they"@));
    assert(t.skip(n + 2) =~= body);
}

proof fn lemma_rewrite_who_plain(cur: Option<I18n>, s: Seq<char>, k: int)
    requires
        !seq_contains(s, ": "@),
        0 <= k,
    ensures
        rewrite_who(cur, s, k) == s,
    decreases who_prefixes().len() - k,
{
    if k < who_prefixes().len() {
        reveal_strlit("You: ");
        reveal_strlit("They: ");
        reveal_strlit("คุณ: ");
        reveal_strlit("เขา: ");
        reveal_strlit(": ");
        let p = who_prefixes()[k].0@;
        assert(p.len() >= 2 && p[p.len() - 2] == ':' && p[p.len() - 1] == ' ');
        if s.len() >= p.len() && s.take(p.len() as int) == p {
            let i = p.len() - 2;
            assert(s[i] == p[i] && s[i + 1] == p[i + 1]);
            assert(s.subrange(i, i + 2) =~= ": "@);
            assert(occurs_at(s, ": "@, i));
        }
        lemma_rewrite_who_plain(cur, s, k + 1);
    }
}

proof fn lemma_no_colon_space(s: Seq<char>, i: int)
    requires
        !seq_contains(s, ": "@),
    ensures
        first_colon_space(s, i) is None,
    decreases s.len() - i,
{
    if 0 <= i < s.len() {
        lemma_no_colon_space(s, i + 1);
    }
}

/// A cached preview without ": " has no sender to translate: it reads as
/// its placeholder translated, or unchanged when it is no placeholder.
pub proof fn lemma_plain_preview_localized(cur: Option<I18n>, preview: Seq<char>)
    requires
        !seq_contains(preview, ": "@),
    ensures
        localized_preview(cur, preview) == localize_body(cur, preview, 0),
        (forall|k: int| 0 <= k < placeholders().len() ==> preview != (#[trigger] placeholders()[k]).0@)
            ==> localized_preview(cur, preview) == preview,
{
    lemma_rewrite_who_plain(cur, preview, 0);
    lemma_no_colon_space(preview, 0);
    if forall|k: int| 0 <= k < placeholders().len() ==> preview != (#[trigger] placeholders()[k]).0@ {
        lemma_body_not_placeholder(cur, preview, 0);
    }
}

proof fn lemma_body_not_placeholder(cur: Option<I18n>, body: Seq<char>, k: int)
    requires
        0 <= k,
        forall|j: int| 0 <= j < placeholders().len() ==> body != (#[trigger] placeholders()[j]).0@,
    ensures
        localize_body(cur, body, k) == body,
    decreases placeholders().len() - k,
{
    if k < placeholders().len() {
        lemma_body_not_placeholder(cur, body, k + 1);
    }
}

/// The first placeholder with a given text reads as the text of its key.
pub proof fn lemma_placeholder_localized(cur: Option<I18n>, i: int)
    requires
        0 <= i < placeholders().len(),
        forall|j: int| 0 <= j < i ==> (#[trigger] placeholders()[j]).0@ != placeholders()[i].0@,
    ensures
        localize_body(cur, placeholders()[i].0@, 0) == translate(cur, placeholders()[i].1@),
{
    lemma_placeholder_from(cur, i, 0);
}

proof fn lemma_placeholder_from(cur: Option<I18n>, i: int, k: int)
    requires
        0 <= k <= i < placeholders().len(),
        forall|j: int| 0 <= j < i ==> (#[trigger] placeholders()[j]).0@ != placeholders()[i].0@,
    ensures
        localize_body(cur, placeholders()[i].0@, k) == translate(cur, placeholders()[i].1@),
    decreases i - k,
{
    if k < i {
        lemma_placeholder_from(cur, i, k + 1);
    }
}

fn who_table() -> (r: Vec<(&'static str, &'static str)>)
    ensures
        r@ == who_prefixes(),
{
    let r = vec![("You: ", "you"), ("They: ", "they"), ("คุณ: ", "you"), ("เขา: ", "they")];
    assert(r@ =~= who_prefixes());
    r
}

fn placeholder_table() -> (r: Vec<(&'static str, &'static str)>)
    ensures
        r@ == placeholders(),
{
    let r = vec![
        ("Photo", "preview_photo"),
        ("Video", "preview_video"),
        ("Sticker", "preview_sticker"),
        ("Voice message", "voice_message"),
        ("File", "preview_file"),
        ("Flex message", "preview_flex"),
        ("Message", "preview_message"),
        ("Tap to open", "tap_open"),
        ("Loading last message…", "loading_last"),
        ("Loading last message...", "loading_last"),
        ("No recent messages", "no_recent"),
        ("รูปภาพ", "preview_photo"),
        ("วิดีโอ", "preview_video"),
        ("สติกเกอร์", "preview_sticker"),
        ("ข้อความเสียง", "voice_message"),
        ("ไฟล์", "preview_file"),
        ("ข้อความ Flex", "preview_flex"),
        ("ข้อความ", "preview_message"),
        ("แตะเพื่อเปิด", "tap_open"),
        ("กำลังโหลดข้อความล่าสุด…", "loading_last"),
        ("ไม่มีข้อความล่าสุด", "no_recent"),
    ];
    assert(r@ =~= placeholders());
    r
}

fn range_string(v: &Vec<char>, from: usize, to: usize) -> (s: String)
    requires
        from <= to <= v@.len(),
    ensures
        s@ == v@.subrange(from as int, to as int),
{
    crate::text::string_from_range(v, from, to)
}

fn rewrite_who_exec(cur: &Option<I18n>, s: &Vec<char>) -> (out: Vec<char>)
    requires
        current_wf(*cur),
    ensures
        out@ == rewrite_who(*cur, s@, 0),
{
    let table = who_table();
    let mut k: usize = 0;
    while k < table.len()
        invariant
            table@ == who_prefixes(),
            k <= table@.len(),
            current_wf(*cur),
            rewrite_who(*cur, s@, 0) == rewrite_who(*cur, s@, k as int),
        decreases table@.len() - k,
    {
        let p = chars_of(table[k].0);
        if s.len() >= p.len() && matches_at(s, &p, 0) {
            assert(s@.subrange(0, p@.len() as int) =~= s@.take(p@.len() as int));
            let who = tr(cur, table[k].1);
            let mut out = chars_of(who.as_str());
            out.push(':');
            out.push(' ');
            let mut i = p.len();
            let ghost base = out@;
            while i < s.len()
                invariant
                    p@.len() <= i <= s@.len(),
                    out@ == base + s@.subrange(p@.len() as int, i as int),
                decreases s@.len() - i,
            {
                out.push(s[i]);
                i = i + 1;
                assert(out@ =~= base + s@.subrange(p@.len() as int, i as int));
            }
            proof {
                reveal_strlit(": ");
                assert(out@ =~= translate(*cur, table@[k as int].1@) + ": "@ + s@.skip(p@.len() as int));
            }
            return out;
        }
        proof {
            if s@.len() >= p@.len() && s@.take(p@.len() as int) == p@ {
                assert(s@.subrange(0, p@.len() as int) =~= s@.take(p@.len() as int));
            }
        }
        k = k + 1;
    }
    s.clone()
}

fn localize_body_exec(cur: &Option<I18n>, body: &Vec<char>) -> (out: Vec<char>)
    requires
        current_wf(*cur),
    ensures
        out@ == localize_body(*cur, body@, 0),
{
    let table = placeholder_table();
    let mut k: usize = 0;
    while k < table.len()
        invariant
            table@ == placeholders(),
            k <= table@.len(),
            current_wf(*cur),
            localize_body(*cur, body@, 0) == localize_body(*cur, body@, k as int),
        decreases table@.len() - k,
    {
        if chars_equal(body, table[k].0) {
            let t = tr(cur, table[k].1);
            return chars_of(t.as_str());
        }
        k = k + 1;
    }
    body.clone()
}

/// Rewrites a cached preview (English or Thai) into the current language.
pub fn localize_preview(cur: &Option<I18n>, preview: &str) -> (out: String)
    requires
        current_wf(*cur),
    ensures
        out@ == localized_preview(*cur, preview@),
{
    let v = chars_of(preview);
    let s = rewrite_who_exec(cur, &v);
    let sep = chars_of(": ");
    let mut i: usize = 0;
    while i < s.len()
        invariant
            sep@ == ": "@,
            current_wf(*cur),
            s@ == rewrite_who(*cur, preview@, 0),
            i <= s@.len(),
            first_colon_space(s@, 0) == first_colon_space(s@, i as int),
        decreases s@.len() - i,
    {
        if matches_at(&s, &sep, i) {
            proof {
                reveal_strlit(": ");
            }
            let who = range_string(&s, 0, i);
            let rest = crate::text::string_from_range(&s, i + 2, s.len());
            let rest_chars = chars_of(rest.as_str());
            assert(rest_chars@ =~= s@.skip(i + 2));
            let body = localize_body_exec(cur, &rest_chars);
            let mut out = who;
            append_str(&mut out, ": ");
            let b = string_of(&body);
            append_str(&mut out, b.as_str());
            assert(s@.take(i as int) =~= s@.subrange(0, i as int));
            assert(first_colon_space(s@, i as int) == Some(i as int));
            assert(out@ =~= s@.take(i as int) + ": "@ + localize_body(*cur, s@.skip(i + 2), 0));
            return out;
        }
        i = i + 1;
    }
    let body = localize_body_exec(cur, &s);
    string_of(&body)
}

/// The delivery line under an outgoing message: `✓✓ Read` or `✓ Sent`,
/// followed by the time when there is one.
pub open spec fn outgoing_status_spec(cur: Option<I18n>, read: bool, time: Seq<char>) -> Seq<char> {
    let head = if read { "✓✓ "@ + translate(cur, "status_read"@) } else { "✓ "@ + translate(cur, "status_sent"@) };
    if time.len() == 0 {
        head
    } else {
        head + " "@ + time
    }
}

pub fn format_outgoing_status(cur: &Option<I18n>, read: bool, time: &str) -> (s: String)
    requires
        current_wf(*cur),
    ensures
        s@ == outgoing_status_spec(*cur, read, time@),
{
    let mut s = if read {
        to_owned_string("✓✓ ")
    } else {
        to_owned_string("✓ ")
    };
    let word = if read {
        tr(cur, "status_read")
    } else {
        tr(cur, "status_sent")
    };
    append_str(&mut s, word.as_str());
    if !time.is_empty() {
        append_str(&mut s, " ");
        append_str(&mut s, time);
    }
    s
}

// ---------------------------------------------------------------------------
// Audio devices
// ---------------------------------------------------------------------------

/// First index at or after `i` that is not whitespace (or the end).
pub open spec fn skip_space(s: Seq<char>, i: int) -> int
    decreases s.len() - i,
{
    if i < 0 || i >= s.len() {
        if i < 0 { 0 } else { s.len() as int }
    } else if is_ws(s[i]) {
        skip_space(s, i + 1)
    } else {
        i
    }
}

/// First index at or after `i` that is whitespace (or the end).
pub open spec fn skip_word(s: Seq<char>, i: int) -> int
    decreases s.len() - i,
{
    if i < 0 || i >= s.len() {
        if i < 0 { 0 } else { s.len() as int }
    } else if !is_ws(s[i]) {
        skip_word(s, i + 1)
    } else {
        i
    }
}

/// The second whitespace-separated word of a line, if it has two.
pub open spec fn second_word(line: Seq<char>) -> Option<Seq<char>> {
    let a = skip_space(line, 0);
    let b = skip_word(line, a);
    let c = skip_space(line, b);
    let d = skip_word(line, c);
    if a < line.len() && c < line.len() {
        Some(line.subrange(c, d))
    } else {
        None
    }
}

/// The pieces of `s` between newlines (`str::split('\n')`).
pub open spec fn split_lines(s: Seq<char>) -> Seq<Seq<char>>
    decreases s.len(),
{
    if s.len() == 0 {
        seq![Seq::empty()]
    } else {
        let p = split_lines(s.drop_last());
        if s.last() == '\n' {
            p.push(Seq::empty())
        } else {
            p.update(p.len() - 1, p.last().push(s.last()))
        }
    }
}

proof fn lemma_split_lines_nonempty(s: Seq<char>)
    ensures
        split_lines(s).len() >= 1,
    decreases s.len(),
{
    if s.len() > 0 {
        lemma_split_lines_nonempty(s.drop_last());
    }
}

/// Device names in a `pactl list short` listing: the second column of each
/// line; monitors of outputs are left out of the recording sources.
pub open spec fn listed_devices(lines: Seq<Seq<char>>, sources: bool) -> Seq<Seq<char>>
    decreases lines.len(),
{
    if lines.len() == 0 {
        Seq::empty()
    } else {
        let prev = listed_devices(lines.drop_last(), sources);
        match second_word(lines.last()) {
            Some(n) => if sources && seq_contains(n, ".monitor"@) { prev } else { prev.push(n) },
            None => prev,
        }
    }
}

fn skip_space_exec(v: &Vec<char>, i: usize) -> (r: usize)
    requires
        i <= v@.len(),
    ensures
        r == skip_space(v@, i as int),
        i <= r <= v@.len(),
{
    let mut j = i;
    while j < v.len() && crate::text::is_whitespace(v[j])
        invariant
            i <= j <= v@.len(),
            skip_space(v@, i as int) == skip_space(v@, j as int),
        decreases v@.len() - j,
    {
        j = j + 1;
    }
    j
}

fn skip_word_exec(v: &Vec<char>, i: usize) -> (r: usize)
    requires
        i <= v@.len(),
    ensures
        r == skip_word(v@, i as int),
        i <= r <= v@.len(),
{
    let mut j = i;
    while j < v.len() && !crate::text::is_whitespace(v[j])
        invariant
            i <= j <= v@.len(),
            skip_word(v@, i as int) == skip_word(v@, j as int),
        decreases v@.len() - j,
    {
        j = j + 1;
    }
    j
}

fn second_word_exec(line: &Vec<char>) -> (r: Option<String>)
    ensures
        match r {
            Some(w) => second_word(line@) == Some(w@),
            None => second_word(line@) is None,
        },
{
    let a = skip_space_exec(line, 0);
    let b = skip_word_exec(line, a);
    let c = skip_space_exec(line, b);
    let d = skip_word_exec(line, c);
    if a < line.len() && c < line.len() {
        Some(crate::text::string_from_range(line, c, d))
    } else {
        None
    }
}

pub open spec fn device_pairs(names: Seq<Seq<char>>) -> Seq<(Seq<char>, Seq<char>)> {
    seq![("default"@, "Default"@)] + names.map_values(|n: Seq<char>| (n, n))
}

pub open spec fn pair_view(p: (String, String)) -> (Seq<char>, Seq<char>) {
    (p.0@, p.1@)
}

fn add_device(
    out: &mut Vec<(String, String)>,
    line: &Vec<char>,
    sources: bool,
    monitor: &Vec<char>,
    Ghost(done): Ghost<Seq<Seq<char>>>,
)
    requires
        monitor@ == ".monitor"@,
        old(out)@.map_values(|p: (String, String)| pair_view(p)) == device_pairs(listed_devices(done, sources)),
    ensures
        final(out)@.map_values(|p: (String, String)| pair_view(p)) == device_pairs(
            listed_devices(done.push(line@), sources),
        ),
{
    let ghost before = out@.map_values(|p: (String, String)| pair_view(p));
    let ghost names = listed_devices(done, sources);
    assert(done.push(line@).drop_last() =~= done);
    match second_word_exec(line) {
        Some(name) => {
            let nv = chars_of(name.as_str());
            if !(sources && contains_chars(&nv, monitor)) {
                let ghost nm = name@;
                let n2 = name.clone();
                out.push((name, n2));
                assert(out@.map_values(|p: (String, String)| pair_view(p)) =~= before.push((nm, nm)));
                assert(device_pairs(names.push(nm)) =~= device_pairs(names).push((nm, nm)));
            }
        },
        None => {},
    }
}

/// The audio devices of a `pactl list short <kind>` listing, after the
/// system default; `listing` is empty when `pactl` could not be run.
pub fn pulse_device_list(kind: &str, listing: &str) -> (r: Vec<(String, String)>)
    ensures
        r@.map_values(|p: (String, String)| pair_view(p)) == device_pairs(
            listed_devices(split_lines(listing@), kind@ == "sources"@),
        ),
{
    let sources = str_eq(kind, "sources");
    let v = chars_of(listing);
    let mut out: Vec<(String, String)> = Vec::new();
    out.push((to_owned_string("default"), to_owned_string("Default")));
    let mut cur: Vec<char> = Vec::new();
    let ghost mut done: Seq<Seq<char>> = Seq::empty();
    let monitor = chars_of(".monitor");
    let mut i: usize = 0;
    assert(v@.take(0) =~= Seq::<char>::empty());
    assert(out@.map_values(|p: (String, String)| pair_view(p)) =~= device_pairs(listed_devices(done, sources)));
    while i < v.len()
        invariant
            v@ == listing@,
            monitor@ == ".monitor"@,
            i <= v@.len(),
            split_lines(v@.take(i as int)) == done.push(cur@),
            out@.map_values(|p: (String, String)| pair_view(p)) == device_pairs(listed_devices(done, sources)),
        decreases v@.len() - i,
    {
        assert(v@.take(i + 1).drop_last() =~= v@.take(i as int));
        if v[i] == '\n' {
            add_device(&mut out, &cur, sources, &monitor, Ghost(done));
            proof {
                let nd = done.push(cur@);
                assert(nd.drop_last() =~= done);
                done = nd;
            }
            cur = Vec::new();
        } else {
            cur.push(v[i]);
        }
        i = i + 1;
    }
    assert(v@.take(v@.len() as int) =~= v@);
    add_device(&mut out, &cur, sources, &monitor, Ghost(done));
    proof {
        let all = done.push(cur@);
        assert(all.drop_last() =~= done);
    }
    out
}

/// Recording devices (`pactl list short sources`, monitors left out).
pub fn pulse_sources(listing: &str) -> (r: Vec<(String, String)>)
    ensures
        r@.map_values(|p: (String, String)| pair_view(p)) == device_pairs(listed_devices(split_lines(listing@), true)),
{
    pulse_device_list("sources", listing)
}

/// Playback devices (`pactl list short sinks`).
pub fn pulse_sinks(listing: &str) -> (r: Vec<(String, String)>)
    ensures
        r@.map_values(|p: (String, String)| pair_view(p)) == device_pairs(listed_devices(split_lines(listing@), false)),
{
    proof {
        reveal_strlit("sinks");
        reveal_strlit("sources");
        assert("sinks"@ != "sources"@) by {
            assert("sinks"@[1] != "sources"@[1]);
        }
    }
    pulse_device_list("sinks", listing)
}

// ---------------------------------------------------------------------------
// Sending files
// ---------------------------------------------------------------------------

/// Images the review dialog shows as pictures, by extension (any case).
pub open spec fn previewable_ext(ext: Seq<char>) -> bool {
    ext == "png"@ || ext == "jpg"@ || ext == "jpeg"@ || ext == "gif"@ || ext == "webp"@ || ext == "bmp"@
        || ext == "tif"@ || ext == "tiff"@ || ext == "avif"@
}

pub fn is_previewable_image(path: &str) -> (r: bool)
    ensures
        r == previewable_ext(match path_extension(path@) {
            Some(e) => lower_seq(e),
            None => Seq::empty(),
        }),
{
    let ext = match file_extension(path) {
        Some(e) => ascii_lower(e.as_str()),
        None => Vec::new(),
    };
    proof {
        if path_extension(path@) is None {
            assert(ext@ =~= Seq::<char>::empty());
        }
    }
    chars_equal(&ext, "png") || chars_equal(&ext, "jpg") || chars_equal(&ext, "jpeg") || chars_equal(&ext, "gif")
        || chars_equal(&ext, "webp") || chars_equal(&ext, "bmp") || chars_equal(&ext, "tif") || chars_equal(
        &ext,
        "tiff",
    ) || chars_equal(&ext, "avif")
}

/// The icon of a queued file that is not shown as a picture.
pub fn media_review_icon(path: &str) -> (icon: &'static str)
    ensures
        icon@ == ({
            let t = media_o_type(match path_extension(path@) {
                Some(e) => lower_seq(e),
                None => Seq::empty(),
            });
            if t == "video"@ {
                "video-x-generic-symbolic"@
            } else if t == "audio"@ {
                "audio-x-generic-symbolic"@
            } else {
                "text-x-generic-symbolic"@
            }
        }),
{
    let t = guess_media_o_type(path);
    if str_eq(t, "video") {
        "video-x-generic-symbolic"
    } else if str_eq(t, "audio") {
        "audio-x-generic-symbolic"
    } else {
        "text-x-generic-symbolic"
    }
}

} // verus!
