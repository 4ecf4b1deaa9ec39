//! Sending: what must hold before a file or sticker goes out, and the message
//! shown in the conversation until the server answers.

use vstd::prelude::*;
use crate::events::opt_view;
use crate::i18n::{current_wf, pair_views, t, tf, translate, translate_with, I18n};
use crate::locate::{path_file_name, std_path_file_name};
use crate::protocol::MessageInfo;
use crate::text::{decimal, str_eq, to_owned_string, u64_to_string};

verus! {

/// Why a send cannot start: no chat is open, or the session is still being
/// restored.
pub open spec fn send_blocked(cur: Option<I18n>, current: Option<Seq<char>>, session_ready: bool) -> Option<Seq<char>> {
    if current is None {
        Some(translate(cur, "select_chat_first"@))
    } else if !session_ready {
        Some(translate(cur, "still_restoring"@))
    } else {
        None
    }
}

/// Checks before a local file is sent: an open chat, a restored session and a
/// regular file (`is_file`). Gives the chat to send to, or the toast to show.
pub fn check_media_send(cur: &Option<I18n>, current: &Option<String>, session_ready: bool, is_file: bool) -> (r: Result<String, String>)
    requires
        current_wf(*cur),
    ensures
        match send_blocked(*cur, opt_view(*current), session_ready) {
            Some(msg) => r is Err && r->Err_0@ == msg,
            None => if is_file {
                r is Ok && r->Ok_0 == current->0
            } else {
                r is Err && r->Err_0@ == translate_with(*cur, "media_send_failed"@, seq![("error"@, "not a file"@)])
            },
        },
{
    let chat = match current {
        Some(c) => c,
        None => return Err(t(cur, "select_chat_first")),
    };
    if !session_ready {
        return Err(t(cur, "still_restoring"));
    }
    if !is_file {
        let pairs = [("error", "not a file")];
        let msg = tf(cur, "media_send_failed", &pairs);
        assert(pair_views(pairs@) =~= seq![("error"@, "not a file"@)]);
        return Err(msg);
    }
    Ok(chat.clone())
}

/// The kind the engine is told for a file to send, by its extension.
pub open spec fn send_kind(source: Seq<char>) -> Seq<char> {
    crate::media::media_o_type(match crate::media::path_extension(source) {
        Some(e) => crate::text::lower_seq(e),
        None => Seq::empty(),
    })
}

/// Whether the length of a file of this kind goes with it: audio and video.
pub fn wants_duration(o_type: &str) -> (r: bool)
    ensures
        r == (o_type@ == "audio"@ || o_type@ == "video"@),
{
    str_eq(o_type, "audio") || str_eq(o_type, "video")
}

/// A request to send a file.
pub struct MediaSend {
    pub chat_mid: String,
    /// The copy in the media cache.
    pub file_path: String,
    pub o_type: &'static str,
    pub duration_ms: Option<u64>,
}

/// The request for sending the file `source`, copied to `cached`, to the chat
/// `chat_mid`: its kind from the file's extension, and the length that was
/// measured (`probed_ms`) only for audio and video.
pub fn media_send_request(chat_mid: &str, source: &str, cached: &str, probed_ms: Option<u64>) -> (r: MediaSend)
    ensures
        r.chat_mid@ == chat_mid@,
        r.file_path@ == cached@,
        r.o_type@ == send_kind(source@),
        r.duration_ms == (if r.o_type@ == "audio"@ || r.o_type@ == "video"@ { probed_ms } else { None }),
{
    let o_type = crate::media::guess_media_o_type(source);
    let duration_ms = if wants_duration(o_type) {
        probed_ms
    } else {
        None
    };
    MediaSend { chat_mid: to_owned_string(chat_mid), file_path: to_owned_string(cached), o_type, duration_ms }
}

/// The toast when a file could not be sent (copying it into the cache or
/// handing it to the engine failed).
pub fn media_send_failed_text(cur: &Option<I18n>, error: &str) -> (s: String)
    requires
        current_wf(*cur),
    ensures
        s@ == translate_with(*cur, "media_send_failed"@, seq![("error"@, error@)]),
{
    let pairs = [("error", error)];
    let s = tf(cur, "media_send_failed", &pairs);
    assert(pair_views(pairs@) =~= seq![("error"@, error@)]);
    s
}

/// A message sent from this client, before the server has given it an id.
pub open spec fn own_message(m: MessageInfo, chat_mid: Seq<char>, now_ms: i64) -> bool {
    &&& m.id@.len() == 0
    &&& m.from@.len() == 0
    &&& m.to@ == chat_mid
    &&& m.chat_mid@.len() == 0
    &&& m.sender_name@.len() == 0
    &&& m.mine
    &&& m.created_time == now_ms
    &&& m.image_url is None
    &&& m.flex is None
}

/// How a sent file is shown, by the kind the engine is told (`image` and
/// `gif`, `video`, `audio`, anything else): content type, text, and whether
/// the path is the picture, the voice file and the file of the message.
pub open spec fn media_shape(o_type: Seq<char>, file_name: Seq<char>) -> (Seq<char>, Seq<char>, bool, bool) {
    if o_type == "image"@ || o_type == "gif"@ {
        ("IMAGE"@, "[Image]"@, true, false)
    } else if o_type == "video"@ {
        ("VIDEO"@, "[Video]"@, false, false)
    } else if o_type == "audio"@ {
        ("AUDIO"@, "Voice message"@, false, true)
    } else {
        ("FILE"@, file_name, false, false)
    }
}

/// The name a sent file is shown under: its final path component, else
/// `file`.
pub open spec fn sent_file_name(path: Seq<char>) -> Seq<char> {
    match std_path_file_name(path) {
        Some(n) => n,
        None => "file"@,
    }
}

/// The message shown while a file is uploaded. `source` is the file the user
/// picked, `path` its copy in the media cache, `o_type` the kind the engine is
/// told, and `duration_ms` the length of a voice message or video.
pub fn outgoing_media_message(
    chat_mid: &str,
    source: &str,
    path: &str,
    o_type: &str,
    duration_ms: Option<u64>,
    now_ms: i64,
) -> (m: MessageInfo)
    ensures
        own_message(m, chat_mid@, now_ms),
        m.content_type@ == media_shape(o_type@, sent_file_name(source@)).0,
        m.text@ == media_shape(o_type@, sent_file_name(source@)).1,
        opt_view(m.image_path) == (if media_shape(o_type@, sent_file_name(source@)).2 { Some(path@) } else { None }),
        opt_view(m.audio_path) == (if media_shape(o_type@, sent_file_name(source@)).3 { Some(path@) } else { None }),
        opt_view(m.file_path) == Some(path@),
        opt_view(m.file_name) == Some(sent_file_name(source@)),
        m.duration_ms == (match duration_ms {
            Some(v) => Some(v as i64),
            None => None,
        }),
{
    let file_name = match path_file_name(source) {
        Some(n) => n,
        None => to_owned_string("file"),
    };
    let image = str_eq(o_type, "image") || str_eq(o_type, "gif");
    let video = str_eq(o_type, "video");
    let audio = !image && !video && str_eq(o_type, "audio");
    let (content_type, text) = if image {
        (to_owned_string("IMAGE"), to_owned_string("[Image]"))
    } else if video {
        (to_owned_string("VIDEO"), to_owned_string("[Video]"))
    } else if audio {
        (to_owned_string("AUDIO"), to_owned_string("Voice message"))
    } else {
        (to_owned_string("FILE"), file_name.clone())
    };
    let duration = match duration_ms {
        Some(v) => Some(#[verifier::truncate] (v as i64)),
        None => None,
    };
    MessageInfo {
        id: String::new(),
        text,
        from: String::new(),
        to: to_owned_string(chat_mid),
        chat_mid: String::new(),
        sender_name: String::new(),
        mine: true,
        created_time: now_ms,
        content_type,
        image_path: if image { Some(to_owned_string(path)) } else { None },
        image_url: None,
        audio_path: if audio { Some(to_owned_string(path)) } else { None },
        file_name: Some(file_name),
        file_path: Some(to_owned_string(path)),
        duration_ms: duration,
        flex: None,
    }
}

/// The message shown while a picture from the viewer or the clipboard is
/// sent: named after the picture's file (`image.png` without a name).
pub fn outgoing_image_message(chat_mid: &str, source: &str, path: &str, now_ms: i64) -> (m: MessageInfo)
    ensures
        own_message(m, chat_mid@, now_ms),
        m.content_type@ == "IMAGE"@,
        m.text@ == "[Image]"@,
        opt_view(m.image_path) == Some(path@),
        opt_view(m.file_path) == Some(path@),
        m.audio_path is None,
        opt_view(m.file_name) == Some(match std_path_file_name(source@) {
            Some(n) => n,
            None => "image.png"@,
        }),
        m.duration_ms is None,
{
    let file_name = match path_file_name(source) {
        Some(n) => n,
        None => to_owned_string("image.png"),
    };
    MessageInfo {
        id: String::new(),
        text: to_owned_string("[Image]"),
        from: String::new(),
        to: to_owned_string(chat_mid),
        chat_mid: String::new(),
        sender_name: String::new(),
        mine: true,
        created_time: now_ms,
        content_type: to_owned_string("IMAGE"),
        image_path: Some(to_owned_string(path)),
        image_url: None,
        audio_path: None,
        file_name: Some(file_name),
        file_path: Some(to_owned_string(path)),
        duration_ms: None,
        flex: None,
    }
}

/// The message shown while a sticker is sent, with its picture when one is
/// at hand.
pub fn outgoing_sticker_message(chat_mid: &str, image_path: Option<&str>, now_ms: i64) -> (m: MessageInfo)
    ensures
        own_message(m, chat_mid@, now_ms),
        m.content_type@ == "STICKER"@,
        m.text@ == "[Sticker]"@,
        opt_view(m.image_path) == (match image_path {
            Some(p) => Some(p@),
            None => None,
        }),
        m.audio_path is None,
        m.file_name is None,
        m.file_path is None,
        m.duration_ms is None,
{
    MessageInfo {
        id: String::new(),
        text: to_owned_string("[Sticker]"),
        from: String::new(),
        to: to_owned_string(chat_mid),
        chat_mid: String::new(),
        sender_name: String::new(),
        mine: true,
        created_time: now_ms,
        content_type: to_owned_string("STICKER"),
        image_path: match image_path {
            Some(p) => Some(to_owned_string(p)),
            None => None,
        },
        image_url: None,
        audio_path: None,
        file_name: None,
        file_path: None,
        duration_ms: None,
        flex: None,
    }
}

// ---------------------------------------------------------------------------
// The review of files before they are sent
// ---------------------------------------------------------------------------

/// Whether `std::path::Path` counts two paths as the same (it compares them
/// component by component).
pub uninterp spec fn std_same_path(a: Seq<char>, b: Seq<char>) -> bool;

/// `==` on two `std::path::Path`s; the result is named, not described. As
/// `Path` is `Eq`, a path is the same as itself, and the answer does not
/// depend on the order of the two.
#[verifier::external_body]
fn same_path(a: &str, b: &str) -> (r: bool)
    ensures
        r == std_same_path(a@, b@),
        r == std_same_path(b@, a@),
        a@ == b@ ==> r,
{
    std::path::Path::new(a) == std::path::Path::new(b)
}

/// The files chosen for sending, in the order they were added.
pub struct ReviewQueue {
    pub paths: Vec<String>,
}

/// Whether `p` is the same path as one in `paths`.
pub open spec fn holds_path(paths: Seq<String>, p: Seq<char>) -> bool {
    exists|i: int| 0 <= i < paths.len() && std_same_path(paths[i]@, p)
}

/// The files without those that are the same path as `p`, in order.
pub open spec fn without_path(paths: Seq<String>, p: Seq<char>) -> Seq<String>
    decreases paths.len(),
{
    if paths.len() == 0 {
        paths
    } else if std_same_path(paths.last()@, p) {
        without_path(paths.drop_last(), p)
    } else {
        without_path(paths.drop_last(), p).push(paths.last())
    }
}

/// The review's buttons and labels.
pub struct ReviewControls {
    pub count: String,
    pub send_label: String,
    pub send_sensitive: bool,
    pub empty_visible: bool,
}

impl ReviewQueue {
    /// No file is queued twice.
    pub open spec fn wf(&self) -> bool {
        forall|i: int, j: int| 0 <= i < j < self.paths@.len() ==> !std_same_path(self.paths@[i]@, self.paths@[j]@)
    }

    pub fn new() -> (q: Self)
        ensures
            q.wf(),
            q.paths@.len() == 0,
    {
        ReviewQueue { paths: Vec::new() }
    }

    /// Whether a file that is the same path as `path` is queued.
    pub fn contains(&self, path: &str) -> (r: bool)
        ensures
            r == holds_path(self.paths@, path@),
            (exists|i: int| 0 <= i < self.paths@.len() && #[trigger] self.paths@[i]@ == path@) ==> r,
    {
        let mut i: usize = 0;
        while i < self.paths.len()
            invariant
                i <= self.paths@.len(),
                forall|k: int| 0 <= k < i ==> !std_same_path(self.paths@[k]@, path@),
                forall|k: int| 0 <= k < i ==> self.paths@[k]@ != path@,
            decreases self.paths@.len() - i,
        {
            if same_path(self.paths[i].as_str(), path) {
                return true;
            }
            i = i + 1;
        }
        false
    }

    /// Queues `path` when it is a regular file (`is_file`) and the same path is
    /// not queued yet; tells whether it was queued. A path that is queued
    /// under another spelling is not added again only where `Path` counts the
    /// two as the same.
    pub fn add(&mut self, path: String, is_file: bool) -> (added: bool)
        requires
            old(self).wf(),
        ensures
            added == (is_file && !holds_path(old(self).paths@, path@)),
            (exists|i: int| 0 <= i < old(self).paths@.len() && #[trigger] old(self).paths@[i]@ == path@) ==> !added,
            final(self).paths@ == (if added { old(self).paths@.push(path) } else { old(self).paths@ }),
            final(self).wf(),
    {
        if !is_file || self.contains(path.as_str()) {
            return false;
        }
        let ghost before = self.paths@;
        self.paths.push(path);
        assert forall|i: int, j: int| 0 <= i < j < self.paths@.len() implies !std_same_path(
            self.paths@[i]@,
            self.paths@[j]@,
        ) by {
            if j == before.len() {
                assert(self.paths@[i] == before[i]);
                assert(!std_same_path(before[i]@, path@));
            } else {
                assert(self.paths@[i] == before[i] && self.paths@[j] == before[j]);
            }
        }
        true
    }

    /// Takes every file that is the same path as `path` out of the queue.
    pub fn remove(&mut self, path: &str)
        requires
            old(self).wf(),
        ensures
            final(self).paths@ == without_path(old(self).paths@, path@),
            final(self).wf(),
    {
        let ghost orig = self.paths@;
        let mut kept: Vec<String> = Vec::new();
        let mut i: usize = 0;
        assert(orig.take(0) =~= Seq::<String>::empty());
        while i < self.paths.len()
            invariant
                self.paths@ == orig,
                i <= orig.len(),
                kept@ == without_path(orig.take(i as int), path@),
                old(self).wf(),
                old(self).paths@ == orig,
                forall|a: int| 0 <= a < kept@.len() ==> exists|k: int| 0 <= k < i && #[trigger] kept@[a] == orig[k],
                forall|a: int, b: int| 0 <= a < b < kept@.len() ==> !std_same_path(kept@[a]@, kept@[b]@),
            decreases orig.len() - i,
        {
            assert(orig.take(i + 1).drop_last() =~= orig.take(i as int));
            assert(orig.take(i + 1).last() == orig[i as int]);
            if !same_path(self.paths[i].as_str(), path) {
                let ghost before = kept@;
                let item = self.paths[i].clone();
                kept.push(item);
                assert forall|a: int, b: int| 0 <= a < b < kept@.len() implies !std_same_path(kept@[a]@, kept@[b]@) by {
                    if b == before.len() {
                        assert(kept@[a] == before[a]);
                        let k = choose|k: int| 0 <= k < i && before[a] == orig[k];
                        assert(kept@[b] == orig[i as int]);
                    } else {
                        assert(kept@[a] == before[a] && kept@[b] == before[b]);
                    }
                }
                assert forall|a: int| 0 <= a < kept@.len() implies exists|k: int| 0 <= k < i + 1 && #[trigger] kept@[a] == orig[k] by {
                    if a == before.len() {
                        assert(kept@[a] == orig[i as int]);
                    } else {
                        assert(kept@[a] == before[a]);
                        let k = choose|k: int| 0 <= k < i && before[a] == orig[k];
                        assert(kept@[a] == orig[k]);
                    }
                }
            }
            i = i + 1;
        }
        assert(orig.take(orig.len() as int) =~= orig);
        self.paths = kept;
    }

    /// The count line, the send button's label (both with the number of
    /// files), whether sending is possible, and whether the empty note shows.
    pub fn controls(&self, cur: &Option<I18n>) -> (c: ReviewControls)
        requires
            current_wf(*cur),
        ensures
            c.count@ == translate_with(*cur, "media_review_count"@, seq![("n"@, decimal(self.paths@.len()))]),
            c.send_label@ == translate_with(*cur, "media_review_send"@, seq![("n"@, decimal(self.paths@.len()))]),
            c.send_sensitive == (self.paths@.len() > 0),
            c.empty_visible == (self.paths@.len() == 0),
    {
        let len = self.paths.len();
        let n = u64_to_string(len as u64);
        let pairs = [("n", n.as_str())];
        let count = tf(cur, "media_review_count", &pairs);
        let send_label = tf(cur, "media_review_send", &pairs);
        assert(pair_views(pairs@) =~= seq![("n"@, decimal(len as nat))]);
        ReviewControls { count, send_label, send_sensitive: len > 0, empty_visible: len == 0 }
    }
}

/// The name under a file of the review: its final path component, else
/// `file`.
pub fn review_item_name(path: &str) -> (name: String)
    ensures
        name@ == sent_file_name(path@),
{
    match path_file_name(path) {
        Some(n) => n,
        None => to_owned_string("file"),
    }
}

// ---------------------------------------------------------------------------
// The copy of a sent file in the media cache
// ---------------------------------------------------------------------------

/// A character kept from the file's stem in the cache name.
pub open spec fn cache_name_char(c: char) -> bool {
    ('a' <= c && c <= 'z') || ('A' <= c && c <= 'Z') || ('0' <= c && c <= '9') || c == '-' || c == '_'
}

/// The characters of `s` kept in a cache name, in order.
pub open spec fn cache_chars(s: Seq<char>) -> Seq<char>
    decreases s.len(),
{
    if s.len() == 0 {
        s
    } else if cache_name_char(s.last()) {
        cache_chars(s.drop_last()).push(s.last())
    } else {
        cache_chars(s.drop_last())
    }
}

/// The name of a file's copy in the media cache:
/// `out-<millis>-<stem>.<extension>`, where the stem keeps at most 40 of its
/// letters, digits, `-` and `_` (`file` without a file name) and the
/// extension is `bin` without one.
pub open spec fn cache_name(path: Seq<char>, millis: u64) -> Seq<char> {
    let (stem, ext) = match std_path_file_name(path) {
        Some(n) => (crate::downloads::split_extension(n).0, match crate::downloads::split_extension(n).1 {
            Some(e) => e,
            None => "bin"@,
        }),
        None => ("file"@, "bin"@),
    };
    let kept = cache_chars(stem);
    "out-"@ + decimal(millis as nat) + "-"@ + (if kept.len() <= 40 { kept } else { kept.take(40) }) + "."@ + ext
}

/// The name of the copy of `path` made in the media cache at `millis`
/// milliseconds since the epoch.
pub fn media_cache_name(path: &str, millis: u64) -> (name: String)
    ensures
        name@ == cache_name(path@, millis),
{
    let (stem, ext) = match path_file_name(path) {
        Some(n) => {
            let v = crate::text::chars_of(n.as_str());
            let (stem, dotted) = crate::downloads::stem_and_extension(&v);
            let d = crate::text::chars_of(dotted.as_str());
            let ext = if d.len() > 0 {
                crate::text::string_from_range(&d, 1, d.len())
            } else {
                to_owned_string("bin")
            };
            proof {
                match crate::downloads::split_extension(n@).1 {
                    Some(e) => {
                        assert(d@ == seq!['.'] + e);
                        assert(d@.subrange(1, d@.len() as int) =~= e);
                    },
                    None => {},
                }
            }
            (stem, ext)
        },
        None => (to_owned_string("file"), to_owned_string("bin")),
    };
    let v = crate::text::chars_of(stem.as_str());
    let mut kept = String::new();
    let mut count: usize = 0;
    let mut i: usize = 0;
    assert(v@.take(0) =~= Seq::<char>::empty());
    while i < v.len()
        invariant
            i <= v@.len(),
            v@ == stem@,
            count == kept@.len(),
            count <= 40,
            kept@ == (if cache_chars(v@.take(i as int)).len() <= 40 {
                cache_chars(v@.take(i as int))
            } else {
                cache_chars(v@.take(i as int)).take(40)
            }),
        decreases v@.len() - i,
    {
        let c = v[i];
        proof {
            assert(v@.take(i + 1).drop_last() =~= v@.take(i as int));
            assert(v@.take(i + 1).last() == c);
        }
        let ok = ('a' <= c && c <= 'z') || ('A' <= c && c <= 'Z') || ('0' <= c && c <= '9') || c == '-' || c == '_';
        if ok && count < 40 {
            crate::text::push_char(&mut kept, c);
            count = count + 1;
        }
        proof {
            let prev = cache_chars(v@.take(i as int));
            let next = cache_chars(v@.take(i + 1));
            if ok {
                assert(next == prev.push(c));
                if prev.len() >= 40 {
                    assert(next.take(40) =~= prev.take(40));
                } else {
                    assert(kept@ =~= next);
                }
            }
        }
        i = i + 1;
    }
    assert(v@.take(v@.len() as int) =~= v@);
    let mut name = to_owned_string("out-");
    let ms = u64_to_string(millis);
    crate::text::append_str(&mut name, ms.as_str());
    crate::text::append_str(&mut name, "-");
    crate::text::append_str(&mut name, kept.as_str());
    crate::text::append_str(&mut name, ".");
    crate::text::append_str(&mut name, ext.as_str());
    name
}

// ---------------------------------------------------------------------------
// Pasting files and pictures
// ---------------------------------------------------------------------------

/// What a paste into the composer sends.
#[derive(Clone, Copy, Debug, PartialEq, Eq)]
pub enum PasteKind {
    /// Nothing: no chat is open, the session is not restored, or the
    /// clipboard holds neither files nor a picture (the text is pasted).
    Nothing,
    /// The files on the clipboard.
    Files,
    /// The picture on the clipboard.
    Image,
}

/// A paste sends the clipboard's files, else its picture, when a chat is
/// open and the session is restored.
pub fn paste_kind(has_chat: bool, session_ready: bool, has_files: bool, has_image: bool) -> (k: PasteKind)
    ensures
        k == (if !has_chat || !session_ready {
            PasteKind::Nothing
        } else if has_files {
            PasteKind::Files
        } else if has_image {
            PasteKind::Image
        } else {
            PasteKind::Nothing
        }),
{
    if !has_chat || !session_ready {
        PasteKind::Nothing
    } else if has_files {
        PasteKind::Files
    } else if has_image {
        PasteKind::Image
    } else {
        PasteKind::Nothing
    }
}

/// The extension of a pasted picture, by the type the clipboard offered it
/// as.
pub fn paste_extension(mime: &str) -> (ext: &'static str)
    ensures
        ext@ == (if crate::text::seq_contains(mime@, "jpeg"@) {
            "jpg"@
        } else if crate::text::seq_contains(mime@, "bmp"@) {
            "bmp"@
        } else if crate::text::seq_contains(mime@, "tiff"@) {
            "tiff"@
        } else {
            "png"@
        }),
{
    if crate::text::str_contains(mime, "jpeg") {
        "jpg"
    } else if crate::text::str_contains(mime, "bmp") {
        "bmp"
    } else if crate::text::str_contains(mime, "tiff") {
        "tiff"
    } else {
        "png"
    }
}

/// The name of a pasted picture saved at `millis` milliseconds since the
/// epoch: `paste-<millis>.<ext>`.
pub fn paste_file_name(millis: u64, ext: &str) -> (name: String)
    ensures
        name@ == "paste-"@ + decimal(millis as nat) + "."@ + ext@,
{
    let mut name = to_owned_string("paste-");
    let ms = u64_to_string(millis);
    crate::text::append_str(&mut name, ms.as_str());
    crate::text::append_str(&mut name, ".");
    crate::text::append_str(&mut name, ext);
    name
}

/// The lines of `s`, split at each line feed; the last one may be empty.
pub open spec fn line_segments(s: Seq<char>) -> Seq<Seq<char>>
    decreases s.len(),
{
    if s.len() == 0 {
        seq![Seq::empty()]
    } else {
        let prev = line_segments(s.drop_last());
        if s.last() == '\n' {
            prev.push(Seq::empty())
        } else {
            prev.update(prev.len() - 1, prev.last().push(s.last()))
        }
    }
}

pub open spec fn trimmed_line(l: Seq<char>) -> Seq<char> {
    crate::text::strip_both(l, |c: char| crate::text::is_ws(c))
}

/// The entries of a `text/uri-list`: each line without surrounding white
/// space, where it is neither empty nor a `#` comment.
pub open spec fn uri_entries(lines: Seq<Seq<char>>) -> Seq<Seq<char>>
    decreases lines.len(),
{
    if lines.len() == 0 {
        Seq::empty()
    } else {
        let prev = uri_entries(lines.drop_last());
        let l = trimmed_line(lines.last());
        if l.len() == 0 || l[0] == '#' {
            prev
        } else {
            prev.push(l)
        }
    }
}

/// Every entry taken from a `text/uri-list` is a non-empty line that is not a
/// comment.
pub proof fn lemma_uri_entries_are_uris(lines: Seq<Seq<char>>)
    ensures
        forall|k: int|
            0 <= k < uri_entries(lines).len() ==> (#[trigger] uri_entries(lines)[k]).len() > 0 && uri_entries(
                lines,
            )[k][0] != '#',
    decreases lines.len(),
{
    if lines.len() > 0 {
        lemma_uri_entries_are_uris(lines.drop_last());
        let prev = uri_entries(lines.drop_last());
        assert forall|k: int| 0 <= k < uri_entries(lines).len() implies (#[trigger] uri_entries(lines)[k]).len() > 0
            && uri_entries(lines)[k][0] != '#' by {
            if k < prev.len() {
                assert(uri_entries(lines)[k] == prev[k]);
            }
        }
    }
}

/// The entry that a line of a `text/uri-list` gives, if any.
pub open spec fn uri_entry(line: Seq<char>) -> Seq<Seq<char>> {
    let l = trimmed_line(line);
    if l.len() == 0 || l[0] == '#' {
        Seq::empty()
    } else {
        seq![l]
    }
}

pub open spec fn string_views(v: Seq<String>) -> Seq<Seq<char>> {
    v.map_values(|x: String| x@)
}

fn keep_uri_line(out: &mut Vec<String>, line: &Vec<char>)
    ensures
        string_views(final(out)@) == string_views(old(out)@) + uri_entry(line@),
{
    let s = crate::text::string_from_range(line, 0, line.len());
    assert(line@.subrange(0, line@.len() as int) =~= line@);
    let l = crate::text::trim(s.as_str());
    let v = crate::text::chars_of(l.as_str());
    let ghost before = out@;
    if !(v.len() == 0 || v[0] == '#') {
        out.push(l);
        assert(string_views(out@) =~= string_views(before) + uri_entry(line@));
    } else {
        assert(string_views(out@) =~= string_views(before) + uri_entry(line@));
    }
}

/// The URIs listed in a `text/uri-list` that was pasted.
pub fn uri_list_entries(text: &str) -> (uris: Vec<String>)
    ensures
        string_views(uris@) == uri_entries(line_segments(text@)),
{
    let v = crate::text::chars_of(text);
    let mut out: Vec<String> = Vec::new();
    let mut cur: Vec<char> = Vec::new();
    let mut i: usize = 0;
    assert(v@.take(0) =~= Seq::<char>::empty());
    assert(string_views(out@) =~= Seq::empty());
    while i < v.len()
        invariant
            i <= v@.len(),
            v@ == text@,
            string_views(out@) == uri_entries(line_segments(v@.take(i as int)).drop_last()),
            cur@ == line_segments(v@.take(i as int)).last(),
            line_segments(v@.take(i as int)).len() >= 1,
        decreases v@.len() - i,
    {
        let c = v[i];
        let ghost segs = line_segments(v@.take(i as int));
        proof {
            assert(v@.take(i + 1).drop_last() =~= v@.take(i as int));
            assert(v@.take(i + 1).last() == c);
        }
        if c == '\n' {
            keep_uri_line(&mut out, &cur);
            cur = Vec::new();
            proof {
                assert(line_segments(v@.take(i + 1)) == segs.push(Seq::empty()));
                assert(segs.push(Seq::<char>::empty()).drop_last() =~= segs);
                assert(segs.drop_last().push(segs.last()) =~= segs);
                assert(uri_entries(segs) =~= uri_entries(segs.drop_last()) + uri_entry(segs.last()));
                assert(cur@ =~= Seq::<char>::empty());
            }
        } else {
            cur.push(c);
            proof {
                let next = segs.update(segs.len() - 1, segs.last().push(c));
                assert(line_segments(v@.take(i + 1)) == next);
                assert(next.drop_last() =~= segs.drop_last());
            }
        }
        i = i + 1;
    }
    assert(v@.take(v@.len() as int) =~= v@);
    let ghost segs = line_segments(v@);
    keep_uri_line(&mut out, &cur);
    proof {
        assert(segs.drop_last().push(segs.last()) =~= segs);
        assert(uri_entries(segs) =~= uri_entries(segs.drop_last()) + uri_entry(segs.last()));
    }
    out
}

// ---------------------------------------------------------------------------
// Voice messages
// ---------------------------------------------------------------------------

/// The longest voice message: recording stops and sends at 60 seconds.
pub const MAX_VOICE_SECS: u64 = 60;

/// The recording device: the configured input, or `default` when none is
/// set.
pub fn record_source(audio_input: &str) -> (src: String)
    ensures
        src@ == (if audio_input@.len() == 0 || audio_input@ == "default"@ { "default"@ } else { audio_input@ }),
{
    if crate::text::chars_of(audio_input).len() == 0 || str_eq(audio_input, "default") {
        to_owned_string("default")
    } else {
        to_owned_string(audio_input)
    }
}

/// The recording timer, `m:ss` of the seconds recorded, which stop at 60.
pub fn record_timer_text(elapsed_secs: u64) -> (s: String)
    ensures
        ({
            let total = if elapsed_secs < MAX_VOICE_SECS { elapsed_secs as nat } else { MAX_VOICE_SECS as nat };
            s@ == decimal(total / 60) + ":"@ + crate::media::two_digits(total % 60)
        }),
{
    let total = if elapsed_secs < MAX_VOICE_SECS { elapsed_secs } else { MAX_VOICE_SECS };
    let mut s = u64_to_string(total / 60);
    crate::text::push_char(&mut s, ':');
    if total % 60 < 10 {
        crate::text::push_char(&mut s, '0');
    }
    let tail = u64_to_string(total % 60);
    crate::text::append_str(&mut s, tail.as_str());
    proof {
        reveal_strlit(":");
    }
    s
}

/// Whether a recording has reached its limit and is sent by itself.
pub fn record_limit_reached(elapsed_secs: u64) -> (r: bool)
    ensures
        r == (elapsed_secs >= MAX_VOICE_SECS),
{
    elapsed_secs >= MAX_VOICE_SECS
}

/// The length sent with a voice message: the time recorded (two seconds when
/// it is not known), and at least half a second.
pub fn voice_duration_ms(recorded_ms: Option<u64>) -> (ms: u64)
    ensures
        ms == (match recorded_ms {
            Some(v) => if v < 500 { 500 } else { v },
            None => 2000,
        }),
{
    let v = match recorded_ms {
        Some(v) => v,
        None => 2000,
    };
    if v < 500 { 500 } else { v }
}

/// The converted recording is sent only when the conversion succeeded and
/// left a file of at least 1 KiB.
pub fn voice_file_ok(converted: bool, size: Option<u64>) -> (ok: bool)
    ensures
        ok == (converted && size is Some && size->0 >= 1024),
{
    converted && match size {
        Some(n) => n >= 1024,
        None => false,
    }
}

/// The message shown while a voice message is sent.
pub fn outgoing_voice_message(chat_mid: &str, path: &str, duration_ms: u64, now_ms: i64) -> (m: MessageInfo)
    ensures
        own_message(m, chat_mid@, now_ms),
        m.content_type@ == "AUDIO"@,
        m.text@ == "Voice message"@,
        m.image_path is None,
        opt_view(m.audio_path) == Some(path@),
        opt_view(m.file_path) == Some(path@),
        m.file_name is None,
        m.duration_ms == Some(duration_ms as i64),
{
    MessageInfo {
        id: String::new(),
        text: to_owned_string("Voice message"),
        from: String::new(),
        to: to_owned_string(chat_mid),
        chat_mid: String::new(),
        sender_name: String::new(),
        mine: true,
        created_time: now_ms,
        content_type: to_owned_string("AUDIO"),
        image_path: None,
        image_url: None,
        audio_path: Some(to_owned_string(path)),
        file_name: None,
        file_path: Some(to_owned_string(path)),
        duration_ms: Some(#[verifier::truncate] (duration_ms as i64)),
        flex: None,
    }
}

} // verus!
