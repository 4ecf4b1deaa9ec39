//! Where a message's media is found on disk. The engine may leave a small
//! preview (`.thumb.`) beside the full picture (`.full.`); the places to look
//! are listed in order, each with what it must pass on disk, and the first
//! that passes is the media path.

use vstd::prelude::*;
use crate::downloads::{join, join_path};
use crate::events::opt_view;
use crate::listing::{sort_by_time, sort_by_time_spec};
use crate::media::{is_full_media_path, is_full_path, is_thumb_media_path, is_thumb_path, suggested_name};
use crate::protocol::MessageInfo;
use crate::text::{append_str, ascii_lower, ascii_upper, chars_of, ends_with_chars, lower_seq, seq_ends_with, seq_eq, str_eq, to_owned_string, upper_seq};

verus! {

/// What a place must pass on disk to be used.
#[derive(Clone, Copy, Debug, PartialEq, Eq, Structural)]
pub enum Check {
    /// The path exists.
    Exists,
    /// The path exists, and the picture does not look like a small preview
    /// (`image_looks_low_res` with the size that its header gives).
    ExistsSharp,
    /// The path is a regular file.
    IsFile,
    /// The path is a regular file, and the picture does not look like a small
    /// preview.
    IsFileSharp,
}

/// A place to look, with what it must pass.
pub struct Candidate {
    pub path: String,
    pub check: Check,
}

pub open spec fn cand_views(v: Seq<Candidate>) -> Seq<(Seq<char>, Check)> {
    v.map_values(|c: Candidate| (c.path@, c.check))
}

/// What `std::path::Path::parent` gives for a path.
pub uninterp spec fn std_path_parent(path: Seq<char>) -> Option<Seq<char>>;

/// What `std::path::Path::file_name` gives for a path.
pub uninterp spec fn std_path_file_name(path: Seq<char>) -> Option<Seq<char>>;

/// `std::path::Path::parent`: the path without its final component; the
/// result is named, not described.
#[verifier::external_body]
pub(crate) fn path_parent(path: &str) -> (r: Option<String>)
    ensures
        opt_view(r) == std_path_parent(path@),
{
    std::path::Path::new(path).parent().map(|p| p.to_string_lossy().into_owned())
}

/// `std::path::Path::file_name`: the final component of the path; the result
/// is named, not described.
#[verifier::external_body]
pub(crate) fn path_file_name(path: &str) -> (r: Option<String>)
    ensures
        opt_view(r) == std_path_file_name(path@),
{
    std::path::Path::new(path).file_name().map(|n| n.to_string_lossy().into_owned())
}

/// How many characters come before the first `.` (all of them without one).
pub open spec fn dot_free_len(s: Seq<char>) -> nat
    decreases s.len(),
{
    if s.len() == 0 || s[0] == '.' {
        0
    } else {
        1 + dot_free_len(s.drop_first())
    }
}

proof fn lemma_dot_free_len_at(s: Seq<char>, i: int)
    requires
        0 <= i <= s.len(),
        forall|k: int| 0 <= k < i ==> s[k] != '.',
        i == s.len() || s[i] == '.',
    ensures
        dot_free_len(s) == i,
    decreases i,
{
    if i > 0 {
        let t = s.drop_first();
        assert forall|k: int| 0 <= k < i - 1 implies t[k] != '.' by {
            assert(t[k] == s[k + 1]);
        }
        if i < s.len() {
            assert(t[i - 1] == s[i]);
        }
        lemma_dot_free_len_at(t, i - 1);
    }
}

/// The part of a file name before its first dot: the media id.
fn media_id(name: &str) -> (id: String)
    ensures
        id@ == name@.take(dot_free_len(name@) as int),
{
    let v = chars_of(name);
    let mut id = String::new();
    let mut i: usize = 0;
    while i < v.len() && v[i] != '.'
        invariant
            i <= v@.len(),
            v@ == name@,
            forall|k: int| 0 <= k < i ==> v@[k] != '.',
            id@ == v@.take(i as int),
        decreases v@.len() - i,
    {
        crate::text::push_char(&mut id, v[i]);
        i = i + 1;
        assert(id@ =~= v@.take(i as int));
    }
    proof {
        lemma_dot_free_len_at(v@, i as int);
    }
    id
}

/// The picture extensions tried next to a media file, in order.
pub open spec fn image_exts() -> Seq<Seq<char>> {
    seq!["jpg"@, "jpeg"@, "png"@, "webp"@, "gif"@]
}

/// `stem` followed by each picture extension, in the directory `parent`.
pub open spec fn sibling_cands(parent: Seq<char>, stem: Seq<char>, check: Check) -> Seq<(Seq<char>, Check)> {
    image_exts().map_values(|e: Seq<char>| (join_path(parent, stem + e), check))
}

fn push_siblings(out: &mut Vec<Candidate>, parent: &str, stem: &str, check: Check)
    ensures
        cand_views(final(out)@) == cand_views(old(out)@) + sibling_cands(parent@, stem@, check),
{
    let exts = ["jpg", "jpeg", "png", "webp", "gif"];
    let ghost start = cand_views(out@);
    assert(exts@.map_values(|e: &str| e@) =~= image_exts());
    let mut k: usize = 0;
    while k < exts.len()
        invariant
            exts@.map_values(|e: &str| e@) == image_exts(),
            k <= exts@.len(),
            cand_views(out@) == start + sibling_cands(parent@, stem@, check).take(k as int),
        decreases exts@.len() - k,
    {
        let mut name = to_owned_string(stem);
        append_str(&mut name, exts[k]);
        let p = join(parent, name.as_str());
        proof {
            assert(exts@.map_values(|e: &str| e@)[k as int] == exts@[k as int]@);
        }
        let ghost before = out@;
        out.push(Candidate { path: p, check });
        k = k + 1;
        proof {
            assert(cand_views(out@) =~= cand_views(before).push((p@, check)));
            assert(sibling_cands(parent@, stem@, check).take(k as int) =~= sibling_cands(parent@, stem@, check).take(
                k - 1,
            ).push((p@, check)));
        }
    }
    assert(sibling_cands(parent@, stem@, check).take(5) =~= sibling_cands(parent@, stem@, check));
}

/// Where to look for the full picture of `p`, in order: `p` itself when it
/// is a full download; `p` when it is no preview and looks sharp; the
/// `<id>.full.<ext>` files beside it; and, for a preview, the `<id>.<ext>`
/// files beside it that look sharp.
pub open spec fn full_image_cands(p: Seq<char>) -> Seq<(Seq<char>, Check)> {
    let direct = (if is_full_path(p) { seq![(p, Check::Exists)] } else { Seq::empty() }) + (if !is_thumb_path(p) {
        seq![(p, Check::ExistsSharp)]
    } else {
        Seq::empty()
    });
    match (std_path_parent(p), std_path_file_name(p)) {
        (Some(parent), Some(name)) => {
            let id = name.take(dot_free_len(name) as int);
            if id.len() == 0 {
                direct
            } else {
                direct + sibling_cands(parent, id + ".full."@, Check::IsFile) + (if is_thumb_path(p) {
                    sibling_cands(parent, id + "."@, Check::IsFileSharp)
                } else {
                    Seq::empty()
                })
            }
        },
        _ => direct,
    }
}

/// The places that may hold the full picture of `path`, in order.
pub fn full_image_candidates(path: &str) -> (out: Vec<Candidate>)
    ensures
        cand_views(out@) == full_image_cands(path@),
{
    let mut out: Vec<Candidate> = Vec::new();
    let full = is_full_media_path(path);
    let thumb = is_thumb_media_path(path);
    if full {
        out.push(Candidate { path: to_owned_string(path), check: Check::Exists });
    }
    if !thumb {
        out.push(Candidate { path: to_owned_string(path), check: Check::ExistsSharp });
    }
    let ghost direct = cand_views(out@);
    assert(direct =~= (if is_full_path(path@) { seq![(path@, Check::Exists)] } else { Seq::empty() }) + (if !is_thumb_path(path@) {
        seq![(path@, Check::ExistsSharp)]
    } else {
        Seq::empty()
    }));
    let parent = match path_parent(path) {
        Some(p) => p,
        None => return out,
    };
    let name = match path_file_name(path) {
        Some(n) => n,
        None => return out,
    };
    let id = media_id(name.as_str());
    if chars_of(id.as_str()).len() == 0 {
        return out;
    }
    let mut full_stem = id.clone();
    append_str(&mut full_stem, ".full.");
    push_siblings(&mut out, parent.as_str(), full_stem.as_str(), Check::IsFile);
    if thumb {
        let mut stem = id.clone();
        append_str(&mut stem, ".");
        push_siblings(&mut out, parent.as_str(), stem.as_str(), Check::IsFileSharp);
    } else {
        assert(cand_views(out@) =~= cand_views(out@) + Seq::<(Seq<char>, Check)>::empty());
    }
    out
}

/// `path` with `check`, when there is a path.
pub open spec fn present(path: Option<String>, check: Check) -> Seq<(Seq<char>, Check)> {
    match path {
        Some(p) => seq![(p@, check)],
        None => Seq::empty(),
    }
}

/// The places of the full picture of `path`, when there is a path.
pub open spec fn full_cands_of(path: Option<String>) -> Seq<(Seq<char>, Check)> {
    match path {
        Some(p) => full_image_cands(p@),
        None => Seq::empty(),
    }
}

/// Where a message's media may be, in order. Voice messages use their audio
/// file (else the attachment); videos their `.mp4` file, and the viewer takes
/// nothing else for a video; then the attached file unless it is a preview
/// (for the image viewer, only when it looks sharp); then, for the image
/// viewer, the full picture of the file and of the image; else the image.
pub open spec fn media_cands(msg: MessageInfo, for_viewer: bool) -> Seq<(Seq<char>, Check)> {
    let ct = upper_seq(msg.content_type@);
    if ct == "AUDIO"@ {
        present(if msg.audio_path is Some { msg.audio_path } else { msg.file_path }, Check::Exists)
    } else {
        let video = if ct == "VIDEO"@ {
            match msg.file_path {
                Some(p) => if seq_ends_with(lower_seq(p@), ".mp4"@) {
                    seq![(p@, Check::Exists)]
                } else {
                    Seq::empty()
                },
                None => Seq::empty(),
            }
        } else {
            Seq::empty()
        };
        if ct == "VIDEO"@ && for_viewer {
            video
        } else {
            let file = match msg.file_path {
                Some(p) => if !is_thumb_path(p@) {
                    seq![(p@, if for_viewer && ct == "IMAGE"@ { Check::ExistsSharp } else { Check::Exists })]
                } else {
                    Seq::empty()
                },
                None => Seq::empty(),
            };
            let rest = if ct == "IMAGE"@ {
                if for_viewer {
                    full_cands_of(msg.file_path) + full_cands_of(msg.image_path)
                } else {
                    present(msg.image_path, Check::Exists)
                }
            } else if !for_viewer {
                present(msg.image_path, Check::Exists)
            } else {
                Seq::empty()
            };
            video + file + rest
        }
    }
}

fn chars_are(v: &Vec<char>, s: &str) -> (r: bool)
    ensures
        r == (v@ == s@),
{
    let w = chars_of(s);
    seq_eq(v, &w)
}

fn push_present(out: &mut Vec<Candidate>, path: &Option<String>, check: Check)
    ensures
        cand_views(final(out)@) == cand_views(old(out)@) + present(*path, check),
{
    let ghost before = out@;
    if let Some(p) = path {
        out.push(Candidate { path: p.clone(), check });
        assert(cand_views(out@) =~= cand_views(before) + present(*path, check));
    } else {
        assert(cand_views(out@) =~= cand_views(before) + present(*path, check));
    }
}

fn push_full(out: &mut Vec<Candidate>, path: &Option<String>)
    ensures
        cand_views(final(out)@) == cand_views(old(out)@) + full_cands_of(*path),
{
    let ghost before = out@;
    if let Some(p) = path {
        let more = full_image_candidates(p.as_str());
        let mut rest = more;
        let ghost m = rest@;
        let mut i: usize = 0;
        let n = rest.len();
        while i < n
            invariant
                n == m.len(),
                i <= n,
                rest@ == m.skip(i as int),
                cand_views(out@) == cand_views(before) + cand_views(m.take(i as int)),
            decreases n - i,
        {
            let c = rest.remove(0);
            assert(c == m[i as int]);
            assert(rest@ =~= m.skip(i + 1));
            let ghost prev = out@;
            let ghost cv = (c.path@, c.check);
            out.push(c);
            assert(cand_views(out@) =~= cand_views(prev).push(cv));
            i = i + 1;
            assert(cand_views(m.take(i as int)) =~= cand_views(m.take(i - 1)).push(cv));
            assert(cand_views(out@) =~= cand_views(before) + cand_views(m.take(i as int)));
        }
        assert(m.take(n as int) =~= m);
    } else {
        assert(cand_views(out@) =~= cand_views(before) + full_cands_of(*path));
    }
}

/// Whatever the kind of a message (a file, a sticker, a picture, a video
/// that is being saved), other than a voice message and a video asked for by
/// the viewer: when its attached file is set and is no preview, that file is
/// the first place tried, and it is only required to look sharp when the
/// image viewer asks for a picture.
pub proof fn lemma_attached_file_is_tried_first(msg: MessageInfo, for_viewer: bool)
    requires
        upper_seq(msg.content_type@) != "AUDIO"@,
        !(upper_seq(msg.content_type@) == "VIDEO"@ && for_viewer),
        msg.file_path is Some,
        !is_thumb_path(msg.file_path->0@),
    ensures
        media_cands(msg, for_viewer).len() >= 1,
        media_cands(msg, for_viewer)[0].0 == msg.file_path->0@,
        media_cands(msg, for_viewer)[0].1 == Check::Exists
            || media_cands(msg, for_viewer)[0].1 == Check::ExistsSharp,
        (media_cands(msg, for_viewer)[0].1 == Check::ExistsSharp) == (for_viewer
            && upper_seq(msg.content_type@) == "IMAGE"@),
{
    reveal_strlit("IMAGE");
    reveal_strlit("VIDEO");
}

/// The places that may hold a message's media, in order; the media path is
/// the first one that passes its check. `for_viewer` asks for what a viewer
/// can open: a full video, a full-size picture.
pub fn media_path_candidates(msg: &MessageInfo, for_viewer: bool) -> (out: Vec<Candidate>)
    ensures
        cand_views(out@) == media_cands(*msg, for_viewer),
        upper_seq(msg.content_type@) != "AUDIO"@ && !(upper_seq(msg.content_type@) == "VIDEO"@
            && for_viewer) && msg.file_path is Some && !is_thumb_path(msg.file_path->0@) ==> out@.len()
            >= 1 && out@[0].path@ == msg.file_path->0@,
{
    let ct = ascii_upper(msg.content_type.as_str());
    let mut out: Vec<Candidate> = Vec::new();
    assert(cand_views(out@) =~= Seq::empty());
    if chars_are(&ct, "AUDIO") {
        let p = if msg.audio_path.is_some() {
            &msg.audio_path
        } else {
            &msg.file_path
        };
        push_present(&mut out, p, Check::Exists);
        return out;
    }
    let is_video = chars_are(&ct, "VIDEO");
    let is_image = chars_are(&ct, "IMAGE");
    if is_video {
        if let Some(p) = &msg.file_path {
            let lower = ascii_lower(p.as_str());
            let mp4 = chars_of(".mp4");
            if ends_with_chars(&lower, &mp4) {
                out.push(Candidate { path: p.clone(), check: Check::Exists });
            }
        }
        if for_viewer {
            assert(cand_views(out@) =~= media_cands(*msg, for_viewer));
            return out;
        }
    }
    let ghost video = cand_views(out@);
    if let Some(p) = &msg.file_path {
        if !is_thumb_media_path(p.as_str()) {
            let check = if for_viewer && is_image {
                Check::ExistsSharp
            } else {
                Check::Exists
            };
            out.push(Candidate { path: p.clone(), check });
        }
    }
    let ghost file = cand_views(out@);
    if is_image {
        if for_viewer {
            push_full(&mut out, &msg.file_path);
            push_full(&mut out, &msg.image_path);
        } else {
            push_present(&mut out, &msg.image_path, Check::Exists);
        }
    } else if !for_viewer {
        push_present(&mut out, &msg.image_path, Check::Exists);
    }
    assert(cand_views(out@) =~= media_cands(*msg, for_viewer));
    proof {
        if upper_seq(msg.content_type@) != "AUDIO"@ && !(upper_seq(msg.content_type@) == "VIDEO"@
            && for_viewer) && msg.file_path is Some && !is_thumb_path(msg.file_path->0@) {
            lemma_attached_file_is_tried_first(*msg, for_viewer);
            assert(cand_views(out@)[0] == (out@[0].path@, out@[0].check));
        }
    }
    out
}

// ---------------------------------------------------------------------------
// The picture gallery of a conversation
// ---------------------------------------------------------------------------

/// A picture that the image viewer can page to.
pub struct ViewerMediaItem {
    pub path: String,
    pub content_type: String,
    pub name: String,
}

pub open spec fn item_view(i: ViewerMediaItem) -> (Seq<char>, Seq<char>, Seq<char>) {
    (i.path@, i.content_type@, i.name@)
}

pub open spec fn items_view(v: Seq<ViewerMediaItem>) -> Seq<(Seq<char>, Seq<char>, Seq<char>)> {
    v.map_values(|i: ViewerMediaItem| item_view(i))
}

/// A message whose content type is `image`, in any case.
pub open spec fn is_image_msg(m: MessageInfo) -> bool {
    lower_seq(m.content_type@) == "image"@
}

/// The image messages of `s`, in order.
pub open spec fn images_only(s: Seq<MessageInfo>) -> Seq<MessageInfo>
    decreases s.len(),
{
    if s.len() == 0 {
        s
    } else if is_image_msg(s.last()) {
        images_only(s.drop_last()).push(s.last())
    } else {
        images_only(s.drop_last())
    }
}

/// The image messages of a conversation, oldest first; the gallery pages
/// through them in this order.
pub fn gallery_messages(messages: Vec<MessageInfo>) -> (out: Vec<MessageInfo>)
    ensures
        out@ == sort_by_time_spec(images_only(messages@)),
{
    let ghost orig = messages@;
    let mut rest = messages;
    let mut kept: Vec<MessageInfo> = Vec::new();
    let n = rest.len();
    let mut i: usize = 0;
    assert(orig.take(0) =~= Seq::<MessageInfo>::empty());
    while i < n
        invariant
            n == orig.len(),
            i <= n,
            rest@ == orig.skip(i as int),
            kept@ == images_only(orig.take(i as int)),
        decreases n - i,
    {
        let m = rest.remove(0);
        assert(m == orig[i as int]);
        assert(rest@ =~= orig.skip(i + 1));
        assert(orig.take(i + 1).drop_last() =~= orig.take(i as int));
        assert(orig.take(i + 1).last() == m);
        let lower = ascii_lower(m.content_type.as_str());
        if chars_are(&lower, "image") {
            kept.push(m);
        }
        i = i + 1;
    }
    assert(orig.take(n as int) =~= orig);
    sort_by_time(kept)
}

/// What was found on disk for each gallery message: its media path and the
/// path's canonical form, which tells two names of one file apart.
pub open spec fn found_views(v: Seq<Option<(String, String)>>) -> Seq<Option<(Seq<char>, Seq<char>)>> {
    v.map_values(|o: Option<(String, String)>| match o {
        Some(f) => Some((f.0@, f.1@)),
        None => None,
    })
}

/// The gallery built from the first `n` messages: each file once, where it
/// first occurs, with the canonical paths taken so far.
pub open spec fn gallery_fold(
    msgs: Seq<MessageInfo>,
    found: Seq<Option<(Seq<char>, Seq<char>)>>,
    n: nat,
) -> (Seq<(Seq<char>, Seq<char>, Seq<char>)>, Seq<Seq<char>>)
    decreases n,
{
    if n == 0 {
        (Seq::empty(), Seq::empty())
    } else {
        let prev = gallery_fold(msgs, found, (n - 1) as nat);
        match found[n - 1] {
            Some(f) => if prev.1.contains(f.1) {
                prev
            } else {
                (prev.0.push((f.0, msgs[n - 1].content_type@, suggested_name(msgs[n - 1]))), prev.1.push(f.1))
            },
            None => prev,
        }
    }
}

/// The gallery lists each file once: no canonical path is taken twice, and
/// there is one picture per path taken.
pub proof fn lemma_gallery_lists_each_file_once(
    msgs: Seq<MessageInfo>,
    found: Seq<Option<(Seq<char>, Seq<char>)>>,
    n: nat,
)
    requires
        n <= msgs.len(),
        n <= found.len(),
    ensures
        gallery_fold(msgs, found, n).0.len() == gallery_fold(msgs, found, n).1.len(),
        forall|i: int, j: int|
            0 <= i < j < gallery_fold(msgs, found, n).1.len() ==> gallery_fold(msgs, found, n).1[i]
                != gallery_fold(msgs, found, n).1[j],
    decreases n,
{
    if n > 0 {
        lemma_gallery_lists_each_file_once(msgs, found, (n - 1) as nat);
        let prev = gallery_fold(msgs, found, (n - 1) as nat);
        if let Some(f) = found[n - 1] {
            if !prev.1.contains(f.1) {
                let keys = prev.1.push(f.1);
                assert forall|i: int, j: int| 0 <= i < j < keys.len() implies keys[i] != keys[j] by {
                    if j == keys.len() - 1 {
                        assert(keys[j] == f.1);
                        assert(keys[i] == prev.1[i]);
                    }
                }
            }
        }
    }
}

fn find_key(keys: &Vec<String>, key: &str) -> (r: Option<usize>)
    ensures
        match r {
            Some(j) => j < keys@.len() && keys@[j as int]@ == key@ && forall|t: int| 0 <= t < j ==> keys@[t]@ != key@,
            None => forall|t: int| 0 <= t < keys@.len() ==> keys@[t]@ != key@,
        },
{
    let mut j: usize = 0;
    while j < keys.len()
        invariant
            j <= keys@.len(),
            forall|t: int| 0 <= t < j ==> keys@[t]@ != key@,
        decreases keys@.len() - j,
    {
        if str_eq(keys[j].as_str(), key) {
            return Some(j);
        }
        j = j + 1;
    }
    None
}

/// The gallery of a conversation and the place of the picture being opened
/// (`current`, whose canonical path is `current_key`). `messages` are the
/// gallery messages and `found` what was found on disk for each. Each file
/// is listed once, where it first occurs; the opened picture is found by its
/// canonical path, and added at the end when it is not among them.
pub fn gallery_items(
    messages: &Vec<MessageInfo>,
    found: &Vec<Option<(String, String)>>,
    current: ViewerMediaItem,
    current_key: &str,
) -> (r: (Vec<ViewerMediaItem>, usize))
    requires
        messages@.len() == found@.len(),
    ensures
        ({
            let g = gallery_fold(messages@, found_views(found@), messages@.len());
            if g.1.contains(current_key@) {
                &&& items_view(r.0@) == g.0
                &&& r.1 < g.1.len()
                &&& g.1[r.1 as int] == current_key@
                &&& forall|t: int| 0 <= t < r.1 ==> g.1[t] != current_key@
            } else {
                &&& items_view(r.0@) == g.0.push(item_view(current))
                &&& r.1 == g.0.len()
            }
        }),
{
    let ghost fv = found_views(found@);
    let mut items: Vec<ViewerMediaItem> = Vec::new();
    let mut keys: Vec<String> = Vec::new();
    let mut current_index: Option<usize> = None;
    let mut i: usize = 0;
    assert(items_view(items@) =~= Seq::empty());
    assert(keys@.map_values(|k: String| k@) =~= Seq::<Seq<char>>::empty());
    while i < messages.len()
        invariant
            messages@.len() == found@.len(),
            fv == found_views(found@),
            i <= messages@.len(),
            items_view(items@) == gallery_fold(messages@, fv, i as nat).0,
            keys@.map_values(|k: String| k@) == gallery_fold(messages@, fv, i as nat).1,
            items@.len() == keys@.len(),
            match current_index {
                Some(j) => j < keys@.len() && keys@[j as int]@ == current_key@ && forall|t: int|
                    0 <= t < j ==> keys@[t]@ != current_key@,
                None => forall|t: int| 0 <= t < keys@.len() ==> keys@[t]@ != current_key@,
            },
        decreases messages@.len() - i,
    {
        let ghost kv = keys@.map_values(|k: String| k@);
        assert(fv[i as int] == match found@[i as int] {
            Some(f) => Some((f.0@, f.1@)),
            None => None::<(Seq<char>, Seq<char>)>,
        });
        if let Some((path, key)) = &found[i] {
            match find_key(&keys, key.as_str()) {
                Some(j) => {
                    assert(kv[j as int] == key@);
                    assert(kv.contains(key@));
                    if str_eq(key.as_str(), current_key) {
                        current_index = Some(j);
                    }
                },
                None => {
                    assert(!kv.contains(key@)) by {
                        if kv.contains(key@) {
                            let t = choose|t: int| 0 <= t < kv.len() && kv[t] == key@;
                            assert(keys@[t]@ == key@);
                        }
                    }
                    let index = keys.len();
                    let ghost iv = items_view(items@);
                    let item = ViewerMediaItem {
                        path: path.clone(),
                        content_type: messages[i].content_type.clone(),
                        name: crate::media::suggest_media_name(&messages[i]),
                    };
                    let ghost itv = item_view(item);
                    items.push(item);
                    assert(items_view(items@) =~= iv.push(itv));
                    keys.push(key.clone());
                    assert(keys@.map_values(|k: String| k@) =~= kv.push(key@));
                    if current_index.is_none() && str_eq(key.as_str(), current_key) {
                        current_index = Some(index);
                    }
                },
            }
        }
        i = i + 1;
    }
    let ghost g = gallery_fold(messages@, fv, messages@.len() as nat);
    let ghost kv = keys@.map_values(|k: String| k@);
    match current_index {
        Some(j) => {
            assert(kv[j as int] == current_key@);
            assert(g.1.contains(current_key@));
            assert forall|t: int| 0 <= t < j implies g.1[t] != current_key@ by {
                assert(kv[t] == keys@[t]@);
            }
            (items, j)
        },
        None => {
            assert(!g.1.contains(current_key@)) by {
                if g.1.contains(current_key@) {
                    let t = choose|t: int| 0 <= t < kv.len() && kv[t] == current_key@;
                    assert(keys@[t]@ == current_key@);
                }
            }
            let index = items.len();
            let ghost iv = items_view(items@);
            let ghost cv = item_view(current);
            items.push(current);
            assert(items_view(items@) =~= iv.push(cv));
            assert(iv.len() == items@.len() - 1);
            (items, index)
        },
    }
}

} // verus!
