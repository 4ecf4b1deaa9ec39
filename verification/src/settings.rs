//! Settings that are checked when loaded and saved: the choices of theme,
//! language and cache retention, the sidebar width, the mute deadline, the
//! pinned chats, and the download folders.

use vstd::prelude::*;
use crate::downloads::{join, join_path};
use crate::text::{
    ascii_upper, chars_of, is_ws, lemma_lex_asymmetric, lemma_lex_irreflexive, lemma_lex_total,
    lemma_lex_transitive, lex_lt, str_eq, str_lt, strip_both, to_owned_string, trim, upper_seq,
};

verus! {

// ---------------------------------------------------------------------------
// Choices
// ---------------------------------------------------------------------------

/// `system`, `dark` or `light`; anything else falls back to `system`.
pub open spec fn theme_spec(t: Seq<char>) -> Seq<char> {
    if t == "system"@ || t == "dark"@ || t == "light"@ {
        t
    } else {
        "system"@
    }
}

pub fn normalize_theme(theme: &str) -> (r: String)
    ensures
        r@ == theme_spec(theme@),
{
    if str_eq(theme, "system") || str_eq(theme, "dark") || str_eq(theme, "light") {
        to_owned_string(theme)
    } else {
        to_owned_string("system")
    }
}

/// `en` or `th`; anything else falls back to `en`.
pub open spec fn language_spec(l: Seq<char>) -> Seq<char> {
    if l == "en"@ || l == "th"@ {
        l
    } else {
        "en"@
    }
}

pub fn normalize_language(language: &str) -> (r: String)
    ensures
        r@ == language_spec(language@),
{
    if str_eq(language, "en") || str_eq(language, "th") {
        to_owned_string(language)
    } else {
        to_owned_string("en")
    }
}

/// `smart`, `day`, `week`, `month` or `forever`; anything else falls back to
/// `smart`.
pub open spec fn retention_spec(r: Seq<char>) -> Seq<char> {
    if r == "smart"@ || r == "day"@ || r == "week"@ || r == "month"@ || r == "forever"@ {
        r
    } else {
        "smart"@
    }
}

pub fn normalize_cache_retention(retention: &str) -> (r: String)
    ensures
        r@ == retention_spec(retention@),
{
    if str_eq(retention, "smart") || str_eq(retention, "day") || str_eq(retention, "week") || str_eq(
        retention,
        "month",
    ) || str_eq(retention, "forever") {
        to_owned_string(retention)
    } else {
        to_owned_string("smart")
    }
}

/// The sidebar is between 80 and 520 pixels wide.
pub open spec fn sidebar_width_spec(width: i32) -> i32 {
    if width < 80 {
        80
    } else if width > 520 {
        520
    } else {
        width
    }
}

pub fn clamp_sidebar_width(width: i32) -> (r: i32)
    ensures
        r == sidebar_width_spec(width),
{
    if width < 80 {
        80
    } else if width > 520 {
        520
    } else {
        width
    }
}

/// A mute deadline is never negative.
pub fn normalize_muted_until(until: i64) -> (r: i64)
    ensures
        r == (if until < 0 {
            0
        } else {
            until
        }),
{
    if until < 0 {
        0
    } else {
        until
    }
}

/// Normalizing a setting twice changes nothing more than normalizing it once:
/// the settings file keeps what was loaded.
pub proof fn lemma_choices_idempotent(theme: Seq<char>, language: Seq<char>, retention: Seq<char>)
    ensures
        theme_spec(theme_spec(theme)) == theme_spec(theme),
        language_spec(language_spec(language)) == language_spec(language),
        retention_spec(retention_spec(retention)) == retention_spec(retention),
{
}

/// Normalized settings are in range: a known theme, language and cache
/// retention, a sidebar width within 80..=520 and a mute deadline that is not
/// negative; values already in range are kept as they are.
pub proof fn lemma_normalized_settings_in_range(
    theme: Seq<char>,
    language: Seq<char>,
    retention: Seq<char>,
    width: i32,
    until: i64,
)
    ensures
        theme_spec(theme) == "system"@ || theme_spec(theme) == "dark"@ || theme_spec(theme) == "light"@,
        language_spec(language) == "en"@ || language_spec(language) == "th"@,
        retention_spec(retention) == "smart"@ || retention_spec(retention) == "day"@ || retention_spec(retention)
            == "week"@ || retention_spec(retention) == "month"@ || retention_spec(retention) == "forever"@,
        80 <= sidebar_width_spec(width) <= 520,
        80 <= width <= 520 ==> sidebar_width_spec(width) == width,
        (if until < 0 { 0 } else { until }) >= 0,
        theme == "system"@ || theme == "dark"@ || theme == "light"@ ==> theme_spec(theme) == theme,
        language == "en"@ || language == "th"@ ==> language_spec(language) == language,
        sidebar_width_spec(sidebar_width_spec(width)) == sidebar_width_spec(width),
{
}

// ---------------------------------------------------------------------------
// Pinned chats
// ---------------------------------------------------------------------------

pub open spec fn blank(s: Seq<char>) -> bool {
    strip_both(s, |c: char| is_ws(c)).len() == 0
}

pub open spec fn views(v: Seq<String>) -> Seq<Seq<char>> {
    v.map_values(|s: String| s@)
}

/// Each entry sorts before the next, in `String` order: sorted, no repeats.
pub open spec fn strictly_sorted(s: Seq<Seq<char>>) -> bool {
    forall|i: int, j: int| 0 <= i < j < s.len() ==> lex_lt(#[trigger] s[i], #[trigger] s[j])
}

/// The non-blank entries of `s`.
pub open spec fn kept(s: Seq<Seq<char>>, x: Seq<char>) -> bool {
    s.contains(x) && !blank(x)
}

/// Inserts `x` into the strictly sorted `out` unless it is there already.
fn insert_sorted_unique(out: &mut Vec<String>, x: String)
    requires
        strictly_sorted(views(old(out)@)),
    ensures
        strictly_sorted(views(final(out)@)),
        forall|y: Seq<char>| views(final(out)@).contains(y) <==> (views(old(out)@).contains(y) || y == x@),
{
    let ghost old_v = views(out@);
    let mut p: usize = 0;
    while p < out.len() && str_lt(out[p].as_str(), x.as_str())
        invariant
            old_v == views(out@),
            p <= out@.len(),
            forall|k: int| 0 <= k < p ==> lex_lt(#[trigger] old_v[k], x@),
        decreases out@.len() - p,
    {
        p = p + 1;
    }
    if p < out.len() && str_eq(out[p].as_str(), x.as_str()) {
        assert(old_v[p as int] == x@);
        return;
    }
    proof {
        if p < old_v.len() {
            lemma_lex_total(old_v[p as int], x@);
        }
    }
    let ghost xv = x@;
    out.insert(p, x);
    proof {
        let nv = views(out@);
        assert(nv =~= old_v.insert(p as int, xv));
        assert forall|i: int, j: int| 0 <= i < j < nv.len() implies lex_lt(#[trigger] nv[i], #[trigger] nv[j]) by {
            if j < p {
                assert(nv[i] == old_v[i] && nv[j] == old_v[j]);
            } else if j == p {
                assert(nv[i] == old_v[i]);
            } else if i == p {
                assert(nv[j] == old_v[j - 1]);
                if j - 1 > p {
                    lemma_lex_transitive(xv, old_v[p as int], old_v[j - 1]);
                }
            } else if i < p {
                assert(nv[i] == old_v[i] && nv[j] == old_v[j - 1]);
            } else {
                assert(nv[i] == old_v[i - 1] && nv[j] == old_v[j - 1]);
            }
        }
        assert forall|y: Seq<char>| nv.contains(y) <==> (old_v.contains(y) || y == xv) by {
            if nv.contains(y) {
                let k = choose|k: int| 0 <= k < nv.len() && nv[k] == y;
                if k < p {
                    assert(old_v[k] == y);
                } else if k > p {
                    assert(old_v[k - 1] == y);
                }
            }
            if old_v.contains(y) {
                let k = choose|k: int| 0 <= k < old_v.len() && old_v[k] == y;
                if k < p {
                    assert(nv[k] == y);
                } else {
                    assert(nv[k + 1] == y);
                }
            }
            if y == xv {
                assert(nv[p as int] == y);
            }
        }
    }
}

/// The pinned chats as saved: blank entries dropped, sorted, no repeats.
pub fn normalize_pinned(pinned: &Vec<String>) -> (r: Vec<String>)
    ensures
        strictly_sorted(views(r@)),
        forall|x: Seq<char>| views(r@).contains(x) <==> kept(views(pinned@), x),
{
    let mut out: Vec<String> = Vec::new();
    let mut i: usize = 0;
    while i < pinned.len()
        invariant
            i <= pinned@.len(),
            strictly_sorted(views(out@)),
            forall|x: Seq<char>| views(out@).contains(x) <==> kept(views(pinned@.take(i as int)), x),
        decreases pinned@.len() - i,
    {
        let t = trim(pinned[i].as_str());
        let ghost before = views(out@);
        if !t.as_str().is_empty() {
            insert_sorted_unique(&mut out, pinned[i].clone());
        }
        proof {
            let pv = views(pinned@.take(i + 1));
            let pv0 = views(pinned@.take(i as int));
            assert(pv =~= pv0.push(pinned@[i as int]@));
            assert forall|x: Seq<char>| views(out@).contains(x) <==> kept(pv, x) by {
                if pv.contains(x) && x != pinned@[i as int]@ {
                    let k = choose|k: int| 0 <= k < pv.len() && pv[k] == x;
                    assert(pv0[k] == x);
                }
                if pv0.contains(x) {
                    let k = choose|k: int| 0 <= k < pv0.len() && pv0[k] == x;
                    assert(pv[k] == x);
                }
                if x == pinned@[i as int]@ {
                    assert(pv[i as int] == x);
                }
            }
        }
        i = i + 1;
    }
    assert(pinned@.take(pinned@.len() as int) =~= pinned@);
    out
}

/// Two strictly sorted lists with the same entries are the same list.
pub proof fn lemma_sorted_same_entries(a: Seq<Seq<char>>, b: Seq<Seq<char>>)
    requires
        strictly_sorted(a),
        strictly_sorted(b),
        forall|x: Seq<char>| a.contains(x) <==> b.contains(x),
    ensures
        a == b,
    decreases a.len(),
{
    if a.len() == 0 {
        if b.len() > 0 {
            assert(b.contains(b[0]));
        }
        assert(b =~= a);
    } else if b.len() == 0 {
        assert(a.contains(a[0]));
    } else {
        assert(a.contains(a[0]));
        assert(b.contains(b[0]));
        let i = choose|i: int| 0 <= i < b.len() && b[i] == a[0];
        let j = choose|j: int| 0 <= j < a.len() && a[j] == b[0];
        if i > 0 {
            assert(lex_lt(b[0], b[i]));
            if j > 0 {
                assert(lex_lt(a[0], a[j]));
                lemma_lex_asymmetric(a[0], b[0]);
            } else {
                lemma_lex_irreflexive(a[0]);
            }
        }
        assert(a[0] == b[0]);
        let ta = a.drop_first();
        let tb = b.drop_first();
        assert forall|x: Seq<char>| ta.contains(x) <==> tb.contains(x) by {
            if ta.contains(x) {
                let k = choose|k: int| 0 <= k < ta.len() && ta[k] == x;
                assert(a[k + 1] == x);
                assert(lex_lt(a[0], a[k + 1]));
                assert(a.contains(x));
                let m = choose|m: int| 0 <= m < b.len() && b[m] == x;
                if m == 0 {
                    lemma_lex_irreflexive(x);
                }
                assert(tb[m - 1] == x);
            }
            if tb.contains(x) {
                let k = choose|k: int| 0 <= k < tb.len() && tb[k] == x;
                assert(b[k + 1] == x);
                assert(lex_lt(b[0], b[k + 1]));
                assert(b.contains(x));
                let m = choose|m: int| 0 <= m < a.len() && a[m] == x;
                if m == 0 {
                    lemma_lex_irreflexive(x);
                }
                assert(ta[m - 1] == x);
            }
        }
        lemma_sorted_same_entries(ta, tb);
        assert(a =~= seq![a[0]] + ta);
        assert(b =~= seq![b[0]] + tb);
    }
}

/// A pinned list that is already normalized (sorted, no repeats, nothing
/// blank) comes out of normalizing unchanged.
pub proof fn lemma_normalized_pinned_is_fixed(v: Seq<Seq<char>>, r: Seq<Seq<char>>)
    requires
        strictly_sorted(v),
        forall|k: int| 0 <= k < v.len() ==> !blank(#[trigger] v[k]),
        strictly_sorted(r),
        forall|x: Seq<char>| r.contains(x) <==> kept(v, x),
    ensures
        r == v,
{
    assert forall|x: Seq<char>| r.contains(x) <==> v.contains(x) by {
        if v.contains(x) {
            let k = choose|k: int| 0 <= k < v.len() && v[k] == x;
            assert(!blank(v[k]));
        }
    }
    lemma_sorted_same_entries(r, v);
}

// ---------------------------------------------------------------------------
// Download folders
// ---------------------------------------------------------------------------

/// The folder setting a content type uses.
#[derive(Clone, Copy, Debug, PartialEq, Eq, Structural)]
pub enum DownloadKind {
    Image,
    Video,
    Audio,
    File,
}

/// Images and stickers share a folder; video and audio have their own;
/// everything else is a file.
pub open spec fn download_kind_spec(content_type: Seq<char>) -> DownloadKind {
    let ct = upper_seq(content_type);
    if ct == "IMAGE"@ || ct == "STICKER"@ {
        DownloadKind::Image
    } else if ct == "VIDEO"@ {
        DownloadKind::Video
    } else if ct == "AUDIO"@ {
        DownloadKind::Audio
    } else {
        DownloadKind::File
    }
}

pub fn download_kind(content_type: &str) -> (k: DownloadKind)
    ensures
        k == download_kind_spec(content_type@),
{
    let ct = ascii_upper(content_type);
    let s = crate::text::string_from_chars(ct.as_slice());
    if str_eq(s.as_str(), "IMAGE") || str_eq(s.as_str(), "STICKER") {
        DownloadKind::Image
    } else if str_eq(s.as_str(), "VIDEO") {
        DownloadKind::Video
    } else if str_eq(s.as_str(), "AUDIO") {
        DownloadKind::Audio
    } else {
        DownloadKind::File
    }
}

/// The configured download folder of each kind (empty: the system's).
pub struct DownloadDirs {
    pub image: String,
    pub video: String,
    pub audio: String,
    pub file: String,
}

impl DownloadDirs {
    pub open spec fn of(self, k: DownloadKind) -> Seq<char> {
        match k {
            DownloadKind::Image => self.image@,
            DownloadKind::Video => self.video@,
            DownloadKind::Audio => self.audio@,
            DownloadKind::File => self.file@,
        }
    }

    /// The configured folder for a content type.
    pub fn configured_for(&self, content_type: &str) -> (r: &String)
        ensures
            r@ == self.of(download_kind_spec(content_type@)),
    {
        match download_kind(content_type) {
            DownloadKind::Image => &self.image,
            DownloadKind::Video => &self.video,
            DownloadKind::Audio => &self.audio,
            DownloadKind::File => &self.file,
        }
    }

    /// Sets the folder of a content type's kind, leaving the others.
    pub fn set_download_dir_for(&mut self, content_type: &str, path: String)
        ensures
            forall|k: DownloadKind|
                #![trigger final(self).of(k)]
                final(self).of(k) == if k == download_kind_spec(content_type@) {
                    path@
                } else {
                    old(self).of(k)
                },
    {
        match download_kind(content_type) {
            DownloadKind::Image => self.image = path,
            DownloadKind::Video => self.video = path,
            DownloadKind::Audio => self.audio = path,
            DownloadKind::File => self.file = path,
        }
    }
}

/// `s` without any number of leading copies of `p` (`str::trim_start_matches`).
pub open spec fn trim_start_matches(s: Seq<char>, p: Seq<char>) -> Seq<char>
    decreases s.len(),
{
    if p.len() > 0 && p.len() <= s.len() && s.take(p.len() as int) == p {
        trim_start_matches(s.skip(p.len() as int), p)
    } else {
        s
    }
}

fn trim_start_exec(s: &Vec<char>, from: usize, p: &Vec<char>) -> (r: usize)
    requires
        from <= s@.len(),
        p@.len() > 0,
    ensures
        from <= r <= s@.len(),
        s@.skip(r as int) == trim_start_matches(s@.skip(from as int), p@),
{
    let mut i = from;
    while s.len() - i >= p.len() && crate::text::matches_at(s, p, i)
        invariant
            from <= i <= s@.len(),
            p@.len() > 0,
            trim_start_matches(s@.skip(from as int), p@) == trim_start_matches(s@.skip(i as int), p@),
        decreases s@.len() - i,
    {
        assert(s@.skip(i as int).take(p@.len() as int) =~= s@.subrange(i as int, i + p@.len()));
        assert(s@.skip(i as int).skip(p@.len() as int) =~= s@.skip(i + p@.len()));
        i = i + p.len();
    }
    proof {
        if s@.len() - i >= p@.len() {
            assert(s@.skip(i as int).take(p@.len() as int) =~= s@.subrange(i as int, i + p@.len()));
        }
    }
    i
}

/// Where files of a folder setting go: the system folder when blank; an
/// absolute path as it is; otherwise below the home folder (leading `~/` and
/// `/` removed), or as it is without a home folder.
pub open spec fn resolved_dir(configured: Seq<char>, home: Option<Seq<char>>, system: Seq<char>) -> Seq<char> {
    let t = strip_both(configured, |c: char| is_ws(c));
    if t.len() == 0 {
        system
    } else if t[0] == '/' {
        t
    } else {
        match home {
            Some(h) => join_path(h, trim_start_matches(trim_start_matches(t, "~/"@), "/"@)),
            None => t,
        }
    }
}

pub fn resolve_download_dir(configured: &str, home: Option<&str>, system: &str) -> (r: String)
    ensures
        r@ == resolved_dir(configured@, match home {
            Some(h) => Some(h@),
            None => None,
        }, system@),
{
    let t = trim(configured);
    let tv = chars_of(t.as_str());
    if tv.len() == 0 {
        return to_owned_string(system);
    }
    if tv[0] == '/' {
        return t;
    }
    match home {
        Some(h) => {
            let tilde = chars_of("~/");
            let slash = chars_of("/");
            proof {
                reveal_strlit("~/");
                reveal_strlit("/");
            }
            let a = trim_start_exec(&tv, 0, &tilde);
            let b = trim_start_exec(&tv, a, &slash);
            assert(tv@.skip(0) =~= tv@);
            let rest = crate::text::string_from_range(&tv, b, tv.len());
            assert(rest@ =~= tv@.skip(b as int));
            join(h, rest.as_str())
        },
        None => t,
    }
}

/// The system download folder: the platform's, else `Downloads` in the home
/// folder, else the working directory.
pub fn system_downloads_dir(platform: Option<&str>, home: Option<&str>) -> (r: String)
    ensures
        r@ == match platform {
            Some(p) => p@,
            None => match home {
                Some(h) => join_path(h@, "Downloads"@),
                None => "."@,
            },
        },
{
    match platform {
        Some(p) => to_owned_string(p),
        None => match home {
            Some(h) => join(h, "Downloads"),
            None => to_owned_string("."),
        },
    }
}

/// The settings file in the data folder.
pub fn settings_path(data_dir: &str) -> (r: String)
    ensures
        r@ == join_path(data_dir@, "settings.json"@),
{
    join(data_dir, "settings.json")
}

} // verus!
