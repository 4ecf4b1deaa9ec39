//! Safe file names and non-overwriting destinations for saved media.

use vstd::prelude::*;
use crate::text::{
    append_str, chars_of, decimal, is_cc, is_control, is_whitespace, is_ws, lemma_strip_end_at,
    lemma_strip_start_at, lemma_strip_both_chars, push_char, string_from_range, strip_both, to_owned_string, u64_to_string,
};

verus! {

/// A path separator, NUL or control character becomes `_`.
pub open spec fn sanitize_char(c: char) -> char {
    if c == '/' || c == '\\' || c == '\0' || is_cc(c) {
        '_'
    } else {
        c
    }
}

/// Characters removed from the ends: whitespace first, then dots.
pub open spec fn trim_pred(dots: bool, c: char) -> bool {
    if dots {
        c == '.'
    } else {
        is_ws(c)
    }
}

/// The mapped name with surrounding whitespace, then surrounding dots, removed.
pub open spec fn trimmed_name(s: Seq<char>) -> Seq<char> {
    let mapped = s.map_values(|c: char| sanitize_char(c));
    strip_both(strip_both(mapped, |c: char| trim_pred(false, c)), |c: char| trim_pred(true, c))
}

/// What `sanitize_filename` returns for `s`.
pub open spec fn sanitized_name(s: Seq<char>) -> Seq<char> {
    let t = trimmed_name(s);
    if t.len() == 0 || t == seq!['.'] || t == seq!['.', '.'] {
        "download.bin"@
    } else {
        t
    }
}

/// A character that may stand in a file name created by the library.
pub open spec fn plain_name_char(c: char) -> bool {
    c != '/' && c != '\\' && c != '\0' && !is_cc(c)
}

/// A sanitized name is a plain file name: never empty, never `.` or `..`,
/// and free of path separators, NUL and control characters, so it cannot
/// leave the folder it is saved in.
pub proof fn lemma_sanitized_name_is_plain(s: Seq<char>)
    ensures
        ({
            let n = sanitized_name(s);
            &&& n.len() > 0
            &&& n != seq!['.']
            &&& n != seq!['.', '.']
            &&& forall|k: int| 0 <= k < n.len() ==> plain_name_char(#[trigger] n[k])
        }),
{
    let mapped = s.map_values(|c: char| sanitize_char(c));
    let a = strip_both(mapped, |c: char| trim_pred(false, c));
    let t = trimmed_name(s);
    if t.len() == 0 || t == seq!['.'] || t == seq!['.', '.'] {
        reveal_strlit("download.bin");
        let n = "download.bin"@;
        assert(n.len() == 12);
        assert forall|k: int| 0 <= k < n.len() implies plain_name_char(#[trigger] n[k]) by {
        }
        assert(n[1] != '.');
    } else {
        lemma_strip_both_chars(mapped, |c: char| trim_pred(false, c));
        lemma_strip_both_chars(a, |c: char| trim_pred(true, c));
        assert forall|k: int| 0 <= k < t.len() implies plain_name_char(#[trigger] t[k]) by {
            let c = t[k];
            assert(a.contains(c));
            let i = choose|i: int| 0 <= i < a.len() && a[i] == c;
            assert(mapped.contains(a[i]));
            let j = choose|j: int| 0 <= j < mapped.len() && mapped[j] == c;
            assert(mapped[j] == sanitize_char(s[j]));
        }
    }
}

fn map_unsafe_chars(src: &Vec<char>) -> (mapped: Vec<char>)
    ensures
        mapped@ == src@.map_values(|c: char| sanitize_char(c)),
{
    let mut mapped: Vec<char> = Vec::new();
    let mut i: usize = 0;
    while i < src.len()
        invariant
            i <= src@.len(),
            mapped@ == src@.take(i as int).map_values(|c: char| sanitize_char(c)),
        decreases src@.len() - i,
    {
        let c = src[i];
        let d = if c == '/' || c == '\\' || c == '\0' || is_control(c) {
            '_'
        } else {
            c
        };
        mapped.push(d);
        i = i + 1;
        assert(mapped@ =~= src@.take(i as int).map_values(|c: char| sanitize_char(c)));
    }
    assert(src@.take(src@.len() as int) =~= src@);
    mapped
}

fn trims(dots: bool, c: char) -> (r: bool)
    ensures
        r == trim_pred(dots, c),
{
    if dots {
        c == '.'
    } else {
        is_whitespace(c)
    }
}

/// The bounds of `v[from..to]` with both ends stripped.
fn trim_range(v: &Vec<char>, from: usize, to: usize, dots: bool) -> (r: (usize, usize))
    requires
        from <= to <= v@.len(),
    ensures
        from <= r.0 <= r.1 <= to,
        strip_both(v@.subrange(from as int, to as int), |c: char| trim_pred(dots, c))
            == v@.subrange(r.0 as int, r.1 as int),
{
    let ghost p = |c: char| trim_pred(dots, c);
    let ghost s = v@.subrange(from as int, to as int);
    let mut a: usize = from;
    while a < to && trims(dots, v[a])
        invariant
            from <= a <= to <= v@.len(),
            forall|k: int| from <= k < a ==> trim_pred(dots, #[trigger] v@[k]),
        decreases to - a,
    {
        a = a + 1;
    }
    proof {
        assert forall|k: int| 0 <= k < a - from implies p(#[trigger] s[k]) by {
            assert(s[k] == v@[from + k]);
        }
        if a < to {
            assert(s[a - from] == v@[a as int]);
        }
        lemma_strip_start_at(s, p, a - from);
        assert(s.subrange(a - from, s.len() as int) =~= v@.subrange(a as int, to as int));
    }
    let ghost s1 = v@.subrange(a as int, to as int);
    let mut b: usize = to;
    while b > a && trims(dots, v[b - 1])
        invariant
            from <= a <= b <= to <= v@.len(),
            forall|k: int| b <= k < to ==> trim_pred(dots, #[trigger] v@[k]),
        decreases b - a,
    {
        b = b - 1;
    }
    proof {
        assert forall|k: int| b - a <= k < s1.len() implies p(#[trigger] s1[k]) by {
            assert(s1[k] == v@[a + k]);
        }
        if b > a {
            assert(s1[b - a - 1] == v@[b - 1]);
        }
        lemma_strip_end_at(s1, p, b - a);
        assert(s1.subrange(0, b - a) =~= v@.subrange(a as int, b as int));
    }
    (a, b)
}

/// A file name safe to create inside a download folder: separators and
/// control characters become `_`, surrounding whitespace and dots go, and an
/// empty result falls back to `download.bin`.
pub fn sanitize_filename(suggested_name: &str) -> (out: String)
    ensures
        out@ == sanitized_name(suggested_name@),
{
    let src = chars_of(suggested_name);
    let mapped = map_unsafe_chars(&src);
    let n = mapped.len();
    assert(mapped@.subrange(0, n as int) =~= mapped@);
    let (a, b) = trim_range(&mapped, 0, n, false);
    let (c0, d0) = trim_range(&mapped, a, b, true);
    let len = d0 - c0;
    let is_dots = (len == 1 && mapped[c0] == '.') || (len == 2 && mapped[c0] == '.' && mapped[c0
        + 1] == '.');
    proof {
        let t = mapped@.subrange(c0 as int, d0 as int);
        if len == 1 && mapped@[c0 as int] == '.' {
            assert(t =~= seq!['.']);
        }
        if len == 2 && mapped@[c0 as int] == '.' && mapped@[c0 + 1] == '.' {
            assert(t =~= seq!['.', '.']);
        }
        if t == seq!['.'] {
            assert(t[0] == '.');
        }
        if t == seq!['.', '.'] {
            assert(t[0] == '.' && t[1] == '.');
        }
    }
    if len == 0 || is_dots {
        to_owned_string("download.bin")
    } else {
        string_from_range(&mapped, c0, d0)
    }
}

// ---------------------------------------------------------------------------
// Paths
// ---------------------------------------------------------------------------

/// `Path::join` on Unix: an absolute `name` replaces `dir`; otherwise a `/` is
/// put between them unless `dir` is empty or already ends with one.
pub open spec fn join_path(dir: Seq<char>, name: Seq<char>) -> Seq<char> {
    if name.len() > 0 && name[0] == '/' {
        name
    } else if dir.len() == 0 || dir.last() == '/' {
        dir + name
    } else {
        dir + seq!['/'] + name
    }
}

pub fn join(dir: &str, name: &str) -> (out: String)
    ensures
        out@ == join_path(dir@, name@),
{
    let d = chars_of(dir);
    let n = chars_of(name);
    if n.len() > 0 && n[0] == '/' {
        return to_owned_string(name);
    }
    let mut out = to_owned_string(dir);
    if !(d.len() == 0 || d[d.len() - 1] == '/') {
        push_char(&mut out, '/');
    }
    append_str(&mut out, name);
    out
}

/// Index of the last `.` in `s`, if any.
pub open spec fn last_dot(s: Seq<char>) -> Option<int>
    decreases s.len(),
{
    if s.len() == 0 {
        None
    } else if s.last() == '.' {
        Some(s.len() - 1)
    } else {
        last_dot(s.drop_last())
    }
}

/// `Path::file_stem` and `Path::extension` of a file name without `/`:
/// split at the last dot unless the name is `..` or the dot is the first
/// character.
pub open spec fn split_extension(name: Seq<char>) -> (Seq<char>, Option<Seq<char>>) {
    if name == seq!['.', '.'] {
        (name, None)
    } else {
        match last_dot(name) {
            Some(i) => if i == 0 {
                (name, None)
            } else {
                (name.subrange(0, i), Some(name.subrange(i + 1, name.len() as int)))
            },
            None => (name, None),
        }
    }
}

proof fn lemma_last_dot(s: Seq<char>, i: int)
    requires
        -1 <= i < s.len(),
        forall|k: int| i < k < s.len() ==> #[trigger] s[k] != '.',
        i == -1 || s[i] == '.',
    ensures
        last_dot(s) == (if i == -1 {
            None::<int>
        } else {
            Some(i)
        }),
    decreases s.len(),
{
    if s.len() > 0 && i < s.len() - 1 {
        let t = s.drop_last();
        assert forall|k: int| i < k < t.len() implies #[trigger] t[k] != '.' by {
            assert(t[k] == s[k]);
        }
        if i >= 0 {
            assert(t[i] == s[i]);
        }
        lemma_last_dot(t, i);
    }
}

/// Stem and extension (with its leading dot, or empty) of a file name.
pub fn stem_and_extension(name: &Vec<char>) -> (out: (String, String))
    ensures
        out.0@ == split_extension(name@).0,
        out.1@ == (match split_extension(name@).1 {
            Some(e) => seq!['.'] + e,
            None => Seq::empty(),
        }),
{
    let n = name.len();
    let mut i: usize = n;
    while i > 0 && name[i - 1] != '.'
        invariant
            i <= n == name@.len(),
            forall|k: int| i <= k < n ==> #[trigger] name@[k] != '.',
        decreases i,
    {
        i = i - 1;
    }
    proof {
        lemma_last_dot(name@, i - 1);
    }
    let is_dotdot = n == 2 && name[0] == '.' && name[1] == '.';
    proof {
        if is_dotdot {
            assert(name@ =~= seq!['.', '.']);
        }
        if name@ == seq!['.', '.'] {
            assert(name@[0] == '.' && name@[1] == '.');
        }
    }
    if is_dotdot || i <= 1 {
        assert(name@.subrange(0, n as int) =~= name@);
        (string_from_range(name, 0, n), String::new())
    } else {
        let stem = string_from_range(name, 0, i - 1);
        let ext = string_from_range(name, i - 1, n);
        assert(ext@ =~= seq!['.'] + name@.subrange(i as int, n as int));
        (stem, ext)
    }
}

// ---------------------------------------------------------------------------
// Destinations
// ---------------------------------------------------------------------------

/// The highest numbered alternative tried before falling back to `-dup`.
pub const MAX_SEQUENCE: u64 = 9999;

/// The `k`-th destination `unique_download_dest` considers: the sanitized
/// name itself (`k == 0`), `stem-k.ext` (`1 <= k <= 9999`), or `stem-dup.ext`.
pub open spec fn download_candidate(dir: Seq<char>, suggested: Seq<char>, k: nat) -> Seq<char> {
    let safe = sanitized_name(suggested);
    let parts = split_extension(safe);
    let ext = match parts.1 {
        Some(e) => seq!['.'] + e,
        None => Seq::empty(),
    };
    if k == 0 {
        join_path(dir, safe)
    } else if k <= MAX_SEQUENCE {
        join_path(dir, parts.0 + seq!['-'] + decimal(k) + ext)
    } else {
        join_path(dir, parts.0 + "-dup"@ + ext)
    }
}

/// Whether something exists at `path` (`Path::exists`). This reads the file
/// system: two calls on one path may answer differently, so nothing is
/// promised about the answer.
#[verifier::external_body]
fn path_exists(path: &str) -> (r: bool) {
    std::path::Path::new(path).exists()
}

/// The `k`-th candidate destination for `suggested_name` in `dir`.
pub fn download_candidate_path(dir: &str, suggested_name: &str, k: u64) -> (out: String)
    requires
        k <= MAX_SEQUENCE + 1,
    ensures
        out@ == download_candidate(dir@, suggested_name@, k as nat),
{
    let safe = sanitize_filename(suggested_name);
    if k == 0 {
        return join(dir, safe.as_str());
    }
    let safe_chars = chars_of(safe.as_str());
    let (stem, ext) = stem_and_extension(&safe_chars);
    let mut name = stem;
    if k <= MAX_SEQUENCE {
        push_char(&mut name, '-');
        let digits = u64_to_string(k);
        append_str(&mut name, digits.as_str());
    } else {
        append_str(&mut name, "-dup");
    }
    append_str(&mut name, ext.as_str());
    join(dir, name.as_str())
}

/// The first candidate that the answers `taken` report free: answer `j`
/// tells whether candidate `j` exists; a candidate past the answers counts
/// as free.
pub open spec fn first_free_spec(taken: Seq<bool>) -> nat
    decreases taken.len(),
{
    if taken.len() == 0 || !taken[0] {
        0
    } else {
        1 + first_free_spec(taken.drop_first())
    }
}

proof fn lemma_first_free_at(taken: Seq<bool>, k: int)
    requires
        0 <= k <= taken.len(),
        forall|j: int| 0 <= j < k ==> taken[j],
        k == taken.len() || !taken[k],
    ensures
        first_free_spec(taken) == k,
    decreases k,
{
    if k > 0 {
        let t = taken.drop_first();
        assert forall|j: int| 0 <= j < k - 1 implies t[j] by {
            assert(t[j] == taken[j + 1]);
        }
        if k < taken.len() {
            assert(t[k - 1] == taken[k]);
        }
        lemma_first_free_at(t, k - 1);
    }
}

/// The index of the first candidate that the answers report free: every
/// candidate before it exists.
pub fn first_free_candidate(taken: &Vec<bool>) -> (k: u64)
    requires
        taken@.len() <= MAX_SEQUENCE + 1,
    ensures
        k == first_free_spec(taken@),
        k <= taken@.len(),
        forall|j: int| 0 <= j < k ==> taken@[j],
        k < taken@.len() ==> !taken@[k as int],
{
    let mut k: usize = 0;
    while k < taken.len() && taken[k]
        invariant
            k <= taken@.len(),
            forall|j: int| 0 <= j < k ==> taken@[j],
        decreases taken@.len() - k,
    {
        k = k + 1;
    }
    proof {
        lemma_first_free_at(taken@, k as int);
    }
    k as u64
}

/// The destination that the answers `taken` pick for `suggested_name` in
/// `dir`: the first candidate they report free, `stem-dup.ext` when all ten
/// thousand are taken.
pub fn pick_download_dest(dir: &str, suggested_name: &str, taken: &Vec<bool>) -> (out: String)
    requires
        taken@.len() <= MAX_SEQUENCE + 1,
    ensures
        out@ == download_candidate(dir@, suggested_name@, first_free_spec(taken@)),
{
    let k = first_free_candidate(taken);
    download_candidate_path(dir, suggested_name, k)
}

/// `out` is what a run of answers `taken` picks: every candidate asked about
/// but the last exists, the last asked about is free unless all ten thousand
/// were asked, and `out` is the candidate the answers pick.
pub open spec fn answers_pick(taken: Seq<bool>, dir: Seq<char>, suggested: Seq<char>, out: Seq<char>) -> bool {
    &&& taken.len() <= MAX_SEQUENCE + 1
    &&& forall|j: int| 0 <= j < taken.len() - 1 ==> taken[j]
    &&& taken.len() < MAX_SEQUENCE + 1 ==> taken.len() > 0 && !taken.last()
    &&& out == download_candidate(dir, suggested, first_free_spec(taken))
}

/// The destination a run of answers picks is one the answers report free,
/// the first such, unless all ten thousand candidates exist.
pub proof fn lemma_pick_is_first_free(taken: Seq<bool>, dir: Seq<char>, suggested: Seq<char>, out: Seq<char>)
    requires
        answers_pick(taken, dir, suggested, out),
        taken.len() < MAX_SEQUENCE + 1,
    ensures
        first_free_spec(taken) == taken.len() - 1,
        !taken[first_free_spec(taken) as int],
        forall|j: int| 0 <= j < first_free_spec(taken) ==> taken[j],
{
    lemma_first_free_at(taken, taken.len() - 1);
}

/// A destination in `dir` for a file suggested as `suggested_name` that does
/// not exist yet: the sanitized name, else `stem-1.ext` … `stem-9999.ext`,
/// else `stem-dup.ext`. The candidates are asked about in order until one is
/// free, and the answers pick the destination (`pick_download_dest`). The
/// answers come from the file system, which the contract cannot name: it
/// says that the result is what some such run of answers picks.
pub fn unique_download_dest(dir: &str, suggested_name: &str) -> (out: String)
    ensures
        exists|taken: Seq<bool>| #[trigger] answers_pick(taken, dir@, suggested_name@, out@),
{
    let mut taken: Vec<bool> = Vec::new();
    let mut k: u64 = 0;
    while k <= MAX_SEQUENCE
        invariant
            k <= MAX_SEQUENCE + 1,
            taken@.len() == k,
            forall|j: int| 0 <= j < k ==> taken@[j],
        decreases MAX_SEQUENCE + 1 - k,
    {
        let candidate = download_candidate_path(dir, suggested_name, k);
        let exists_now = path_exists(candidate.as_str());
        let ghost before = taken@;
        taken.push(exists_now);
        if !exists_now {
            let out = pick_download_dest(dir, suggested_name, &taken);
            proof {
                let t = taken@;
                assert forall|j: int| 0 <= j < t.len() - 1 implies t[j] by {
                    assert(t[j] == before[j]);
                }
                assert(t.len() > 0 && !t.last());
                assert(answers_pick(t, dir@, suggested_name@, out@));
            }
            return out;
        }
        k = k + 1;
    }
    let out = pick_download_dest(dir, suggested_name, &taken);
    proof {
        assert(answers_pick(taken@, dir@, suggested_name@, out@));
    }
    out
}

} // verus!
