//! Translations: a table from keys to texts read from a JSON language file,
//! lookups that fall back to the key, and `{name}` placeholders.

use vstd::prelude::*;
use crate::downloads::{join, join_path};
use crate::text::{append_str, chars_of, matches_at, occurs_at, push_char, str_eq, to_owned_string};

verus! {

// ---------------------------------------------------------------------------
// Reading a language file
// ---------------------------------------------------------------------------

/// The members of the JSON object in `raw`, in the order `serde_json` keeps
/// them, each with its text when the value is a string; `None` when `raw` is
/// not a JSON object.
pub uninterp spec fn json_members(raw: Seq<char>) -> Option<Seq<(Seq<char>, Option<Seq<char>>)>>;

pub open spec fn member_view(m: (String, Option<String>)) -> (Seq<char>, Option<Seq<char>>) {
    (m.0@, match m.1 {
        Some(s) => Some(s@),
        None => None,
    })
}

pub open spec fn keys_distinct<V>(s: Seq<(Seq<char>, V)>) -> bool {
    forall|i: int, j: int| 0 <= i < j < s.len() ==> s[i].0 != s[j].0
}

/// `serde_json::from_str::<Value>`, then `Value::as_object`, each member with
/// `Value::as_str` of its value. A JSON object has no key twice.
#[verifier::external_body]
fn json_object_members(raw: &str) -> (r: Option<Vec<(String, Option<String>)>>)
    ensures
        match r {
            Some(v) => json_members(raw@) == Some(v@.map_values(|m: (String, Option<String>)| member_view(m)))
                && keys_distinct(v@.map_values(|m: (String, Option<String>)| member_view(m))),
            None => json_members(raw@) is None,
        },
{
    let value: serde_json::Value = match serde_json::from_str(raw) {
        Ok(v) => v,
        Err(_) => return None,
    };
    value.as_object().map(
        |obj| obj.iter().map(|(k, v)| (k.clone(), v.as_str().map(|s| s.to_string()))).collect(),
    )
}

/// The string members of a JSON object, in order.
pub open spec fn string_members(ms: Seq<(Seq<char>, Option<Seq<char>>)>) -> Seq<(Seq<char>, Seq<char>)>
    decreases ms.len(),
{
    if ms.len() == 0 {
        Seq::empty()
    } else {
        let prev = string_members(ms.drop_last());
        match ms.last().1 {
            Some(t) => prev.push((ms.last().0, t)),
            None => prev,
        }
    }
}

/// The table of a language file: its string members, `None` when the text is
/// not a JSON object.
pub open spec fn table_of(raw: Seq<char>) -> Option<Seq<(Seq<char>, Seq<char>)>> {
    match json_members(raw) {
        Some(ms) => Some(string_members(ms)),
        None => None,
    }
}

proof fn lemma_string_members_keys(ms: Seq<(Seq<char>, Option<Seq<char>>)>)
    ensures
        forall|k: int|
            0 <= k < string_members(ms).len() ==> exists|j: int|
                0 <= j < ms.len() && #[trigger] string_members(ms)[k].0 == ms[j].0,
        keys_distinct(ms) ==> keys_distinct(string_members(ms)),
    decreases ms.len(),
{
    if ms.len() > 0 {
        let prev = ms.drop_last();
        lemma_string_members_keys(prev);
        let sp = string_members(prev);
        let s = string_members(ms);
        assert forall|k: int| 0 <= k < s.len() implies exists|j: int|
            0 <= j < ms.len() && #[trigger] s[k].0 == ms[j].0 by {
            if k < sp.len() {
                let j = choose|j: int| 0 <= j < prev.len() && sp[k].0 == prev[j].0;
                assert(ms[j] == prev[j]);
            } else {
                assert(s[k].0 == ms[ms.len() - 1].0);
            }
        }
        if keys_distinct(ms) {
            assert(keys_distinct(prev)) by {
                assert forall|a: int, b: int| 0 <= a < b < prev.len() implies prev[a].0 != prev[b].0 by {
                    assert(prev[a] == ms[a] && prev[b] == ms[b]);
                }
            }
            assert forall|a: int, b: int| 0 <= a < b < s.len() implies s[a].0 != s[b].0 by {
                if b >= sp.len() {
                    let j = choose|j: int| 0 <= j < prev.len() && sp[a].0 == prev[j].0;
                    assert(prev[j] == ms[j]);
                }
            }
        }
    }
}

fn read_table(raw: &str) -> (r: Option<Vec<(String, String)>>)
    ensures
        match r {
            Some(v) => table_of(raw@) == Some(v@.map_values(|e: (String, String)| (e.0@, e.1@))) && keys_distinct(
                v@.map_values(|e: (String, String)| (e.0@, e.1@)),
            ),
            None => table_of(raw@) is None,
        },
{
    let members = match json_object_members(raw) {
        Some(m) => m,
        None => return None,
    };
    let ghost mv = members@.map_values(|m: (String, Option<String>)| member_view(m));
    let mut out: Vec<(String, String)> = Vec::new();
    let mut i: usize = 0;
    while i < members.len()
        invariant
            i <= members@.len(),
            mv == members@.map_values(|m: (String, Option<String>)| member_view(m)),
            out@.map_values(|e: (String, String)| (e.0@, e.1@)) == string_members(mv.take(i as int)),
        decreases members@.len() - i,
    {
        assert(mv.take(i + 1).drop_last() =~= mv.take(i as int));
        let (k, v) = &members[i];
        match v {
            Some(t) => {
                out.push((k.clone(), t.clone()));
                assert(out@.map_values(|e: (String, String)| (e.0@, e.1@)) =~= string_members(mv.take(i as int)).push((k@, t@)));
            },
            None => {},
        }
        i = i + 1;
    }
    assert(mv.take(mv.len() as int) =~= mv);
    proof {
        lemma_string_members_keys(mv);
    }
    Some(out)
}

// ---------------------------------------------------------------------------
// The table
// ---------------------------------------------------------------------------

/// Translations by key.
#[derive(Clone)]
pub struct I18n {
    entries: Vec<(String, String)>,
}

/// The map a list of distinct-keyed entries stands for.
pub open spec fn entries_map(s: Seq<(Seq<char>, Seq<char>)>) -> Map<Seq<char>, Seq<char>> {
    Map::new(
        |k: Seq<char>| exists|i: int| 0 <= i < s.len() && #[trigger] s[i].0 == k,
        |k: Seq<char>| s[choose|i: int| 0 <= i < s.len() && #[trigger] s[i].0 == k].1,
    )
}

impl I18n {
    pub closed spec fn pairs(&self) -> Seq<(Seq<char>, Seq<char>)> {
        self.entries@.map_values(|e: (String, String)| (e.0@, e.1@))
    }

    /// No key occurs twice.
    pub closed spec fn wf(&self) -> bool {
        keys_distinct(self.pairs())
    }

    /// The translations, key to text.
    pub closed spec fn table(&self) -> Map<Seq<char>, Seq<char>> {
        entries_map(self.pairs())
    }

    /// An empty table: every lookup gives back its key.
    pub fn empty() -> (r: I18n)
        ensures
            r.wf(),
            r.table() == Map::<Seq<char>, Seq<char>>::empty(),
    {
        let r = I18n { entries: Vec::new() };
        assert(r.table() =~= Map::<Seq<char>, Seq<char>>::empty());
        r
    }

    /// The table of the chosen language file, `primary`; when that is missing
    /// or not a JSON object, the English one; when that fails too, an empty
    /// table. Only string members are kept.
    pub fn load(primary: Option<&str>, english: Option<&str>) -> (r: I18n)
        ensures
            r.wf(),
            r.table() == entries_map(loaded_pairs(
                match primary {
                    Some(p) => Some(p@),
                    None => None,
                },
                match english {
                    Some(e) => Some(e@),
                    None => None,
                },
            )),
    {
        let first = match primary {
            Some(p) => read_table(p),
            None => None,
        };
        let entries = match first {
            Some(t) => t,
            None => match english {
                Some(e) => match read_table(e) {
                    Some(t) => t,
                    None => Vec::new(),
                },
                None => Vec::new(),
            },
        };
        let r = I18n { entries };
        proof {
            if r.pairs().len() == 0 {
                assert(r.pairs() =~= Seq::<(Seq<char>, Seq<char>)>::empty());
            }
        }
        r
    }

    fn find(&self, key: &str) -> (r: Option<usize>)
        requires
            self.wf(),
        ensures
            match r {
                Some(i) => i < self.pairs().len() && self.pairs()[i as int].0 == key@,
                None => forall|i: int| 0 <= i < self.pairs().len() ==> #[trigger] self.pairs()[i].0 != key@,
            },
    {
        let mut i: usize = 0;
        while i < self.entries.len()
            invariant
                i <= self.entries@.len(),
                forall|j: int| 0 <= j < i ==> #[trigger] self.pairs()[j].0 != key@,
            decreases self.entries@.len() - i,
        {
            if str_eq(self.entries[i].0.as_str(), key) {
                return Some(i);
            }
            i = i + 1;
        }
        None
    }

    /// The text for `key`, or the key itself when the table lacks it.
    pub fn t(&self, key: &str) -> (s: String)
        requires
            self.wf(),
        ensures
            s@ == lookup(self.table(), key@),
    {
        match self.find(key) {
            Some(i) => {
                proof {
                    lemma_entries_map_at(self.pairs(), i as int);
                }
                self.entries[i].1.clone()
            },
            None => {
                assert(!self.table().contains_key(key@));
                to_owned_string(key)
            },
        }
    }

    /// The text for `key` with each `{name}` of `pairs`, in turn, replaced by
    /// its value.
    pub fn tf(&self, key: &str, pairs: &[(&str, &str)]) -> (s: String)
        requires
            self.wf(),
        ensures
            s@ == fill(lookup(self.table(), key@), pair_views(pairs@)),
    {
        let base = self.t(key);
        fill_placeholders(base, pairs)
    }
}

/// The table `load` builds from the two files' texts.
pub open spec fn loaded_pairs(primary: Option<Seq<char>>, english: Option<Seq<char>>) -> Seq<(Seq<char>, Seq<char>)> {
    let p = match primary {
        Some(raw) => table_of(raw),
        None => None,
    };
    match p {
        Some(t) => t,
        None => match english {
            Some(raw) => match table_of(raw) {
                Some(t) => t,
                None => Seq::empty(),
            },
            None => Seq::empty(),
        },
    }
}

/// The text for `key`, the key itself when missing.
pub open spec fn lookup(table: Map<Seq<char>, Seq<char>>, key: Seq<char>) -> Seq<char> {
    if table.contains_key(key) {
        table[key]
    } else {
        key
    }
}

proof fn lemma_entries_map_at(s: Seq<(Seq<char>, Seq<char>)>, i: int)
    requires
        keys_distinct(s),
        0 <= i < s.len(),
    ensures
        entries_map(s).contains_key(s[i].0),
        entries_map(s)[s[i].0] == s[i].1,
{
    let k = s[i].0;
    assert(exists|j: int| 0 <= j < s.len() && #[trigger] s[j].0 == k);
    let j = choose|j: int| 0 <= j < s.len() && #[trigger] s[j].0 == k;
    if j != i {
        if j < i {
            assert(s[j].0 != s[i].0);
        } else {
            assert(s[i].0 != s[j].0);
        }
    }
}

// ---------------------------------------------------------------------------
// Placeholders
// ---------------------------------------------------------------------------

/// `str::replace`: every match of the non-empty pattern `p`, left to right and
/// not overlapping, replaced by `r`.
pub open spec fn replace_spec(s: Seq<char>, p: Seq<char>, r: Seq<char>) -> Seq<char>
    decreases s.len(),
{
    if p.len() == 0 || s.len() < p.len() {
        s
    } else if s.subrange(0, p.len() as int) == p {
        r + replace_spec(s.skip(p.len() as int), p, r)
    } else {
        seq![s[0]] + replace_spec(s.skip(1), p, r)
    }
}

proof fn lemma_replace_short(s: Seq<char>, p: Seq<char>, r: Seq<char>)
    requires
        0 < s.len() < p.len(),
    ensures
        replace_spec(s, p, r) == seq![s[0]] + replace_spec(s.skip(1), p, r),
{
    assert(s =~= seq![s[0]] + s.skip(1));
}

/// Replaces every `pat` in `s` by `rep`.
pub fn replace_all(s: &str, pat: &str, rep: &str) -> (out: String)
    requires
        pat@.len() > 0,
    ensures
        out@ == replace_spec(s@, pat@, rep@),
{
    let sv = chars_of(s);
    let pv = chars_of(pat);
    let mut out = String::new();
    let mut i: usize = 0;
    assert(sv@.skip(0) =~= sv@);
    assert(out@ + sv@ =~= sv@);
    while i < sv.len()
        invariant
            sv@ == s@,
            pv@ == pat@,
            pv@.len() > 0,
            i <= sv@.len(),
            out@ + replace_spec(sv@.skip(i as int), pv@, rep@) == replace_spec(sv@, pv@, rep@),
        decreases sv@.len() - i,
    {
        let ghost rest = sv@.skip(i as int);
        if sv.len() - i >= pv.len() && matches_at(&sv, &pv, i) {
            proof {
                assert(rest.subrange(0, pv@.len() as int) =~= sv@.subrange(i as int, i + pv@.len()));
                assert(rest.skip(pv@.len() as int) =~= sv@.skip(i + pv@.len()));
                assert(out@ + rep@ + replace_spec(sv@.skip(i + pv@.len()), pv@, rep@) =~= out@ + (rep@
                    + replace_spec(rest.skip(pv@.len() as int), pv@, rep@)));
            }
            append_str(&mut out, rep);
            i = i + pv.len();
        } else {
            proof {
                if rest.len() < pv@.len() {
                    lemma_replace_short(rest, pv@, rep@);
                } else {
                    assert(rest.subrange(0, pv@.len() as int) =~= sv@.subrange(i as int, i + pv@.len()));
                }
                assert(rest.skip(1) =~= sv@.skip(i + 1));
                assert(out@.push(sv@[i as int]) + replace_spec(sv@.skip(i + 1), pv@, rep@) =~= out@ + (seq![
                    rest[0]] + replace_spec(rest.skip(1), pv@, rep@)));
            }
            push_char(&mut out, sv[i]);
            i = i + 1;
        }
    }
    assert(sv@.skip(i as int) =~= Seq::<char>::empty());
    assert(out@ + Seq::<char>::empty() =~= out@);
    out
}

/// Text without the pattern comes back unchanged.
pub proof fn lemma_replace_absent(s: Seq<char>, p: Seq<char>, r: Seq<char>)
    requires
        p.len() > 0,
        !crate::text::seq_contains(s, p),
    ensures
        replace_spec(s, p, r) == s,
    decreases s.len(),
{
    if s.len() >= p.len() {
        if s.subrange(0, p.len() as int) == p {
            assert(crate::text::occurs_at(s, p, 0));
        }
        let t = s.skip(1);
        if crate::text::seq_contains(t, p) {
            let i = choose|i: int| crate::text::occurs_at(t, p, i);
            assert(s.subrange(i + 1, i + 1 + p.len()) =~= t.subrange(i, i + p.len()));
            assert(crate::text::occurs_at(s, p, i + 1));
        }
        lemma_replace_absent(t, p, r);
        assert(s =~= seq![s[0]] + t);
    }
}

/// Filling no placeholders gives the plain translation.
pub proof fn lemma_translate_without_pairs(current: Option<I18n>, key: Seq<char>)
    ensures
        translate_with(current, key, Seq::empty()) == translate(current, key),
{
}

pub open spec fn pair_views(pairs: Seq<(&str, &str)>) -> Seq<(Seq<char>, Seq<char>)> {
    pairs.map_values(|p: (&str, &str)| (p.0@, p.1@))
}

/// `{name}` for a placeholder name.
pub open spec fn braced(name: Seq<char>) -> Seq<char> {
    seq!['{'] + name + seq!['}']
}

/// `text` with the placeholders of `pairs` filled in, first pair first.
pub open spec fn fill(text: Seq<char>, pairs: Seq<(Seq<char>, Seq<char>)>) -> Seq<char>
    decreases pairs.len(),
{
    if pairs.len() == 0 {
        text
    } else {
        replace_spec(fill(text, pairs.drop_last()), braced(pairs.last().0), pairs.last().1)
    }
}

fn fill_placeholders(text: String, pairs: &[(&str, &str)]) -> (s: String)
    ensures
        s@ == fill(text@, pair_views(pairs@)),
{
    let mut s = text;
    let mut i: usize = 0;
    while i < pairs.len()
        invariant
            i <= pairs@.len(),
            s@ == fill(text@, pair_views(pairs@).take(i as int)),
        decreases pairs@.len() - i,
    {
        let (k, v) = pairs[i];
        let mut pat = String::new();
        push_char(&mut pat, '{');
        append_str(&mut pat, k);
        push_char(&mut pat, '}');
        assert(pat@ =~= braced(k@));
        s = replace_all(s.as_str(), pat.as_str(), v);
        proof {
            let pv = pair_views(pairs@);
            assert(pv.take(i + 1).drop_last() =~= pv.take(i as int));
            assert(pv.take(i + 1).last() == (k@, v@));
        }
        i = i + 1;
    }
    assert(pair_views(pairs@).take(pairs@.len() as int) =~= pair_views(pairs@));
    s
}

// ---------------------------------------------------------------------------
// The current language
// ---------------------------------------------------------------------------

/// The language file for a language code: Thai for `th` and `thai`,
/// English otherwise.
pub open spec fn lang_file_spec(code: Seq<char>) -> Seq<char> {
    if code == "th"@ || code == "thai"@ {
        "thai.json"@
    } else {
        "eng.json"@
    }
}

pub fn lang_file(code: &str) -> (f: &'static str)
    ensures
        f@ == lang_file_spec(code@),
{
    if str_eq(code, "th") || str_eq(code, "thai") {
        "thai.json"
    } else {
        "eng.json"
    }
}

/// Where a language file lies below the application's root directory.
pub fn lang_path(repo_root: &str, file: &str) -> (p: String)
    ensures
        p@ == join_path(join_path(repo_root@, "assets/lang"@), file@),
{
    let dir = join(repo_root, "assets/lang");
    join(dir.as_str(), file)
}

/// Makes the table loaded from `primary` (or `english`) the current one.
pub fn set_lang(current: &mut Option<I18n>, primary: Option<&str>, english: Option<&str>)
    ensures
        *final(current) matches Some(t) && t.wf() && t.table() == entries_map(loaded_pairs(
            match primary {
                Some(p) => Some(p@),
                None => None,
            },
            match english {
                Some(e) => Some(e@),
                None => None,
            },
        )),
{
    *current = Some(I18n::load(primary, english));
}

/// The text for `key` in the current table, if one was loaded.
pub open spec fn translate(current: Option<I18n>, key: Seq<char>) -> Seq<char> {
    match current {
        Some(t) => lookup(t.table(), key),
        None => key,
    }
}

/// A current table, if any, has no key twice.
pub open spec fn current_wf(current: Option<I18n>) -> bool {
    current matches Some(t) ==> t.wf()
}

/// The text for `key` in the current table; the key itself when no table was
/// loaded or the table lacks it.
pub fn t(current: &Option<I18n>, key: &str) -> (s: String)
    requires
        current_wf(*current),
    ensures
        s@ == translate(*current, key@),
{
    match current {
        Some(table) => table.t(key),
        None => to_owned_string(key),
    }
}

/// The text for `key` in the current table with the placeholders of `pairs`
/// filled in; the bare key when no table was loaded.
pub open spec fn translate_with(current: Option<I18n>, key: Seq<char>, pairs: Seq<(Seq<char>, Seq<char>)>) -> Seq<char> {
    match current {
        Some(t) => fill(lookup(t.table(), key), pairs),
        None => key,
    }
}

/// `t` with placeholders filled in; with no table loaded, the key itself.
pub fn tf(current: &Option<I18n>, key: &str, pairs: &[(&str, &str)]) -> (s: String)
    requires
        current_wf(*current),
    ensures
        s@ == translate_with(*current, key@, pair_views(pairs@)),
{
    match current {
        Some(table) => table.tf(key, pairs),
        None => to_owned_string(key),
    }
}

} // verus!
