//! The friends list: index letters (Thai consonants, A–Z, `#`), ordering,
//! section headers and search filtering.

use vstd::prelude::*;
use crate::i18n::{current_wf, t, translate, I18n};
use crate::protocol::ChatInfo;
use crate::text::{
    chars_of, is_ascii_alpha, is_ascii_punct, is_ascii_punctuation, is_whitespace,
    is_ws, lemma_lex_asymmetric, lemma_lex_irreflexive, lemma_lex_transitive, lex_lt, push_char,
    seq_contains, str_contains, str_lt, to_lowercase, to_upper_char, unicode_lower, upper_char, ascii_lower,
    lower_seq, seq_eq, strip_both, trim,
};

verus! {

broadcast use vstd::seq_lib::group_to_multiset_ensures;

// ---------------------------------------------------------------------------
// Character classes
// ---------------------------------------------------------------------------

/// Thai block, U+0E00..U+0E7F.
pub open spec fn thai(c: char) -> bool {
    0x0E00 <= (c as u32) <= 0x0E7F
}

pub fn is_thai(ch: char) -> (r: bool)
    ensures
        r == thai(ch),
{
    0x0E00 <= (ch as u32) && (ch as u32) <= 0x0E7F
}

/// The 44 Thai consonants ก (U+0E01) … ฮ (U+0E2E), that is the range without
/// the vowels ฤ (U+0E24) and ฦ (U+0E26).
pub open spec fn thai_consonant(c: char) -> bool {
    let u = c as u32;
    0x0E01 <= u <= 0x0E2E && u != 0x0E24 && u != 0x0E26
}

pub fn is_thai_consonant(ch: char) -> (r: bool)
    ensures
        r == thai_consonant(ch),
{
    let u = ch as u32;
    0x0E01 <= u && u <= 0x0E2E && u != 0x0E24 && u != 0x0E26
}

/// Place of a consonant in the alphabet ก … ฮ.
pub open spec fn consonant_rank(c: char) -> u32 {
    let u = c as u32;
    if u > 0x0E26 {
        (u - 0x0E01 - 2) as u32
    } else if u > 0x0E24 {
        (u - 0x0E01 - 1) as u32
    } else {
        (u - 0x0E01) as u32
    }
}

/// Thai leading vowels เ แ โ ใ ไ (U+0E40..U+0E44), written before the
/// consonant they follow in speech.
pub open spec fn lead_vowel(c: char) -> bool {
    0x0E40 <= (c as u32) <= 0x0E44
}

pub fn is_lead_vowel(ch: char) -> (r: bool)
    ensures
        r == lead_vowel(ch),
{
    0x0E40 <= (ch as u32) && (ch as u32) <= 0x0E44
}

/// Emoji, dingbats, variation selectors, joiners and punctuation used to
/// decorate names.
pub open spec fn decorative(c: char) -> bool {
    let u = c as u32;
    (0x2600 <= u <= 0x27BF) || (0x1F300 <= u <= 0x1FAFF) || (0xFE00 <= u <= 0xFE0F) || u == 0x200D
        || u == 0x20E3 || u == 0x2022 || u == 0x00B7 || c == '|' || c == '~' || c == '-' || c
        == '_' || c == '.' || is_ascii_punct(c)
}

pub fn is_decorative(ch: char) -> (r: bool)
    ensures
        r == decorative(ch),
{
    let u = ch as u32;
    (0x2600 <= u && u <= 0x27BF) || (0x1F300 <= u && u <= 0x1FAFF) || (0xFE00 <= u && u <= 0xFE0F)
        || u == 0x200D || u == 0x20E3 || u == 0x2022 || u == 0x00B7 || ch == '|' || ch == '~' || ch
        == '-' || ch == '_' || ch == '.' || is_ascii_punctuation(ch)
}

// ---------------------------------------------------------------------------
// Index letters
// ---------------------------------------------------------------------------

/// First character that is neither whitespace nor decoration.
pub open spec fn first_significant(s: Seq<char>) -> Option<char>
    decreases s.len(),
{
    if s.len() == 0 {
        None
    } else if !is_ws(s[0]) && !decorative(s[0]) {
        Some(s[0])
    } else {
        first_significant(s.drop_first())
    }
}

/// First character that is not whitespace.
pub open spec fn first_non_ws(s: Seq<char>) -> Option<char>
    decreases s.len(),
{
    if s.len() == 0 {
        None
    } else if !is_ws(s[0]) {
        Some(s[0])
    } else {
        first_non_ws(s.drop_first())
    }
}

/// The character a name is indexed by: the first significant one, else the
/// first non-blank one.
pub open spec fn index_char(s: Seq<char>) -> Option<char> {
    match first_significant(s) {
        Some(c) => Some(c),
        None => first_non_ws(s),
    }
}

pub fn first_index_char(name: &str) -> (r: Option<char>)
    ensures
        r == index_char(name@),
{
    let v = chars_of(name);
    assert(v@.skip(0) =~= v@);
    let mut i: usize = 0;
    while i < v.len()
        invariant
            i <= v@.len(),
            v@ == name@,
            first_significant(name@) == first_significant(v@.skip(i as int)),
        decreases v@.len() - i,
    {
        assert(v@.skip(i as int).drop_first() =~= v@.skip(i + 1));
        if !is_whitespace(v[i]) && !is_decorative(v[i]) {
            return Some(v[i]);
        }
        i = i + 1;
    }
    assert(v@.skip(i as int).len() == 0);
    let mut j: usize = 0;
    assert(v@.skip(0) =~= v@);
    while j < v.len()
        invariant
            j <= v@.len(),
            v@ == name@,
            first_significant(name@) is None,
            first_non_ws(name@) == first_non_ws(v@.skip(j as int)),
        decreases v@.len() - j,
    {
        assert(v@.skip(j as int).drop_first() =~= v@.skip(j + 1));
        if !is_whitespace(v[j]) {
            return Some(v[j]);
        }
        j = j + 1;
    }
    None
}

/// After a leading vowel, the first Thai consonant (skipping blanks,
/// decoration and other Thai marks); `None` when the name does not start with
/// a leading vowel or no consonant follows before a non-Thai character.
pub open spec fn consonant_after_lead(s: Seq<char>, seen_lead: bool) -> Option<char>
    decreases s.len(),
{
    if s.len() == 0 {
        None
    } else {
        let c = s[0];
        if is_ws(c) || decorative(c) {
            consonant_after_lead(s.drop_first(), seen_lead)
        } else if !seen_lead {
            if lead_vowel(c) {
                consonant_after_lead(s.drop_first(), true)
            } else {
                None
            }
        } else if thai_consonant(c) {
            Some(c)
        } else if thai(c) {
            consonant_after_lead(s.drop_first(), true)
        } else {
            None
        }
    }
}

pub fn following_thai_consonant(name: &str) -> (r: Option<char>)
    ensures
        r == consonant_after_lead(name@, false),
{
    let v = chars_of(name);
    let mut seen_lead = false;
    let mut i: usize = 0;
    assert(v@.skip(0) =~= v@);
    while i < v.len()
        invariant
            i <= v@.len(),
            consonant_after_lead(name@, false) == consonant_after_lead(v@.skip(i as int), seen_lead),
        decreases v@.len() - i,
    {
        assert(v@.skip(i as int).drop_first() =~= v@.skip(i + 1));
        assert(v@.skip(i as int)[0] == v@[i as int]);
        let ch = v[i];
        if is_whitespace(ch) || is_decorative(ch) {
            i = i + 1;
            continue;
        }
        if !seen_lead {
            if is_lead_vowel(ch) {
                seen_lead = true;
                i = i + 1;
                continue;
            }
            return None;
        }
        if is_thai_consonant(ch) {
            return Some(ch);
        }
        if is_thai(ch) {
            i = i + 1;
            continue;
        }
        return None;
    }
    None
}

/// The section letter of a name.
pub open spec fn bucket_char(s: Seq<char>) -> char {
    match index_char(s) {
        None => '#',
        Some(c) => if thai_consonant(c) {
            c
        } else if lead_vowel(c) {
            match consonant_after_lead(s, false) {
                Some(k) => k,
                None => c,
            }
        } else if thai(c) {
            '#'
        } else if is_ascii_alpha(c) {
            upper_char(c)
        } else {
            '#'
        },
    }
}

/// The section letter as a string: a Thai consonant, an upper-case ASCII
/// letter, a lone leading vowel, or `#`.
pub fn letter_bucket(name: &str) -> (out: String)
    ensures
        out@ == seq![bucket_char(name@)],
{
    let c = match first_index_char(name) {
        None => '#',
        Some(ch) => {
            if is_thai_consonant(ch) {
                ch
            } else if is_lead_vowel(ch) {
                match following_thai_consonant(name) {
                    Some(k) => k,
                    None => ch,
                }
            } else if is_thai(ch) {
                '#'
            } else if ('a' <= ch && ch <= 'z') || ('A' <= ch && ch <= 'Z') {
                to_upper_char(ch)
            } else {
                '#'
            }
        },
    };
    let mut out = String::new();
    push_char(&mut out, c);
    assert(out@ =~= seq![c]);
    out
}

/// Order of sections: Thai consonants in alphabet order, then A–Z, then `#`,
/// then anything else.
pub open spec fn bucket_ord_spec(b: char) -> (u8, u32) {
    if thai_consonant(b) {
        (0, consonant_rank(b))
    } else if 'A' <= b <= 'Z' {
        (1, ((b as u32) - ('A' as u32)) as u32)
    } else if b == '#' {
        (2, 0)
    } else {
        (3, 0)
    }
}

pub fn bucket_ord(b: char) -> (r: (u8, u32))
    ensures
        r == bucket_ord_spec(b),
{
    let u = b as u32;
    if is_thai_consonant(b) {
        let rank = if u > 0x0E26 {
            u - 0x0E01 - 2
        } else if u > 0x0E24 {
            u - 0x0E01 - 1
        } else {
            u - 0x0E01
        };
        (0, rank)
    } else if 'A' <= b && b <= 'Z' {
        (1, u - 65)
    } else if b == '#' {
        (2, 0)
    } else {
        (3, 0)
    }
}

// ---------------------------------------------------------------------------
// Ordering
// ---------------------------------------------------------------------------

/// `a` is listed before `b`: by section, then by lower-cased name, then by mid.
pub open spec fn friend_before(a: ChatInfo, b: ChatInfo) -> bool {
    let ka = bucket_ord_spec(bucket_char(a.name@));
    let kb = bucket_ord_spec(bucket_char(b.name@));
    let la = unicode_lower(a.name@);
    let lb = unicode_lower(b.name@);
    ka.0 < kb.0 || (ka.0 == kb.0 && (ka.1 < kb.1 || (ka.1 == kb.1 && (lex_lt(la, lb) || (la == lb
        && lex_lt(a.mid@, b.mid@))))))
}

pub fn friend_before_exec(a: &ChatInfo, b: &ChatInfo) -> (r: bool)
    ensures
        r == friend_before(*a, *b),
{
    let ba = letter_bucket(a.name.as_str());
    let bb = letter_bucket(b.name.as_str());
    let ca = chars_of(ba.as_str());
    let cb = chars_of(bb.as_str());
    let ka = bucket_ord(ca[0]);
    let kb = bucket_ord(cb[0]);
    if ka.0 != kb.0 {
        return ka.0 < kb.0;
    }
    if ka.1 != kb.1 {
        return ka.1 < kb.1;
    }
    let la = to_lowercase(a.name.as_str());
    let lb = to_lowercase(b.name.as_str());
    if str_lt(la.as_str(), lb.as_str()) {
        return true;
    }
    if str_lt(lb.as_str(), la.as_str()) {
        proof {
            lemma_lex_asymmetric(la@, lb@);
        }
        return false;
    }
    proof {
        crate::text::lemma_lex_total_eq(la@, lb@);
    }
    str_lt(a.mid.as_str(), b.mid.as_str())
}

proof fn lemma_friend_before_asymmetric(a: ChatInfo, b: ChatInfo)
    ensures
        !(friend_before(a, b) && friend_before(b, a)),
{
    lemma_lex_asymmetric(unicode_lower(a.name@), unicode_lower(b.name@));
    lemma_lex_asymmetric(a.mid@, b.mid@);
    lemma_lex_irreflexive(unicode_lower(a.name@));
}

proof fn lemma_friend_before_transitive(a: ChatInfo, b: ChatInfo, c: ChatInfo)
    requires
        friend_before(a, b),
        friend_before(b, c),
    ensures
        friend_before(a, c),
{
    let la = unicode_lower(a.name@);
    let lb = unicode_lower(b.name@);
    let lc = unicode_lower(c.name@);
    if lex_lt(la, lb) && lex_lt(lb, lc) {
        lemma_lex_transitive(la, lb, lc);
    }
    if lex_lt(a.mid@, b.mid@) && lex_lt(b.mid@, c.mid@) {
        lemma_lex_transitive(a.mid@, b.mid@, c.mid@);
    }
}

pub open spec fn friends_sorted(s: Seq<ChatInfo>) -> bool {
    forall|i: int, j: int| 0 <= i < j < s.len() ==> !friend_before(#[trigger] s[j], #[trigger] s[i])
}

pub open spec fn friend_insert_pos(s: Seq<ChatInfo>, x: ChatInfo) -> nat
    decreases s.len(),
{
    if s.len() == 0 {
        0
    } else if friend_before(x, s[0]) {
        0
    } else {
        1 + friend_insert_pos(s.drop_first(), x)
    }
}

/// The friends list order: a stable sort by `friend_before`.
pub open spec fn sort_friends_spec(s: Seq<ChatInfo>) -> Seq<ChatInfo>
    decreases s.len(),
{
    if s.len() == 0 {
        s
    } else {
        let t = sort_friends_spec(s.drop_last());
        t.insert(friend_insert_pos(t, s.last()) as int, s.last())
    }
}

proof fn lemma_friend_insert_pos_at(s: Seq<ChatInfo>, x: ChatInfo, j: int)
    requires
        0 <= j <= s.len(),
        forall|k: int| 0 <= k < j ==> !friend_before(x, #[trigger] s[k]),
        j == s.len() || friend_before(x, s[j]),
    ensures
        friend_insert_pos(s, x) == j,
    decreases j,
{
    if j > 0 {
        let t = s.drop_first();
        assert forall|k: int| 0 <= k < j - 1 implies !friend_before(x, #[trigger] t[k]) by {
            assert(t[k] == s[k + 1]);
        }
        if j < s.len() {
            assert(t[j - 1] == s[j]);
        }
        assert(!friend_before(x, s[0]));
        lemma_friend_insert_pos_at(t, x, j - 1);
    }
}

proof fn lemma_friend_insert_pos_facts(s: Seq<ChatInfo>, x: ChatInfo)
    ensures
        friend_insert_pos(s, x) <= s.len(),
        forall|k: int| 0 <= k < friend_insert_pos(s, x) ==> !friend_before(x, #[trigger] s[k]),
        friend_insert_pos(s, x) < s.len() ==> friend_before(x, s[friend_insert_pos(s, x) as int]),
    decreases s.len(),
{
    if s.len() > 0 && !friend_before(x, s[0]) {
        let t = s.drop_first();
        lemma_friend_insert_pos_facts(t, x);
        assert forall|k: int| 0 <= k < friend_insert_pos(s, x) implies !friend_before(
            x,
            #[trigger] s[k],
        ) by {
            if k > 0 {
                assert(s[k] == t[k - 1]);
            }
        }
        if friend_insert_pos(s, x) < s.len() {
            assert(s[friend_insert_pos(s, x) as int] == t[friend_insert_pos(t, x) as int]);
        }
    }
}

/// The friends list is ordered and holds exactly the friends it was given.
pub proof fn lemma_sort_friends_spec(s: Seq<ChatInfo>)
    ensures
        friends_sorted(sort_friends_spec(s)),
        sort_friends_spec(s).to_multiset() == s.to_multiset(),
        sort_friends_spec(s).len() == s.len(),
    decreases s.len(),
{
    if s.len() > 0 {
        let t = sort_friends_spec(s.drop_last());
        let x = s.last();
        lemma_sort_friends_spec(s.drop_last());
        lemma_friend_insert_pos_facts(t, x);
        let p = friend_insert_pos(t, x) as int;
        let r = t.insert(p, x);
        t.insert_ensures(p, x);
        assert forall|i: int, j: int| 0 <= i < j < r.len() implies !friend_before(
            #[trigger] r[j],
            #[trigger] r[i],
        ) by {
            if j < p {
                assert(r[i] == t[i] && r[j] == t[j]);
            } else if j == p {
                assert(r[i] == t[i]);
            } else if i == p {
                assert(r[j] == t[j - 1]);
                if friend_before(t[j - 1], x) {
                    if j - 1 == p {
                        lemma_friend_before_asymmetric(x, t[p]);
                    } else {
                        lemma_friend_before_transitive(t[j - 1], x, t[p]);
                    }
                }
            } else if i < p {
                assert(r[i] == t[i] && r[j] == t[j - 1]);
            } else {
                assert(r[i] == t[i - 1] && r[j] == t[j - 1]);
            }
        }
        assert(s.drop_last().push(x) =~= s);
    }
}

/// Sort friends for the friends window.
pub fn sort_friends(friends: Vec<ChatInfo>) -> (out: Vec<ChatInfo>)
    ensures
        out@ == sort_friends_spec(friends@),
{
    let ghost orig = friends@;
    let mut rest = friends;
    let mut out: Vec<ChatInfo> = Vec::new();
    let n = rest.len();
    let mut i: usize = 0;
    assert(orig.take(0) =~= Seq::<ChatInfo>::empty());
    while i < n
        invariant
            n == orig.len(),
            i <= n,
            rest@ == orig.skip(i as int),
            out@ == sort_friends_spec(orig.take(i as int)),
        decreases n - i,
    {
        let x = rest.remove(0);
        assert(x == orig[i as int]);
        assert(rest@ =~= orig.skip(i + 1));
        let mut j: usize = 0;
        while j < out.len() && !friend_before_exec(&x, &out[j])
            invariant
                j <= out@.len(),
                forall|k: int| 0 <= k < j ==> !friend_before(x, #[trigger] out@[k]),
            decreases out@.len() - j,
        {
            j = j + 1;
        }
        proof {
            lemma_friend_insert_pos_at(out@, x, j as int);
            assert(orig.take(i + 1).drop_last() =~= orig.take(i as int));
            assert(orig.take(i + 1).last() == x);
        }
        out.insert(j, x);
        i = i + 1;
    }
    assert(orig.take(n as int) =~= orig);
    out
}

// ---------------------------------------------------------------------------
// Sections and search
// ---------------------------------------------------------------------------

/// A row of the friends list.
#[derive(Clone, Copy, Debug)]
pub enum FriendRow {
    /// A section header with its letter.
    Header(char),
    /// The friend at this index of the sorted list.
    Friend(usize),
}

/// The rows for a sorted list: each friend, preceded by a header whenever
/// its section letter differs from the previous friend's.
pub open spec fn rows_spec(s: Seq<ChatInfo>) -> Seq<FriendRow>
    decreases s.len(),
{
    if s.len() == 0 {
        Seq::empty()
    } else {
        let prev = rows_spec(s.drop_last());
        let i = s.len() - 1;
        let b = bucket_char(s[i].name@);
        if i == 0 || bucket_char(s[i - 1].name@) != b {
            prev.push(FriendRow::Header(b)).push(FriendRow::Friend(i as usize))
        } else {
            prev.push(FriendRow::Friend(i as usize))
        }
    }
}

pub fn friend_rows(friends: &Vec<ChatInfo>) -> (rows: Vec<FriendRow>)
    ensures
        rows@ == rows_spec(friends@),
{
    let mut rows: Vec<FriendRow> = Vec::new();
    let mut prev: Option<char> = None;
    let mut i: usize = 0;
    while i < friends.len()
        invariant
            i <= friends@.len(),
            rows@ == rows_spec(friends@.take(i as int)),
            prev == (if i == 0 {
                None
            } else {
                Some(bucket_char(friends@[i - 1].name@))
            }),
        decreases friends@.len() - i,
    {
        let bucket = letter_bucket(friends[i].name.as_str());
        let b = chars_of(bucket.as_str())[0];
        let ghost t = friends@.take(i + 1);
        assert(t.drop_last() =~= friends@.take(i as int));
        assert(t[i as int] == friends@[i as int]);
        if i > 0 {
            assert(t[i - 1] == friends@[i - 1]);
        }
        let new_section = match prev {
            Some(p) => p != b,
            None => true,
        };
        if new_section {
            rows.push(FriendRow::Header(b));
        }
        rows.push(FriendRow::Friend(i));
        prev = Some(b);
        i = i + 1;
    }
    assert(friends@.take(friends@.len() as int) =~= friends@);
    rows
}

/// A friend matches a search when the lower-cased query is empty or occurs in
/// the lower-cased name or mid.
pub open spec fn friend_matches(query: Seq<char>, f: ChatInfo) -> bool {
    let q = unicode_lower(query);
    q.len() == 0 || seq_contains(unicode_lower(f.name@), q) || seq_contains(unicode_lower(f.mid@), q)
}

/// Row `j` is a friend row whose friend matches the query.
pub open spec fn friend_row_hit(rows: Seq<FriendRow>, friends: Seq<ChatInfo>, query: Seq<char>, j: int) -> bool {
    0 <= j < rows.len() && match rows[j] {
        FriendRow::Friend(i) => i < friends.len() && friend_matches(query, friends[i as int]),
        FriendRow::Header(_) => false,
    }
}

/// Every row after `h` up to and including `j` is a friend row.
pub open spec fn friends_run(rows: Seq<FriendRow>, h: int, j: int) -> bool {
    forall|k: int| h < k <= j ==> (#[trigger] rows[k]) is Friend
}

/// A header stays visible while the query is empty or any friend of its
/// section (the rows up to the next header) matches.
pub open spec fn section_has_match(rows: Seq<FriendRow>, friends: Seq<ChatInfo>, query: Seq<char>, h: int) -> bool {
    exists|j: int| h < j && #[trigger] friend_row_hit(rows, friends, query, j) && friends_run(rows, h, j)
}

pub open spec fn row_visible(rows: Seq<FriendRow>, friends: Seq<ChatInfo>, query: Seq<char>, r: int) -> bool {
    match rows[r] {
        FriendRow::Friend(i) => unicode_lower(query).len() == 0 || (i < friends.len()
            && friend_matches(query, friends[i as int])),
        FriendRow::Header(_) => unicode_lower(query).len() == 0 || section_has_match(
            rows,
            friends,
            query,
            r,
        ),
    }
}

fn is_friend_row(row: &FriendRow) -> (b: bool)
    ensures
        b == (*row is Friend),
{
    match row {
        FriendRow::Friend(_) => true,
        FriendRow::Header(_) => false,
    }
}

fn friend_row_matches(f: &ChatInfo, q: &String) -> (r: bool)
    ensures
        r == (seq_contains(unicode_lower(f.name@), q@) || seq_contains(unicode_lower(f.mid@), q@)),
{
    let name = to_lowercase(f.name.as_str());
    let mid = to_lowercase(f.mid.as_str());
    str_contains(name.as_str(), q.as_str()) || str_contains(mid.as_str(), q.as_str())
}

/// Which rows of the friends list stay visible for a search query.
pub fn friend_row_visibility(rows: &Vec<FriendRow>, friends: &Vec<ChatInfo>, query: &str) -> (vis: Vec<bool>)
    ensures
        vis@.len() == rows@.len(),
        forall|r: int| 0 <= r < rows@.len() ==> #[trigger] vis@[r] == row_visible(rows@, friends@, query@, r),
{
    let q = to_lowercase(query);
    let empty = q.as_str().is_empty();
    // Friend rows first.
    let mut shown: Vec<bool> = Vec::new();
    let mut r: usize = 0;
    while r < rows.len()
        invariant
            r <= rows@.len(),
            q@ == unicode_lower(query@),
            empty == (q@.len() == 0),
            shown@.len() == r,
            forall|k: int| 0 <= k < r ==> (#[trigger] rows@[k] is Friend ==> shown@[k] == row_visible(rows@, friends@, query@, k)),
            forall|k: int| 0 <= k < r ==> (#[trigger] rows@[k] is Friend && !empty ==> shown@[k] == match rows@[k] {
                FriendRow::Friend(i) => i < friends@.len() && friend_matches(query@, friends@[i as int]),
                _ => false,
            }),
        decreases rows@.len() - r,
    {
        let v = match &rows[r] {
            FriendRow::Friend(i) => {
                if empty {
                    true
                } else if *i < friends.len() {
                    friend_row_matches(&friends[*i], &q)
                } else {
                    false
                }
            },
            FriendRow::Header(_) => empty,
        };
        shown.push(v);
        r = r + 1;
    }
    // Then headers, from the end, carrying "some friend below matches".
    let mut vis: Vec<bool> = Vec::new();
    let mut k: usize = 0;
    while k < rows.len()
        invariant
            k <= rows@.len(),
            shown@.len() == rows@.len(),
            q@ == unicode_lower(query@),
            empty == (q@.len() == 0),
            vis@.len() == k,
            forall|m: int| 0 <= m < rows@.len() ==> (#[trigger] rows@[m] is Friend ==> shown@[m] == row_visible(rows@, friends@, query@, m)),
            forall|m: int| 0 <= m < rows@.len() ==> (#[trigger] rows@[m] is Friend && !empty ==> shown@[m] == match rows@[m] {
                FriendRow::Friend(i) => i < friends@.len() && friend_matches(query@, friends@[i as int]),
                _ => false,
            }),
            forall|m: int| 0 <= m < k ==> #[trigger] vis@[m] == row_visible(rows@, friends@, query@, m),
        decreases rows@.len() - k,
    {
        let v = match &rows[k] {
            FriendRow::Friend(_) => shown[k],
            FriendRow::Header(_) => {
                if empty {
                    true
                } else {
                    let mut any = false;
                    let mut j: usize = k + 1;
                    while j < rows.len() && is_friend_row(&rows[j])
                        invariant
                            k < j <= rows@.len(),
                            !empty,
                            shown@.len() == rows@.len(),
                            forall|m: int| k < m < j ==> (#[trigger] rows@[m]) is Friend,
                            forall|m: int| 0 <= m < rows@.len() ==> (#[trigger] rows@[m] is Friend && !empty ==> shown@[m] == match rows@[m] {
                                FriendRow::Friend(i) => i < friends@.len() && friend_matches(query@, friends@[i as int]),
                                _ => false,
                            }),
                            any == exists|m: int| k < m < j && #[trigger] shown@[m],
                        decreases rows@.len() - j,
                    {
                        if shown[j] {
                            any = true;
                        }
                        j = j + 1;
                    }
                    proof {
                        let h = k as int;
                        if any {
                            let m = choose|m: int| k < m < j && #[trigger] shown@[m];
                            assert(friend_row_hit(rows@, friends@, query@, m));
                            assert(friends_run(rows@, h, m));
                        } else {
                            if section_has_match(rows@, friends@, query@, h) {
                                let m = choose|m: int|
                                    h < m && #[trigger] friend_row_hit(rows@, friends@, query@, m) && friends_run(rows@, h, m);
                                if m >= j {
                                    assert(rows@[j as int] is Friend);
                                }
                                assert(shown@[m]);
                            }
                        }
                    }
                    any
                }
            },
        };
        vis.push(v);
        k = k + 1;
    }
    vis
}

// ---------------------------------------------------------------------------
// Rows and adding friends
// ---------------------------------------------------------------------------

/// The line under a friend's name: bots say so, others invite to chat.
pub fn friend_subtitle(cur: &Option<I18n>, friend: &ChatInfo) -> (s: String)
    requires
        current_wf(*cur),
    ensures
        s@ == translate(*cur, if lower_seq(friend.kind@) == "bot"@ { "friend_bot"@ } else { "friend_tap_chat"@ }),
{
    let kind = ascii_lower(friend.kind.as_str());
    let bot = chars_of("bot");
    if seq_eq(&kind, &bot) {
        t(cur, "friend_bot")
    } else {
        t(cur, "friend_tap_chat")
    }
}

/// The LINE id typed to add a friend, without surrounding white space; an
/// empty one is refused with a hint.
pub fn check_add_friend_id(cur: &Option<I18n>, typed: &str) -> (r: Result<String, String>)
    requires
        current_wf(*cur),
    ensures
        strip_both(typed@, |c: char| is_ws(c)).len() == 0 ==> r is Err && r->Err_0@ == translate(*cur, "enter_line_id"@),
        strip_both(typed@, |c: char| is_ws(c)).len() > 0 ==> r is Ok && r->Ok_0@ == strip_both(typed@, |c: char| is_ws(c)),
{
    let id = trim(typed);
    if chars_of(id.as_str()).len() == 0 {
        Err(t(cur, "enter_line_id"))
    } else {
        Ok(id)
    }
}

} // verus!
