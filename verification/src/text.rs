//! Character-level string helpers shared by the rest of the library.
//!
//! Strings are reasoned about through their views, `Seq<char>`.

use vstd::prelude::*;

verus! {

/// Appends one character to `s` (`String::push`).
#[verifier::external_body]
pub(crate) fn push_char(s: &mut String, c: char)
    ensures
        final(s)@ == old(s)@.push(c),
{
    s.push(c)
}

/// The characters of `s`, in order.
pub fn chars_of(s: &str) -> (out: Vec<char>)
    ensures
        out@ == s@,
{
    let mut out: Vec<char> = Vec::new();
    for c in it: s.chars()
        invariant
            out@ == it.seq().take(it.index() as int),
            it.seq() == s@,
    {
        out.push(c);
    }
    out
}

/// A `String` holding exactly the characters of `chars`.
pub fn string_from_chars(chars: &[char]) -> (out: String)
    ensures
        out@ == chars@,
{
    let mut out = String::new();
    let mut i: usize = 0;
    while i < chars.len()
        invariant
            i <= chars@.len(),
            out@ == chars@.take(i as int),
        decreases chars@.len() - i,
    {
        push_char(&mut out, chars[i]);
        i = i + 1;
        assert(out@ =~= chars@.take(i as int));
    }
    assert(chars@.take(chars@.len() as int) =~= chars@);
    out
}

/// A `String` holding the characters `chars[from..to]`.
pub fn string_from_range(chars: &Vec<char>, from: usize, to: usize) -> (out: String)
    requires
        from <= to <= chars@.len(),
    ensures
        out@ == chars@.subrange(from as int, to as int),
{
    let mut out = String::new();
    let mut i: usize = from;
    while i < to
        invariant
            from <= i <= to <= chars@.len(),
            out@ == chars@.subrange(from as int, i as int),
        decreases to - i,
    {
        push_char(&mut out, chars[i]);
        i = i + 1;
        assert(out@ =~= chars@.subrange(from as int, i as int));
    }
    out
}

/// A copy of `s` (`str::to_string`).
pub fn to_owned_string(s: &str) -> (out: String)
    ensures
        out@ == s@,
{
    let v = chars_of(s);
    string_from_chars(v.as_slice())
}

/// Appends the characters of `tail` to `out`.
pub fn append_str(out: &mut String, tail: &str)
    ensures
        final(out)@ == old(out)@ + tail@,
{
    let v = chars_of(tail);
    let mut i: usize = 0;
    while i < v.len()
        invariant
            i <= v@.len(),
            v@ == tail@,
            out@ == old(out)@ + v@.take(i as int),
        decreases v@.len() - i,
    {
        push_char(out, v[i]);
        i = i + 1;
        assert(out@ =~= old(out)@ + v@.take(i as int));
    }
    assert(v@.take(v@.len() as int) =~= v@);
}

/// Whether two strings hold the same characters.
pub fn str_eq(a: &str, b: &str) -> (r: bool)
    ensures
        r == (a@ == b@),
{
    let va = chars_of(a);
    let vb = chars_of(b);
    seq_eq(&va, &vb)
}

/// Whether two character vectors are equal.
pub fn seq_eq(a: &Vec<char>, b: &Vec<char>) -> (r: bool)
    ensures
        r == (a@ == b@),
{
    if a.len() != b.len() {
        return false;
    }
    let mut i: usize = 0;
    while i < a.len()
        invariant
            a@.len() == b@.len(),
            i <= a@.len(),
            forall|k: int| 0 <= k < i ==> a@[k] == b@[k],
        decreases a@.len() - i,
    {
        if a[i] != b[i] {
            return false;
        }
        i = i + 1;
    }
    assert(a@ =~= b@);
    true
}

// ---------------------------------------------------------------------------
// Character classes
// ---------------------------------------------------------------------------

/// Unicode `White_Space` (what `char::is_whitespace` tests).
pub open spec fn is_ws(c: char) -> bool {
    let u = c as u32;
    (0x09 <= u <= 0x0D) || u == 0x20 || u == 0x85 || u == 0xA0 || u == 0x1680 || (0x2000 <= u
        <= 0x200A) || u == 0x2028 || u == 0x2029 || u == 0x202F || u == 0x205F || u == 0x3000
}

pub fn is_whitespace(c: char) -> (r: bool)
    ensures
        r == is_ws(c),
{
    let u = c as u32;
    (0x09 <= u && u <= 0x0D) || u == 0x20 || u == 0x85 || u == 0xA0 || u == 0x1680 || (0x2000 <= u
        && u <= 0x200A) || u == 0x2028 || u == 0x2029 || u == 0x202F || u == 0x205F || u == 0x3000
}

/// Unicode general category `Cc` (what `char::is_control` tests).
pub open spec fn is_cc(c: char) -> bool {
    let u = c as u32;
    u <= 0x1F || (0x7F <= u <= 0x9F)
}

pub fn is_control(c: char) -> (r: bool)
    ensures
        r == is_cc(c),
{
    let u = c as u32;
    u <= 0x1F || (0x7F <= u && u <= 0x9F)
}

pub open spec fn is_ascii_upper(c: char) -> bool {
    'A' <= c <= 'Z'
}

pub open spec fn is_ascii_lower(c: char) -> bool {
    'a' <= c <= 'z'
}

pub open spec fn is_ascii_alpha(c: char) -> bool {
    is_ascii_upper(c) || is_ascii_lower(c)
}

pub open spec fn is_ascii_digit(c: char) -> bool {
    '0' <= c <= '9'
}

/// ASCII punctuation: `!`..`/`, `:`..`@`, `[`..`` ` ``, `{`..`~`.
pub open spec fn is_ascii_punct(c: char) -> bool {
    ('!' <= c <= '/') || (':' <= c <= '@') || ('[' <= c <= '`') || ('{' <= c <= '~')
}

pub fn is_ascii_punctuation(c: char) -> (r: bool)
    ensures
        r == is_ascii_punct(c),
{
    ('!' <= c && c <= '/') || (':' <= c && c <= '@') || ('[' <= c && c <= '`') || ('{' <= c && c
        <= '~')
}

/// `char::to_ascii_uppercase`.
pub open spec fn upper_char(c: char) -> char {
    if is_ascii_lower(c) {
        ((c as u32) - 32) as char
    } else {
        c
    }
}

/// `char::to_ascii_lowercase`.
pub open spec fn lower_char(c: char) -> char {
    if is_ascii_upper(c) {
        ((c as u32) + 32) as char
    } else {
        c
    }
}

pub fn to_upper_char(c: char) -> (r: char)
    ensures
        r == upper_char(c),
{
    if 'a' <= c && c <= 'z' {
        let u = (c as u32) - 32;
        assert(u == 'A' as u32 + ((c as u32) - ('a' as u32)));
        char_from_ascii(u)
    } else {
        c
    }
}

pub fn to_lower_char(c: char) -> (r: char)
    ensures
        r == lower_char(c),
{
    if 'A' <= c && c <= 'Z' {
        let u = (c as u32) + 32;
        char_from_ascii(u)
    } else {
        c
    }
}

/// The character with an ASCII code.
pub fn char_from_ascii(u: u32) -> (c: char)
    requires
        u < 128,
    ensures
        c as u32 == u,
        c == u as char,
{
    let b = u as u8;
    b as char
}

pub open spec fn upper_seq(s: Seq<char>) -> Seq<char> {
    s.map_values(|c: char| upper_char(c))
}

pub open spec fn lower_seq(s: Seq<char>) -> Seq<char> {
    s.map_values(|c: char| lower_char(c))
}

/// `str::to_ascii_uppercase`, as characters.
pub fn ascii_upper(s: &str) -> (out: Vec<char>)
    ensures
        out@ == upper_seq(s@),
{
    let v = chars_of(s);
    let mut out: Vec<char> = Vec::new();
    let mut i: usize = 0;
    while i < v.len()
        invariant
            v@ == s@,
            i <= v@.len(),
            out@ == upper_seq(v@.take(i as int)),
        decreases v@.len() - i,
    {
        out.push(to_upper_char(v[i]));
        i = i + 1;
        assert(out@ =~= upper_seq(v@.take(i as int)));
    }
    assert(v@.take(v@.len() as int) =~= v@);
    out
}

/// `str::to_ascii_lowercase`, as characters.
pub fn ascii_lower(s: &str) -> (out: Vec<char>)
    ensures
        out@ == lower_seq(s@),
{
    let v = chars_of(s);
    let mut out: Vec<char> = Vec::new();
    let mut i: usize = 0;
    while i < v.len()
        invariant
            v@ == s@,
            i <= v@.len(),
            out@ == lower_seq(v@.take(i as int)),
        decreases v@.len() - i,
    {
        out.push(to_lower_char(v[i]));
        i = i + 1;
        assert(out@ =~= lower_seq(v@.take(i as int)));
    }
    assert(v@.take(v@.len() as int) =~= v@);
    out
}

// ---------------------------------------------------------------------------
// Searching
// ---------------------------------------------------------------------------

/// `needle` occurs in `hay` starting at `i`.
pub open spec fn occurs_at(hay: Seq<char>, needle: Seq<char>, i: int) -> bool {
    0 <= i && i + needle.len() <= hay.len() && hay.subrange(i, i + needle.len()) == needle
}

/// `str::contains` with a string pattern.
pub open spec fn seq_contains(hay: Seq<char>, needle: Seq<char>) -> bool {
    exists|i: int| occurs_at(hay, needle, i)
}

pub open spec fn seq_starts_with(s: Seq<char>, p: Seq<char>) -> bool {
    p.len() <= s.len() && s.subrange(0, p.len() as int) == p
}

pub open spec fn seq_ends_with(s: Seq<char>, p: Seq<char>) -> bool {
    p.len() <= s.len() && s.subrange(s.len() - p.len(), s.len() as int) == p
}

/// Whether `needle` occurs at position `i` of `hay`.
pub fn matches_at(hay: &Vec<char>, needle: &Vec<char>, i: usize) -> (r: bool)
    ensures
        r == occurs_at(hay@, needle@, i as int),
{
    if i > hay.len() || needle.len() > hay.len() - i {
        return false;
    }
    let mut k: usize = 0;
    while k < needle.len()
        invariant
            i + needle.len() <= hay.len(),
            k <= needle@.len(),
            forall|j: int| 0 <= j < k ==> hay@[i + j] == needle@[j],
        decreases needle@.len() - k,
    {
        if hay[i + k] != needle[k] {
            assert(hay@.subrange(i as int, i + needle@.len())[k as int] != needle@[k as int]);
            return false;
        }
        k = k + 1;
    }
    assert(hay@.subrange(i as int, i + needle@.len()) =~= needle@);
    true
}

/// `hay.contains(needle)` over characters.
pub fn contains_chars(hay: &Vec<char>, needle: &Vec<char>) -> (r: bool)
    ensures
        r == seq_contains(hay@, needle@),
{
    if needle.len() > hay.len() {
        return false;
    }
    let last = hay.len() - needle.len();
    let mut i: usize = 0;
    while i <= last
        invariant
            last == hay@.len() - needle@.len(),
            i <= last,
            forall|j: int| 0 <= j < i ==> !occurs_at(hay@, needle@, j),
        ensures
            forall|j: int| 0 <= j <= last ==> !occurs_at(hay@, needle@, j),
        decreases last - i,
    {
        if matches_at(hay, needle, i) {
            return true;
        }
        if i == last {
            break;
        }
        i = i + 1;
    }
    assert(forall|j: int| 0 <= j <= last ==> !occurs_at(hay@, needle@, j));
    proof {
        true_if_occurs_beyond_is_false(hay@, needle@, last + 1);
    }
    false
}

proof fn true_if_occurs_beyond_is_false(hay: Seq<char>, needle: Seq<char>, i: int)
    requires
        needle.len() <= hay.len(),
        i == hay.len() - needle.len() + 1,
        forall|j: int| 0 <= j < i ==> !occurs_at(hay, needle, j),
    ensures
        !seq_contains(hay, needle),
{
}

/// `s.contains(needle)` for string slices.
pub fn str_contains(s: &str, needle: &str) -> (r: bool)
    ensures
        r == seq_contains(s@, needle@),
{
    let h = chars_of(s);
    let n = chars_of(needle);
    contains_chars(&h, &n)
}

pub fn starts_with_chars(s: &Vec<char>, p: &Vec<char>) -> (r: bool)
    ensures
        r == seq_starts_with(s@, p@),
{
    let r = matches_at(s, p, 0);
    proof {
        if seq_starts_with(s@, p@) {
            assert(occurs_at(s@, p@, 0));
        }
    }
    r
}

pub fn ends_with_chars(s: &Vec<char>, p: &Vec<char>) -> (r: bool)
    ensures
        r == seq_ends_with(s@, p@),
{
    if p.len() > s.len() {
        return false;
    }
    matches_at(s, p, s.len() - p.len())
}

// ---------------------------------------------------------------------------
// Trimming
// ---------------------------------------------------------------------------

/// `s` without its leading characters that satisfy `p`.
pub open spec fn strip_start(s: Seq<char>, p: spec_fn(char) -> bool) -> Seq<char>
    decreases s.len(),
{
    if s.len() > 0 && p(s[0]) {
        strip_start(s.drop_first(), p)
    } else {
        s
    }
}

/// `s` without its trailing characters that satisfy `p`.
pub open spec fn strip_end(s: Seq<char>, p: spec_fn(char) -> bool) -> Seq<char>
    decreases s.len(),
{
    if s.len() > 0 && p(s.last()) {
        strip_end(s.drop_last(), p)
    } else {
        s
    }
}

/// `trim_matches`: both ends stripped.
pub open spec fn strip_both(s: Seq<char>, p: spec_fn(char) -> bool) -> Seq<char> {
    strip_end(strip_start(s, p), p)
}

/// Every character left after stripping was a character of `s`.
pub proof fn lemma_strip_start_chars(s: Seq<char>, p: spec_fn(char) -> bool)
    ensures
        forall|k: int| 0 <= k < strip_start(s, p).len() ==> s.contains(#[trigger] strip_start(s, p)[k]),
    decreases s.len(),
{
    if s.len() > 0 && p(s[0]) {
        let t = s.drop_first();
        lemma_strip_start_chars(t, p);
        assert(strip_start(s, p) == strip_start(t, p));
        assert forall|k: int| 0 <= k < strip_start(s, p).len() implies s.contains(#[trigger] strip_start(s, p)[k]) by {
            let c = strip_start(s, p)[k];
            assert(t.contains(strip_start(t, p)[k]));
            let j = choose|j: int| 0 <= j < t.len() && t[j] == c;
            assert(s[j + 1] == c);
        }
    } else {
        assert forall|k: int| 0 <= k < strip_start(s, p).len() implies s.contains(#[trigger] strip_start(s, p)[k]) by {
            assert(s[k] == strip_start(s, p)[k]);
        }
    }
}

pub proof fn lemma_strip_end_chars(s: Seq<char>, p: spec_fn(char) -> bool)
    ensures
        forall|k: int| 0 <= k < strip_end(s, p).len() ==> s.contains(#[trigger] strip_end(s, p)[k]),
    decreases s.len(),
{
    if s.len() > 0 && p(s.last()) {
        let t = s.drop_last();
        lemma_strip_end_chars(t, p);
        assert(strip_end(s, p) == strip_end(t, p));
        assert forall|k: int| 0 <= k < strip_end(s, p).len() implies s.contains(#[trigger] strip_end(s, p)[k]) by {
            let c = strip_end(s, p)[k];
            assert(t.contains(strip_end(t, p)[k]));
            let j = choose|j: int| 0 <= j < t.len() && t[j] == c;
            assert(s[j] == c);
        }
    } else {
        assert forall|k: int| 0 <= k < strip_end(s, p).len() implies s.contains(#[trigger] strip_end(s, p)[k]) by {
            assert(s[k] == strip_end(s, p)[k]);
        }
    }
}

pub proof fn lemma_strip_both_chars(s: Seq<char>, p: spec_fn(char) -> bool)
    ensures
        forall|k: int| 0 <= k < strip_both(s, p).len() ==> s.contains(#[trigger] strip_both(s, p)[k]),
{
    lemma_strip_start_chars(s, p);
    lemma_strip_end_chars(strip_start(s, p), p);
    let a = strip_start(s, p);
    assert forall|k: int| 0 <= k < strip_both(s, p).len() implies s.contains(#[trigger] strip_both(s, p)[k]) by {
        let c = strip_both(s, p)[k];
        assert(a.contains(c));
        let j = choose|j: int| 0 <= j < a.len() && a[j] == c;
        assert(s.contains(a[j]));
    }
}

/// Stripping the start of `s` is a suffix `s[i..]` where `i` is the first
/// index not satisfying `p`.
pub proof fn lemma_strip_start_at(s: Seq<char>, p: spec_fn(char) -> bool, i: int)
    requires
        0 <= i <= s.len(),
        forall|k: int| 0 <= k < i ==> p(#[trigger] s[k]),
        i == s.len() || !p(s[i]),
    ensures
        strip_start(s, p) == s.subrange(i, s.len() as int),
    decreases i,
{
    if i == 0 {
        assert(s.subrange(0, s.len() as int) =~= s);
    } else {
        let t = s.drop_first();
        assert forall|k: int| 0 <= k < i - 1 implies p(#[trigger] t[k]) by {
            assert(t[k] == s[k + 1]);
        }
        if i - 1 < t.len() {
            assert(t[i - 1] == s[i]);
        }
        lemma_strip_start_at(t, p, i - 1);
        assert(t.subrange(i - 1, t.len() as int) =~= s.subrange(i, s.len() as int));
    }
}

/// Stripping the end of `s` is a prefix `s[..j]` where `j - 1` is the last
/// index not satisfying `p`.
pub proof fn lemma_strip_end_at(s: Seq<char>, p: spec_fn(char) -> bool, j: int)
    requires
        0 <= j <= s.len(),
        forall|k: int| j <= k < s.len() ==> p(#[trigger] s[k]),
        j == 0 || !p(s[j - 1]),
    ensures
        strip_end(s, p) == s.subrange(0, j),
    decreases s.len() - j,
{
    if j == s.len() {
        assert(s.subrange(0, j) =~= s);
    } else {
        let t = s.drop_last();
        assert forall|k: int| j <= k < t.len() implies p(#[trigger] t[k]) by {
            assert(t[k] == s[k]);
        }
        if j > 0 {
            assert(t[j - 1] == s[j - 1]);
        }
        lemma_strip_end_at(t, p, j);
        assert(t.subrange(0, j) =~= s.subrange(0, j));
    }
}

// ---------------------------------------------------------------------------
// Numbers as decimal text
// ---------------------------------------------------------------------------

pub open spec fn digit_char(d: nat) -> char {
    (('0' as u32) + d) as char
}

/// Decimal digits of `n` (no sign, no leading zeros; "0" for zero).
pub open spec fn decimal(n: nat) -> Seq<char>
    decreases n,
{
    if n < 10 {
        seq![digit_char(n)]
    } else {
        decimal(n / 10).push(digit_char(n % 10))
    }
}

/// `n.to_string()` for unsigned integers.
pub fn u64_to_string(n: u64) -> (out: String)
    ensures
        out@ == decimal(n as nat),
    decreases n,
{
    if n < 10 {
        let mut out = String::new();
        push_char(&mut out, char_from_ascii(48 + n as u32));
        out
    } else {
        let mut out = u64_to_string(n / 10);
        push_char(&mut out, char_from_ascii(48 + (n % 10) as u32));
        out
    }
}

/// `n.to_string()` for signed integers.
pub open spec fn decimal_signed(n: int) -> Seq<char> {
    if n < 0 {
        seq!['-'] + decimal((-n) as nat)
    } else {
        decimal(n as nat)
    }
}

pub fn i64_to_string(n: i64) -> (out: String)
    ensures
        out@ == decimal_signed(n as int),
{
    if n < 0 {
        let m: u64 = if n == i64::MIN {
            9223372036854775808u64
        } else {
            (-n) as u64
        };
        let mut out = String::new();
        push_char(&mut out, '-');
        let digits = u64_to_string(m);
        append_str(&mut out, digits.as_str());
        out
    } else {
        u64_to_string(n as u64)
    }
}

} // verus!

verus! {

// ---------------------------------------------------------------------------
// Ordering
// ---------------------------------------------------------------------------

/// `a < b` in the order of `String`'s `Ord` (lexicographic by scalar value,
/// which is the byte order of UTF-8).
pub open spec fn lex_lt(a: Seq<char>, b: Seq<char>) -> bool
    decreases a.len(),
{
    if a.len() == 0 {
        b.len() > 0
    } else if b.len() == 0 {
        false
    } else if a[0] != b[0] {
        (a[0] as int) < (b[0] as int)
    } else {
        lex_lt(a.drop_first(), b.drop_first())
    }
}

pub proof fn lemma_lex_irreflexive(a: Seq<char>)
    ensures
        !lex_lt(a, a),
    decreases a.len(),
{
    if a.len() > 0 {
        lemma_lex_irreflexive(a.drop_first());
    }
}

pub proof fn lemma_lex_asymmetric(a: Seq<char>, b: Seq<char>)
    ensures
        !(lex_lt(a, b) && lex_lt(b, a)),
    decreases a.len(),
{
    if a.len() > 0 && b.len() > 0 && a[0] == b[0] {
        lemma_lex_asymmetric(a.drop_first(), b.drop_first());
    }
}

pub proof fn lemma_lex_transitive(a: Seq<char>, b: Seq<char>, c: Seq<char>)
    requires
        lex_lt(a, b),
        lex_lt(b, c),
    ensures
        lex_lt(a, c),
    decreases a.len(),
{
    if a.len() > 0 && b.len() > 0 && c.len() > 0 && a[0] == b[0] && b[0] == c[0] {
        lemma_lex_transitive(a.drop_first(), b.drop_first(), c.drop_first());
    }
}

pub proof fn lemma_lex_total(a: Seq<char>, b: Seq<char>)
    requires
        a != b,
    ensures
        lex_lt(a, b) || lex_lt(b, a),
    decreases a.len(),
{
    if a.len() > 0 && b.len() > 0 && a[0] == b[0] {
        if a.drop_first() == b.drop_first() {
            assert(a =~= seq![a[0]] + a.drop_first());
            assert(b =~= seq![b[0]] + b.drop_first());
        }
        lemma_lex_total(a.drop_first(), b.drop_first());
    } else if a.len() > 0 && b.len() > 0 {
        assert((a[0] as int) != (b[0] as int));
    } else if a.len() == 0 && b.len() == 0 {
        assert(a =~= b);
    }
}

proof fn lemma_lex_skip(a: Seq<char>, b: Seq<char>, i: int)
    requires
        0 <= i <= a.len(),
        i <= b.len(),
        a.subrange(0, i) == b.subrange(0, i),
    ensures
        lex_lt(a, b) == lex_lt(a.skip(i), b.skip(i)),
    decreases i,
{
    if i > 0 {
        assert(a[0] == a.subrange(0, i)[0]);
        assert(b[0] == b.subrange(0, i)[0]);
        assert(a.drop_first().subrange(0, i - 1) =~= a.subrange(0, i).drop_first());
        assert(b.drop_first().subrange(0, i - 1) =~= b.subrange(0, i).drop_first());
        lemma_lex_skip(a.drop_first(), b.drop_first(), i - 1);
        assert(a.drop_first().skip(i - 1) =~= a.skip(i));
        assert(b.drop_first().skip(i - 1) =~= b.skip(i));
    } else {
        assert(a.skip(0) =~= a);
        assert(b.skip(0) =~= b);
    }
}

/// `a < b` for character vectors, as `String`'s `Ord` compares.
pub fn chars_lt(a: &Vec<char>, b: &Vec<char>) -> (r: bool)
    ensures
        r == lex_lt(a@, b@),
{
    let mut i: usize = 0;
    while i < a.len() && i < b.len() && a[i] == b[i]
        invariant
            i <= a@.len(),
            i <= b@.len(),
            a@.subrange(0, i as int) == b@.subrange(0, i as int),
        decreases a@.len() - i,
    {
        assert(a@.subrange(0, i + 1) =~= a@.subrange(0, i as int).push(a@[i as int]));
        assert(b@.subrange(0, i + 1) =~= b@.subrange(0, i as int).push(b@[i as int]));
        i = i + 1;
    }
    proof {
        lemma_lex_skip(a@, b@, i as int);
    }
    if i == a.len() {
        i < b.len()
    } else if i == b.len() {
        false
    } else {
        assert(a@.skip(i as int)[0] == a@[i as int]);
        assert(b@.skip(i as int)[0] == b@[i as int]);
        a[i] < b[i]
    }
}

/// `a < b` for strings, as `String`'s `Ord` compares.
pub fn str_lt(a: &str, b: &str) -> (r: bool)
    ensures
        r == lex_lt(a@, b@),
{
    let va = chars_of(a);
    let vb = chars_of(b);
    chars_lt(&va, &vb)
}

} // verus!

verus! {

/// Unicode lower-casing (`str::to_lowercase`). Its tables are Unicode's, so the
/// result is named rather than spelled out.
pub uninterp spec fn unicode_lower(s: Seq<char>) -> Seq<char>;

/// `str::to_lowercase`: the result is `unicode_lower` of the input.
#[verifier::external_body]
pub(crate) fn to_lowercase(s: &str) -> (out: String)
    ensures
        out@ == unicode_lower(s@),
{
    s.to_lowercase()
}

/// `str::trim`: surrounding Unicode whitespace removed.
pub fn trim(s: &str) -> (out: String)
    ensures
        out@ == strip_both(s@, |c: char| is_ws(c)),
{
    let v = chars_of(s);
    let ghost p = |c: char| is_ws(c);
    let n = v.len();
    let mut a: usize = 0;
    while a < n && is_whitespace(v[a])
        invariant
            n == v@.len(),
            a <= n,
            forall|k: int| 0 <= k < a ==> is_ws(#[trigger] v@[k]),
        decreases n - a,
    {
        a = a + 1;
    }
    proof {
        lemma_strip_start_at(v@, p, a as int);
    }
    let ghost s1 = v@.subrange(a as int, n as int);
    let mut b: usize = n;
    while b > a && is_whitespace(v[b - 1])
        invariant
            n == v@.len(),
            a <= b <= n,
            forall|k: int| b <= k < n ==> is_ws(#[trigger] v@[k]),
        decreases b - a,
    {
        b = b - 1;
    }
    proof {
        assert forall|k: int| b - a <= k < s1.len() implies p(#[trigger] s1[k]) by {
            assert(s1[k] == v@[a + k]);
        }
        if b > a {
            assert(s1[b - a - 1] == v@[b - 1]);
        }
        lemma_strip_end_at(s1, p, b - a);
        assert(s1.subrange(0, b - a) =~= v@.subrange(a as int, b as int));
    }
    string_from_range(&v, a, b)
}

} // verus!

verus! {

// ---------------------------------------------------------------------------
// Parsing unsigned integers
// ---------------------------------------------------------------------------

pub open spec fn all_digits(s: Seq<char>) -> bool {
    forall|i: int| 0 <= i < s.len() ==> is_ascii_digit(#[trigger] s[i])
}

/// Value of a string of decimal digits.
pub open spec fn digits_value(s: Seq<char>) -> nat
    decreases s.len(),
{
    if s.len() == 0 {
        0
    } else {
        digits_value(s.drop_last()) * 10 + ((s.last() as int) - ('0' as int)) as nat
    }
}

/// `str::parse::<u128>`: an optional `+`, then at least one decimal digit,
/// with a value that fits in 128 bits.
pub open spec fn parse_u128_spec(s: Seq<char>) -> Option<nat> {
    let d = if s.len() > 0 && s[0] == '+' {
        s.drop_first()
    } else {
        s
    };
    if d.len() == 0 || !all_digits(d) || digits_value(d) > u128::MAX {
        None
    } else {
        Some(digits_value(d))
    }
}

proof fn lemma_digits_value_prefix(s: Seq<char>, i: int)
    requires
        0 <= i <= s.len(),
        all_digits(s),
    ensures
        digits_value(s.take(i)) <= digits_value(s),
    decreases s.len() - i,
{
    if i < s.len() {
        lemma_digits_value_prefix(s, i + 1);
        assert(s.take(i + 1).drop_last() =~= s.take(i));
        assert(s.take(i + 1).last() == s[i]);
        assert(digits_value(s.take(i)) <= digits_value(s.take(i + 1))) by (nonlinear_arith)
            requires
                digits_value(s.take(i + 1)) == digits_value(s.take(i)) * 10 + ((s[i] as int) - (
                '0' as int)),
                '0' <= s[i] <= '9',
        ;
    } else {
        assert(s.take(i) =~= s);
    }
}

/// `s.parse::<u128>().ok()`.
pub fn parse_u128(s: &str) -> (r: Option<u128>)
    ensures
        match r {
            Some(v) => parse_u128_spec(s@) == Some(v as nat),
            None => parse_u128_spec(s@) is None,
        },
{
    let v = chars_of(s);
    let start: usize = if v.len() > 0 && v[0] == '+' {
        1
    } else {
        0
    };
    let ghost d = if s@.len() > 0 && s@[0] == '+' {
        s@.drop_first()
    } else {
        s@
    };
    assert(d =~= v@.skip(start as int));
    if start == v.len() {
        return None;
    }
    let mut i: usize = start;
    while i < v.len()
        invariant
            start <= i <= v@.len(),
            v@ == s@,
            d == (if s@.len() > 0 && s@[0] == '+' {
                s@.drop_first()
            } else {
                s@
            }),
            d == v@.skip(start as int),
            forall|k: int| 0 <= k < i - start ==> is_ascii_digit(#[trigger] d[k]),
        decreases v@.len() - i,
    {
        if !('0' <= v[i] && v[i] <= '9') {
            assert(!is_ascii_digit(d[i - start]));
            return None;
        }
        i = i + 1;
    }
    let mut acc: u128 = 0;
    let mut j: usize = start;
    while j < v.len()
        invariant
            start <= j <= v@.len(),
            v@ == s@,
            d == (if s@.len() > 0 && s@[0] == '+' {
                s@.drop_first()
            } else {
                s@
            }),
            d == v@.skip(start as int),
            all_digits(d),
            acc as nat == digits_value(d.take(j - start)),
        decreases v@.len() - j,
    {
        assert(is_ascii_digit(d[j - start]));
        assert(d[j - start] == v@[j as int]);
        let digit = (v[j] as u32 - 48) as u128;
        assert(d.take(j + 1 - start).drop_last() =~= d.take(j - start));
        assert(d.take(j + 1 - start).last() == v@[j as int]);
        proof {
            lemma_digits_value_prefix(d, j + 1 - start);
        }
        if acc > (u128::MAX - digit) / 10 {
            assert(digits_value(d.take(j + 1 - start)) > u128::MAX) by (nonlinear_arith)
                requires
                    acc > (u128::MAX - digit) / 10,
                    digits_value(d.take(j + 1 - start)) == acc * 10 + digit,
                    digit <= 9,
            ;
            return None;
        }
        assert(acc * 10 + digit <= u128::MAX) by (nonlinear_arith)
            requires
                acc <= (u128::MAX - digit) / 10,
                digit <= 9,
        ;
        acc = acc * 10 + digit;
        j = j + 1;
    }
    assert(d.take(v@.len() - start) =~= d);
    Some(acc)
}

} // verus!

verus! {

/// Two strings neither below the other are equal.
pub proof fn lemma_lex_total_eq(a: Seq<char>, b: Seq<char>)
    requires
        !lex_lt(a, b),
        !lex_lt(b, a),
    ensures
        a == b,
{
    if a != b {
        lemma_lex_total(a, b);
    }
}

} // verus!
