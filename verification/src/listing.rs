//! What the window shows once a whole list has arrived from the engine: the
//! chat list with its status line, and a conversation's messages in time
//! order with what is remembered about them.

use vstd::prelude::*;
use crate::chats::{mark_pinned_spec, order_chat_list, sort_chats_spec, string_views};
use crate::events::{opt_view, Pane};
use crate::i18n::{current_wf, pair_views, t, tf, translate, translate_with, I18n};
use crate::media::{fingerprint_spec, localize_preview, localized_preview, message_list_fingerprint};
use crate::protocol::{ChatInfo, MessageInfo};
use crate::text::{chars_of, decimal, str_eq, u64_to_string};

verus! {

broadcast use vstd::seq_lib::group_to_multiset_ensures;

// ---------------------------------------------------------------------------
// The chat list
// ---------------------------------------------------------------------------

/// The sidebar after a chat list arrived.
pub struct ChatsView {
    /// The chats in display order, previews in the current language.
    pub chats: Vec<ChatInfo>,
    pub pane: Pane,
    /// The text of the empty page, when the list is empty.
    pub empty_text: Option<String>,
    pub status: String,
}

/// `b` is `a` with its preview (when there is one) in the current language.
pub open spec fn preview_localized(cur: Option<I18n>, a: ChatInfo, b: ChatInfo) -> bool {
    &&& b == (ChatInfo { preview: b.preview, ..a })
    &&& b.preview@ == (if a.preview@.len() == 0 { a.preview@ } else { localized_preview(cur, a.preview@) })
}

/// The status line for `n` chats, from the cache or fresh from the server.
pub open spec fn chats_status(cur: Option<I18n>, n: nat, cached: bool) -> Seq<char> {
    if n == 0 {
        translate(cur, "status_no_chats"@)
    } else {
        translate_with(
            cur,
            if cached { "status_chats_cache"@ } else { "status_chats_latest"@ },
            seq![("n"@, decimal(n))],
        )
    }
}

fn localize_chats(cur: &Option<I18n>, chats: Vec<ChatInfo>) -> (out: Vec<ChatInfo>)
    requires
        current_wf(*cur),
    ensures
        out@.len() == chats@.len(),
        forall|i: int| 0 <= i < chats@.len() ==> preview_localized(*cur, chats@[i], #[trigger] out@[i]),
{
    let ghost orig = chats@;
    let mut rest = chats;
    let mut out: Vec<ChatInfo> = Vec::new();
    let n = rest.len();
    let mut i: usize = 0;
    while i < n
        invariant
            current_wf(*cur),
            n == orig.len(),
            i <= n,
            rest@ == orig.skip(i as int),
            out@.len() == i,
            forall|k: int| 0 <= k < i ==> preview_localized(*cur, orig[k], #[trigger] out@[k]),
        decreases n - i,
    {
        let mut c = rest.remove(0);
        assert(c == orig[i as int]);
        assert(rest@ =~= orig.skip(i + 1));
        if chars_of(c.preview.as_str()).len() > 0 {
            c.preview = localize_preview(cur, c.preview.as_str());
        }
        out.push(c);
        i = i + 1;
    }
    out
}

/// A freshly arrived chat list: pins from the settings applied, sorted as the
/// sidebar lists them, previews in the current language, and the page and
/// status line that go with its length.
pub fn chats_loaded(cur: &Option<I18n>, chats: Vec<ChatInfo>, pinned: &Vec<String>, cached: bool) -> (v: ChatsView)
    requires
        current_wf(*cur),
    ensures
        v.chats@.len() == chats@.len(),
        forall|i: int|
            0 <= i < chats@.len() ==> preview_localized(
                *cur,
                sort_chats_spec(mark_pinned_spec(chats@, string_views(pinned@)))[i],
                #[trigger] v.chats@[i],
            ),
        v.pane == (if chats@.len() == 0 { Pane::Empty } else { Pane::List }),
        chats@.len() == 0 ==> v.empty_text is Some && v.empty_text->0@ == translate(*cur, "no_chats"@),
        chats@.len() != 0 ==> v.empty_text is None,
        v.status@ == chats_status(*cur, chats@.len(), cached),
{
    let n = chats.len();
    let ghost chats_in = chats@;
    let ordered = order_chat_list(chats, pinned);
    proof {
        crate::chats::lemma_sort_chats_spec(mark_pinned_spec(chats_in, string_views(pinned@)));
    }
    let shown = localize_chats(cur, ordered);
    if n == 0 {
        ChatsView { chats: shown, pane: Pane::Empty, empty_text: Some(t(cur, "no_chats")), status: t(cur, "status_no_chats") }
    } else {
        let count = u64_to_string(n as u64);
        let pairs = [("n", count.as_str())];
        let status = if cached {
            tf(cur, "status_chats_cache", &pairs)
        } else {
            tf(cur, "status_chats_latest", &pairs)
        };
        assert(pair_views(pairs@) =~= seq![("n"@, decimal(n as nat))]);
        ChatsView { chats: shown, pane: Pane::List, empty_text: None, status }
    }
}

// ---------------------------------------------------------------------------
// A conversation's messages
// ---------------------------------------------------------------------------

/// Oldest first, by creation time, with no message before an older one.
pub open spec fn time_sorted(s: Seq<MessageInfo>) -> bool {
    forall|i: int, j: int| 0 <= i < j < s.len() ==> (#[trigger] s[i]).created_time <= (#[trigger] s[j]).created_time
}

/// Where a stable insertion by time puts `x`: after every message that is not
/// newer.
pub open spec fn time_insert_pos(s: Seq<MessageInfo>, x: MessageInfo) -> nat
    decreases s.len(),
{
    if s.len() == 0 {
        0
    } else if x.created_time < s[0].created_time {
        0
    } else {
        1 + time_insert_pos(s.drop_first(), x)
    }
}

/// A stable sort by creation time: messages created at the same moment keep
/// the order in which they came.
pub open spec fn sort_by_time_spec(s: Seq<MessageInfo>) -> Seq<MessageInfo>
    decreases s.len(),
{
    if s.len() == 0 {
        s
    } else {
        let t = sort_by_time_spec(s.drop_last());
        t.insert(time_insert_pos(t, s.last()) as int, s.last())
    }
}

proof fn lemma_time_insert_pos_at(s: Seq<MessageInfo>, x: MessageInfo, j: int)
    requires
        0 <= j <= s.len(),
        forall|k: int| 0 <= k < j ==> !(x.created_time < (#[trigger] s[k]).created_time),
        j == s.len() || x.created_time < s[j].created_time,
    ensures
        time_insert_pos(s, x) == j,
    decreases j,
{
    if j > 0 {
        let t = s.drop_first();
        assert forall|k: int| 0 <= k < j - 1 implies !(x.created_time < (#[trigger] t[k]).created_time) by {
            assert(t[k] == s[k + 1]);
        }
        if j < s.len() {
            assert(t[j - 1] == s[j]);
        }
        assert(!(x.created_time < s[0].created_time));
        lemma_time_insert_pos_at(t, x, j - 1);
    }
}

proof fn lemma_time_insert_pos_facts(s: Seq<MessageInfo>, x: MessageInfo)
    ensures
        time_insert_pos(s, x) <= s.len(),
        forall|k: int| 0 <= k < time_insert_pos(s, x) ==> (#[trigger] s[k]).created_time <= x.created_time,
        time_insert_pos(s, x) < s.len() ==> x.created_time < s[time_insert_pos(s, x) as int].created_time,
    decreases s.len(),
{
    if s.len() > 0 && !(x.created_time < s[0].created_time) {
        let t = s.drop_first();
        lemma_time_insert_pos_facts(t, x);
        assert forall|k: int| 0 <= k < time_insert_pos(s, x) implies (#[trigger] s[k]).created_time <= x.created_time by {
            if k > 0 {
                assert(s[k] == t[k - 1]);
            }
        }
        if time_insert_pos(s, x) < s.len() {
            assert(s[time_insert_pos(s, x) as int] == t[time_insert_pos(t, x) as int]);
        }
    }
}

/// Sorting by time gives an oldest-first list of exactly the messages given.
pub proof fn lemma_sort_by_time(s: Seq<MessageInfo>)
    ensures
        time_sorted(sort_by_time_spec(s)),
        sort_by_time_spec(s).to_multiset() == s.to_multiset(),
        sort_by_time_spec(s).len() == s.len(),
    decreases s.len(),
{
    if s.len() > 0 {
        let r = s.drop_last();
        let x = s.last();
        lemma_sort_by_time(r);
        let t = sort_by_time_spec(r);
        lemma_time_insert_pos_facts(t, x);
        let p = time_insert_pos(t, x) as int;
        t.insert_ensures(p, x);
        let u = t.insert(p, x);
        assert forall|i: int, j: int| 0 <= i < j < u.len() implies (#[trigger] u[i]).created_time <= (#[trigger] u[j]).created_time by {
            if j < p {
                assert(u[i] == t[i] && u[j] == t[j]);
            } else if j == p {
                assert(u[i] == t[i]);
            } else if i == p {
                assert(u[j] == t[j - 1]);
                assert(t[p] == t[p]);
                assert(t[p].created_time <= t[j - 1].created_time);
            } else if i < p {
                assert(u[i] == t[i] && u[j] == t[j - 1]);
            } else {
                assert(u[i] == t[i - 1] && u[j] == t[j - 1]);
            }
        }
        assert(r.push(x) =~= s);
        assert(u.remove(p) =~= t);
        assert(u[p] == x);
        assert(u.to_multiset().remove(x) == t.to_multiset());
        assert(u.to_multiset().count(x) > 0);
        assert(u.to_multiset() =~= t.to_multiset().insert(x));
    }
}

/// Sorts messages oldest first; messages of the same moment keep their order.
pub fn sort_by_time(messages: Vec<MessageInfo>) -> (out: Vec<MessageInfo>)
    ensures
        out@ == sort_by_time_spec(messages@),
{
    let ghost orig = messages@;
    let mut rest = messages;
    let mut out: Vec<MessageInfo> = Vec::new();
    let n = rest.len();
    let mut i: usize = 0;
    assert(orig.take(0) =~= Seq::<MessageInfo>::empty());
    while i < n
        invariant
            n == orig.len(),
            i <= n,
            rest@ == orig.skip(i as int),
            out@ == sort_by_time_spec(orig.take(i as int)),
        decreases n - i,
    {
        let x = rest.remove(0);
        assert(x == orig[i as int]);
        assert(rest@ =~= orig.skip(i + 1));
        let mut j: usize = 0;
        while j < out.len() && !(x.created_time < out[j].created_time)
            invariant
                j <= out@.len(),
                forall|k: int| 0 <= k < j ==> !(x.created_time < (#[trigger] out@[k]).created_time),
            decreases out@.len() - j,
        {
            j = j + 1;
        }
        proof {
            lemma_time_insert_pos_at(out@, x, j as int);
            assert(orig.take(i + 1).drop_last() =~= orig.take(i as int));
            assert(orig.take(i + 1).last() == x);
        }
        out.insert(j, x);
        i = i + 1;
    }
    assert(orig.take(n as int) =~= orig);
    out
}

/// The id of the newest message that the other side sent.
pub open spec fn last_incoming_spec(s: Seq<MessageInfo>) -> Option<Seq<char>>
    decreases s.len(),
{
    if s.len() == 0 {
        None
    } else if !s.last().mine {
        Some(s.last().id@)
    } else {
        last_incoming_spec(s.drop_last())
    }
}

/// The id of the newest message that the other side sent, if any.
pub fn last_incoming_id(messages: &Vec<MessageInfo>) -> (r: Option<String>)
    ensures
        match r {
            Some(id) => last_incoming_spec(messages@) == Some(id@),
            None => last_incoming_spec(messages@) is None,
        },
{
    let mut i = messages.len();
    assert(messages@.take(i as int) =~= messages@);
    while i > 0
        invariant
            i <= messages@.len(),
            last_incoming_spec(messages@) == last_incoming_spec(messages@.take(i as int)),
        decreases i,
    {
        assert(messages@.take(i as int).drop_last() =~= messages@.take(i - 1));
        if !messages[i - 1].mine {
            return Some(messages[i - 1].id.clone());
        }
        i = i - 1;
    }
    None
}

/// A conversation after its messages arrived.
pub struct MessagesView {
    /// Oldest first.
    pub messages: Vec<MessageInfo>,
    /// What is remembered of the list on screen: chat, length, first and last
    /// id; nothing when no chat is open.
    pub shown: Option<(String, usize, String, String)>,
    pub pane: Pane,
    pub empty_text: Option<String>,
    pub subtitle: String,
    /// The newest message from the other side, which reading marks.
    pub last_incoming: Option<String>,
}

/// The remembered list as plain values.
pub open spec fn shown_view(shown: Option<(String, usize, String, String)>) -> Option<(Seq<char>, nat, Seq<char>, Seq<char>)> {
    match shown {
        Some(s) => Some((s.0@, s.1 as nat, s.2@, s.3@)),
        None => None,
    }
}

/// The subtitle for a conversation of `n` messages.
pub open spec fn messages_subtitle(cur: Option<I18n>, n: nat) -> Seq<char> {
    if n == 0 {
        translate(cur, "empty"@)
    } else {
        translate_with(cur, "messages_count"@, seq![("n"@, decimal(n))])
    }
}

/// The messages of the open chat (`current_chat`), sorted oldest first, with
/// the page, subtitle and remembered fingerprint that go with them.
pub fn messages_loaded(cur: &Option<I18n>, current_chat: &Option<String>, messages: Vec<MessageInfo>) -> (v: MessagesView)
    requires
        current_wf(*cur),
    ensures
        v.messages@ == sort_by_time_spec(messages@),
        shown_view(v.shown) == (match current_chat {
            Some(mid) => {
                let fp = fingerprint_spec(sort_by_time_spec(messages@));
                Some((mid@, fp.0, fp.1, fp.2))
            },
            None => None,
        }),
        v.pane == (if messages@.len() == 0 { Pane::Empty } else { Pane::List }),
        messages@.len() == 0 ==> v.empty_text is Some && v.empty_text->0@ == translate(*cur, "no_messages"@),
        messages@.len() != 0 ==> v.empty_text is None,
        v.subtitle@ == messages_subtitle(*cur, messages@.len()),
        match v.last_incoming {
            Some(id) => last_incoming_spec(sort_by_time_spec(messages@)) == Some(id@),
            None => last_incoming_spec(sort_by_time_spec(messages@)) is None,
        },
{
    proof {
        lemma_sort_by_time(messages@);
    }
    let sorted = sort_by_time(messages);
    let n = sorted.len();
    let shown = match current_chat {
        Some(mid) => {
            let fp = message_list_fingerprint(sorted.as_slice());
            Some((mid.clone(), fp.0, fp.1, fp.2))
        },
        None => None,
    };
    let last_incoming = last_incoming_id(&sorted);
    if n == 0 {
        MessagesView {
            messages: sorted,
            shown,
            pane: Pane::Empty,
            empty_text: Some(t(cur, "no_messages")),
            subtitle: t(cur, "empty"),
            last_incoming,
        }
    } else {
        let count = u64_to_string(n as u64);
        let pairs = [("n", count.as_str())];
        let subtitle = tf(cur, "messages_count", &pairs);
        assert(pair_views(pairs@) =~= seq![("n"@, decimal(n as nat))]);
        MessagesView { messages: sorted, shown, pane: Pane::List, empty_text: None, subtitle, last_incoming }
    }
}

// ---------------------------------------------------------------------------
// Days and times of messages
// ---------------------------------------------------------------------------

/// A message time in seconds: the engine sends milliseconds, but small values
/// are taken as seconds already.
pub open spec fn epoch_secs(ts_ms: i64) -> i64 {
    if ts_ms > 1_000_000_000_000 {
        (ts_ms / 1000) as i64
    } else {
        ts_ms
    }
}

pub fn to_epoch_secs(ts_ms: i64) -> (secs: i64)
    ensures
        secs == epoch_secs(ts_ms),
{
    if ts_ms > 1_000_000_000_000 {
        ts_ms / 1000
    } else {
        ts_ms
    }
}

/// Whether chrono can represent the Unix time `secs`: whether
/// `chrono::DateTime::from_timestamp(secs, 0)` gives a date.
pub uninterp spec fn chrono_can_show(secs: i64) -> bool;

/// What chrono writes with the format string `fmt` for the Unix time `secs`
/// seen in a zone `offset` seconds ahead of UTC.
pub uninterp spec fn chrono_format_at(secs: i64, offset: i32, fmt: Seq<char>) -> Seq<char>;

/// `chrono::DateTime::from_timestamp(secs, 0)`, moved to the fixed zone
/// `FixedOffset::east_opt(offset)` and written with the format string `fmt`:
/// the text, named, exists exactly when `from_timestamp` gives a date, and it
/// is never empty (each of the format strings writes a separator).
#[verifier::external_body]
pub(crate) fn format_at_offset(secs: i64, offset: i32, fmt: &str) -> (r: Option<String>)
    requires
        -86400 < offset < 86400,
        fmt@ == "%Y-%m-%d"@ || fmt@ == "%-I:%M %p"@ || fmt@ == "%a, %b %-d"@ || fmt@ == "%m/%d"@,
    ensures
        r is Some == chrono_can_show(secs),
        r matches Some(t) ==> t@ == chrono_format_at(secs, offset, fmt@) && t@.len() > 0,
{
    let zone = chrono::FixedOffset::east_opt(offset)?;
    chrono::DateTime::from_timestamp(secs, 0).map(|d| d.with_timezone(&zone).format(fmt).to_string())
}

/// `chrono::DateTime::from_timestamp(secs, 0)` moved to the machine's time
/// zone (`chrono::Local`), and the offset of that zone from UTC at that
/// moment, in seconds (`offset().local_minus_utc()`). There is one exactly
/// when `from_timestamp` gives a date; chrono keeps an offset under a day
/// either way. Which offset it is depends on the time zone.
#[verifier::external_body]
fn local_offset_secs(secs: i64) -> (r: Option<i32>)
    ensures
        r is Some == chrono_can_show(secs),
        r matches Some(o) ==> -86400 < o < 86400,
{
    chrono::DateTime::from_timestamp(secs, 0).map(|d| chrono::Offset::fix(d.with_timezone(&chrono::Local).offset()).local_minus_utc())
}

/// The number of the local calendar day (days since 1970-01-01) of the Unix
/// time `secs` in a zone `offset` seconds ahead of UTC.
pub open spec fn local_day_spec(secs: i64, offset: i32) -> int {
    (secs + offset) / 86400
}

/// A number of days that puts every local time after the epoch of the count.
pub const DAY_SHIFT: i128 = 140737488355328;

/// The local calendar day of `secs` in a zone `offset` seconds ahead of UTC.
pub fn local_day(secs: i64, offset: i32) -> (d: i128)
    requires
        -86400 < offset < 86400,
    ensures
        d == local_day_spec(secs, offset),
{
    let x: i128 = secs as i128 + offset as i128;
    let y: i128 = x + DAY_SHIFT * 86400;
    proof {
        vstd::arithmetic::div_mod::lemma_hoist_over_denominator(x as int, DAY_SHIFT as int, 86400);
        assert(y >= 0);
    }
    y / 86400 - DAY_SHIFT
}

/// A text chrono writes for a message time at a zone offset, empty for
/// times chrono cannot show.
pub open spec fn time_text(ts_ms: i64, offset: i32, fmt: Seq<char>) -> Seq<char> {
    if chrono_can_show(epoch_secs(ts_ms)) {
        chrono_format_at(epoch_secs(ts_ms), offset, fmt)
    } else {
        Seq::empty()
    }
}

fn text_at(ts_ms: i64, offset: i32, fmt: &str) -> (s: String)
    requires
        -86400 < offset < 86400,
        fmt@ == "%Y-%m-%d"@ || fmt@ == "%-I:%M %p"@ || fmt@ == "%a, %b %-d"@,
    ensures
        s@ == time_text(ts_ms, offset, fmt@),
        chrono_can_show(epoch_secs(ts_ms)) ==> s@.len() > 0,
{
    match format_at_offset(to_epoch_secs(ts_ms), offset, fmt) {
        Some(t) => t,
        None => String::new(),
    }
}

/// The calendar day (`YYYY-MM-DD`) of a message time in a zone `offset`
/// seconds ahead of UTC; empty for times chrono cannot show.
pub fn day_key_at(ts_ms: i64, offset: i32) -> (key: String)
    requires
        -86400 < offset < 86400,
    ensures
        key@ == time_text(ts_ms, offset, "%Y-%m-%d"@),
{
    text_at(ts_ms, offset, "%Y-%m-%d")
}

/// The local calendar day of a message time (`YYYY-MM-DD`), which tells when
/// a new day begins in a conversation: `day_key_at` with the machine's zone
/// offset at that time; empty for times chrono cannot show.
pub fn day_key(ts_ms: i64) -> (key: String)
    ensures
        !chrono_can_show(epoch_secs(ts_ms)) ==> key@.len() == 0,
        chrono_can_show(epoch_secs(ts_ms)) ==> exists|offset: i32|
            -86400 < offset < 86400 && key@ == #[trigger] chrono_format_at(epoch_secs(ts_ms), offset, "%Y-%m-%d"@),
{
    match local_offset_secs(to_epoch_secs(ts_ms)) {
        Some(o) => day_key_at(ts_ms, o),
        None => String::new(),
    }
}

/// The clock time (`3:07 PM`) of a message in a zone `offset` seconds ahead
/// of UTC; empty for a message without a time and for times chrono cannot
/// show.
pub fn format_msg_time_at(ts_ms: i64, offset: i32) -> (s: String)
    requires
        -86400 < offset < 86400,
    ensures
        s@ == (if ts_ms <= 0 { Seq::empty() } else { time_text(ts_ms, offset, "%-I:%M %p"@) }),
{
    if ts_ms <= 0 {
        return String::new();
    }
    text_at(ts_ms, offset, "%-I:%M %p")
}

/// The local clock time of a message: `format_msg_time_at` with the machine's
/// zone offset at that time.
pub fn format_msg_time(ts_ms: i64) -> (s: String)
    ensures
        ts_ms <= 0 || !chrono_can_show(epoch_secs(ts_ms)) ==> s@.len() == 0,
        ts_ms > 0 && chrono_can_show(epoch_secs(ts_ms)) ==> exists|offset: i32|
            -86400 < offset < 86400 && s@ == #[trigger] chrono_format_at(epoch_secs(ts_ms), offset, "%-I:%M %p"@),
{
    if ts_ms <= 0 {
        return String::new();
    }
    match local_offset_secs(to_epoch_secs(ts_ms)) {
        Some(o) => format_msg_time_at(ts_ms, o),
        None => String::new(),
    }
}

/// The separator's word for a day relative to today, where there is one.
pub open spec fn relative_day(cur: Option<I18n>, day: int, today: int) -> Option<Seq<char>> {
    if day == today {
        Some(translate(cur, "day_today"@))
    } else if day == today - 1 {
        Some(translate(cur, "day_yesterday"@))
    } else {
        None
    }
}

/// "Today" or "Yesterday" for those days, else nothing (the date is shown).
pub fn relative_day_text(cur: &Option<I18n>, day: i128, today: i128) -> (r: Option<String>)
    requires
        current_wf(*cur),
    ensures
        match r {
            Some(s) => relative_day(*cur, day as int, today as int) == Some(s@),
            None => relative_day(*cur, day as int, today as int) is None,
        },
{
    if day == today {
        Some(t(cur, "day_today"))
    } else if today > i128::MIN && day == today - 1 {
        Some(t(cur, "day_yesterday"))
    } else {
        None
    }
}

/// The text of a day separator for a message time seen in a zone `offset`
/// seconds ahead of UTC, when the clock read `now` (with that moment's zone
/// offset), if it could be read: "Today" or "Yesterday" for those local days,
/// else the local date (`Fri, Jul 24`); empty for times chrono cannot show.
pub open spec fn day_separator_spec(cur: Option<I18n>, ts_ms: i64, offset: i32, now: Option<(i64, i32)>) -> Seq<char> {
    let secs = epoch_secs(ts_ms);
    if !chrono_can_show(secs) {
        Seq::empty()
    } else {
        let word = match now {
            Some((n, o)) => relative_day(cur, local_day_spec(secs, offset), local_day_spec(n, o)),
            None => None,
        };
        match word {
            Some(w) => w,
            None => chrono_format_at(secs, offset, "%a, %b %-d"@),
        }
    }
}

/// The text of a day separator, from the message time, its zone offset, and
/// the clock reading with its zone offset (see `day_separator_spec`).
pub fn day_separator_at(cur: &Option<I18n>, ts_ms: i64, offset: i32, now: Option<(i64, i32)>) -> (s: String)
    requires
        current_wf(*cur),
        -86400 < offset < 86400,
        now matches Some((n, o)) ==> -86400 < o < 86400,
    ensures
        s@ == day_separator_spec(*cur, ts_ms, offset, now),
{
    let secs = to_epoch_secs(ts_ms);
    let date = text_at(ts_ms, offset, "%a, %b %-d");
    if chars_of(date.as_str()).len() == 0 {
        return date;
    }
    let day = local_day(secs, offset);
    let word = match now {
        Some((n, o)) => relative_day_text(cur, day, local_day(n, o)),
        None => None,
    };
    match word {
        Some(w) => w,
        None => date,
    }
}

/// The text of a day separator by the machine's clock and time zone:
/// `day_separator_at` with the zone offset at the message time and the clock
/// reading with its offset (none when the clock reads before 1970).
pub fn format_day_separator(cur: &Option<I18n>, ts_ms: i64) -> (s: String)
    requires
        current_wf(*cur),
    ensures
        !chrono_can_show(epoch_secs(ts_ms)) ==> s@.len() == 0,
        chrono_can_show(epoch_secs(ts_ms)) ==> exists|offset: i32, now: Option<(i64, i32)>|
            -86400 < offset < 86400 && s@ == #[trigger] day_separator_spec(*cur, ts_ms, offset, now),
{
    let secs = to_epoch_secs(ts_ms);
    let offset = match local_offset_secs(secs) {
        Some(o) => o,
        None => return String::new(),
    };
    let now: Option<(i64, i32)> = match crate::chats::unix_now() {
        Some(n) => match local_offset_secs(n) {
            Some(o) => Some((n, o)),
            None => None,
        },
        None => None,
    };
    day_separator_at(cur, ts_ms, offset, now)
}

/// Whether a message is shown: messages without an id always are, others
/// only the first time their id comes; the id is remembered in `seen`.
pub fn first_showing(seen: &mut Vec<String>, id: &str) -> (r: bool)
    ensures
        r == (id@.len() == 0 || !string_views(old(seen)@).contains(id@)),
        final(seen)@.map_values(|x: String| x@) == (if id@.len() > 0 && r {
            string_views(old(seen)@).push(id@)
        } else {
            string_views(old(seen)@)
        }),
{
    let idv = crate::text::chars_of(id);
    if idv.len() == 0 {
        return true;
    }
    assert(id@.len() > 0);
    let ghost before = string_views(seen@);
    let mut i: usize = 0;
    while i < seen.len()
        invariant
            i <= seen@.len(),
            before == string_views(seen@),
            seen@ == old(seen)@,
            id@.len() > 0,
            forall|k: int| 0 <= k < i ==> seen@[k]@ != id@,
        decreases seen@.len() - i,
    {
        if str_eq(seen[i].as_str(), id) {
            assert(before[i as int] == id@);
            assert(before.contains(id@));
            return false;
        }
        i = i + 1;
    }
    assert(!before.contains(id@)) by {
        if before.contains(id@) {
            let k = choose|k: int| 0 <= k < before.len() && before[k] == id@;
            assert(seen@[k]@ == id@);
        }
    }
    seen.push(crate::text::to_owned_string(id));
    assert(string_views(seen@) =~= before.push(id@));
    true
}

/// The picture a message is shown with: its own when that is on disk
/// (`own_on_disk`), else a download that finished meanwhile (`ready`, when it
/// is on disk: `ready_on_disk`).
pub fn use_ready_picture(msg: &mut MessageInfo, own_on_disk: bool, ready: Option<String>, ready_on_disk: bool)
    ensures
        *final(msg) == (MessageInfo { image_path: final(msg).image_path, ..*old(msg) }),
        final(msg).image_path == (if (old(msg).image_path is None || !own_on_disk) && ready is Some && ready_on_disk {
            ready
        } else {
            old(msg).image_path
        }),
{
    let missing = msg.image_path.is_none() || !own_on_disk;
    if missing && ready_on_disk {
        if let Some(p) = ready {
            msg.image_path = Some(p);
        }
    }
}

/// Whether a message starts a new day in the conversation, given the day of
/// the message shown before it; the new day is remembered. Messages without
/// a time start none.
pub fn starts_new_day(last_day: &mut Option<String>, created_time: i64, day: String) -> (r: bool)
    ensures
        r == (created_time > 0 && opt_view(*old(last_day)) != Some(day@)),
        r ==> opt_view(*final(last_day)) == Some(day@),
        !r ==> *final(last_day) == *old(last_day),
{
    if created_time <= 0 {
        return false;
    }
    let same = match last_day {
        Some(d) => str_eq(d.as_str(), day.as_str()),
        None => false,
    };
    if same {
        false
    } else {
        *last_day = Some(day);
        true
    }
}

// ---------------------------------------------------------------------------
// The chat album
// ---------------------------------------------------------------------------

/// A picture or video message whose picture is on disk (`on_disk`).
pub open spec fn album_entry(m: MessageInfo, on_disk: bool) -> bool {
    let ct = crate::text::upper_seq(m.content_type@);
    (ct == "IMAGE"@ || ct == "VIDEO"@) && m.image_path is Some && on_disk
}

/// The album's messages of `s`, in order.
pub open spec fn album_only(s: Seq<MessageInfo>, on_disk: Seq<bool>) -> Seq<MessageInfo>
    decreases s.len(),
{
    if s.len() == 0 || on_disk.len() < s.len() {
        Seq::empty()
    } else if album_entry(s.last(), on_disk[s.len() - 1]) {
        album_only(s.drop_last(), on_disk).push(s.last())
    } else {
        album_only(s.drop_last(), on_disk)
    }
}

/// Where a stable insertion newest first puts `x`: after every message that
/// is not older.
pub open spec fn newest_insert_pos(s: Seq<MessageInfo>, x: MessageInfo) -> nat
    decreases s.len(),
{
    if s.len() == 0 {
        0
    } else if x.created_time > s[0].created_time {
        0
    } else {
        1 + newest_insert_pos(s.drop_first(), x)
    }
}

/// A stable sort newest first: messages of the same moment keep their order.
pub open spec fn sort_newest_first_spec(s: Seq<MessageInfo>) -> Seq<MessageInfo>
    decreases s.len(),
{
    if s.len() == 0 {
        s
    } else {
        let t = sort_newest_first_spec(s.drop_last());
        t.insert(newest_insert_pos(t, s.last()) as int, s.last())
    }
}

proof fn lemma_newest_insert_pos_at(s: Seq<MessageInfo>, x: MessageInfo, j: int)
    requires
        0 <= j <= s.len(),
        forall|k: int| 0 <= k < j ==> !(x.created_time > (#[trigger] s[k]).created_time),
        j == s.len() || x.created_time > s[j].created_time,
    ensures
        newest_insert_pos(s, x) == j,
    decreases j,
{
    if j > 0 {
        let t = s.drop_first();
        assert forall|k: int| 0 <= k < j - 1 implies !(x.created_time > (#[trigger] t[k]).created_time) by {
            assert(t[k] == s[k + 1]);
        }
        if j < s.len() {
            assert(t[j - 1] == s[j]);
        }
        assert(!(x.created_time > s[0].created_time));
        lemma_newest_insert_pos_at(t, x, j - 1);
    }
}

proof fn lemma_newest_insert_pos_facts(s: Seq<MessageInfo>, x: MessageInfo)
    ensures
        newest_insert_pos(s, x) <= s.len(),
        forall|k: int| 0 <= k < newest_insert_pos(s, x) ==> (#[trigger] s[k]).created_time >= x.created_time,
        newest_insert_pos(s, x) < s.len() ==> x.created_time > s[newest_insert_pos(s, x) as int].created_time,
    decreases s.len(),
{
    if s.len() > 0 && !(x.created_time > s[0].created_time) {
        let t = s.drop_first();
        lemma_newest_insert_pos_facts(t, x);
        assert forall|k: int| 0 <= k < newest_insert_pos(s, x) implies (#[trigger] s[k]).created_time >= x.created_time by {
            if k > 0 {
                assert(s[k] == t[k - 1]);
            }
        }
        if newest_insert_pos(s, x) < s.len() {
            assert(s[newest_insert_pos(s, x) as int] == t[newest_insert_pos(t, x) as int]);
        }
    }
}

/// Sorting newest first gives a list of exactly the messages given, no
/// message before a newer one.
pub proof fn lemma_sort_newest_first(s: Seq<MessageInfo>)
    ensures
        forall|i: int, j: int|
            0 <= i < j < sort_newest_first_spec(s).len() ==> (#[trigger] sort_newest_first_spec(s)[i]).created_time
                >= (#[trigger] sort_newest_first_spec(s)[j]).created_time,
        sort_newest_first_spec(s).to_multiset() == s.to_multiset(),
        sort_newest_first_spec(s).len() == s.len(),
    decreases s.len(),
{
    if s.len() > 0 {
        let r = s.drop_last();
        let x = s.last();
        lemma_sort_newest_first(r);
        let t = sort_newest_first_spec(r);
        lemma_newest_insert_pos_facts(t, x);
        let p = newest_insert_pos(t, x) as int;
        t.insert_ensures(p, x);
        let u = t.insert(p, x);
        assert forall|i: int, j: int| 0 <= i < j < u.len() implies (#[trigger] u[i]).created_time >= (#[trigger] u[j]).created_time by {
            if j < p {
                assert(u[i] == t[i] && u[j] == t[j]);
            } else if j == p {
                assert(u[i] == t[i]);
            } else if i == p {
                assert(u[j] == t[j - 1]);
                assert(t[p].created_time >= t[j - 1].created_time);
            } else if i < p {
                assert(u[i] == t[i] && u[j] == t[j - 1]);
            } else {
                assert(u[i] == t[i - 1] && u[j] == t[j - 1]);
            }
        }
        assert(r.push(x) =~= s);
        assert(u.remove(p) =~= t);
        assert(u[p] == x);
        assert(u.to_multiset().remove(x) == t.to_multiset());
        assert(u.to_multiset().count(x) > 0);
        assert(u.to_multiset() =~= t.to_multiset().insert(x));
    }
}

/// Sorts messages newest first; messages of the same moment keep their order.
pub fn sort_newest_first(messages: Vec<MessageInfo>) -> (out: Vec<MessageInfo>)
    ensures
        out@ == sort_newest_first_spec(messages@),
{
    let ghost orig = messages@;
    let mut rest = messages;
    let mut out: Vec<MessageInfo> = Vec::new();
    let n = rest.len();
    let mut i: usize = 0;
    assert(orig.take(0) =~= Seq::<MessageInfo>::empty());
    while i < n
        invariant
            n == orig.len(),
            i <= n,
            rest@ == orig.skip(i as int),
            out@ == sort_newest_first_spec(orig.take(i as int)),
        decreases n - i,
    {
        let x = rest.remove(0);
        assert(x == orig[i as int]);
        assert(rest@ =~= orig.skip(i + 1));
        let mut j: usize = 0;
        while j < out.len() && !(x.created_time > out[j].created_time)
            invariant
                j <= out@.len(),
                forall|k: int| 0 <= k < j ==> !(x.created_time > (#[trigger] out@[k]).created_time),
            decreases out@.len() - j,
        {
            j = j + 1;
        }
        proof {
            lemma_newest_insert_pos_at(out@, x, j as int);
            assert(orig.take(i + 1).drop_last() =~= orig.take(i as int));
            assert(orig.take(i + 1).last() == x);
        }
        out.insert(j, x);
        i = i + 1;
    }
    assert(orig.take(n as int) =~= orig);
    out
}

/// The chat album: the picture and video messages whose picture is on disk
/// (`on_disk`, one flag per message), newest first.
pub fn album_messages(messages: Vec<MessageInfo>, on_disk: &Vec<bool>) -> (out: Vec<MessageInfo>)
    requires
        on_disk@.len() == messages@.len(),
    ensures
        out@ == sort_newest_first_spec(album_only(messages@, on_disk@)),
{
    let ghost orig = messages@;
    let mut rest = messages;
    let mut kept: Vec<MessageInfo> = Vec::new();
    let n = rest.len();
    let mut i: usize = 0;
    assert(orig.take(0) =~= Seq::<MessageInfo>::empty());
    while i < n
        invariant
            n == orig.len(),
            on_disk@.len() == n,
            i <= n,
            rest@ == orig.skip(i as int),
            kept@ == album_only(orig.take(i as int), on_disk@),
        decreases n - i,
    {
        let m = rest.remove(0);
        assert(m == orig[i as int]);
        assert(rest@ =~= orig.skip(i + 1));
        assert(orig.take(i + 1).drop_last() =~= orig.take(i as int));
        assert(orig.take(i + 1).last() == m);
        let ct = crate::text::ascii_upper(m.content_type.as_str());
        let image = crate::text::chars_of("IMAGE");
        let video = crate::text::chars_of("VIDEO");
        if (crate::text::seq_eq(&ct, &image) || crate::text::seq_eq(&ct, &video)) && m.image_path.is_some() && on_disk[i] {
            kept.push(m);
        }
        i = i + 1;
    }
    assert(orig.take(n as int) =~= orig);
    sort_newest_first(kept)
}

/// The album window's title: "Album · <chat name>" for a listed open chat,
/// else "Album".
pub fn album_title(cur: &Option<I18n>, chats: &Vec<ChatInfo>, current: &Option<String>) -> (s: String)
    requires
        current_wf(*cur),
    ensures
        s@ == (match *current {
            Some(mid) => match crate::chats::index_of_mid(chats@, mid@) {
                Some(i) => translate(*cur, "chat_album"@) + " · "@ + chats@[i].name@,
                None => translate(*cur, "chat_album"@),
            },
            None => translate(*cur, "chat_album"@),
        }),
{
    let mut title = t(cur, "chat_album");
    if let Some(mid) = current {
        proof {
            crate::chats::lemma_index_of_mid_facts(chats@, mid@);
        }
        if let Some(i) = crate::chats::chat_position(chats, mid.as_str()) {
            crate::text::append_str(&mut title, " · ");
            crate::text::append_str(&mut title, chats[i].name.as_str());
        }
    }
    title
}

} // verus!
