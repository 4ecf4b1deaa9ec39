//! The chat list: ordering, live upserts, promotion on new activity, unread
//! counters, read receipts and search filtering.

use vstd::prelude::*;
use crate::i18n::{current_wf, t, translate, I18n};
use crate::protocol::ChatInfo;
use crate::text::{
    chars_of, lemma_lex_asymmetric, lemma_lex_irreflexive, lemma_lex_transitive, lex_lt,
    seq_contains, str_contains, str_eq, str_lt, strip_both, is_ws, to_lowercase, trim,
    unicode_lower,
};

verus! {

broadcast use vstd::seq_lib::group_to_multiset_ensures;

// ---------------------------------------------------------------------------
// Ordering
// ---------------------------------------------------------------------------

/// `a` is listed before `b`: pinned chats first, then the most recent
/// activity, then by name.
pub open spec fn chat_before(a: ChatInfo, b: ChatInfo) -> bool {
    (a.pinned && !b.pinned) || (a.pinned == b.pinned && (a.last_activity > b.last_activity || (
    a.last_activity == b.last_activity && lex_lt(a.name@, b.name@))))
}

pub fn chat_before_exec(a: &ChatInfo, b: &ChatInfo) -> (r: bool)
    ensures
        r == chat_before(*a, *b),
{
    if a.pinned != b.pinned {
        return a.pinned;
    }
    if a.last_activity != b.last_activity {
        return a.last_activity > b.last_activity;
    }
    str_lt(a.name.as_str(), b.name.as_str())
}

pub proof fn lemma_chat_before_irreflexive(a: ChatInfo)
    ensures
        !chat_before(a, a),
{
    lemma_lex_irreflexive(a.name@);
}

pub proof fn lemma_chat_before_asymmetric(a: ChatInfo, b: ChatInfo)
    ensures
        !(chat_before(a, b) && chat_before(b, a)),
{
    lemma_lex_asymmetric(a.name@, b.name@);
}

pub proof fn lemma_chat_before_transitive(a: ChatInfo, b: ChatInfo, c: ChatInfo)
    requires
        chat_before(a, b),
        chat_before(b, c),
    ensures
        chat_before(a, c),
{
    if a.pinned == b.pinned && b.pinned == c.pinned && a.last_activity == b.last_activity
        && b.last_activity == c.last_activity {
        lemma_lex_transitive(a.name@, b.name@, c.name@);
    }
}

/// Every chat is listed no later than any chat that must come after it.
pub open spec fn chats_sorted(s: Seq<ChatInfo>) -> bool {
    forall|i: int, j: int| 0 <= i < j < s.len() ==> !chat_before(#[trigger] s[j], #[trigger] s[i])
}

/// Where a stable insertion puts `x`: before the first element it precedes.
pub open spec fn insert_pos(s: Seq<ChatInfo>, x: ChatInfo) -> nat
    decreases s.len(),
{
    if s.len() == 0 {
        0
    } else if chat_before(x, s[0]) {
        0
    } else {
        1 + insert_pos(s.drop_first(), x)
    }
}

pub open spec fn insert_sorted(s: Seq<ChatInfo>, x: ChatInfo) -> Seq<ChatInfo> {
    s.insert(insert_pos(s, x) as int, x)
}

/// The list `apply_chats` shows: a stable sort by `chat_before`.
pub open spec fn sort_chats_spec(s: Seq<ChatInfo>) -> Seq<ChatInfo>
    decreases s.len(),
{
    if s.len() == 0 {
        s
    } else {
        insert_sorted(sort_chats_spec(s.drop_last()), s.last())
    }
}

proof fn lemma_insert_pos_at(s: Seq<ChatInfo>, x: ChatInfo, j: int)
    requires
        0 <= j <= s.len(),
        forall|k: int| 0 <= k < j ==> !chat_before(x, #[trigger] s[k]),
        j == s.len() || chat_before(x, s[j]),
    ensures
        insert_pos(s, x) == j,
    decreases j,
{
    if j > 0 {
        let t = s.drop_first();
        assert forall|k: int| 0 <= k < j - 1 implies !chat_before(x, #[trigger] t[k]) by {
            assert(t[k] == s[k + 1]);
        }
        if j < s.len() {
            assert(t[j - 1] == s[j]);
        }
        assert(!chat_before(x, s[0]));
        lemma_insert_pos_at(t, x, j - 1);
    }
}

proof fn lemma_insert_pos_facts(s: Seq<ChatInfo>, x: ChatInfo)
    ensures
        insert_pos(s, x) <= s.len(),
        forall|k: int| 0 <= k < insert_pos(s, x) ==> !chat_before(x, #[trigger] s[k]),
        insert_pos(s, x) < s.len() ==> chat_before(x, s[insert_pos(s, x) as int]),
    decreases s.len(),
{
    if s.len() > 0 && !chat_before(x, s[0]) {
        let t = s.drop_first();
        lemma_insert_pos_facts(t, x);
        assert forall|k: int| 0 <= k < insert_pos(s, x) implies !chat_before(x, #[trigger] s[k]) by {
            if k > 0 {
                assert(s[k] == t[k - 1]);
            }
        }
        if insert_pos(s, x) < s.len() {
            assert(s[insert_pos(s, x) as int] == t[insert_pos(t, x) as int]);
        }
    }
}

proof fn lemma_insert_sorted_keeps_order(s: Seq<ChatInfo>, x: ChatInfo)
    requires
        chats_sorted(s),
    ensures
        chats_sorted(insert_sorted(s, x)),
        insert_sorted(s, x).to_multiset() == s.to_multiset().insert(x),
{
    lemma_insert_pos_facts(s, x);
    let p = insert_pos(s, x) as int;
    let t = insert_sorted(s, x);
    s.insert_ensures(p, x);
    assert forall|i: int, j: int| 0 <= i < j < t.len() implies !chat_before(
        #[trigger] t[j],
        #[trigger] t[i],
    ) by {
        if j < p {
            assert(t[i] == s[i] && t[j] == s[j]);
        } else if j == p {
            assert(t[i] == s[i]);
        } else if i == p {
            assert(t[j] == s[j - 1]);
            if chat_before(s[j - 1], x) {
                assert(chat_before(x, s[p]));
                if j - 1 == p {
                    lemma_chat_before_asymmetric(x, s[p]);
                } else {
                    lemma_chat_before_transitive(s[j - 1], x, s[p]);
                }
            }
        } else if i < p {
            assert(t[i] == s[i] && t[j] == s[j - 1]);
        } else {
            assert(t[i] == s[i - 1] && t[j] == s[j - 1]);
        }
    }
}

/// The sorted list is ordered and holds exactly the chats it was given.
pub proof fn lemma_sort_chats_spec(s: Seq<ChatInfo>)
    ensures
        chats_sorted(sort_chats_spec(s)),
        sort_chats_spec(s).to_multiset() == s.to_multiset(),
        sort_chats_spec(s).len() == s.len(),
    decreases s.len(),
{
    if s.len() > 0 {
        lemma_sort_chats_spec(s.drop_last());
        lemma_insert_sorted_keeps_order(sort_chats_spec(s.drop_last()), s.last());
        lemma_insert_pos_facts(sort_chats_spec(s.drop_last()), s.last());
        sort_chats_spec(s.drop_last()).insert_ensures(
            insert_pos(sort_chats_spec(s.drop_last()), s.last()) as int,
            s.last(),
        );
        assert(s.drop_last().push(s.last()) =~= s);
    }
}

/// Sort chats as the sidebar lists them (stable: equal chats keep their order).
pub fn sort_chats(chats: Vec<ChatInfo>) -> (out: Vec<ChatInfo>)
    ensures
        out@ == sort_chats_spec(chats@),
{
    let ghost orig = chats@;
    let mut rest = chats;
    let mut out: Vec<ChatInfo> = Vec::new();
    let n = rest.len();
    let mut i: usize = 0;
    assert(orig.take(0) =~= Seq::<ChatInfo>::empty());
    while i < n
        invariant
            n == orig.len(),
            i <= n,
            rest@ == orig.skip(i as int),
            out@ == sort_chats_spec(orig.take(i as int)),
        decreases n - i,
    {
        let x = rest.remove(0);
        assert(x == orig[i as int]);
        assert(rest@ =~= orig.skip(i + 1));
        let mut j: usize = 0;
        while j < out.len() && !chat_before_exec(&x, &out[j])
            invariant
                j <= out@.len(),
                forall|k: int| 0 <= k < j ==> !chat_before(x, #[trigger] out@[k]),
            decreases out@.len() - j,
        {
            j = j + 1;
        }
        proof {
            lemma_insert_pos_at(out@, x, j as int);
            assert(orig.take(i + 1).drop_last() =~= orig.take(i as int));
            assert(orig.take(i + 1).last() == x);
        }
        out.insert(j, x);
        i = i + 1;
    }
    assert(orig.take(n as int) =~= orig);
    out
}

// ---------------------------------------------------------------------------
// Looking chats up
// ---------------------------------------------------------------------------

/// Index of the first chat with this mid.
pub open spec fn index_of_mid(s: Seq<ChatInfo>, mid: Seq<char>) -> Option<int>
    decreases s.len(),
{
    if s.len() == 0 {
        None
    } else if s[0].mid@ == mid {
        Some(0)
    } else {
        match index_of_mid(s.drop_first(), mid) {
            Some(i) => Some(i + 1),
            None => None,
        }
    }
}

proof fn lemma_index_of_mid_at(s: Seq<ChatInfo>, mid: Seq<char>, j: int)
    requires
        0 <= j <= s.len(),
        forall|k: int| 0 <= k < j ==> (#[trigger] s[k]).mid@ != mid,
        j == s.len() || s[j].mid@ == mid,
    ensures
        index_of_mid(s, mid) == (if j == s.len() {
            None::<int>
        } else {
            Some(j)
        }),
    decreases j,
{
    if j > 0 {
        let t = s.drop_first();
        assert forall|k: int| 0 <= k < j - 1 implies (#[trigger] t[k]).mid@ != mid by {
            assert(t[k] == s[k + 1]);
        }
        if j < s.len() {
            assert(t[j - 1] == s[j]);
        }
        assert(s[0].mid@ != mid);
        lemma_index_of_mid_at(t, mid, j - 1);
    }
}

pub proof fn lemma_index_of_mid_facts(s: Seq<ChatInfo>, mid: Seq<char>)
    ensures
        match index_of_mid(s, mid) {
            Some(i) => 0 <= i < s.len() && s[i].mid@ == mid && forall|k: int|
                0 <= k < i ==> (#[trigger] s[k]).mid@ != mid,
            None => forall|k: int| 0 <= k < s.len() ==> (#[trigger] s[k]).mid@ != mid,
        },
    decreases s.len(),
{
    if s.len() > 0 && s[0].mid@ != mid {
        let t = s.drop_first();
        lemma_index_of_mid_facts(t, mid);
        match index_of_mid(t, mid) {
            Some(i) => {
                assert forall|k: int| 0 <= k < i + 1 implies (#[trigger] s[k]).mid@ != mid by {
                    if k > 0 {
                        assert(s[k] == t[k - 1]);
                    }
                }
            },
            None => {
                assert forall|k: int| 0 <= k < s.len() implies (#[trigger] s[k]).mid@ != mid by {
                    if k > 0 {
                        assert(s[k] == t[k - 1]);
                    }
                }
            },
        }
    }
}

/// Position of the chat `mid` in the list.
pub fn chat_position(chats: &Vec<ChatInfo>, mid: &str) -> (r: Option<usize>)
    ensures
        match r {
            Some(i) => index_of_mid(chats@, mid@) == Some(i as int),
            None => index_of_mid(chats@, mid@) is None,
        },
{
    let mut i: usize = 0;
    while i < chats.len()
        invariant
            i <= chats@.len(),
            forall|k: int| 0 <= k < i ==> (#[trigger] chats@[k]).mid@ != mid@,
        decreases chats@.len() - i,
    {
        if str_eq(chats[i].mid.as_str(), mid) {
            proof {
                lemma_index_of_mid_at(chats@, mid@, i as int);
            }
            return Some(i);
        }
        i = i + 1;
    }
    proof {
        lemma_index_of_mid_at(chats@, mid@, i as int);
    }
    None
}

/// No two chats share a mid.
pub open spec fn unique_mids(s: Seq<ChatInfo>) -> bool {
    forall|i: int, j: int|
        0 <= i < s.len() && 0 <= j < s.len() && i != j ==> (#[trigger] s[i]).mid@ != (
        #[trigger] s[j]).mid@
}

proof fn lemma_unique_remove(s: Seq<ChatInfo>, p: int)
    requires
        unique_mids(s),
        0 <= p < s.len(),
    ensures
        unique_mids(s.remove(p)),
        forall|k: int| 0 <= k < s.remove(p).len() ==> (#[trigger] s.remove(p)[k]).mid@ != s[p].mid@,
{
    s.remove_ensures(p);
    let r = s.remove(p);
    assert forall|k: int| 0 <= k < r.len() implies (#[trigger] r[k]).mid@ != s[p].mid@ by {
        if k < p {
            assert(r[k] == s[k]);
        } else {
            assert(r[k] == s[k + 1]);
        }
    }
    assert forall|i: int, j: int|
        0 <= i < r.len() && 0 <= j < r.len() && i != j implies (#[trigger] r[i]).mid@ != (
        #[trigger] r[j]).mid@ by {
        let ii = if i < p {
            i
        } else {
            i + 1
        };
        let jj = if j < p {
            j
        } else {
            j + 1
        };
        assert(r[i] == s[ii] && r[j] == s[jj]);
    }
}

proof fn lemma_unique_insert(s: Seq<ChatInfo>, t: int, x: ChatInfo)
    requires
        unique_mids(s),
        0 <= t <= s.len(),
        forall|k: int| 0 <= k < s.len() ==> (#[trigger] s[k]).mid@ != x.mid@,
    ensures
        unique_mids(s.insert(t, x)),
{
    s.insert_ensures(t, x);
    let r = s.insert(t, x);
    assert forall|i: int, j: int|
        0 <= i < r.len() && 0 <= j < r.len() && i != j implies (#[trigger] r[i]).mid@ != (
        #[trigger] r[j]).mid@ by {
        if i != t && j != t {
            let ii = if i < t {
                i
            } else {
                i - 1
            };
            let jj = if j < t {
                j
            } else {
                j - 1
            };
            assert(r[i] == s[ii] && r[j] == s[jj]);
        } else if i == t {
            let jj = if j < t {
                j
            } else {
                j - 1
            };
            assert(r[j] == s[jj]);
        } else {
            let ii = if i < t {
                i
            } else {
                i - 1
            };
            assert(r[i] == s[ii]);
        }
    }
}

// ---------------------------------------------------------------------------
// Promotion to the top
// ---------------------------------------------------------------------------

/// Number of pinned chats at the head of the list.
pub open spec fn leading_pinned(s: Seq<ChatInfo>) -> nat
    decreases s.len(),
{
    if s.len() == 0 || !s[0].pinned {
        0
    } else {
        1 + leading_pinned(s.drop_first())
    }
}

proof fn lemma_leading_pinned_at(s: Seq<ChatInfo>, j: int)
    requires
        0 <= j <= s.len(),
        forall|k: int| 0 <= k < j ==> (#[trigger] s[k]).pinned,
        j == s.len() || !s[j].pinned,
    ensures
        leading_pinned(s) == j,
    decreases j,
{
    if j > 0 {
        let t = s.drop_first();
        assert forall|k: int| 0 <= k < j - 1 implies (#[trigger] t[k]).pinned by {
            assert(t[k] == s[k + 1]);
        }
        if j < s.len() {
            assert(t[j - 1] == s[j]);
        }
        assert(s[0].pinned);
        lemma_leading_pinned_at(t, j - 1);
    }
}

/// Count of pinned chats at the head of the list.
pub fn leading_pinned_count(chats: &Vec<ChatInfo>) -> (n: usize)
    ensures
        n == leading_pinned(chats@),
{
    let mut j: usize = 0;
    while j < chats.len() && chats[j].pinned
        invariant
            j <= chats@.len(),
            forall|k: int| 0 <= k < j ==> (#[trigger] chats@[k]).pinned,
        decreases chats@.len() - j,
    {
        j = j + 1;
    }
    proof {
        lemma_leading_pinned_at(chats@, j as int);
    }
    j
}

/// Where a chat with new activity goes: the top for a pinned chat, else just
/// below the pinned chats.
pub open spec fn top_slot(s: Seq<ChatInfo>, x: ChatInfo) -> int {
    if x.pinned {
        0
    } else {
        leading_pinned(s) as int
    }
}

/// The list after moving chat `mid` to its top slot.
pub open spec fn promoted(s: Seq<ChatInfo>, mid: Seq<char>) -> Seq<ChatInfo> {
    match index_of_mid(s, mid) {
        None => s,
        Some(pos) => if pos == top_slot(s, s[pos]) {
            s
        } else {
            let r = s.remove(pos);
            r.insert(top_slot(r, s[pos]), s[pos])
        },
    }
}

proof fn lemma_leading_pinned_le(s: Seq<ChatInfo>)
    ensures
        leading_pinned(s) <= s.len(),
    decreases s.len(),
{
    if s.len() > 0 && s[0].pinned {
        lemma_leading_pinned_le(s.drop_first());
    }
}

/// Move chat `mid` to its top slot; returns the old and new positions when it
/// moved.
pub fn promote_chat_to_top(chats: &mut Vec<ChatInfo>, mid: &str) -> (r: Option<(usize, usize)>)
    ensures
        final(chats)@ == promoted(old(chats)@, mid@),
        match r {
            Some((from, _)) => index_of_mid(old(chats)@, mid@) == Some(from as int),
            None => final(chats)@ == old(chats)@,
        },
{
    proof {
        lemma_index_of_mid_facts(chats@, mid@);
        lemma_leading_pinned_le(chats@);
    }
    let pos = match chat_position(chats, mid) {
        Some(p) => p,
        None => return None,
    };
    let target = if chats[pos].pinned {
        0
    } else {
        leading_pinned_count(chats)
    };
    if pos == target {
        return None;
    }
    let chat = chats.remove(pos);
    proof {
        lemma_leading_pinned_le(chats@);
    }
    let to = if chat.pinned {
        0
    } else {
        leading_pinned_count(chats)
    };
    chats.insert(to, chat);
    Some((pos, to))
}

/// Moving a chat to the top keeps every chat in the list exactly once.
pub proof fn lemma_promoted_is_permutation(s: Seq<ChatInfo>, mid: Seq<char>)
    ensures
        promoted(s, mid).to_multiset() == s.to_multiset(),
        promoted(s, mid).len() == s.len(),
        unique_mids(s) ==> unique_mids(promoted(s, mid)),
{
    lemma_index_of_mid_facts(s, mid);
    match index_of_mid(s, mid) {
        None => {},
        Some(pos) => {
            if pos != top_slot(s, s[pos]) {
                let r = s.remove(pos);
                lemma_leading_pinned_le(r);
                assert(s.to_multiset().remove(s[pos]).insert(s[pos]) =~= s.to_multiset());
                if unique_mids(s) {
                    lemma_unique_remove(s, pos);
                    lemma_unique_insert(r, top_slot(r, s[pos]), s[pos]);
                }
            }
        },
    }
}

// ---------------------------------------------------------------------------
// Live updates
// ---------------------------------------------------------------------------

/// The chat record after an upsert event for a chat already listed: a
/// non-empty name (other than the bare mid), kind and preview replace the
/// old ones, activity only moves forward, a new avatar replaces the old one,
/// and the pin follows the event.
pub open spec fn merged_chat(cur: ChatInfo, new: ChatInfo) -> ChatInfo {
    ChatInfo {
        mid: cur.mid,
        name: if new.name@.len() > 0 && new.name@ != new.mid@ {
            new.name
        } else {
            cur.name
        },
        kind: if new.kind@.len() > 0 {
            new.kind
        } else {
            cur.kind
        },
        avatar_path: if new.avatar_path is Some {
            new.avatar_path
        } else {
            cur.avatar_path
        },
        last_activity: if new.last_activity > cur.last_activity {
            new.last_activity
        } else {
            cur.last_activity
        },
        unread: cur.unread,
        preview: if new.preview@.len() > 0 {
            new.preview
        } else {
            cur.preview
        },
        muted: cur.muted,
        pinned: new.pinned,
    }
}

pub fn merge_chat(cur: ChatInfo, new: ChatInfo) -> (out: ChatInfo)
    ensures
        out == merged_chat(cur, new),
{
    let take_name = !new.name.as_str().is_empty() && !str_eq(new.name.as_str(), new.mid.as_str());
    let take_kind = !new.kind.as_str().is_empty();
    let take_preview = !new.preview.as_str().is_empty();
    let take_avatar = new.avatar_path.is_some();
    let newer = new.last_activity > cur.last_activity;
    ChatInfo {
        mid: cur.mid,
        name: if take_name {
            new.name
        } else {
            cur.name
        },
        kind: if take_kind {
            new.kind
        } else {
            cur.kind
        },
        avatar_path: if take_avatar {
            new.avatar_path
        } else {
            cur.avatar_path
        },
        last_activity: if newer {
            new.last_activity
        } else {
            cur.last_activity
        },
        unread: cur.unread,
        preview: if take_preview {
            new.preview
        } else {
            cur.preview
        },
        muted: cur.muted,
        pinned: new.pinned,
    }
}

/// What an upsert did to the list.
#[derive(Debug)]
pub enum Upsert {
    /// The chat was listed: merged, then moved from `from` to `to` when it moved.
    Updated { moved: Option<(usize, usize)> },
    /// The chat was new and was inserted at `at`.
    Inserted { at: usize },
}

/// The list after an upsert event.
pub open spec fn upserted(s: Seq<ChatInfo>, chat: ChatInfo) -> Seq<ChatInfo> {
    match index_of_mid(s, chat.mid@) {
        Some(p) => promoted(s.update(p, merged_chat(s[p], chat)), chat.mid@),
        None => s.insert(top_slot(s, chat), chat),
    }
}

/// Add a chat announced by the engine, or merge it into the listed one and
/// move it to the top.
pub fn upsert_chat(chats: &mut Vec<ChatInfo>, chat: ChatInfo) -> (r: Upsert)
    ensures
        final(chats)@ == upserted(old(chats)@, chat),
        match r {
            Upsert::Inserted { at } => index_of_mid(old(chats)@, chat.mid@) is None && at
                == top_slot(old(chats)@, chat),
            Upsert::Updated { .. } => index_of_mid(old(chats)@, chat.mid@) is Some,
        },
{
    proof {
        lemma_index_of_mid_facts(chats@, chat.mid@);
        lemma_leading_pinned_le(chats@);
    }
    let mid_copy = crate::text::to_owned_string(chat.mid.as_str());
    match chat_position(chats, chat.mid.as_str()) {
        Some(p) => {
            let ghost before = chats@;
            let cur = chats.remove(p);
            let merged = merge_chat(cur, chat);
            chats.insert(p, merged);
            assert(chats@ =~= before.update(p as int, merged_chat(before[p as int], chat)));
            let moved = promote_chat_to_top(chats, mid_copy.as_str());
            Upsert::Updated { moved }
        },
        None => {
            let at = if chat.pinned {
                0
            } else {
                leading_pinned_count(chats)
            };
            chats.insert(at, chat);
            Upsert::Inserted { at }
        },
    }
}

/// Lists a chat that is not listed yet (as an upsert would); a listed chat
/// is left as it is. Returns whether the chat was added.
pub fn ensure_chat_visible(chats: &mut Vec<ChatInfo>, chat: &ChatInfo) -> (added: bool)
    ensures
        added == (index_of_mid(old(chats)@, chat.mid@) is None),
        added ==> final(chats)@ == upserted(old(chats)@, *chat),
        !added ==> final(chats)@ == old(chats)@,
{
    proof {
        lemma_index_of_mid_facts(chats@, chat.mid@);
    }
    if chat_position(chats, chat.mid.as_str()).is_some() {
        return false;
    }
    let copy = ChatInfo {
        mid: chat.mid.clone(),
        name: chat.name.clone(),
        kind: chat.kind.clone(),
        avatar_path: chat.avatar_path.clone(),
        last_activity: chat.last_activity,
        unread: chat.unread,
        preview: chat.preview.clone(),
        muted: chat.muted,
        pinned: chat.pinned,
    };
    assert(copy == *chat);
    let _ = upsert_chat(chats, copy);
    true
}

/// An upsert keeps chat mids unique and leaves the chat listed.
pub proof fn lemma_upsert_keeps_mids_unique(s: Seq<ChatInfo>, chat: ChatInfo)
    requires
        unique_mids(s),
    ensures
        unique_mids(upserted(s, chat)),
        index_of_mid(upserted(s, chat), chat.mid@) is Some,
        upserted(s, chat).len() == s.len() + (if index_of_mid(s, chat.mid@) is Some {
            0int
        } else {
            1int
        }),
{
    lemma_index_of_mid_facts(s, chat.mid@);
    match index_of_mid(s, chat.mid@) {
        Some(p) => {
            let u = s.update(p, merged_chat(s[p], chat));
            assert forall|i: int, j: int|
                0 <= i < u.len() && 0 <= j < u.len() && i != j implies (#[trigger] u[i]).mid@ != (
            #[trigger] u[j]).mid@ by {
                assert(u[i].mid@ == s[i].mid@);
                assert(u[j].mid@ == s[j].mid@);
            }
            lemma_promoted_is_permutation(u, chat.mid@);
            let r = promoted(u, chat.mid@);
            assert(u.to_multiset().contains(u[p]));
            assert(r.to_multiset().contains(u[p]));
            let k = choose|k: int| 0 <= k < r.len() && r[k] == u[p];
            lemma_index_of_mid_facts(r, chat.mid@);
            assert(r[k].mid@ == chat.mid@);
        },
        None => {
            lemma_leading_pinned_le(s);
            let t = top_slot(s, chat);
            lemma_unique_insert(s, t, chat);
            s.insert_ensures(t, chat);
            lemma_index_of_mid_facts(s.insert(t, chat), chat.mid@);
            assert(s.insert(t, chat)[t].mid@ == chat.mid@);
        },
    }
}

/// Where an upsert puts a chat: a new chat goes to the top when pinned, else
/// just below the pinned chats; a listed chat is replaced by its merged
/// record (activity only moving forward, pin and name from the event as
/// `merged_chat` says) and every other chat keeps its relative order.
pub proof fn lemma_upsert_position(s: Seq<ChatInfo>, chat: ChatInfo)
    requires
        unique_mids(s),
    ensures
        index_of_mid(s, chat.mid@) is None ==> upserted(s, chat) == s.insert(
            if chat.pinned { 0 } else { leading_pinned(s) as int },
            chat,
        ),
        index_of_mid(s, chat.mid@) matches Some(p) ==> exists|q: int|
            0 <= q < s.len() && upserted(s, chat)[q] == merged_chat(s[p], chat) && #[trigger] upserted(
                s,
                chat,
            ).remove(q) == s.remove(p),
{
    lemma_index_of_mid_facts(s, chat.mid@);
    if let Some(p) = index_of_mid(s, chat.mid@) {
        let m = merged_chat(s[p], chat);
        let u = s.update(p, m);
        lemma_index_of_mid_facts(u, chat.mid@);
        assert(u[p].mid@ == chat.mid@);
        assert forall|j: int| 0 <= j < p implies u[j].mid@ != chat.mid@ by {
            assert(u[j] == s[j]);
        }
        assert(index_of_mid(u, chat.mid@) == Some(p)) by {
            match index_of_mid(u, chat.mid@) {
                Some(i) => {
                    if i < p {
                        assert(u[i] == s[i]);
                    } else if i > p {
                    }
                },
                None => {},
            }
        }
        let r = upserted(s, chat);
        if p == top_slot(u, u[p]) {
            assert(r == u);
            assert(u.remove(p) =~= s.remove(p));
            assert(r.remove(p) == s.remove(p));
        } else {
            let rest = u.remove(p);
            let t = top_slot(rest, u[p]);
            lemma_leading_pinned_le(rest);
            assert(rest =~= s.remove(p));
            rest.insert_ensures(t, u[p]);
            assert(r.remove(t) =~= rest);
            assert(r[t] == m);
        }
    }
}

// ---------------------------------------------------------------------------
// Unread counters, mute and previews
// ---------------------------------------------------------------------------

/// The list with chat `mid`'s record changed by `f` (unchanged when absent).
pub open spec fn with_chat(s: Seq<ChatInfo>, mid: Seq<char>, f: spec_fn(ChatInfo) -> ChatInfo) -> Seq<
    ChatInfo,
> {
    match index_of_mid(s, mid) {
        Some(p) => s.update(p, f(s[p])),
        None => s,
    }
}

pub open spec fn bumped(c: ChatInfo) -> ChatInfo {
    ChatInfo {
        unread: if c.unread == i64::MAX {
            i64::MAX
        } else {
            (c.unread + 1) as i64
        },
        ..c
    }
}

pub open spec fn cleared(c: ChatInfo) -> ChatInfo {
    ChatInfo { unread: 0, ..c }
}

/// One more unread message in chat `mid`; returns the count to show (1 when
/// the chat is not listed).
pub fn bump_unread(chats: &mut Vec<ChatInfo>, mid: &str) -> (n: i64)
    ensures
        final(chats)@ == with_chat(old(chats)@, mid@, |c: ChatInfo| bumped(c)),
        n == (match index_of_mid(old(chats)@, mid@) {
            Some(p) => bumped(old(chats)@[p]).unread,
            None => 1,
        }),
{
    proof {
        lemma_index_of_mid_facts(chats@, mid@);
    }
    match chat_position(chats, mid) {
        Some(p) => {
            let ghost before = chats@;
            let mut c = chats.remove(p);
            c.unread = if c.unread == i64::MAX {
                i64::MAX
            } else {
                c.unread + 1
            };
            let n = c.unread;
            chats.insert(p, c);
            assert(chats@ =~= before.update(p as int, bumped(before[p as int])));
            n
        },
        None => 1,
    }
}

/// Chat `mid` has been read: its unread count drops to zero.
pub fn clear_unread(chats: &mut Vec<ChatInfo>, mid: &str)
    ensures
        final(chats)@ == with_chat(old(chats)@, mid@, |c: ChatInfo| cleared(c)),
{
    proof {
        lemma_index_of_mid_facts(chats@, mid@);
    }
    if let Some(p) = chat_position(chats, mid) {
        let ghost before = chats@;
        let mut c = chats.remove(p);
        c.unread = 0;
        chats.insert(p, c);
        assert(chats@ =~= before.update(p as int, cleared(before[p as int])));
    }
}

/// Chat `mid`'s mute flag as the engine reports it.
pub fn set_chat_muted(chats: &mut Vec<ChatInfo>, mid: &str, muted: bool)
    ensures
        final(chats)@ == with_chat(old(chats)@, mid@, |c: ChatInfo| ChatInfo { muted, ..c }),
{
    proof {
        lemma_index_of_mid_facts(chats@, mid@);
    }
    if let Some(p) = chat_position(chats, mid) {
        let ghost before = chats@;
        let mut c = chats.remove(p);
        c.muted = muted;
        chats.insert(p, c);
        assert(chats@ =~= before.update(p as int, ChatInfo { muted, ..before[p as int] }));
    }
}

/// A new preview line for chat `mid`; its activity time only moves forward.
pub open spec fn previewed(c: ChatInfo, preview: String, last_activity: i64) -> ChatInfo {
    ChatInfo {
        preview,
        last_activity: if last_activity > c.last_activity {
            last_activity
        } else {
            c.last_activity
        },
        ..c
    }
}

pub fn set_chat_preview(chats: &mut Vec<ChatInfo>, mid: &str, preview: String, last_activity: i64)
    ensures
        final(chats)@ == with_chat(
            old(chats)@,
            mid@,
            |c: ChatInfo| previewed(c, preview, last_activity),
        ),
{
    proof {
        lemma_index_of_mid_facts(chats@, mid@);
    }
    if let Some(p) = chat_position(chats, mid) {
        let ghost before = chats@;
        let mut c = chats.remove(p);
        c.preview = preview;
        if last_activity > c.last_activity {
            c.last_activity = last_activity;
        }
        chats.insert(p, c);
        assert(chats@ =~= before.update(p as int, previewed(before[p as int], preview, last_activity)));
    }
}

/// Chat `mid`'s avatar picture, once downloaded.
pub fn set_chat_avatar(chats: &mut Vec<ChatInfo>, mid: &str, avatar_path: String)
    ensures
        final(chats)@ == with_chat(
            old(chats)@,
            mid@,
            |c: ChatInfo| ChatInfo { avatar_path: Some(avatar_path), ..c },
        ),
{
    proof {
        lemma_index_of_mid_facts(chats@, mid@);
    }
    if let Some(p) = chat_position(chats, mid) {
        let ghost before = chats@;
        let mut c = chats.remove(p);
        c.avatar_path = Some(avatar_path);
        chats.insert(p, c);
        assert(chats@ =~= before.update(
            p as int,
            ChatInfo { avatar_path: Some(avatar_path), ..before[p as int] },
        ));
    }
}

} // verus!

verus! {

// ---------------------------------------------------------------------------
// Message ids and read receipts
// ---------------------------------------------------------------------------

/// `a` is no later than `b`: numerically when both are decimal ids that fit
/// 128 bits, else as strings.
pub open spec fn msg_id_le_spec(a: Seq<char>, b: Seq<char>) -> bool {
    match (crate::text::parse_u128_spec(a), crate::text::parse_u128_spec(b)) {
        (Some(x), Some(y)) => x <= y,
        _ => !lex_lt(b, a),
    }
}

pub fn msg_id_le(a: &str, b: &str) -> (r: bool)
    ensures
        r == msg_id_le_spec(a@, b@),
{
    match (crate::text::parse_u128(a), crate::text::parse_u128(b)) {
        (Some(x), Some(y)) => x <= y,
        _ => !str_lt(b, a),
    }
}

/// A read receipt for `message_id` moves the "read up to" mark of a chat:
/// ids must be non-empty and the receipt strictly newer than the mark.
pub open spec fn read_advances(
    chat_mid: Seq<char>,
    message_id: Seq<char>,
    prev: Option<Seq<char>>,
) -> bool {
    chat_mid.len() > 0 && message_id.len() > 0 && match prev {
        Some(p) => !msg_id_le_spec(message_id, p),
        None => true,
    }
}

pub fn peer_read_advances(chat_mid: &str, message_id: &str, prev: &Option<String>) -> (r: bool)
    ensures
        r == read_advances(
            chat_mid@,
            message_id@,
            match prev {
                Some(p) => Some(p@),
                None => None,
            },
        ),
{
    if chat_mid.is_empty() || message_id.is_empty() {
        return false;
    }
    match prev {
        Some(p) => !msg_id_le(message_id, p.as_str()),
        None => true,
    }
}

/// The "read up to" mark after a receipt: moved to `message_id` when the
/// receipt advances it, else unchanged.
pub fn next_read_mark(chat_mid: &str, message_id: &str, prev: Option<String>) -> (r: Option<String>)
    ensures
        match prev {
            Some(p) => read_advances(chat_mid@, message_id@, Some(p@)),
            None => read_advances(chat_mid@, message_id@, None),
        } ==> r is Some && r->0@ == message_id@,
        !match prev {
            Some(p) => read_advances(chat_mid@, message_id@, Some(p@)),
            None => read_advances(chat_mid@, message_id@, None),
        } ==> r == prev,
{
    if peer_read_advances(chat_mid, message_id, &prev) {
        Some(crate::text::to_owned_string(message_id))
    } else {
        prev
    }
}

/// A read mark never moves back: after a receipt the mark is the old one or
/// a later one.
pub proof fn lemma_read_mark_never_moves_back(chat_mid: Seq<char>, message_id: Seq<char>, prev: Seq<char>)
    ensures
        read_advances(chat_mid, message_id, Some(prev)) ==> msg_id_le_spec(prev, message_id),
{
    if read_advances(chat_mid, message_id, Some(prev)) {
        match (crate::text::parse_u128_spec(message_id), crate::text::parse_u128_spec(prev)) {
            (Some(x), Some(y)) => {},
            _ => {
                lemma_lex_asymmetric(prev, message_id);
            },
        }
    }
}

// ---------------------------------------------------------------------------
// Search
// ---------------------------------------------------------------------------

/// A chat matches a search when the trimmed, lower-cased query is empty or
/// occurs in the lower-cased name or preview.
pub open spec fn chat_matches(query: Seq<char>, chat: ChatInfo) -> bool {
    let q = unicode_lower(strip_both(query, |c: char| is_ws(c)));
    q.len() == 0 || seq_contains(unicode_lower(chat.name@), q) || seq_contains(
        unicode_lower(chat.preview@),
        q,
    )
}

/// Which sidebar rows stay visible for a search query.
pub fn filter_chats(chats: &Vec<ChatInfo>, query: &str) -> (visible: Vec<bool>)
    ensures
        visible@.len() == chats@.len(),
        forall|i: int| 0 <= i < chats@.len() ==> #[trigger] visible@[i] == chat_matches(query@, chats@[i]),
{
    let trimmed = trim(query);
    let q = to_lowercase(trimmed.as_str());
    let empty = q.as_str().is_empty();
    let mut visible: Vec<bool> = Vec::new();
    let mut i: usize = 0;
    while i < chats.len()
        invariant
            i <= chats@.len(),
            q@ == unicode_lower(strip_both(query@, |c: char| is_ws(c))),
            empty == (q@.len() == 0),
            visible@.len() == i,
            forall|k: int| 0 <= k < i ==> #[trigger] visible@[k] == chat_matches(query@, chats@[k]),
        decreases chats@.len() - i,
    {
        let v = if empty {
            true
        } else {
            let name = to_lowercase(chats[i].name.as_str());
            let preview = to_lowercase(chats[i].preview.as_str());
            str_contains(name.as_str(), q.as_str()) || str_contains(preview.as_str(), q.as_str())
        };
        visible.push(v);
        i = i + 1;
    }
    visible
}

// ---------------------------------------------------------------------------
// Pins
// ---------------------------------------------------------------------------

/// The strings of `v`, as character sequences.
pub open spec fn string_views(v: Seq<String>) -> Seq<Seq<char>> {
    v.map_values(|s: String| s@)
}

/// The test "is not `mid`".
pub open spec fn not_mid(mid: Seq<char>) -> spec_fn(Seq<char>) -> bool {
    |s: Seq<char>| s != mid
}

/// `v` without the entries equal to `mid`.
pub open spec fn without(v: Seq<Seq<char>>, mid: Seq<char>) -> Seq<Seq<char>> {
    v.filter(not_mid(mid))
}

/// The pinned list after pinning (`next`) or unpinning chat `mid`: every
/// entry for it goes, then it is appended when pinned.
pub open spec fn toggled_pins(v: Seq<Seq<char>>, mid: Seq<char>, next: bool) -> Seq<Seq<char>> {
    if next {
        without(v, mid).push(mid)
    } else {
        without(v, mid)
    }
}

pub fn set_pinned(pinned: Vec<String>, mid: &str, next: bool) -> (out: Vec<String>)
    ensures
        string_views(out@) == toggled_pins(string_views(pinned@), mid@, next),
{
    let ghost views = string_views(pinned@);
    let mut out: Vec<String> = Vec::new();
    let mut rest = pinned;
    let ghost orig = rest@;
    let n = rest.len();
    let mut i: usize = 0;
    assert(views.take(0).filter(not_mid(mid@)) =~= Seq::<Seq<char>>::empty());
    while i < n
        invariant
            n == orig.len(),
            views == string_views(orig),
            i <= n,
            rest@ == orig.skip(i as int),
            string_views(out@) == without(views.take(i as int), mid@),
        decreases n - i,
    {
        let item = rest.remove(0);
        assert(item == orig[i as int]);
        assert(rest@ =~= orig.skip(i + 1));
        assert(views.take(i + 1).drop_last() =~= views.take(i as int));
        assert(views.take(i + 1).last() == item@);
        proof {
            views.take(i + 1).filter_lemma(not_mid(mid@));
            reveal(Seq::filter);
        }
        if !str_eq(item.as_str(), mid) {
            out.push(item);
            assert(string_views(out@) =~= without(views.take(i as int), mid@).push(item@));
        } else {
            assert(string_views(out@) =~= without(views.take(i as int), mid@));
        }
        i = i + 1;
    }
    assert(views.take(n as int) =~= views);
    if next {
        out.push(crate::text::to_owned_string(mid));
        assert(string_views(out@) =~= without(views, mid@).push(mid@));
    }
    out
}

/// Pinning leaves the chat pinned exactly once; unpinning leaves it unpinned;
/// other pins are untouched.
pub proof fn lemma_toggled_pins(v: Seq<Seq<char>>, mid: Seq<char>, next: bool)
    ensures
        toggled_pins(v, mid, next).contains(mid) == next,
        next ==> toggled_pins(v, mid, next).filter(|s: Seq<char>| s == mid).len() == 1,
        forall|other: Seq<char>|
            other != mid ==> (v.contains(other) <==> toggled_pins(v, mid, next).contains(other)),
{
    let w = without(v, mid);
    v.filter_lemma(not_mid(mid));
    assert(!w.contains(mid));
    assert forall|other: Seq<char>| other != mid implies (v.contains(other) <==> w.contains(
        other,
    )) by {
        if v.contains(other) {
            let k = choose|k: int| 0 <= k < v.len() && v[k] == other;
            assert(w.contains(v[k]));
        }
        if w.contains(other) {
            v.lemma_filter_contains_rev(not_mid(mid), other);
        }
    }
    if next {
        let t = w.push(mid);
        assert(t.contains(mid)) by {
            assert(t[t.len() - 1] == mid);
        }
        assert forall|other: Seq<char>| other != mid implies (w.contains(other) <==> t.contains(
            other,
        )) by {
            if t.contains(other) {
                let k = choose|k: int| 0 <= k < t.len() && t[k] == other;
                assert(k < w.len());
                assert(w[k] == other);
            }
            if w.contains(other) {
                let k = choose|k: int| 0 <= k < w.len() && w[k] == other;
                assert(t[k] == other);
            }
        }
        lemma_filter_only_last(w, mid);
    }
}

proof fn lemma_filter_only_last(w: Seq<Seq<char>>, mid: Seq<char>)
    requires
        !w.contains(mid),
    ensures
        w.push(mid).filter(|s: Seq<char>| s == mid).len() == 1,
{
    let f = |s: Seq<char>| s == mid;
    reveal(Seq::filter);
    assert(w.push(mid).drop_last() =~= w);
    lemma_filter_empty_when_absent(w, mid);
}

proof fn lemma_filter_empty_when_absent(w: Seq<Seq<char>>, mid: Seq<char>)
    requires
        !w.contains(mid),
    ensures
        w.filter(|s: Seq<char>| s == mid).len() == 0,
    decreases w.len(),
{
    reveal(Seq::filter);
    if w.len() > 0 {
        assert(!w.drop_last().contains(mid)) by {
            if w.drop_last().contains(mid) {
                let k = choose|k: int| 0 <= k < w.drop_last().len() && w.drop_last()[k] == mid;
                assert(w[k] == mid);
            }
        }
        assert(w.last() != mid) by {
            if w.last() == mid {
                assert(w[w.len() - 1] == mid);
            }
        }
        lemma_filter_empty_when_absent(w.drop_last(), mid);
    }
}

/// Marks each chat that is in the pinned list; the engine's own pin flags stay.
pub open spec fn mark_pinned_spec(s: Seq<ChatInfo>, pinned: Seq<Seq<char>>) -> Seq<ChatInfo> {
    s.map_values(|c: ChatInfo| ChatInfo { pinned: c.pinned || pinned.contains(c.mid@), ..c })
}

/// Whether `mid` is in the list.
pub fn contains_string(list: &Vec<String>, mid: &str) -> (r: bool)
    ensures
        r == string_views(list@).contains(mid@),
{
    let mut i: usize = 0;
    while i < list.len()
        invariant
            i <= list@.len(),
            forall|k: int| 0 <= k < i ==> (#[trigger] list@[k])@ != mid@,
        decreases list@.len() - i,
    {
        if str_eq(list[i].as_str(), mid) {
            assert(string_views(list@)[i as int] == mid@);
            return true;
        }
        i = i + 1;
    }
    proof {
        if string_views(list@).contains(mid@) {
            let k = choose|k: int| 0 <= k < list@.len() && string_views(list@)[k] == mid@;
            assert(list@[k]@ == mid@);
        }
    }
    false
}

/// The chat list as the sidebar shows it: pins applied, then sorted.
pub fn order_chat_list(chats: Vec<ChatInfo>, pinned: &Vec<String>) -> (out: Vec<ChatInfo>)
    ensures
        out@ == sort_chats_spec(mark_pinned_spec(chats@, string_views(pinned@))),
{
    let ghost orig = chats@;
    let mut rest = chats;
    let mut marked: Vec<ChatInfo> = Vec::new();
    let n = rest.len();
    let mut i: usize = 0;
    while i < n
        invariant
            n == orig.len(),
            i <= n,
            rest@ == orig.skip(i as int),
            marked@ == mark_pinned_spec(orig.take(i as int), string_views(pinned@)),
        decreases n - i,
    {
        let mut c = rest.remove(0);
        assert(c == orig[i as int]);
        assert(rest@ =~= orig.skip(i + 1));
        if !c.pinned && contains_string(pinned, c.mid.as_str()) {
            c.pinned = true;
        }
        marked.push(c);
        i = i + 1;
        assert(marked@ =~= mark_pinned_spec(orig.take(i as int), string_views(pinned@)));
    }
    assert(orig.take(n as int) =~= orig);
    sort_chats(marked)
}

/// Sorting after pinning shows pinned chats above all others.
pub proof fn lemma_pinned_chats_first(s: Seq<ChatInfo>, pinned: Seq<Seq<char>>)
    ensures
        forall|i: int, j: int|
            0 <= i < j < s.len() ==> (#[trigger] sort_chats_spec(mark_pinned_spec(s, pinned))[j]).pinned
                ==> (#[trigger] sort_chats_spec(mark_pinned_spec(s, pinned))[i]).pinned,
{
    let m = mark_pinned_spec(s, pinned);
    lemma_sort_chats_spec(m);
}

// ---------------------------------------------------------------------------
// Opening chats
// ---------------------------------------------------------------------------

/// What restoring the last opened chat does at this point.
#[derive(Debug)]
pub enum RestoreStep {
    /// Nothing yet: already restored, still signing in, or the chat is not
    /// listed yet.
    Wait,
    /// Give up or skip: there is nothing to restore.
    Finish,
    /// Open the chat at this index of the list.
    Open(usize),
}

pub open spec fn restore_step_spec(
    restored: bool,
    has_current: bool,
    session_ready: bool,
    last: Seq<char>,
    chats: Seq<ChatInfo>,
) -> RestoreStep {
    if restored {
        RestoreStep::Wait
    } else if has_current {
        RestoreStep::Finish
    } else if !session_ready {
        RestoreStep::Wait
    } else if last.len() == 0 {
        RestoreStep::Finish
    } else {
        match index_of_mid(chats, last) {
            Some(i) => RestoreStep::Open(i as usize),
            None => RestoreStep::Wait,
        }
    }
}

pub fn restore_last_chat_step(
    restored: bool,
    has_current: bool,
    session_ready: bool,
    last: &str,
    chats: &Vec<ChatInfo>,
) -> (r: RestoreStep)
    ensures
        r == restore_step_spec(restored, has_current, session_ready, last@, chats@),
{
    if restored {
        RestoreStep::Wait
    } else if has_current {
        RestoreStep::Finish
    } else if !session_ready {
        RestoreStep::Wait
    } else if last.is_empty() {
        RestoreStep::Finish
    } else {
        match chat_position(chats, last) {
            Some(i) => RestoreStep::Open(i),
            None => RestoreStep::Wait,
        }
    }
}

/// Voice calls are offered for a listed one-to-one chat (mid starting with
/// `u`) that is not a bot.
pub open spec fn can_call_spec(chats: Seq<ChatInfo>, current: Option<Seq<char>>) -> bool {
    match current {
        Some(mid) => match index_of_mid(chats, mid) {
            Some(i) => chats[i].mid@.len() > 0 && chats[i].mid@[0] == 'u' && chats[i].kind@
                != "bot"@,
            None => false,
        },
        None => false,
    }
}

pub fn can_call(chats: &Vec<ChatInfo>, current: &Option<String>) -> (r: bool)
    ensures
        r == can_call_spec(
            chats@,
            match current {
                Some(m) => Some(m@),
                None => None,
            },
        ),
{
    proof {
        if let Some(m) = current {
            lemma_index_of_mid_facts(chats@, m@);
        }
    }
    match current {
        Some(mid) => match chat_position(chats, mid.as_str()) {
            Some(i) => {
                let m = chars_of(chats[i].mid.as_str());
                m.len() > 0 && m[0] == 'u' && !str_eq(chats[i].kind.as_str(), "bot")
            },
            None => false,
        },
        None => false,
    }
}

// ---------------------------------------------------------------------------
// Mute, pin and read actions on the open chat
// ---------------------------------------------------------------------------

/// Chat `mid`'s pin flag, as the pin button sets it.
pub fn set_chat_pinned(chats: &mut Vec<ChatInfo>, mid: &str, pinned: bool)
    ensures
        final(chats)@ == with_chat(old(chats)@, mid@, |c: ChatInfo| ChatInfo { pinned, ..c }),
{
    proof {
        lemma_index_of_mid_facts(chats@, mid@);
    }
    if let Some(p) = chat_position(chats, mid) {
        let ghost before = chats@;
        let mut c = chats.remove(p);
        c.pinned = pinned;
        chats.insert(p, c);
        assert(chats@ =~= before.update(p as int, ChatInfo { pinned, ..before[p as int] }));
    }
}

/// A flag of the listed chat `mid`; `false` when it is not listed.
pub open spec fn listed_flag(chats: Seq<ChatInfo>, mid: Seq<char>, f: spec_fn(ChatInfo) -> bool) -> bool {
    match index_of_mid(chats, mid) {
        Some(i) => f(chats[i]),
        None => false,
    }
}

/// What the mute button does.
#[derive(Debug)]
pub enum MuteToggle {
    /// No chat is open.
    Nothing,
    /// Only one-to-one chats can be muted: show this toast.
    DirectOnly(String),
    /// Ask the engine to set the chat's mute flag.
    Request { mid: String, muted: bool },
}

/// The mute button flips the open one-to-one chat's mute flag.
pub fn mute_toggle(cur: &Option<I18n>, chats: &Vec<ChatInfo>, current: &Option<String>) -> (r: MuteToggle)
    requires
        current_wf(*cur),
    ensures
        match *current {
            None => r is Nothing,
            Some(m) => if m@.len() > 0 && m@[0] == 'u' {
                r matches MuteToggle::Request { mid, muted } && mid == m
                    && muted == !listed_flag(chats@, m@, |c: ChatInfo| c.muted)
            } else {
                r matches MuteToggle::DirectOnly(msg) && msg@ == translate(*cur, "mute_dm_only"@)
            },
        },
{
    let mid = match current {
        Some(m) => m,
        None => return MuteToggle::Nothing,
    };
    let v = chars_of(mid.as_str());
    if !(v.len() > 0 && v[0] == 'u') {
        return MuteToggle::DirectOnly(t(cur, "mute_dm_only"));
    }
    proof {
        lemma_index_of_mid_facts(chats@, mid@);
    }
    let currently = match chat_position(chats, mid.as_str()) {
        Some(i) => chats[i].muted,
        None => false,
    };
    MuteToggle::Request { mid: mid.clone(), muted: !currently }
}

/// The pin button flips the open chat's pin flag: the chat and its new flag.
pub fn pin_toggle(chats: &Vec<ChatInfo>, current: &Option<String>) -> (r: Option<(String, bool)>)
    ensures
        match *current {
            None => r is None,
            Some(m) => r == Some((m, !listed_flag(chats@, m@, |c: ChatInfo| c.pinned))),
        },
{
    let mid = match current {
        Some(m) => m,
        None => return None,
    };
    proof {
        lemma_index_of_mid_facts(chats@, mid@);
    }
    let currently = match chat_position(chats, mid.as_str()) {
        Some(i) => chats[i].pinned,
        None => false,
    };
    Some((mid.clone(), !currently))
}

/// The message to mark as read when a chat is read: the newest incoming one,
/// when marking is switched on and there is one.
pub fn read_mark_target(auto_mark_read: bool, last_incoming: &Option<String>) -> (r: Option<String>)
    ensures
        r == (if auto_mark_read && last_incoming is Some && last_incoming->0@.len() > 0 {
            *last_incoming
        } else {
            None
        }),
{
    if !auto_mark_read {
        return None;
    }
    match last_incoming {
        Some(id) => if chars_of(id.as_str()).len() > 0 {
            Some(id.clone())
        } else {
            None
        },
        None => None,
    }
}

// ---------------------------------------------------------------------------
// Activity times
// ---------------------------------------------------------------------------

/// How long ago a chat was active, from its time in milliseconds and the
/// current Unix time in seconds: `now`, minutes, hours, days, else the date.
pub open spec fn activity_spec(ts: i64, now: i64) -> Seq<char> {
    let secs = (ts / 1000) as i64;
    let d = now - secs;
    let diff = if d < 0 { 0 } else { d };
    if ts <= 0 {
        Seq::empty()
    } else if diff < 60 {
        "now"@
    } else if diff < 3600 {
        crate::text::decimal((diff / 60) as nat) + "m"@
    } else if diff < 86400 {
        crate::text::decimal((diff / 3600) as nat) + "h"@
    } else if diff < 604800 {
        crate::text::decimal((diff / 86400) as nat) + "d"@
    } else {
        if crate::listing::chrono_can_show(secs) {
            crate::listing::chrono_format_at(secs, 0, "%m/%d"@)
        } else {
            Seq::empty()
        }
    }
}

pub fn activity_label(ts: i64, now: i64) -> (s: String)
    ensures
        s@ == activity_spec(ts, now),
{
    if ts <= 0 {
        return String::new();
    }
    let secs = ts / 1000;
    let d: i128 = now as i128 - secs as i128;
    let diff: i128 = if d < 0 {
        0
    } else {
        d
    };
    let mut out;
    if diff < 60 {
        return crate::text::to_owned_string("now");
    } else if diff < 3600 {
        out = crate::text::u64_to_string((diff / 60) as u64);
        crate::text::append_str(&mut out, "m");
    } else if diff < 86400 {
        out = crate::text::u64_to_string((diff / 3600) as u64);
        crate::text::append_str(&mut out, "h");
    } else if diff < 604800 {
        out = crate::text::u64_to_string((diff / 86400) as u64);
        crate::text::append_str(&mut out, "d");
    } else {
        return match crate::listing::format_at_offset(secs, 0, "%m/%d") {
            Some(s) => s,
            None => String::new(),
        };
    }
    out
}

/// The system clock in whole seconds since the Unix epoch
/// (`std::time::SystemTime::now`, measured from `UNIX_EPOCH`); `None` when
/// the clock reads before 1970 or beyond what `i64` holds. It depends on the
/// clock, so nothing more is stated of it.
#[verifier::external_body]
pub(crate) fn unix_now() -> (r: Option<i64>)
{
    std::time::SystemTime::now()
        .duration_since(std::time::UNIX_EPOCH)
        .ok()
        .and_then(|d| i64::try_from(d.as_secs()).ok())
}

/// How long ago a chat was active, by the clock now: the label of
/// `activity_spec` for the moment the clock was read (the epoch itself when
/// the clock reads before it).
pub fn format_activity(ts: i64) -> (s: String)
    ensures
        exists|now: i64| now >= 0 && s@ == activity_spec(ts, now),
{
    let now = match unix_now() {
        Some(n) => if n < 0 { 0 } else { n },
        None => 0,
    };
    activity_label(ts, now)
}

// ---------------------------------------------------------------------------
// Rows of the chat list
// ---------------------------------------------------------------------------

/// The texts of a row of the chat list.
pub struct ChatRow {
    /// The unread badge, shown when there are unread messages.
    pub badge: String,
    pub badge_visible: bool,
    /// How long ago the chat was active.
    pub time: String,
    /// The tooltip of the pin mark, on pinned chats.
    pub pin_tooltip: Option<String>,
    /// The preview line.
    pub preview: String,
}

/// The preview line of a row: the chat's preview in the current language,
/// else a word saying that the last message is loading (when the chat has
/// activity) or that there is none.
pub open spec fn row_preview(cur: Option<I18n>, c: ChatInfo) -> Seq<char> {
    if c.preview@.len() == 0 {
        if c.last_activity > 0 {
            translate(cur, "loading_last"@)
        } else {
            translate(cur, "no_recent"@)
        }
    } else {
        crate::media::localized_preview(cur, c.preview@)
    }
}

/// The texts of the chat list's row for `chat`.
pub fn chat_row(cur: &Option<I18n>, chat: &ChatInfo) -> (r: ChatRow)
    requires
        current_wf(*cur),
    ensures
        r.badge@ == (if chat.unread > 0 { crate::text::decimal_signed(chat.unread as int) } else { Seq::empty() }),
        r.badge_visible == (chat.unread > 0),
        exists|now: i64| r.time@ == activity_spec(chat.last_activity, now),
        chat.pinned ==> r.pin_tooltip is Some && r.pin_tooltip->0@ == translate(*cur, "unpin_chat"@),
        !chat.pinned ==> r.pin_tooltip is None,
        r.preview@ == row_preview(*cur, *chat),
{
    let badge = if chat.unread > 0 {
        crate::text::i64_to_string(chat.unread)
    } else {
        String::new()
    };
    let preview = if chars_of(chat.preview.as_str()).len() == 0 {
        if chat.last_activity > 0 {
            t(cur, "loading_last")
        } else {
            t(cur, "no_recent")
        }
    } else {
        crate::media::localize_preview(cur, chat.preview.as_str())
    };
    ChatRow {
        badge,
        badge_visible: chat.unread > 0,
        time: format_activity(chat.last_activity),
        pin_tooltip: if chat.pinned { Some(t(cur, "unpin_chat")) } else { None },
        preview,
    }
}

} // verus!
