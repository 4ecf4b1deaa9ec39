//! Bookkeeping for the protocol engine that runs beside the UI: request ids,
//! requests still waiting for an answer and their time limits, the lines the
//! engine prints, and the names of the events it reports.

use vstd::prelude::*;
use std::collections::HashSet;
use crate::locate::{path_parent, std_path_parent};
use crate::text::{str_eq, trim};

verus! {

broadcast use vstd::std_specs::hash::group_hash_axioms;

// ---------------------------------------------------------------------------
// Status
// ---------------------------------------------------------------------------

/// What the settings page shows about the engine.
#[derive(Clone, Debug)]
pub struct SidecarStatus {
    pub runtime: &'static str,
    pub running: bool,
    pub pid: Option<u32>,
    pub pending_requests: usize,
}

/// The status for an engine that is the compiled binary (`compiled`) or runs
/// under Deno, whose process, if any, is `(still running, pid)`.
pub fn status_of(compiled: bool, process: Option<(bool, u32)>, pending_requests: usize) -> (s: SidecarStatus)
    ensures
        s.runtime@ == (if compiled { "compiled"@ } else { "deno"@ }),
        s.running == (process matches Some(p) && p.0),
        s.pid == (match process {
            Some(p) => Some(p.1),
            None => None,
        }),
        s.pending_requests == pending_requests,
{
    let runtime = if compiled {
        "compiled"
    } else {
        "deno"
    };
    let (running, pid) = match process {
        Some((r, id)) => (r, Some(id)),
        None => (false, None),
    };
    SidecarStatus { runtime, running, pid, pending_requests }
}

// ---------------------------------------------------------------------------
// Requests and their time limits
// ---------------------------------------------------------------------------

/// A request that got no answer within 30 s is answered with a time-out error.
pub const REQUEST_TIMEOUT_MS: u64 = 30000;

/// Milliseconds from `started` to `now`, zero when `now` is earlier.
pub open spec fn elapsed(now: u64, started: u64) -> int {
    if now >= started {
        now - started
    } else {
        0
    }
}

pub open spec fn expired(now: u64, d: (u64, u64)) -> bool {
    elapsed(now, d.1) >= REQUEST_TIMEOUT_MS
}

/// Walking the deadlines `(id, started)` in order at time `now`: the ones
/// still running, the ids answered with a time-out (those still waiting when
/// their deadline is reached), and the requests left waiting.
pub open spec fn expire_spec(ds: Seq<(u64, u64)>, now: u64, pending: Set<u64>) -> (Seq<(u64, u64)>, Seq<u64>, Set<u64>)
    decreases ds.len(),
{
    if ds.len() == 0 {
        (Seq::empty(), Seq::empty(), pending)
    } else {
        let prev = expire_spec(ds.drop_last(), now, pending);
        let d = ds.last();
        if expired(now, d) {
            if prev.2.contains(d.0) {
                (prev.0, prev.1.push(d.0), prev.2.remove(d.0))
            } else {
                prev
            }
        } else {
            (prev.0.push(d), prev.1, prev.2)
        }
    }
}

/// Request ids, the requests waiting for an answer, and when each was sent.
pub struct RequestBook {
    next_id: u64,
    pending: HashSet<u64>,
    deadlines: Vec<(u64, u64)>,
}

impl RequestBook {
    pub closed spec fn next(&self) -> u64 {
        self.next_id
    }

    /// The ids of the requests still waiting for an answer.
    pub closed spec fn waiting(&self) -> Set<u64> {
        self.pending@
    }

    /// The time limits still running, `(id, started)`, oldest first.
    pub closed spec fn timers(&self) -> Seq<(u64, u64)> {
        self.deadlines@
    }

    /// Ids start at 1; nothing is waiting.
    pub fn new() -> (b: RequestBook)
        ensures
            b.next() == 1,
            b.waiting() == Set::<u64>::empty(),
            b.timers() == Seq::<(u64, u64)>::empty(),
    {
        RequestBook { next_id: 1, pending: HashSet::new(), deadlines: Vec::new() }
    }

    /// A fresh id; ids count up by one (wrapping, as an atomic counter does).
    pub fn next_request_id(&mut self) -> (id: u64)
        ensures
            id == old(self).next(),
            final(self).next() == (if id == u64::MAX { 0 } else { id + 1 }),
            final(self).waiting() == old(self).waiting(),
            final(self).timers() == old(self).timers(),
    {
        let id = self.next_id;
        self.next_id = self.next_id.wrapping_add(1);
        id
    }

    /// The request `id` was written; it now waits for an answer.
    pub fn track(&mut self, id: u64)
        ensures
            final(self).waiting() == old(self).waiting().insert(id),
            final(self).next() == old(self).next(),
            final(self).timers() == old(self).timers(),
    {
        self.pending.insert(id);
    }

    /// The answer for `id` arrived, or writing the request failed: it waits no
    /// longer. Returns whether it was waiting.
    pub fn settle(&mut self, id: u64) -> (was_waiting: bool)
        ensures
            was_waiting == old(self).waiting().contains(id),
            final(self).waiting() == old(self).waiting().remove(id),
            final(self).next() == old(self).next(),
            final(self).timers() == old(self).timers(),
    {
        self.pending.remove(&id)
    }

    /// Starts the time limit of `id`, sent at `now`.
    pub fn arm_timeout(&mut self, id: u64, now: u64)
        ensures
            final(self).timers() == old(self).timers().push((id, now)),
            final(self).waiting() == old(self).waiting(),
            final(self).next() == old(self).next(),
    {
        self.deadlines.push((id, now));
    }

    /// After trying to write the request `id` at `now`: a written request
    /// starts its time limit; one that could not be written waits no longer.
    pub fn finish_request(&mut self, id: u64, written: bool, now: u64)
        ensures
            final(self).next() == old(self).next(),
            written ==> final(self).timers() == old(self).timers().push((id, now)) && final(self).waiting()
                == old(self).waiting(),
            !written ==> final(self).timers() == old(self).timers() && final(self).waiting() == old(
                self,
            ).waiting().remove(id),
    {
        if written {
            self.arm_timeout(id, now);
        } else {
            let _ = self.settle(id);
        }
    }

    /// The engine stopped: no request waits any more.
    pub fn forget_all(&mut self)
        ensures
            final(self).waiting() == Set::<u64>::empty(),
            final(self).next() == old(self).next(),
            final(self).timers() == old(self).timers(),
    {
        self.pending.clear();
    }

    pub fn waiting_count(&self) -> (n: usize)
        ensures
            n == self.waiting().len(),
    {
        self.pending.len()
    }

    /// Drops the time limits reached at `now` and returns, in order, the ids
    /// that were still waiting: each is answered with a time-out error.
    pub fn expire(&mut self, now: u64) -> (timed_out: Vec<u64>)
        ensures
            ({
                let e = expire_spec(old(self).timers(), now, old(self).waiting());
                &&& final(self).timers() == e.0
                &&& timed_out@ == e.1
                &&& final(self).waiting() == e.2
            }),
            final(self).next() == old(self).next(),
    {
        let ghost ds = self.deadlines@;
        let ghost p0 = self.pending@;
        let ghost n0 = self.next_id;
        let mut kept: Vec<(u64, u64)> = Vec::new();
        let mut out: Vec<u64> = Vec::new();
        let mut i: usize = 0;
        while i < self.deadlines.len()
            invariant
                ds == self.deadlines@,
                n0 == self.next_id,
                i <= ds.len(),
                (kept@, out@, self.pending@) == expire_spec(ds.take(i as int), now, p0),
            decreases ds.len() - i,
        {
            let d = self.deadlines[i];
            assert(ds.take(i + 1).drop_last() =~= ds.take(i as int));
            let age = if now >= d.1 {
                now - d.1
            } else {
                0
            };
            if age >= REQUEST_TIMEOUT_MS {
                if self.pending.remove(&d.0) {
                    out.push(d.0);
                }
            } else {
                kept.push(d);
            }
            i = i + 1;
        }
        assert(ds.take(ds.len() as int) =~= ds);
        self.deadlines = kept;
        out
    }
}

/// Every id answered with a time-out was waiting before and waits no longer,
/// and none is answered twice.
pub proof fn lemma_timeouts_answer_waiting(ds: Seq<(u64, u64)>, now: u64, pending: Set<u64>)
    ensures
        ({
            let e = expire_spec(ds, now, pending);
            &&& forall|k: int| 0 <= k < e.1.len() ==> pending.contains(#[trigger] e.1[k]) && !e.2.contains(e.1[k])
            &&& e.1.no_duplicates()
            &&& e.2.subset_of(pending)
        }),
    decreases ds.len(),
{
    if ds.len() > 0 {
        lemma_timeouts_answer_waiting(ds.drop_last(), now, pending);
        let prev = expire_spec(ds.drop_last(), now, pending);
        let d = ds.last();
        if expired(now, d) && prev.2.contains(d.0) {
            let e = expire_spec(ds, now, pending);
            assert forall|k: int| 0 <= k < e.1.len() implies pending.contains(#[trigger] e.1[k]) && !e.2.contains(e.1[k]) by {
                if k < prev.1.len() {
                    assert(e.1[k] == prev.1[k]);
                }
            }
            assert forall|a: int, b: int| 0 <= a < b < e.1.len() implies e.1[a] != e.1[b] by {
                if b < prev.1.len() {
                    assert(e.1[a] == prev.1[a] && e.1[b] == prev.1[b]);
                } else {
                    assert(e.1[a] == prev.1[a]);
                }
            }
        }
    }
}

proof fn lemma_expire_waiting_set(ds: Seq<(u64, u64)>, now: u64, pending: Set<u64>, x: u64)
    ensures
        expire_spec(ds, now, pending).2.contains(x) <==> (pending.contains(x) && !expire_spec(
            ds,
            now,
            pending,
        ).1.contains(x)),
    decreases ds.len(),
{
    if ds.len() > 0 {
        lemma_expire_waiting_set(ds.drop_last(), now, pending, x);
        let prev = expire_spec(ds.drop_last(), now, pending);
        let d = ds.last();
        if expired(now, d) && prev.2.contains(d.0) {
            let e = expire_spec(ds, now, pending);
            assert(e.1 == prev.1.push(d.0));
            if x != d.0 {
                assert(e.1.contains(x) == prev.1.contains(x)) by {
                    if e.1.contains(x) {
                        let k = choose|k: int| 0 <= k < e.1.len() && e.1[k] == x;
                        assert(k < prev.1.len());
                        assert(prev.1[k] == x);
                    }
                    if prev.1.contains(x) {
                        let k = choose|k: int| 0 <= k < prev.1.len() && prev.1[k] == x;
                        assert(e.1[k] == x);
                    }
                }
            } else {
                assert(e.1[e.1.len() - 1] == x);
            }
        }
    }
}

/// A request still waiting when its time limit has passed is answered with
/// a time-out by that round of `expire`.
pub proof fn lemma_overdue_request_times_out(ds: Seq<(u64, u64)>, now: u64, pending: Set<u64>, k: int)
    requires
        0 <= k < ds.len(),
        expired(now, ds[k]),
        pending.contains(ds[k].0),
    ensures
        expire_spec(ds, now, pending).1.contains(ds[k].0),
    decreases ds.len(),
{
    let id = ds[k].0;
    let prev = expire_spec(ds.drop_last(), now, pending);
    let e = expire_spec(ds, now, pending);
    if k < ds.len() - 1 {
        assert(ds.drop_last()[k] == ds[k]);
        lemma_overdue_request_times_out(ds.drop_last(), now, pending, k);
        let j = choose|j: int| 0 <= j < prev.1.len() && prev.1[j] == id;
        let d = ds.last();
        if expired(now, d) && prev.2.contains(d.0) {
            assert(e.1[j] == id);
        } else {
            assert(e.1 == prev.1);
        }
    } else {
        lemma_expire_waiting_set(ds.drop_last(), now, pending, id);
        if prev.1.contains(id) {
            let j = choose|j: int| 0 <= j < prev.1.len() && prev.1[j] == id;
            assert(e.1[j] == id);
        } else {
            assert(prev.2.contains(id));
            assert(e.1[e.1.len() - 1] == id);
        }
    }
}

/// A request is answered with a time-out at most once: an id timed out by
/// one round of `expire` is not timed out by any later round.
pub proof fn lemma_timeout_fires_once(
    ds1: Seq<(u64, u64)>,
    now1: u64,
    pending: Set<u64>,
    ds2: Seq<(u64, u64)>,
    now2: u64,
    id: u64,
)
    ensures
        expire_spec(ds1, now1, pending).1.contains(id) ==> !expire_spec(
            ds2,
            now2,
            expire_spec(ds1, now1, pending).2,
        ).1.contains(id),
{
    let e1 = expire_spec(ds1, now1, pending);
    lemma_timeouts_answer_waiting(ds1, now1, pending);
    lemma_timeouts_answer_waiting(ds2, now2, e1.2);
    if e1.1.contains(id) {
        let k = choose|k: int| 0 <= k < e1.1.len() && e1.1[k] == id;
        assert(!e1.2.contains(id));
        let e2 = expire_spec(ds2, now2, e1.2);
        if e2.1.contains(id) {
            let j = choose|j: int| 0 <= j < e2.1.len() && e2.1[j] == id;
            assert(e1.2.contains(e2.1[j]));
        }
    }
}

/// A request whose answer arrived (it waits no longer) is never answered with
/// a time-out afterwards.
pub proof fn lemma_answered_request_never_times_out(ds: Seq<(u64, u64)>, now: u64, pending: Set<u64>, id: u64)
    ensures
        !expire_spec(ds, now, pending.remove(id)).1.contains(id),
{
    lemma_timeouts_answer_waiting(ds, now, pending.remove(id));
}

/// Time limits not yet reached keep running, in order; the ones reached are
/// dropped.
pub proof fn lemma_expire_keeps_running_timers(ds: Seq<(u64, u64)>, now: u64, pending: Set<u64>)
    ensures
        expire_spec(ds, now, pending).0 == ds.filter(|d: (u64, u64)| !expired(now, d)),
    decreases ds.len(),
{
    reveal(Seq::filter);
    if ds.len() > 0 {
        lemma_expire_keeps_running_timers(ds.drop_last(), now, pending);
    }
}

// ---------------------------------------------------------------------------
// Lines printed by the engine
// ---------------------------------------------------------------------------

/// What a line of the engine's output is.
#[derive(Clone, Copy, Debug, PartialEq, Eq, Structural)]
pub enum LineKind {
    /// Nothing but whitespace.
    Blank,
    /// A log line that is not JSON.
    Log,
    /// A JSON object: an answer or an event.
    Json,
}

/// The line without surrounding whitespace, and what it is: blank, a log
/// line (not starting with `{`), or JSON.
pub fn classify_line(line: &str) -> (r: (LineKind, String))
    ensures
        r.1@ == crate::text::strip_both(line@, |c: char| crate::text::is_ws(c)),
        r.0 == (if r.1@.len() == 0 {
            LineKind::Blank
        } else if r.1@[0] != '{' {
            LineKind::Log
        } else {
            LineKind::Json
        }),
{
    let t = trim(line);
    let chars = crate::text::chars_of(t.as_str());
    let kind = if chars.len() == 0 {
        LineKind::Blank
    } else if chars[0] != '{' {
        LineKind::Log
    } else {
        LineKind::Json
    };
    (kind, t)
}

// ---------------------------------------------------------------------------
// Events
// ---------------------------------------------------------------------------

/// The events the engine reports, by name.
#[derive(Clone, Copy, Debug, PartialEq, Eq, Structural)]
pub enum EventKind {
    Ready,
    Session,
    SessionFailed,
    Qr,
    Pin,
    Listening,
    Message,
    Chats,
    Messages,
    StickersUpdated,
    AvatarReady,
    FriendsUpdated,
    ChatUpsert,
    ChatPreview,
    ChatMute,
    MediaReady,
    MediaFailed,
    Progress,
    ScreenShareState,
    UploadProgress,
    ReadReceipt,
    CallIncoming,
    CallCanceled,
    CallState,
    /// Any other name: reported as an error, "unknown event: <name>".
    Unknown,
}

/// The event named `s`.
pub open spec fn event_kind_spec(s: Seq<char>) -> EventKind {
    if s == "ready"@ {
        EventKind::Ready
    } else if s == "session"@ {
        EventKind::Session
    } else if s == "session_failed"@ {
        EventKind::SessionFailed
    } else if s == "qr"@ {
        EventKind::Qr
    } else if s == "pin"@ {
        EventKind::Pin
    } else if s == "listening"@ {
        EventKind::Listening
    } else if s == "message"@ {
        EventKind::Message
    } else if s == "chats"@ {
        EventKind::Chats
    } else if s == "messages"@ {
        EventKind::Messages
    } else if s == "stickers_updated"@ {
        EventKind::StickersUpdated
    } else if s == "avatar_ready"@ {
        EventKind::AvatarReady
    } else if s == "friends_updated"@ {
        EventKind::FriendsUpdated
    } else if s == "chat_upsert"@ {
        EventKind::ChatUpsert
    } else if s == "chat_preview"@ {
        EventKind::ChatPreview
    } else if s == "chat_mute"@ {
        EventKind::ChatMute
    } else if s == "media_ready"@ {
        EventKind::MediaReady
    } else if s == "media_failed"@ {
        EventKind::MediaFailed
    } else if s == "progress"@ {
        EventKind::Progress
    } else if s == "screen_share_state"@ {
        EventKind::ScreenShareState
    } else if s == "upload_progress"@ {
        EventKind::UploadProgress
    } else if s == "read_receipt"@ {
        EventKind::ReadReceipt
    } else if s == "call_incoming"@ {
        EventKind::CallIncoming
    } else if s == "call_canceled"@ {
        EventKind::CallCanceled
    } else if s == "call_state"@ {
        EventKind::CallState
    } else {
        EventKind::Unknown
    }
}

/// The names of the events that the engine writes, one for each kind.
pub open spec fn engine_event_names() -> Seq<Seq<char>> {
    seq![
        "ready"@,
        "session"@,
        "session_failed"@,
        "qr"@,
        "pin"@,
        "listening"@,
        "message"@,
        "chats"@,
        "messages"@,
        "stickers_updated"@,
        "avatar_ready"@,
        "friends_updated"@,
        "chat_upsert"@,
        "chat_preview"@,
        "chat_mute"@,
        "media_ready"@,
        "media_failed"@,
        "progress"@,
        "screen_share_state"@,
        "upload_progress"@,
        "read_receipt"@,
        "call_incoming"@,
        "call_canceled"@,
        "call_state"@,
    ]
}

/// No two names share a kind: a name that is known is the only name of its
/// kind.
pub proof fn lemma_event_kind_names_one(a: Seq<char>, b: Seq<char>)
    requires
        event_kind_spec(a) != EventKind::Unknown,
        event_kind_spec(a) == event_kind_spec(b),
    ensures
        a == b,
{
}

/// Every event that the engine writes is known: none of its names is
/// reported as an unknown event.
pub proof fn lemma_engine_events_are_known()
    ensures
        forall|i: int|
            0 <= i < engine_event_names().len() ==> event_kind_spec(#[trigger] engine_event_names()[i])
                != EventKind::Unknown,
{
    reveal_strlit("ready");
    reveal_strlit("session");
    reveal_strlit("session_failed");
    reveal_strlit("qr");
    reveal_strlit("pin");
    reveal_strlit("listening");
    reveal_strlit("message");
    reveal_strlit("chats");
    reveal_strlit("messages");
    reveal_strlit("stickers_updated");
    reveal_strlit("avatar_ready");
    reveal_strlit("friends_updated");
    reveal_strlit("chat_upsert");
    reveal_strlit("chat_preview");
    reveal_strlit("chat_mute");
    reveal_strlit("media_ready");
    reveal_strlit("media_failed");
    reveal_strlit("progress");
    reveal_strlit("screen_share_state");
    reveal_strlit("upload_progress");
    reveal_strlit("read_receipt");
    reveal_strlit("call_incoming");
    reveal_strlit("call_canceled");
    reveal_strlit("call_state");
    // Each name differs from those tested before it in a letter or in length.
    assert("session"@.len() != "ready"@.len());
    assert(event_kind_spec("session"@) == EventKind::Session);
    assert({
        &&& "session_failed"@.len() != "ready"@.len()
        &&& "session_failed"@.len() != "session"@.len()
    });
    assert(event_kind_spec("session_failed"@) == EventKind::SessionFailed);
    assert({
        &&& "qr"@.len() != "ready"@.len()
        &&& "qr"@.len() != "session"@.len()
        &&& "qr"@.len() != "session_failed"@.len()
    });
    assert(event_kind_spec("qr"@) == EventKind::Qr);
    assert({
        &&& "pin"@.len() != "ready"@.len()
        &&& "pin"@.len() != "session"@.len()
        &&& "pin"@.len() != "session_failed"@.len()
        &&& "pin"@.len() != "qr"@.len()
    });
    assert(event_kind_spec("pin"@) == EventKind::Pin);
    assert({
        &&& "listening"@.len() != "ready"@.len()
        &&& "listening"@.len() != "session"@.len()
        &&& "listening"@.len() != "session_failed"@.len()
        &&& "listening"@.len() != "qr"@.len()
        &&& "listening"@.len() != "pin"@.len()
    });
    assert(event_kind_spec("listening"@) == EventKind::Listening);
    assert({
        &&& "message"@.len() != "ready"@.len()
        &&& "message"@[0] != "session"@[0]
        &&& "message"@.len() != "session_failed"@.len()
        &&& "message"@.len() != "qr"@.len()
        &&& "message"@.len() != "pin"@.len()
        &&& "message"@.len() != "listening"@.len()
    });
    assert(event_kind_spec("message"@) == EventKind::Message);
    assert({
        &&& "chats"@[0] != "ready"@[0]
        &&& "chats"@.len() != "session"@.len()
        &&& "chats"@.len() != "session_failed"@.len()
        &&& "chats"@.len() != "qr"@.len()
        &&& "chats"@.len() != "pin"@.len()
        &&& "chats"@.len() != "listening"@.len()
        &&& "chats"@.len() != "message"@.len()
    });
    assert(event_kind_spec("chats"@) == EventKind::Chats);
    assert({
        &&& "messages"@.len() != "ready"@.len()
        &&& "messages"@.len() != "session"@.len()
        &&& "messages"@.len() != "session_failed"@.len()
        &&& "messages"@.len() != "qr"@.len()
        &&& "messages"@.len() != "pin"@.len()
        &&& "messages"@.len() != "listening"@.len()
        &&& "messages"@.len() != "message"@.len()
        &&& "messages"@.len() != "chats"@.len()
    });
    assert(event_kind_spec("messages"@) == EventKind::Messages);
    assert({
        &&& "stickers_updated"@.len() != "ready"@.len()
        &&& "stickers_updated"@.len() != "session"@.len()
        &&& "stickers_updated"@.len() != "session_failed"@.len()
        &&& "stickers_updated"@.len() != "qr"@.len()
        &&& "stickers_updated"@.len() != "pin"@.len()
        &&& "stickers_updated"@.len() != "listening"@.len()
        &&& "stickers_updated"@.len() != "message"@.len()
        &&& "stickers_updated"@.len() != "chats"@.len()
        &&& "stickers_updated"@.len() != "messages"@.len()
    });
    assert(event_kind_spec("stickers_updated"@) == EventKind::StickersUpdated);
    assert({
        &&& "avatar_ready"@.len() != "ready"@.len()
        &&& "avatar_ready"@.len() != "session"@.len()
        &&& "avatar_ready"@.len() != "session_failed"@.len()
        &&& "avatar_ready"@.len() != "qr"@.len()
        &&& "avatar_ready"@.len() != "pin"@.len()
        &&& "avatar_ready"@.len() != "listening"@.len()
        &&& "avatar_ready"@.len() != "message"@.len()
        &&& "avatar_ready"@.len() != "chats"@.len()
        &&& "avatar_ready"@.len() != "messages"@.len()
        &&& "avatar_ready"@.len() != "stickers_updated"@.len()
    });
    assert(event_kind_spec("avatar_ready"@) == EventKind::AvatarReady);
    assert({
        &&& "friends_updated"@.len() != "ready"@.len()
        &&& "friends_updated"@.len() != "session"@.len()
        &&& "friends_updated"@.len() != "session_failed"@.len()
        &&& "friends_updated"@.len() != "qr"@.len()
        &&& "friends_updated"@.len() != "pin"@.len()
        &&& "friends_updated"@.len() != "listening"@.len()
        &&& "friends_updated"@.len() != "message"@.len()
        &&& "friends_updated"@.len() != "chats"@.len()
        &&& "friends_updated"@.len() != "messages"@.len()
        &&& "friends_updated"@.len() != "stickers_updated"@.len()
        &&& "friends_updated"@.len() != "avatar_ready"@.len()
    });
    assert(event_kind_spec("friends_updated"@) == EventKind::FriendsUpdated);
    assert({
        &&& "chat_upsert"@.len() != "ready"@.len()
        &&& "chat_upsert"@.len() != "session"@.len()
        &&& "chat_upsert"@.len() != "session_failed"@.len()
        &&& "chat_upsert"@.len() != "qr"@.len()
        &&& "chat_upsert"@.len() != "pin"@.len()
        &&& "chat_upsert"@.len() != "listening"@.len()
        &&& "chat_upsert"@.len() != "message"@.len()
        &&& "chat_upsert"@.len() != "chats"@.len()
        &&& "chat_upsert"@.len() != "messages"@.len()
        &&& "chat_upsert"@.len() != "stickers_updated"@.len()
        &&& "chat_upsert"@.len() != "avatar_ready"@.len()
        &&& "chat_upsert"@.len() != "friends_updated"@.len()
    });
    assert(event_kind_spec("chat_upsert"@) == EventKind::ChatUpsert);
    assert({
        &&& "chat_preview"@.len() != "ready"@.len()
        &&& "chat_preview"@.len() != "session"@.len()
        &&& "chat_preview"@.len() != "session_failed"@.len()
        &&& "chat_preview"@.len() != "qr"@.len()
        &&& "chat_preview"@.len() != "pin"@.len()
        &&& "chat_preview"@.len() != "listening"@.len()
        &&& "chat_preview"@.len() != "message"@.len()
        &&& "chat_preview"@.len() != "chats"@.len()
        &&& "chat_preview"@.len() != "messages"@.len()
        &&& "chat_preview"@.len() != "stickers_updated"@.len()
        &&& "chat_preview"@[0] != "avatar_ready"@[0]
        &&& "chat_preview"@.len() != "friends_updated"@.len()
        &&& "chat_preview"@.len() != "chat_upsert"@.len()
    });
    assert(event_kind_spec("chat_preview"@) == EventKind::ChatPreview);
    assert({
        &&& "chat_mute"@.len() != "ready"@.len()
        &&& "chat_mute"@.len() != "session"@.len()
        &&& "chat_mute"@.len() != "session_failed"@.len()
        &&& "chat_mute"@.len() != "qr"@.len()
        &&& "chat_mute"@.len() != "pin"@.len()
        &&& "chat_mute"@[0] != "listening"@[0]
        &&& "chat_mute"@.len() != "message"@.len()
        &&& "chat_mute"@.len() != "chats"@.len()
        &&& "chat_mute"@.len() != "messages"@.len()
        &&& "chat_mute"@.len() != "stickers_updated"@.len()
        &&& "chat_mute"@.len() != "avatar_ready"@.len()
        &&& "chat_mute"@.len() != "friends_updated"@.len()
        &&& "chat_mute"@.len() != "chat_upsert"@.len()
        &&& "chat_mute"@.len() != "chat_preview"@.len()
    });
    assert(event_kind_spec("chat_mute"@) == EventKind::ChatMute);
    assert({
        &&& "media_ready"@.len() != "ready"@.len()
        &&& "media_ready"@.len() != "session"@.len()
        &&& "media_ready"@.len() != "session_failed"@.len()
        &&& "media_ready"@.len() != "qr"@.len()
        &&& "media_ready"@.len() != "pin"@.len()
        &&& "media_ready"@.len() != "listening"@.len()
        &&& "media_ready"@.len() != "message"@.len()
        &&& "media_ready"@.len() != "chats"@.len()
        &&& "media_ready"@.len() != "messages"@.len()
        &&& "media_ready"@.len() != "stickers_updated"@.len()
        &&& "media_ready"@.len() != "avatar_ready"@.len()
        &&& "media_ready"@.len() != "friends_updated"@.len()
        &&& "media_ready"@[0] != "chat_upsert"@[0]
        &&& "media_ready"@.len() != "chat_preview"@.len()
        &&& "media_ready"@.len() != "chat_mute"@.len()
    });
    assert(event_kind_spec("media_ready"@) == EventKind::MediaReady);
    assert({
        &&& "media_failed"@.len() != "ready"@.len()
        &&& "media_failed"@.len() != "session"@.len()
        &&& "media_failed"@.len() != "session_failed"@.len()
        &&& "media_failed"@.len() != "qr"@.len()
        &&& "media_failed"@.len() != "pin"@.len()
        &&& "media_failed"@.len() != "listening"@.len()
        &&& "media_failed"@.len() != "message"@.len()
        &&& "media_failed"@.len() != "chats"@.len()
        &&& "media_failed"@.len() != "messages"@.len()
        &&& "media_failed"@.len() != "stickers_updated"@.len()
        &&& "media_failed"@[0] != "avatar_ready"@[0]
        &&& "media_failed"@.len() != "friends_updated"@.len()
        &&& "media_failed"@.len() != "chat_upsert"@.len()
        &&& "media_failed"@[0] != "chat_preview"@[0]
        &&& "media_failed"@.len() != "chat_mute"@.len()
        &&& "media_failed"@.len() != "media_ready"@.len()
    });
    assert(event_kind_spec("media_failed"@) == EventKind::MediaFailed);
    assert({
        &&& "progress"@.len() != "ready"@.len()
        &&& "progress"@.len() != "session"@.len()
        &&& "progress"@.len() != "session_failed"@.len()
        &&& "progress"@.len() != "qr"@.len()
        &&& "progress"@.len() != "pin"@.len()
        &&& "progress"@.len() != "listening"@.len()
        &&& "progress"@.len() != "message"@.len()
        &&& "progress"@.len() != "chats"@.len()
        &&& "progress"@[0] != "messages"@[0]
        &&& "progress"@.len() != "stickers_updated"@.len()
        &&& "progress"@.len() != "avatar_ready"@.len()
        &&& "progress"@.len() != "friends_updated"@.len()
        &&& "progress"@.len() != "chat_upsert"@.len()
        &&& "progress"@.len() != "chat_preview"@.len()
        &&& "progress"@.len() != "chat_mute"@.len()
        &&& "progress"@.len() != "media_ready"@.len()
        &&& "progress"@.len() != "media_failed"@.len()
    });
    assert(event_kind_spec("progress"@) == EventKind::Progress);
    assert({
        &&& "screen_share_state"@.len() != "ready"@.len()
        &&& "screen_share_state"@.len() != "session"@.len()
        &&& "screen_share_state"@.len() != "session_failed"@.len()
        &&& "screen_share_state"@.len() != "qr"@.len()
        &&& "screen_share_state"@.len() != "pin"@.len()
        &&& "screen_share_state"@.len() != "listening"@.len()
        &&& "screen_share_state"@.len() != "message"@.len()
        &&& "screen_share_state"@.len() != "chats"@.len()
        &&& "screen_share_state"@.len() != "messages"@.len()
        &&& "screen_share_state"@.len() != "stickers_updated"@.len()
        &&& "screen_share_state"@.len() != "avatar_ready"@.len()
        &&& "screen_share_state"@.len() != "friends_updated"@.len()
        &&& "screen_share_state"@.len() != "chat_upsert"@.len()
        &&& "screen_share_state"@.len() != "chat_preview"@.len()
        &&& "screen_share_state"@.len() != "chat_mute"@.len()
        &&& "screen_share_state"@.len() != "media_ready"@.len()
        &&& "screen_share_state"@.len() != "media_failed"@.len()
        &&& "screen_share_state"@.len() != "progress"@.len()
    });
    assert(event_kind_spec("screen_share_state"@) == EventKind::ScreenShareState);
    assert({
        &&& "upload_progress"@.len() != "ready"@.len()
        &&& "upload_progress"@.len() != "session"@.len()
        &&& "upload_progress"@.len() != "session_failed"@.len()
        &&& "upload_progress"@.len() != "qr"@.len()
        &&& "upload_progress"@.len() != "pin"@.len()
        &&& "upload_progress"@.len() != "listening"@.len()
        &&& "upload_progress"@.len() != "message"@.len()
        &&& "upload_progress"@.len() != "chats"@.len()
        &&& "upload_progress"@.len() != "messages"@.len()
        &&& "upload_progress"@.len() != "stickers_updated"@.len()
        &&& "upload_progress"@.len() != "avatar_ready"@.len()
        &&& "upload_progress"@[0] != "friends_updated"@[0]
        &&& "upload_progress"@.len() != "chat_upsert"@.len()
        &&& "upload_progress"@.len() != "chat_preview"@.len()
        &&& "upload_progress"@.len() != "chat_mute"@.len()
        &&& "upload_progress"@.len() != "media_ready"@.len()
        &&& "upload_progress"@.len() != "media_failed"@.len()
        &&& "upload_progress"@.len() != "progress"@.len()
        &&& "upload_progress"@.len() != "screen_share_state"@.len()
    });
    assert(event_kind_spec("upload_progress"@) == EventKind::UploadProgress);
    assert({
        &&& "read_receipt"@.len() != "ready"@.len()
        &&& "read_receipt"@.len() != "session"@.len()
        &&& "read_receipt"@.len() != "session_failed"@.len()
        &&& "read_receipt"@.len() != "qr"@.len()
        &&& "read_receipt"@.len() != "pin"@.len()
        &&& "read_receipt"@.len() != "listening"@.len()
        &&& "read_receipt"@.len() != "message"@.len()
        &&& "read_receipt"@.len() != "chats"@.len()
        &&& "read_receipt"@.len() != "messages"@.len()
        &&& "read_receipt"@.len() != "stickers_updated"@.len()
        &&& "read_receipt"@[0] != "avatar_ready"@[0]
        &&& "read_receipt"@.len() != "friends_updated"@.len()
        &&& "read_receipt"@.len() != "chat_upsert"@.len()
        &&& "read_receipt"@[0] != "chat_preview"@[0]
        &&& "read_receipt"@.len() != "chat_mute"@.len()
        &&& "read_receipt"@.len() != "media_ready"@.len()
        &&& "read_receipt"@[0] != "media_failed"@[0]
        &&& "read_receipt"@.len() != "progress"@.len()
        &&& "read_receipt"@.len() != "screen_share_state"@.len()
        &&& "read_receipt"@.len() != "upload_progress"@.len()
    });
    assert(event_kind_spec("read_receipt"@) == EventKind::ReadReceipt);
    assert({
        &&& "call_incoming"@.len() != "ready"@.len()
        &&& "call_incoming"@.len() != "session"@.len()
        &&& "call_incoming"@.len() != "session_failed"@.len()
        &&& "call_incoming"@.len() != "qr"@.len()
        &&& "call_incoming"@.len() != "pin"@.len()
        &&& "call_incoming"@.len() != "listening"@.len()
        &&& "call_incoming"@.len() != "message"@.len()
        &&& "call_incoming"@.len() != "chats"@.len()
        &&& "call_incoming"@.len() != "messages"@.len()
        &&& "call_incoming"@.len() != "stickers_updated"@.len()
        &&& "call_incoming"@.len() != "avatar_ready"@.len()
        &&& "call_incoming"@.len() != "friends_updated"@.len()
        &&& "call_incoming"@.len() != "chat_upsert"@.len()
        &&& "call_incoming"@.len() != "chat_preview"@.len()
        &&& "call_incoming"@.len() != "chat_mute"@.len()
        &&& "call_incoming"@.len() != "media_ready"@.len()
        &&& "call_incoming"@.len() != "media_failed"@.len()
        &&& "call_incoming"@.len() != "progress"@.len()
        &&& "call_incoming"@.len() != "screen_share_state"@.len()
        &&& "call_incoming"@.len() != "upload_progress"@.len()
        &&& "call_incoming"@.len() != "read_receipt"@.len()
    });
    assert(event_kind_spec("call_incoming"@) == EventKind::CallIncoming);
    assert({
        &&& "call_canceled"@.len() != "ready"@.len()
        &&& "call_canceled"@.len() != "session"@.len()
        &&& "call_canceled"@.len() != "session_failed"@.len()
        &&& "call_canceled"@.len() != "qr"@.len()
        &&& "call_canceled"@.len() != "pin"@.len()
        &&& "call_canceled"@.len() != "listening"@.len()
        &&& "call_canceled"@.len() != "message"@.len()
        &&& "call_canceled"@.len() != "chats"@.len()
        &&& "call_canceled"@.len() != "messages"@.len()
        &&& "call_canceled"@.len() != "stickers_updated"@.len()
        &&& "call_canceled"@.len() != "avatar_ready"@.len()
        &&& "call_canceled"@.len() != "friends_updated"@.len()
        &&& "call_canceled"@.len() != "chat_upsert"@.len()
        &&& "call_canceled"@.len() != "chat_preview"@.len()
        &&& "call_canceled"@.len() != "chat_mute"@.len()
        &&& "call_canceled"@.len() != "media_ready"@.len()
        &&& "call_canceled"@.len() != "media_failed"@.len()
        &&& "call_canceled"@.len() != "progress"@.len()
        &&& "call_canceled"@.len() != "screen_share_state"@.len()
        &&& "call_canceled"@.len() != "upload_progress"@.len()
        &&& "call_canceled"@.len() != "read_receipt"@.len()
        &&& "call_canceled"@[5] != "call_incoming"@[5]
    });
    assert(event_kind_spec("call_canceled"@) == EventKind::CallCanceled);
    assert({
        &&& "call_state"@.len() != "ready"@.len()
        &&& "call_state"@.len() != "session"@.len()
        &&& "call_state"@.len() != "session_failed"@.len()
        &&& "call_state"@.len() != "qr"@.len()
        &&& "call_state"@.len() != "pin"@.len()
        &&& "call_state"@.len() != "listening"@.len()
        &&& "call_state"@.len() != "message"@.len()
        &&& "call_state"@.len() != "chats"@.len()
        &&& "call_state"@.len() != "messages"@.len()
        &&& "call_state"@.len() != "stickers_updated"@.len()
        &&& "call_state"@.len() != "avatar_ready"@.len()
        &&& "call_state"@.len() != "friends_updated"@.len()
        &&& "call_state"@.len() != "chat_upsert"@.len()
        &&& "call_state"@.len() != "chat_preview"@.len()
        &&& "call_state"@.len() != "chat_mute"@.len()
        &&& "call_state"@.len() != "media_ready"@.len()
        &&& "call_state"@.len() != "media_failed"@.len()
        &&& "call_state"@.len() != "progress"@.len()
        &&& "call_state"@.len() != "screen_share_state"@.len()
        &&& "call_state"@.len() != "upload_progress"@.len()
        &&& "call_state"@.len() != "read_receipt"@.len()
        &&& "call_state"@.len() != "call_incoming"@.len()
        &&& "call_state"@.len() != "call_canceled"@.len()
    });
    assert(event_kind_spec("call_state"@) == EventKind::CallState);
    assert forall|i: int| 0 <= i < engine_event_names().len() implies event_kind_spec(
        #[trigger] engine_event_names()[i],
    ) != EventKind::Unknown by {
        if i == 0 {
            assert(engine_event_names()[i] == "ready"@);
        } else if i == 1 {
            assert(engine_event_names()[i] == "session"@);
        } else if i == 2 {
            assert(engine_event_names()[i] == "session_failed"@);
        } else if i == 3 {
            assert(engine_event_names()[i] == "qr"@);
        } else if i == 4 {
            assert(engine_event_names()[i] == "pin"@);
        } else if i == 5 {
            assert(engine_event_names()[i] == "listening"@);
        } else if i == 6 {
            assert(engine_event_names()[i] == "message"@);
        } else if i == 7 {
            assert(engine_event_names()[i] == "chats"@);
        } else if i == 8 {
            assert(engine_event_names()[i] == "messages"@);
        } else if i == 9 {
            assert(engine_event_names()[i] == "stickers_updated"@);
        } else if i == 10 {
            assert(engine_event_names()[i] == "avatar_ready"@);
        } else if i == 11 {
            assert(engine_event_names()[i] == "friends_updated"@);
        } else if i == 12 {
            assert(engine_event_names()[i] == "chat_upsert"@);
        } else if i == 13 {
            assert(engine_event_names()[i] == "chat_preview"@);
        } else if i == 14 {
            assert(engine_event_names()[i] == "chat_mute"@);
        } else if i == 15 {
            assert(engine_event_names()[i] == "media_ready"@);
        } else if i == 16 {
            assert(engine_event_names()[i] == "media_failed"@);
        } else if i == 17 {
            assert(engine_event_names()[i] == "progress"@);
        } else if i == 18 {
            assert(engine_event_names()[i] == "screen_share_state"@);
        } else if i == 19 {
            assert(engine_event_names()[i] == "upload_progress"@);
        } else if i == 20 {
            assert(engine_event_names()[i] == "read_receipt"@);
        } else if i == 21 {
            assert(engine_event_names()[i] == "call_incoming"@);
        } else if i == 22 {
            assert(engine_event_names()[i] == "call_canceled"@);
        } else if i == 23 {
            assert(engine_event_names()[i] == "call_state"@);
        }
    }
}

pub fn event_kind(name: &str) -> (k: EventKind)
    ensures
        k == event_kind_spec(name@),
{
    if str_eq(name, "ready") {
        EventKind::Ready
    } else if str_eq(name, "session") {
        EventKind::Session
    } else if str_eq(name, "session_failed") {
        EventKind::SessionFailed
    } else if str_eq(name, "qr") {
        EventKind::Qr
    } else if str_eq(name, "pin") {
        EventKind::Pin
    } else if str_eq(name, "listening") {
        EventKind::Listening
    } else if str_eq(name, "message") {
        EventKind::Message
    } else if str_eq(name, "chats") {
        EventKind::Chats
    } else if str_eq(name, "messages") {
        EventKind::Messages
    } else if str_eq(name, "stickers_updated") {
        EventKind::StickersUpdated
    } else if str_eq(name, "avatar_ready") {
        EventKind::AvatarReady
    } else if str_eq(name, "friends_updated") {
        EventKind::FriendsUpdated
    } else if str_eq(name, "chat_upsert") {
        EventKind::ChatUpsert
    } else if str_eq(name, "chat_preview") {
        EventKind::ChatPreview
    } else if str_eq(name, "chat_mute") {
        EventKind::ChatMute
    } else if str_eq(name, "media_ready") {
        EventKind::MediaReady
    } else if str_eq(name, "media_failed") {
        EventKind::MediaFailed
    } else if str_eq(name, "progress") {
        EventKind::Progress
    } else if str_eq(name, "screen_share_state") {
        EventKind::ScreenShareState
    } else if str_eq(name, "upload_progress") {
        EventKind::UploadProgress
    } else if str_eq(name, "read_receipt") {
        EventKind::ReadReceipt
    } else if str_eq(name, "call_incoming") {
        EventKind::CallIncoming
    } else if str_eq(name, "call_canceled") {
        EventKind::CallCanceled
    } else if str_eq(name, "call_state") {
        EventKind::CallState
    } else {
        EventKind::Unknown
    }
}

/// The error reported for an event of unknown name.
pub fn unknown_event_text(name: &str) -> (s: String)
    ensures
        s@ == "unknown event: "@ + name@,
{
    let mut s = crate::text::to_owned_string("unknown event: ");
    crate::text::append_str(&mut s, name);
    s
}

/// Why restoring the session failed: the engine's words, else a plain
/// "session restore failed".
pub fn session_failed_error(error: Option<String>) -> (s: String)
    ensures
        s@ == (match error {
            Some(e) => e@,
            None => "session restore failed"@,
        }),
{
    match error {
        Some(e) => e,
        None => crate::text::to_owned_string("session restore failed"),
    }
}

/// The kind of an incoming call: as the engine says, else a voice call.
pub fn incoming_call_kind(kind: Option<String>) -> (s: String)
    ensures
        s@ == (match kind {
            Some(k) => k@,
            None => "AUDIO"@,
        }),
{
    match kind {
        Some(k) => k,
        None => crate::text::to_owned_string("AUDIO"),
    }
}

/// Where a parsed JSON line goes.
#[derive(Clone, Copy, Debug, PartialEq, Eq, Structural)]
pub enum Route {
    /// An event, reported to the UI.
    Event(EventKind),
    /// The answer to request `id`, with its success flag (absent means failed).
    Answer(u64, bool),
    /// Neither an event nor an answer.
    Drop,
}

/// Routes a parsed line with fields `event`, `id` and `ok`: an event name
/// wins; an answer settles its request.
pub fn route_line(book: &mut RequestBook, event: Option<&str>, id: Option<u64>, ok: Option<bool>) -> (r: Route)
    ensures
        r == (match event {
            Some(e) => Route::Event(event_kind_spec(e@)),
            None => match id {
                Some(i) => Route::Answer(i, ok == Some(true)),
                None => Route::Drop,
            },
        }),
        final(book).waiting() == (match (event, id) {
            (None, Some(i)) => old(book).waiting().remove(i),
            _ => old(book).waiting(),
        }),
        final(book).next() == old(book).next(),
        final(book).timers() == old(book).timers(),
{
    match event {
        Some(e) => Route::Event(event_kind(e)),
        None => match id {
            Some(i) => {
                book.settle(i);
                let answered_ok = match ok {
                    Some(b) => b,
                    None => false,
                };
                Route::Answer(i, answered_ok)
            },
            None => Route::Drop,
        },
    }
}

// ---------------------------------------------------------------------------
// Where the program's resources are
// ---------------------------------------------------------------------------

/// The file that marks a directory holding the program's resources.
pub open spec fn resource_marker(root: Seq<char>) -> Seq<char> {
    crate::downloads::join_path(root, "protocol/src/main.ts"@)
}

/// The marker file inside `root`.
pub fn resource_marker_path(root: &str) -> (p: String)
    ensures
        p@ == resource_marker(root@),
{
    crate::downloads::join(root, "protocol/src/main.ts")
}

pub open spec fn or_else(p: Option<Seq<char>>, d: Seq<char>) -> Seq<char> {
    match p {
        Some(x) => x,
        None => d,
    }
}

/// Where to look for the resources, in order: the system package places, the
/// working directory (`.` when it is unknown), the program's directory, and,
/// for a build under `target/<profile>`, the directory above `target` and
/// `target` itself.
pub open spec fn root_candidates(cwd: Option<Seq<char>>, exe: Seq<char>) -> Seq<Seq<char>> {
    let base = seq![
        "/usr/share/line-gtk"@,
        "/usr/local/share/line-gtk"@,
        or_else(cwd, "."@),
        or_else(std_path_parent(exe), Seq::empty()),
    ];
    match std_path_parent(exe) {
        Some(dir) => match std_path_parent(dir) {
            Some(p) => base + seq![or_else(std_path_parent(p), p), p],
            None => base,
        },
        None => base,
    }
}

/// The directories that may hold the resources, for the working directory
/// `cwd` and the program's path `exe`; the first with the marker file wins.
pub fn resource_root_candidates(cwd: Option<&str>, exe: &str) -> (v: Vec<String>)
    ensures
        v@.map_values(|s: String| s@) == root_candidates(
            match cwd {
                Some(c) => Some(c@),
                None => None,
            },
            exe@,
        ),
{
    let mut v: Vec<String> = Vec::new();
    v.push(crate::text::to_owned_string("/usr/share/line-gtk"));
    v.push(crate::text::to_owned_string("/usr/local/share/line-gtk"));
    v.push(match cwd {
        Some(c) => crate::text::to_owned_string(c),
        None => crate::text::to_owned_string("."),
    });
    let dir = path_parent(exe);
    v.push(match &dir {
        Some(d) => d.clone(),
        None => String::new(),
    });
    let ghost base = v@.map_values(|s: String| s@);
    if let Some(d) = &dir {
        if let Some(p) = path_parent(d.as_str()) {
            let up = match path_parent(p.as_str()) {
                Some(q) => q,
                None => p.clone(),
            };
            v.push(up);
            v.push(p);
        }
    }
    assert(v@.map_values(|s: String| s@) =~= root_candidates(
        match cwd {
            Some(c) => Some(c@),
            None => None,
        },
        exe@,
    ));
    v
}

} // verus!
