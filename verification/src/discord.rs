//! Discord Rich Presence: the commands posted to the presence worker and the
//! worker's decisions (when to connect, publish, clear or disconnect).

use vstd::prelude::*;
use crate::text::{is_ws, str_eq, strip_both, to_owned_string, trim};

verus! {

/// The application id used when neither the settings nor the environment
/// give one.
pub const DEFAULT_APP_ID: &'static str = "1533109311545278554";

/// What Discord shows for this client.
#[derive(Clone, Debug)]
pub struct Presence {
    pub details: String,
    pub state: String,
    pub start_unix: Option<i64>,
    /// HTTPS URL or asset key for the small overlay image (the user's avatar).
    pub small_image: Option<String>,
    /// Tooltip of the small image (usually the display name).
    pub small_text: Option<String>,
    pub large_image: Option<String>,
    pub large_text: Option<String>,
}

pub open spec fn opt_view(o: Option<String>) -> Option<Seq<char>> {
    match o {
        Some(s) => Some(s@),
        None => None,
    }
}

/// Two presences show the same thing.
pub open spec fn same_presence(a: Presence, b: Presence) -> bool {
    a.details@ == b.details@ && a.state@ == b.state@ && a.start_unix == b.start_unix && opt_view(
        a.small_image,
    ) == opt_view(b.small_image) && opt_view(a.small_text) == opt_view(b.small_text) && opt_view(
        a.large_image,
    ) == opt_view(b.large_image) && opt_view(a.large_text) == opt_view(b.large_text)
}

fn opt_str_eq(a: &Option<String>, b: &Option<String>) -> (r: bool)
    ensures
        r == (opt_view(*a) == opt_view(*b)),
{
    match (a, b) {
        (Some(x), Some(y)) => str_eq(x.as_str(), y.as_str()),
        (None, None) => true,
        _ => false,
    }
}

pub fn presence_eq(a: &Presence, b: &Presence) -> (r: bool)
    ensures
        r == same_presence(*a, *b),
{
    str_eq(a.details.as_str(), b.details.as_str()) && str_eq(a.state.as_str(), b.state.as_str())
        && a.start_unix == b.start_unix && opt_str_eq(&a.small_image, &b.small_image)
        && opt_str_eq(&a.small_text, &b.small_text) && opt_str_eq(&a.large_image, &b.large_image)
        && opt_str_eq(&a.large_text, &b.large_text)
}

/// A request to the presence worker.
#[derive(Clone, Debug)]
pub enum Cmd {
    Configure { enabled: bool, app_id: String },
    Show(Presence),
    Clear,
    Shutdown,
}

/// The command `DiscordRpc::configure` posts: the id with surrounding
/// whitespace removed.
pub fn configure_command(enabled: bool, app_id: &str) -> (cmd: Cmd)
    ensures
        match cmd {
            Cmd::Configure { enabled: e, app_id: a } => e == enabled && a@ == strip_both(
                app_id@,
                |c: char| is_ws(c),
            ),
            _ => false,
        },
{
    Cmd::Configure { enabled, app_id: trim(app_id) }
}

#[verifier::external_type_specification]
#[verifier::external_body]
#[verifier::reject_recursive_types(T)]
pub struct ExSender<T>(std::sync::mpsc::Sender<T>);

/// Hands `cmd` to the worker over the channel (`Sender::send`). Delivery
/// fails only when the worker has exited; that failure is ignored, and
/// nothing is promised about it.
#[verifier::external_body]
fn post(tx: &std::sync::mpsc::Sender<Cmd>, cmd: Cmd) {
    let _ = tx.send(cmd);
}

/// Handle that posts presence updates to the worker thread, with the
/// commands handed to the channel so far.
pub struct DiscordRpc {
    tx: std::sync::mpsc::Sender<Cmd>,
    sent: Ghost<Seq<Cmd>>,
}

impl DiscordRpc {
    /// The sending end of the worker's channel, which every command goes to.
    pub closed spec fn sender(&self) -> std::sync::mpsc::Sender<Cmd> {
        self.tx
    }

    /// The commands handed to the channel through this handle, oldest first.
    pub closed spec fn sent(&self) -> Seq<Cmd> {
        self.sent@
    }

    /// A handle over the sending end of the worker's channel.
    pub fn from_sender(tx: std::sync::mpsc::Sender<Cmd>) -> (r: Self)
        ensures
            r.sender() == tx,
            r.sent() == Seq::<Cmd>::empty(),
    {
        DiscordRpc { tx, sent: Ghost(Seq::empty()) }
    }

    fn send(&mut self, cmd: Cmd)
        ensures
            final(self).sender() == old(self).sender(),
            final(self).sent() == old(self).sent().push(cmd),
    {
        let ghost c = cmd;
        post(&self.tx, cmd);
        self.sent = Ghost(self.sent@.push(c));
    }

    /// Turn presence on or off and choose the application id (surrounding
    /// white space removed).
    pub fn configure(&mut self, enabled: bool, app_id: &str)
        ensures
            final(self).sender() == old(self).sender(),
            final(self).sent().len() == old(self).sent().len() + 1,
            final(self).sent().drop_last() == old(self).sent(),
            match final(self).sent().last() {
                Cmd::Configure { enabled: e, app_id: a } => e == enabled && a@ == strip_both(
                    app_id@,
                    |c: char| is_ws(c),
                ),
                _ => false,
            },
    {
        let cmd = configure_command(enabled, app_id);
        self.send(cmd);
    }

    /// Show `presence`.
    pub fn set(&mut self, presence: Presence)
        ensures
            final(self).sender() == old(self).sender(),
            final(self).sent() == old(self).sent().push(Cmd::Show(presence)),
    {
        self.send(Cmd::Show(presence));
    }

    /// Remove the shown presence.
    pub fn clear(&mut self)
        ensures
            final(self).sender() == old(self).sender(),
            final(self).sent() == old(self).sent().push(Cmd::Clear),
    {
        self.send(Cmd::Clear);
    }

    /// Stop the worker.
    pub fn shutdown(&mut self)
        ensures
            final(self).sender() == old(self).sender(),
            final(self).sent() == old(self).sent().push(Cmd::Shutdown),
    {
        self.send(Cmd::Shutdown);
    }
}

// ---------------------------------------------------------------------------
// The worker
// ---------------------------------------------------------------------------

/// The worker's memory between commands.
#[derive(Debug)]
pub struct WorkerState {
    pub enabled: bool,
    pub app_id: String,
    /// An IPC connection to Discord is open.
    pub connected: bool,
    /// The presence to show, if any.
    pub last: Option<Presence>,
    /// The shown presence is out of date.
    pub need_apply: bool,
}

/// A presence as values.
pub ghost struct PresenceModel {
    pub details: Seq<char>,
    pub state: Seq<char>,
    pub start_unix: Option<i64>,
    pub small_image: Option<Seq<char>>,
    pub small_text: Option<Seq<char>>,
    pub large_image: Option<Seq<char>>,
    pub large_text: Option<Seq<char>>,
}

pub open spec fn presence_model(p: Presence) -> PresenceModel {
    PresenceModel {
        details: p.details@,
        state: p.state@,
        start_unix: p.start_unix,
        small_image: opt_view(p.small_image),
        small_text: opt_view(p.small_text),
        large_image: opt_view(p.large_image),
        large_text: opt_view(p.large_text),
    }
}

/// The worker state as values.
pub ghost struct WorkerModel {
    pub enabled: bool,
    pub app_id: Seq<char>,
    pub connected: bool,
    pub last: Option<PresenceModel>,
    pub need_apply: bool,
}

pub open spec fn worker_model(s: WorkerState) -> WorkerModel {
    WorkerModel {
        enabled: s.enabled,
        app_id: s.app_id@,
        connected: s.connected,
        last: match s.last {
            Some(p) => Some(presence_model(p)),
            None => None,
        },
        need_apply: s.need_apply,
    }
}

/// A command as values.
pub ghost enum CmdModel {
    Configure { enabled: bool, app_id: Seq<char> },
    Show(PresenceModel),
    Clear,
    Shutdown,
}

pub open spec fn cmd_model(c: Cmd) -> CmdModel {
    match c {
        Cmd::Configure { enabled, app_id } => CmdModel::Configure { enabled, app_id: app_id@ },
        Cmd::Show(p) => CmdModel::Show(presence_model(p)),
        Cmd::Clear => CmdModel::Clear,
        Cmd::Shutdown => CmdModel::Shutdown,
    }
}

/// Effects of one command besides the state change.
#[derive(Debug)]
pub struct CmdEffect {
    /// Clear the activity and close the open connection.
    pub disconnect: bool,
    /// Leave the worker loop.
    pub exit: bool,
}

/// The state after a command: shutting down or changing the id or turning
/// presence off closes the connection; a presence equal to the shown one is
/// ignored.
pub open spec fn cmd_next(s: WorkerModel, c: CmdModel) -> WorkerModel {
    match c {
        CmdModel::Shutdown => WorkerModel { connected: false, ..s },
        CmdModel::Configure { enabled, app_id } => {
            let changed = app_id != s.app_id;
            WorkerModel {
                enabled,
                app_id,
                connected: s.connected && !changed && enabled,
                last: s.last,
                need_apply: enabled,
            }
        },
        CmdModel::Show(p) => if s.last == Some(p) {
            s
        } else {
            WorkerModel { last: Some(p), need_apply: true, ..s }
        },
        CmdModel::Clear => WorkerModel { last: None, need_apply: true, ..s },
    }
}

/// Whether a command closes the connection, and whether it stops the worker.
pub open spec fn cmd_effect(s: WorkerModel, c: CmdModel) -> (bool, bool) {
    match c {
        CmdModel::Shutdown => (s.connected, true),
        CmdModel::Configure { enabled, app_id } => (
            s.connected && (app_id != s.app_id || !enabled),
            false,
        ),
        _ => (false, false),
    }
}

pub fn initial_worker_state() -> (s: WorkerState)
    ensures
        worker_model(s) == (WorkerModel {
            enabled: false,
            app_id: Seq::empty(),
            connected: false,
            last: None,
            need_apply: false,
        }),
{
    WorkerState { enabled: false, app_id: String::new(), connected: false, last: None, need_apply: false }
}

proof fn lemma_same_presence_model(a: Presence, b: Presence)
    ensures
        same_presence(a, b) == (presence_model(a) == presence_model(b)),
{
}

/// Apply one command to the worker state.
pub fn handle_cmd(state: &mut WorkerState, cmd: Cmd) -> (eff: CmdEffect)
    ensures
        worker_model(*final(state)) == cmd_next(worker_model(*old(state)), cmd_model(cmd)),
        (eff.disconnect, eff.exit) == cmd_effect(worker_model(*old(state)), cmd_model(cmd)),
{
    match cmd {
        Cmd::Shutdown => {
            let disconnect = state.connected;
            state.connected = false;
            CmdEffect { disconnect, exit: true }
        },
        Cmd::Configure { enabled, app_id } => {
            let mut disconnect = false;
            if !str_eq(app_id.as_str(), state.app_id.as_str()) {
                if state.connected {
                    disconnect = true;
                    state.connected = false;
                }
                state.app_id = app_id;
            }
            state.enabled = enabled;
            if !enabled {
                if state.connected {
                    disconnect = true;
                    state.connected = false;
                }
                state.need_apply = false;
            } else {
                state.need_apply = true;
            }
            CmdEffect { disconnect, exit: false }
        },
        Cmd::Show(p) => {
            let same = match &state.last {
                Some(q) => presence_eq(q, &p),
                None => false,
            };
            proof {
                if state.last is Some {
                    lemma_same_presence_model(state.last->0, p);
                }
            }
            if !same {
                state.last = Some(p);
                state.need_apply = true;
            }
            CmdEffect { disconnect: false, exit: false }
        },
        Cmd::Clear => {
            state.last = None;
            state.need_apply = true;
            CmdEffect { disconnect: false, exit: false }
        },
    }
}

/// What the worker does once a burst of commands has been handled.
#[derive(Debug)]
pub enum Plan {
    /// Nothing to do; wait for the next command.
    Wait,
    /// Presence is off or has no id: close the open connection.
    Disconnect,
    /// Open a connection, then publish.
    Connect,
    /// Publish the current presence (or clear it when there is none).
    Publish,
}

pub open spec fn plan_spec(s: WorkerModel, timed_out: bool) -> Plan {
    let need = s.need_apply || (timed_out && s.enabled && s.app_id.len() > 0 && !s.connected);
    if !s.enabled || s.app_id.len() == 0 {
        if s.connected {
            Plan::Disconnect
        } else {
            Plan::Wait
        }
    } else if !s.connected {
        Plan::Connect
    } else if !need {
        Plan::Wait
    } else {
        Plan::Publish
    }
}

/// The state once the plan is chosen: presence off clears the pending flag
/// and the connection; a timeout while disconnected asks for a reconnect.
pub open spec fn plan_next(s: WorkerModel, timed_out: bool) -> WorkerModel {
    let need = s.need_apply || (timed_out && s.enabled && s.app_id.len() > 0 && !s.connected);
    if !s.enabled || s.app_id.len() == 0 {
        WorkerModel { connected: false, need_apply: false, ..s }
    } else {
        WorkerModel { need_apply: need, ..s }
    }
}

/// Decide the next step. An unchanged presence is never re-published.
pub fn plan_step(state: &mut WorkerState, timed_out: bool) -> (plan: Plan)
    ensures
        plan == plan_spec(worker_model(*old(state)), timed_out),
        worker_model(*final(state)) == plan_next(worker_model(*old(state)), timed_out),
{
    if timed_out && state.enabled && !state.app_id.as_str().is_empty() && !state.connected {
        state.need_apply = true;
    }
    if !state.enabled || state.app_id.as_str().is_empty() {
        state.need_apply = false;
        if state.connected {
            state.connected = false;
            return Plan::Disconnect;
        }
        return Plan::Wait;
    }
    if !state.connected {
        return Plan::Connect;
    }
    if !state.need_apply {
        return Plan::Wait;
    }
    Plan::Publish
}

/// Record the outcome of a connection attempt; returns whether to publish now.
pub fn connect_finished(state: &mut WorkerState, ok: bool) -> (publish: bool)
    ensures
        worker_model(*final(state)) == (WorkerModel {
            connected: ok,
            need_apply: ok,
            ..worker_model(*old(state))
        }),
        publish == ok,
{
    state.connected = ok;
    state.need_apply = ok;
    ok
}

/// Record the outcome of publishing: done on success; on failure the
/// connection is dropped so the next round reconnects.
pub fn publish_finished(state: &mut WorkerState, ok: bool)
    ensures
        worker_model(*final(state)) == (if ok {
            WorkerModel { need_apply: false, ..worker_model(*old(state)) }
        } else {
            WorkerModel { connected: false, ..worker_model(*old(state)) }
        }),
{
    if ok {
        state.need_apply = false;
    } else {
        state.connected = false;
    }
}

/// Posting a presence equal to the one already held changes nothing.
pub proof fn lemma_set_idempotent(s: WorkerModel, p: PresenceModel)
    ensures
        cmd_next(cmd_next(s, CmdModel::Show(p)), CmdModel::Show(p)) == cmd_next(s, CmdModel::Show(p)),
{
}

/// Turning presence off leaves nothing connected and nothing to publish, and
/// the worker then waits.
pub proof fn lemma_disable_goes_quiet(s: WorkerModel, id: Seq<char>, timed_out: bool)
    ensures
        !cmd_next(s, CmdModel::Configure { enabled: false, app_id: id }).connected,
        !cmd_next(s, CmdModel::Configure { enabled: false, app_id: id }).need_apply,
        plan_spec(cmd_next(s, CmdModel::Configure { enabled: false, app_id: id }), timed_out)
            == Plan::Wait,
{
}

/// Shutting down stops the worker and closes any open connection.
pub proof fn lemma_shutdown_closes(s: WorkerModel)
    ensures
        cmd_effect(s, CmdModel::Shutdown) == (s.connected, true),
        !cmd_next(s, CmdModel::Shutdown).connected,
{
}

/// After a new presence is posted to an enabled, connected worker, the next
/// step publishes exactly that presence.
pub proof fn lemma_new_presence_is_published(s: WorkerModel, p: PresenceModel, timed_out: bool)
    requires
        s.enabled,
        s.app_id.len() > 0,
        s.connected,
        s.last != Some(p),
    ensures
        plan_spec(cmd_next(s, CmdModel::Show(p)), timed_out) == Plan::Publish,
        cmd_next(s, CmdModel::Show(p)).last == Some(p),
{
}

/// A disconnected, enabled worker reconnects on the next step.
pub proof fn lemma_reconnects(s: WorkerModel, timed_out: bool)
    requires
        s.enabled,
        s.app_id.len() > 0,
        !s.connected,
    ensures
        plan_spec(s, timed_out) == Plan::Connect,
        timed_out ==> plan_next(s, timed_out).need_apply,
{
}

/// Of two presences posted before the worker wakes, only the last is
/// published: the next step publishes, and what it publishes is the second.
pub proof fn lemma_last_queued_presence_wins(s: WorkerModel, p1: PresenceModel, p2: PresenceModel, timed_out: bool)
    requires
        s.enabled,
        s.app_id.len() > 0,
        s.connected,
        p1 != p2,
    ensures
        cmd_next(cmd_next(s, CmdModel::Show(p1)), CmdModel::Show(p2)).last == Some(p2),
        plan_spec(cmd_next(cmd_next(s, CmdModel::Show(p1)), CmdModel::Show(p2)), timed_out) == Plan::Publish,
{
}

/// Once a presence has been published, posting it again publishes nothing.
pub proof fn lemma_published_presence_not_repeated(s: WorkerModel, p: PresenceModel, timed_out: bool)
    requires
        s.enabled,
        s.app_id.len() > 0,
        s.connected,
        s.last == Some(p),
    ensures
        plan_spec(cmd_next(publish_done(s), CmdModel::Show(p)), timed_out) == Plan::Wait,
{
}

/// The state after a successful publication (see `publish_finished`).
pub open spec fn publish_done(s: WorkerModel) -> WorkerModel {
    WorkerModel { need_apply: false, ..s }
}

/// While Discord is away the worker tries to connect at every wake-up, the
/// timed-out ones included; once a connection succeeds, the held presence
/// (or its absence) is published again.
pub proof fn lemma_reconnect_republishes(s: WorkerModel, timed_out: bool, timed_out_after: bool)
    requires
        s.enabled,
        s.app_id.len() > 0,
        !s.connected,
    ensures
        plan_spec(s, timed_out) == Plan::Connect,
        plan_spec(WorkerModel { connected: true, need_apply: true, ..plan_next(s, timed_out) }, timed_out_after)
            == Plan::Publish,
{
}

/// A worker with presence off never connects.
pub proof fn lemma_disabled_never_connects(s: WorkerModel, timed_out: bool)
    requires
        !s.enabled,
    ensures
        plan_spec(s, timed_out) != Plan::Connect,
        plan_spec(s, timed_out) != Plan::Publish,
{
}

// ---------------------------------------------------------------------------
// What is shown
// ---------------------------------------------------------------------------

/// The images and texts attached to the activity: each only when non-empty.
#[derive(Debug)]
pub struct Assets {
    pub large_image: Option<String>,
    pub large_text: Option<String>,
    pub small_image: Option<String>,
    pub small_text: Option<String>,
}

pub open spec fn kept(o: Option<String>) -> Option<Seq<char>> {
    match o {
        Some(s) => if s@.len() > 0 {
            Some(s@)
        } else {
            None
        },
        None => None,
    }
}

fn keep_non_empty(o: &Option<String>) -> (r: Option<String>)
    ensures
        opt_view(r) == kept(*o),
{
    match o {
        Some(s) => if s.as_str().is_empty() {
            None
        } else {
            Some(to_owned_string(s.as_str()))
        },
        None => None,
    }
}

/// The assets of `presence`, or `None` when there are none to attach.
pub fn activity_assets(presence: &Presence) -> (r: Option<Assets>)
    ensures
        match r {
            Some(a) => opt_view(a.large_image) == kept(presence.large_image) && opt_view(
                a.large_text,
            ) == kept(presence.large_text) && opt_view(a.small_image) == kept(
                presence.small_image,
            ) && opt_view(a.small_text) == kept(presence.small_text) && (kept(
                presence.large_image,
            ) is Some || kept(presence.large_text) is Some || kept(presence.small_image) is Some
                || kept(presence.small_text) is Some),
            None => kept(presence.large_image) is None && kept(presence.large_text) is None && kept(
                presence.small_image,
            ) is None && kept(presence.small_text) is None,
        },
{
    let a = Assets {
        large_image: keep_non_empty(&presence.large_image),
        large_text: keep_non_empty(&presence.large_text),
        small_image: keep_non_empty(&presence.small_image),
        small_text: keep_non_empty(&presence.small_text),
    };
    if a.large_image.is_none() && a.large_text.is_none() && a.small_image.is_none()
        && a.small_text.is_none() {
        None
    } else {
        Some(a)
    }
}

/// The application id: the configured one when set, else the one from the
/// environment when set, else the built-in one (each trimmed).
pub fn discord_app_id(configured: &str, env_id: Option<&str>) -> (id: String)
    ensures
        strip_both(configured@, |c: char| is_ws(c)).len() > 0 ==> id@ == strip_both(
            configured@,
            |c: char| is_ws(c),
        ),
        strip_both(configured@, |c: char| is_ws(c)).len() == 0 ==> match env_id {
            Some(e) => if strip_both(e@, |c: char| is_ws(c)).len() > 0 {
                id@ == strip_both(e@, |c: char| is_ws(c))
            } else {
                id@ == strip_both(DEFAULT_APP_ID@, |c: char| is_ws(c))
            },
            None => id@ == strip_both(DEFAULT_APP_ID@, |c: char| is_ws(c)),
        },
{
    let custom = trim(configured);
    if !custom.as_str().is_empty() {
        return custom;
    }
    if let Some(e) = env_id {
        let e = trim(e);
        if !e.as_str().is_empty() {
            return e;
        }
    }
    trim(DEFAULT_APP_ID)
}

} // verus!
