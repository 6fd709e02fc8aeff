//! The streaming-mode state machine: enable, disable, reconcile, and the
//! dispatch of control commands and compositor events.
use vstd::prelude::*;
use crate::config::Config;
use crate::control::Command;
use crate::hypr::{
    active_workspace, bind_workspace_to_monitor, create_headless, detect_physical_monitor,
    disable_mirror, is_virtual_name, json_payload, mirror_command, mirror_headless_from,
    move_command, move_workspace_to_monitor, park_command, plain_payload, remove_command,
    remove_headless, restore_headless_stolen_workspaces, restore_log, snapshot_workspaces, stolen,
    Hypr, HyprError, Remote,
};
use crate::text::{chars_of, concat, split_once, split_once_at, str_eq, trim, trimmed};

verus! {

#[derive(Clone, Copy, Debug, PartialEq, Eq, Structural)]
pub enum Mode {
    Disabled,
    Enabled,
}

/// The hook commands that are due to be launched, oldest first. Commands that
/// are blank are never queued.
pub struct HookQueue {
    cmds: Vec<String>,
}

/// The queue entry that firing the hook `cmd` makes: none for a blank command.
pub open spec fn hook_seq(cmd: Seq<char>) -> Seq<Seq<char>> {
    if trimmed(cmd).len() > 0 {
        seq![cmd]
    } else {
        Seq::empty()
    }
}

impl View for HookQueue {
    type V = Seq<Seq<char>>;

    closed spec fn view(&self) -> Seq<Seq<char>> {
        self.cmds@.map_values(|s: String| s@)
    }
}

impl HookQueue {
    pub fn new() -> (r: HookQueue)
        ensures
            r@ == Seq::<Seq<char>>::empty(),
    {
        let r = HookQueue { cmds: Vec::new() };
        assert(r@ =~= Seq::<Seq<char>>::empty());
        r
    }

    /// Queues the hook `cmd` unless it is blank.
    pub fn fire(&mut self, cmd: &str)
        ensures
            final(self)@ == old(self)@ + hook_seq(cmd@),
    {
        let t = trim(cmd);
        if chars_of(t.as_str()).len() > 0 {
            self.cmds.push(cmd.to_owned());
            assert(self@ =~= old(self)@ + hook_seq(cmd@));
        } else {
            assert(old(self)@ + hook_seq(cmd@) =~= old(self)@);
        }
    }

    /// Hands out the queued commands, oldest first, and empties the queue.
    pub fn take(&mut self) -> (r: Vec<String>)
        ensures
            r@.map_values(|s: String| s@) == old(self)@,
            final(self)@ == Seq::<Seq<char>>::empty(),
    {
        let r = self.cmds.split_off(0);
        assert(r@ =~= old(self).cmds@);
        assert(self@ =~= Seq::<Seq<char>>::empty());
        r
    }
}

/// Everything the daemon knows; one owner mutates it.
pub struct State {
    pub mode: Mode,
    /// The virtual output this daemon created; present exactly when enabled.
    pub headless: Option<String>,
    /// The output that is mirrored; empty until the first enable.
    pub physical: String,
    /// The workspace that reconcile saw last.
    pub active_workspace: String,
    /// Whether the virtual output shows the physical one, rather than being parked.
    pub mirroring_active: bool,
    pub cfg: Config,
    pub hooks: HookQueue,
}

impl State {
    pub open spec fn wf(&self) -> bool {
        &&& (self.headless is Some <==> self.mode == Mode::Enabled)
        &&& (self.mirroring_active ==> self.mode == Mode::Enabled)
    }

    /// The state at startup: disabled, nothing known yet.
    pub fn new(cfg: Config) -> (r: State)
        ensures
            r.wf(),
            r.mode == Mode::Disabled,
            r.physical@.len() == 0,
            r.active_workspace@.len() == 0,
            !r.mirroring_active,
            r.cfg == cfg,
            r.hooks@.len() == 0,
    {
        State {
            mode: Mode::Disabled,
            headless: None,
            physical: String::new(),
            active_workspace: String::new(),
            mirroring_active: false,
            cfg,
            hooks: HookQueue::new(),
        }
    }
}

/// What reconcile does about mirroring, given what it last did and the focused workspace.
pub enum Transition {
    /// Start mirroring into the virtual output.
    Enter,
    /// Park the virtual output.
    Leave,
    Stay,
}

pub open spec fn plan(mirroring: bool, ws: Seq<char>, streaming: Seq<char>) -> Transition {
    let on = ws == streaming;
    if on && !mirroring {
        Transition::Enter
    } else if !on && mirroring {
        Transition::Leave
    } else {
        Transition::Stay
    }
}

/// Whether mirroring is on after `t`, from `mirroring` before.
pub open spec fn mirroring_after(mirroring: bool, t: Transition) -> bool {
    match t {
        Transition::Enter => true,
        Transition::Leave => false,
        Transition::Stay => mirroring,
    }
}

/// After a reconcile that saw `ws`, mirroring is on exactly when `ws` is the
/// streaming workspace; a second reconcile that sees the same workspace
/// changes nothing, sends no command and fires no hook.
pub proof fn lemma_reconcile_converges(mirroring: bool, ws: Seq<char>, streaming: Seq<char>)
    ensures
        mirroring_after(mirroring, plan(mirroring, ws, streaming)) == (ws == streaming),
        plan(mirroring_after(mirroring, plan(mirroring, ws, streaming)), ws, streaming) is Stay,
{
}

/// The command that transition `t` sends for the virtual output `h`.
pub open spec fn transition_requests(s0: State, t: Transition) -> Seq<Seq<char>> {
    let h = s0.headless->0@;
    match t {
        Transition::Enter => seq![plain_payload(mirror_command(h, s0.physical@))],
        Transition::Leave => seq![plain_payload(park_command(h, s0.cfg.virtual_resolution@))],
        Transition::Stay => Seq::empty(),
    }
}

/// The hooks that transition `t` fires.
pub open spec fn transition_hooks(s0: State, t: Transition) -> Seq<Seq<char>> {
    match t {
        Transition::Enter => hook_seq(s0.cfg.on_streaming_enter@),
        Transition::Leave => hook_seq(s0.cfg.on_streaming_leave@),
        Transition::Stay => Seq::empty(),
    }
}

/// What acting on the answered focused workspace `ws` did, from `s0` to `s1`;
/// `ok` tells whether it succeeded. Only a rejected or failed mirror or park
/// command fails it, and then nothing changes.
pub open spec fn observed(
    s0: State,
    s1: State,
    sent0: Seq<Seq<char>>,
    sent1: Seq<Seq<char>>,
    ws: Seq<char>,
    ok: bool,
) -> bool {
    let t = plan(s0.mirroring_active, ws, s0.cfg.streaming_workspace@);
    &&& sent1 == sent0 + transition_requests(s0, t)
    &&& t is Stay ==> ok
    &&& ok ==> {
        &&& s1.active_workspace@ == ws
        &&& s1.mode == s0.mode
        &&& s1.headless == s0.headless
        &&& s1.physical == s0.physical
        &&& s1.cfg == s0.cfg
        &&& s1.mirroring_active == mirroring_after(s0.mirroring_active, t)
        &&& s1.hooks@ == s0.hooks@ + transition_hooks(s0, t)
    }
    &&& !ok ==> s1 == s0
}

/// What one reconcile from `s0` to `s1` did, `ok` telling whether it succeeded;
/// `sent0` and `sent1` are the requests sent before and after. While enabled
/// it asks for the focused workspace and, when answered, acts on the answer.
pub open spec fn reconciled(s0: State, s1: State, sent0: Seq<Seq<char>>, sent1: Seq<Seq<char>>, ok: bool) -> bool {
    if s0.mode != Mode::Enabled {
        ok && s1 == s0 && sent1 == sent0
    } else {
        let q = sent0.push(json_payload("activeworkspace"@));
        ||| !ok && s1 == s0 && sent1 == q
        ||| exists|ws: Seq<char>| #[trigger] observed(s0, s1, q, sent1, ws, ok)
    }
}

/// Acting on an answered workspace: mirroring is then on exactly when it is
/// the streaming workspace. Acting again on the same workspace succeeds, sends
/// nothing, fires no hook and changes nothing but the recorded workspace,
/// which stays the same.
pub proof fn lemma_reconcile_idempotent(
    s0: State,
    s1: State,
    s2: State,
    sent0: Seq<Seq<char>>,
    sent1: Seq<Seq<char>>,
    sent2: Seq<Seq<char>>,
    ws: Seq<char>,
    ok: bool,
)
    requires
        s0.wf(),
        s0.mode == Mode::Enabled,
        observed(s0, s1, sent0, sent1, ws, true),
    ensures
        s1.mirroring_active == (ws == s0.cfg.streaming_workspace@),
        observed(s1, s2, sent1, sent2, ws, ok) ==> {
            &&& ok
            &&& sent2 == sent1
            &&& s2.hooks@ == s1.hooks@
            &&& s2.mirroring_active == s1.mirroring_active
            &&& s2.active_workspace@ == s1.active_workspace@
        },
{
    lemma_reconcile_converges(s0.mirroring_active, ws, s0.cfg.streaming_workspace@);
    let t = plan(s1.mirroring_active, ws, s1.cfg.streaming_workspace@);
    assert(t is Stay);
    assert(transition_requests(s1, t) =~= Seq::<Seq<char>>::empty());
    assert(sent1 + transition_requests(s1, t) =~= sent1);
    assert(s1.hooks@ + transition_hooks(s1, t) =~= s1.hooks@);
}

/// Acts on the answered focused workspace `ws`: starts mirroring when it is the
/// streaming workspace and mirroring is off, parks the virtual output when it
/// is another one and mirroring is on, and records `ws`.
pub fn reconcile_observed<H: Hypr>(st: &mut State, remote: &mut Remote<H>, ws: String) -> (r: Result<(), HyprError>)
    requires
        old(st).wf(),
        old(st).mode == Mode::Enabled,
    ensures
        final(st).wf(),
        observed(*old(st), *final(st), old(remote).sent(), final(remote).sent(), ws@, r is Ok),
{
    let headless = match &st.headless {
        Some(h) => h.clone(),
        None => return Ok(()),
    };
    let ghost sent0 = remote.sent();
    let ghost t = plan(st.mirroring_active, ws@, st.cfg.streaming_workspace@);
    let on = str_eq(ws.as_str(), st.cfg.streaming_workspace.as_str());
    if on && !st.mirroring_active {
        let res = mirror_headless_from(remote, headless.as_str(), st.physical.as_str());
        assert(remote.sent() =~= sent0 + transition_requests(*old(st), t));
        res?;
        st.mirroring_active = true;
        st.hooks.fire(st.cfg.on_streaming_enter.as_str());
    } else if !on && st.mirroring_active {
        let res = disable_mirror(remote, headless.as_str(), st.cfg.virtual_resolution.as_str());
        assert(remote.sent() =~= sent0 + transition_requests(*old(st), t));
        res?;
        st.mirroring_active = false;
        st.hooks.fire(st.cfg.on_streaming_leave.as_str());
    } else {
        assert(remote.sent() =~= sent0 + transition_requests(*old(st), t));
        assert(st.hooks@ + transition_hooks(*old(st), t) =~= st.hooks@);
    }
    st.active_workspace = ws;
    Ok(())
}

/// Brings mirroring in line with the focused workspace: asks the compositor
/// which workspace is focused and acts on the answer. Does nothing unless enabled.
pub fn reconcile<H: Hypr>(st: &mut State, remote: &mut Remote<H>) -> (r: Result<(), HyprError>)
    requires
        old(st).wf(),
    ensures
        final(st).wf(),
        reconciled(*old(st), *final(st), old(remote).sent(), final(remote).sent(), r is Ok),
{
    if st.mode != Mode::Enabled {
        return Ok(());
    }
    let ws = active_workspace(remote)?;
    let ghost w = ws@;
    let ghost q = remote.sent();
    let r = reconcile_observed(st, remote, ws);
    assert(observed(*old(st), *st, q, remote.sent(), w, r is Ok));
    r
}

/// `pre` is what an enable sends to learn the physical output: nothing, or one
/// query when neither the state nor the configuration names it.
pub open spec fn physical_query(s0: State, pre: Seq<Seq<char>>) -> bool {
    pre == Seq::<Seq<char>>::empty() || (s0.physical@.len() == 0
        && s0.cfg.physical_monitor@.len() == 0 && pre == seq![json_payload("monitors"@)])
}

/// `r` is what a restore of stolen workspaces after the snapshot `b` sent: a
/// second snapshot, then the first moves that this snapshot calls for.
pub open spec fn is_restore(r: Seq<Seq<char>>, b: Seq<(Seq<char>, Seq<char>)>, h: Seq<char>, sw: Seq<char>) -> bool {
    exists|after: Seq<(Seq<char>, Seq<char>)>, k: int|
        0 <= k <= stolen(b, after, h, sw).len() && r == #[trigger] restore_log(b, after, h, sw, k)
}

/// The requests of an enable up to the parking of the new output `h`.
pub open spec fn enable_prefix(s0: State, sent0: Seq<Seq<char>>, pre: Seq<Seq<char>>, h: Seq<char>) -> Seq<Seq<char>> {
    sent0 + pre + seq![
        json_payload("workspaces"@),
        plain_payload(crate::hypr::create_command()),
        json_payload("monitors all"@),
        plain_payload(park_command(h, s0.cfg.virtual_resolution@)),
    ]
}

/// The requests of a failed enable: it stopped at one of its steps, or, when
/// the streaming workspace could not be bound or moved, it restored what the
/// new output `h` took since the snapshot `b` and removed `h` again.
pub open spec fn enable_failed_log(
    s0: State,
    sent0: Seq<Seq<char>>,
    sent1: Seq<Seq<char>>,
    pre: Seq<Seq<char>>,
    h: Seq<char>,
    b: Seq<(Seq<char>, Seq<char>)>,
    r: Seq<Seq<char>>,
) -> bool {
    let p = enable_prefix(s0, sent0, pre, h);
    let sw = s0.cfg.streaming_workspace@;
    let bind = plain_payload(crate::hypr::bind_command(sw, h));
    let mv = plain_payload(move_command(sw, h));
    let remove = plain_payload(remove_command(h));
    &&& physical_query(s0, pre)
    &&& {
        ||| pre.len() == 1 && sent1 == sent0 + pre
        ||| sent1 == p.take(sent0.len() + pre.len() + 1 as int)
        ||| sent1 == p.take(sent0.len() + pre.len() + 2 as int)
        ||| sent1 == p.take(sent0.len() + pre.len() + 3 as int)
        ||| sent1 == p
        ||| is_restore(r, b, h, sw) && sent1 == p.push(bind) + r + seq![remove]
        ||| is_restore(r, b, h, sw) && sent1 == p.push(bind).push(mv) + r + seq![remove]
    }
}

/// The requests of a successful enable that created `h`: `r` restored what
/// `h` took since the snapshot `b`, and `c` is the first reconcile.
pub open spec fn enable_ok_log(
    s0: State,
    sent0: Seq<Seq<char>>,
    sent1: Seq<Seq<char>>,
    pre: Seq<Seq<char>>,
    h: Seq<char>,
    b: Seq<(Seq<char>, Seq<char>)>,
    r: Seq<Seq<char>>,
    c: Seq<Seq<char>>,
) -> bool {
    let sw = s0.cfg.streaming_workspace@;
    &&& physical_query(s0, pre)
    &&& is_restore(r, b, h, sw)
    &&& sent1 == enable_prefix(s0, sent0, pre, h).push(
        plain_payload(crate::hypr::bind_command(sw, h))).push(plain_payload(move_command(sw, h))) + r + c
}

/// The first reconcile of a successful enable, from `s0` to `s1`, sending `c`:
/// it could not learn the focus or could not mirror, and then recorded nothing;
/// or it saw the streaming workspace and started mirroring; or it saw another
/// workspace and left the output parked. The enable hook comes last.
pub open spec fn first_reconcile(s0: State, s1: State, c: Seq<Seq<char>>) -> bool {
    let q = json_payload("activeworkspace"@);
    let enter = plain_payload(mirror_command(s1.headless->0@, s1.physical@));
    let sw = s0.cfg.streaming_workspace@;
    let fin = hook_seq(s0.cfg.on_enable@);
    ||| (c == seq![q] || c == seq![q, enter]) && s1.active_workspace@.len() == 0
        && !s1.mirroring_active && s1.hooks@ == s0.hooks@ + fin
    ||| c == seq![q, enter] && s1.active_workspace@ == sw && s1.mirroring_active
        && s1.hooks@ == s0.hooks@ + hook_seq(s0.cfg.on_streaming_enter@) + fin
    ||| c == seq![q] && s1.active_workspace@ != sw && !s1.mirroring_active
        && s1.hooks@ == s0.hooks@ + fin
}

/// What an enable from `s0` to `s1` did; `ok` tells whether it succeeded.
pub open spec fn enabled(s0: State, s1: State, sent0: Seq<Seq<char>>, sent1: Seq<Seq<char>>, ok: bool) -> bool {
    &&& s1.cfg == s0.cfg
    &&& if s0.mode == Mode::Enabled {
        ok && s1 == s0 && sent1 == sent0
    } else {
        &&& s0.physical@.len() > 0 ==> s1.physical == s0.physical
        &&& s0.physical@.len() == 0 && s0.cfg.physical_monitor@.len() > 0
            ==> s1.physical@ == s0.cfg.physical_monitor@
        &&& !ok ==> {
            &&& s1.mode == Mode::Disabled
            &&& s1.headless is None
            &&& !s1.mirroring_active
            &&& s1.active_workspace == s0.active_workspace
            &&& s1.hooks@ == s0.hooks@
            &&& exists|pre: Seq<Seq<char>>, h: Seq<char>, b: Seq<(Seq<char>, Seq<char>)>, r: Seq<Seq<char>>|
                #[trigger] enable_failed_log(s0, sent0, sent1, pre, h, b, r)
        }
        &&& ok ==> {
            &&& s1.mode == Mode::Enabled
            &&& s1.headless matches Some(h) && is_virtual_name(h@)
                && exists|pre: Seq<Seq<char>>, b: Seq<(Seq<char>, Seq<char>)>, r: Seq<Seq<char>>, c: Seq<Seq<char>>|
                #[trigger] enable_ok_log(s0, sent0, sent1, pre, h@, b, r, c) && first_reconcile(s0, s1, c)
            &&& s0.physical@.len() == 0 && s0.cfg.physical_monitor@.len() == 0
                ==> !is_virtual_name(s1.physical@)
        }
    }
}

/// Binds the streaming workspace to `headless`, then moves it there.
fn bind_and_move<H: Hypr>(remote: &mut Remote<H>, workspace: &str, headless: &str) -> (r: Result<(), HyprError>)
    ensures
        final(remote).sent() == old(remote).sent().push(
            plain_payload(crate::hypr::bind_command(workspace@, headless@)))
            || final(remote).sent() == old(remote).sent().push(
            plain_payload(crate::hypr::bind_command(workspace@, headless@))).push(
            plain_payload(move_command(workspace@, headless@))),
        r is Ok ==> final(remote).sent() == old(remote).sent().push(
            plain_payload(crate::hypr::bind_command(workspace@, headless@))).push(
            plain_payload(move_command(workspace@, headless@))),
{
    bind_workspace_to_monitor(remote, workspace, headless)?;
    move_workspace_to_monitor(remote, workspace, headless)?;
    Ok(())
}

/// Puts back what the new output `headless` took since `before`; returns what
/// the restore sent.
fn restore_after<H: Hypr>(
    remote: &mut Remote<H>,
    before: &crate::hypr::WorkspaceSnapshot,
    headless: &str,
    streaming: &str,
) -> (r: Ghost<Seq<Seq<char>>>)
    ensures
        is_restore(r@, before.entries(), headless@, streaming@),
        final(remote).sent() == old(remote).sent() + r@,
{
    let _ = restore_headless_stolen_workspaces(remote, before, headless, streaming);
    let ghost (after, k) = choose|after: Seq<(Seq<char>, Seq<char>)>, k: int|
        0 <= k <= stolen(before.entries(), after, headless@, streaming@).len()
        && remote.sent() == old(remote).sent() + #[trigger] restore_log(before.entries(), after, headless@, streaming@, k);
    Ghost(restore_log(before.entries(), after, headless@, streaming@, k))
}

/// Turns streaming mode on: creates the virtual output, parks it, moves the
/// streaming workspace onto it and puts back what its creation took. If the
/// workspace cannot be moved, the virtual output is removed again and the
/// error returned. A failed first reconcile leaves the mode enabled.
pub fn streaming_enable<H: Hypr>(st: &mut State, remote: &mut Remote<H>) -> (r: Result<(), HyprError>)
    requires
        old(st).wf(),
    ensures
        final(st).wf(),
        enabled(*old(st), *final(st), old(remote).sent(), final(remote).sent(), r is Ok),
{
    if st.mode == Mode::Enabled {
        return Ok(());
    }
    let ghost s0 = *st;
    let ghost sent0 = remote.sent();
    let ghost mut pre: Seq<Seq<char>> = Seq::empty();
    let ghost none: Seq<char> = Seq::empty();
    let ghost nil: Seq<Seq<char>> = Seq::empty();
    let ghost nob: Seq<(Seq<char>, Seq<char>)> = Seq::empty();
    if chars_of(st.physical.as_str()).len() == 0 {
        if chars_of(st.cfg.physical_monitor.as_str()).len() > 0 {
            st.physical = st.cfg.physical_monitor.clone();
        } else {
            let found = detect_physical_monitor(remote);
            proof {
                pre = seq![json_payload("monitors"@)];
                assert(remote.sent() =~= sent0 + pre);
            }
            match found {
                Ok(p) => st.physical = p,
                Err(e) => {
                    assert(enable_failed_log(s0, sent0, remote.sent(), pre, none, nob, nil));
                    return Err(e);
                },
            }
        }
    }
    proof {
        assert(remote.sent() =~= sent0 + pre);
    }
    let before = match snapshot_workspaces(remote) {
        Ok(b) => b,
        Err(e) => {
            assert(remote.sent() =~= enable_prefix(s0, sent0, pre, none).take(sent0.len() + pre.len() + 1 as int));
            assert(enable_failed_log(s0, sent0, remote.sent(), pre, none, nob, nil));
            return Err(e);
        },
    };
    let ghost at_create = remote.sent();
    let headless = match create_headless(remote) {
        Ok(h) => h,
        Err(e) => {
            assert(at_create.push(plain_payload(crate::hypr::create_command()))
                =~= enable_prefix(s0, sent0, pre, none).take(sent0.len() + pre.len() + 2 as int));
            assert(at_create.push(plain_payload(crate::hypr::create_command())).push(json_payload("monitors all"@))
                =~= enable_prefix(s0, sent0, pre, none).take(sent0.len() + pre.len() + 3 as int));
            assert(enable_failed_log(s0, sent0, remote.sent(), pre, none, nob, nil));
            return Err(e);
        },
    };
    let parked = disable_mirror(remote, headless.as_str(), st.cfg.virtual_resolution.as_str());
    proof {
        assert(remote.sent() =~= enable_prefix(s0, sent0, pre, headless@));
    }
    if let Err(e) = parked {
        assert(enable_failed_log(s0, sent0, remote.sent(), pre, headless@, nob, nil));
        return Err(e);
    }
    let res = bind_and_move(remote, st.cfg.streaming_workspace.as_str(), headless.as_str());
    if let Err(e) = res {
        let ghost q = remote.sent();
        let rest = restore_after(remote, &before, headless.as_str(), st.cfg.streaming_workspace.as_str());
        let _ = remove_headless(remote, headless.as_str());
        proof {
            assert(remote.sent() =~= q + rest@ + seq![plain_payload(remove_command(headless@))]);
            assert(enable_failed_log(s0, sent0, remote.sent(), pre, headless@, before.entries(), rest@));
        }
        return Err(e);
    }
    let rest = restore_after(remote, &before, headless.as_str(), st.cfg.streaming_workspace.as_str());
    let ghost committed_sent = remote.sent();
    st.mode = Mode::Enabled;
    st.headless = Some(headless);
    st.mirroring_active = false;
    st.active_workspace = String::new();
    let ghost s_commit = *st;
    let first = reconcile(st, remote);
    let ghost okr = first.is_ok();
    let ghost c = remote.sent().skip(committed_sent.len() as int);
    let ghost s_rec = *st;
    proof {
        let jq = json_payload("activeworkspace"@);
        let q = committed_sent.push(jq);
        assert(s_commit.mode == Mode::Enabled);
        if exists|ws: Seq<char>| #[trigger] observed(s_commit, s_rec, q, remote.sent(), ws, okr) {
            let ws = choose|ws: Seq<char>| #[trigger] observed(s_commit, s_rec, q, remote.sent(), ws, okr);
            let t = plan(false, ws, s_commit.cfg.streaming_workspace@);
            let x = seq![jq] + transition_requests(s_commit, t);
            assert(!s_commit.mirroring_active);
            assert(remote.sent() == q + transition_requests(s_commit, t));
            assert(remote.sent().skip(committed_sent.len() as int) == c);
            assert(q + transition_requests(s_commit, t) =~= committed_sent + x);
            assert((committed_sent + x).skip(committed_sent.len() as int) =~= x);
            assert(c == x);
            if ws == s_commit.cfg.streaming_workspace@ {
                assert(x =~= seq![jq, plain_payload(mirror_command(s_commit.headless->0@, s_commit.physical@))]);
            } else {
                assert(x =~= seq![jq]);
            }
        } else {
            assert(q =~= committed_sent + seq![jq]);
            assert((committed_sent + seq![jq]).skip(committed_sent.len() as int) =~= seq![jq]);
        }
    }
    st.hooks.fire(st.cfg.on_enable.as_str());
    proof {
        assert(enable_ok_log(s0, sent0, remote.sent(), pre, st.headless->0@, before.entries(), rest@, c));
        assert(s_commit.hooks@ == old(st).hooks@);
        assert(first_reconcile(s0, *st, c));
    }
    Ok(())
}

/// What a disable from `s0` to `s1` did; `ok` tells whether the remote side
/// went through cleanly. The local state is disabled either way.
pub open spec fn disabled(s0: State, s1: State, sent0: Seq<Seq<char>>, sent1: Seq<Seq<char>>, ok: bool) -> bool {
    if s0.mode == Mode::Disabled {
        ok && s1 == s0 && sent1 == sent0
    } else {
        let h = s0.headless->0@;
        let parked = if s0.mirroring_active {
            sent0.push(plain_payload(park_command(h, s0.cfg.virtual_resolution@)))
        } else {
            sent0
        };
        &&& s1.mode == Mode::Disabled
        &&& s1.headless is None
        &&& !s1.mirroring_active
        &&& s1.physical == s0.physical
        &&& s1.active_workspace == s0.active_workspace
        &&& s1.cfg == s0.cfg
        &&& s1.hooks@ == s0.hooks@ + hook_seq(s0.cfg.on_disable@)
        &&& sent1 == parked.push(
            plain_payload(move_command(s0.cfg.streaming_workspace@, s0.physical@))).push(
            plain_payload(remove_command(h)))
        &&& !s0.mirroring_active ==> ok
    }
}

/// Turns streaming mode off: parks a mirroring output, moves the streaming
/// workspace back and removes the virtual output, then commits the disabled
/// state whatever the compositor answered. A failed park is reported after
/// the rest has been done; the other steps are best effort.
pub fn streaming_disable<H: Hypr>(st: &mut State, remote: &mut Remote<H>) -> (r: Result<(), HyprError>)
    requires
        old(st).wf(),
    ensures
        final(st).wf(),
        disabled(*old(st), *final(st), old(remote).sent(), final(remote).sent(), r is Ok),
{
    if st.mode == Mode::Disabled {
        return Ok(());
    }
    let headless = match &st.headless {
        Some(h) => h.clone(),
        None => return Ok(()),
    };
    let mut res: Result<(), HyprError> = Ok(());
    if st.mirroring_active {
        res = disable_mirror(remote, headless.as_str(), st.cfg.virtual_resolution.as_str());
        st.mirroring_active = false;
    }
    let _ = move_workspace_to_monitor(remote, st.cfg.streaming_workspace.as_str(), st.physical.as_str());
    let _ = remove_headless(remote, headless.as_str());
    st.headless = None;
    st.mode = Mode::Disabled;
    st.hooks.fire(st.cfg.on_disable.as_str());
    res
}

/// The reply to a `status` command.
pub open spec fn status_spec(s: State) -> Seq<char> {
    "mode="@ + (if s.mode == Mode::Enabled { "enabled"@ } else { "disabled"@ })
        + " headless="@ + (match s.headless { Some(h) => h@, None => "none"@ })
        + " physical="@ + (if s.physical@.len() == 0 { "unknown"@ } else { s.physical@ })
        + " workspace="@ + s.active_workspace@
        + " mirroring="@ + (if s.mirroring_active { "on"@ } else { "off"@ })
}

pub fn status_line(st: &State) -> (r: String)
    ensures
        r@ == status_spec(*st),
{
    let mut r = concat("mode=", if st.mode == Mode::Enabled { "enabled" } else { "disabled" });
    r.append(" headless=");
    match &st.headless {
        Some(h) => r.append(h.as_str()),
        None => r.append("none"),
    }
    r.append(" physical=");
    if chars_of(st.physical.as_str()).len() == 0 {
        r.append("unknown");
    } else {
        r.append(st.physical.as_str());
    }
    r.append(" workspace=");
    r.append(st.active_workspace.as_str());
    r.append(" mirroring=");
    r.append(if st.mirroring_active { "on" } else { "off" });
    r
}

/// A toggle from `s0` to `s1`: a disable when enabled, else an enable.
pub open spec fn toggled(s0: State, s1: State, sent0: Seq<Seq<char>>, sent1: Seq<Seq<char>>, ok: bool) -> bool {
    if s0.mode == Mode::Enabled {
        disabled(s0, s1, sent0, sent1, ok)
    } else {
        enabled(s0, s1, sent0, sent1, ok)
    }
}

/// The answer to one control connection.
pub struct CtlReply {
    /// The line written back to the client.
    pub text: String,
    /// Whether the daemon must stop.
    pub stop: bool,
}

/// Runs one control line against the state and says what to answer.
pub fn handle_ctl<H: Hypr>(st: &mut State, remote: &mut Remote<H>, line: &str) -> (r: CtlReply)
    requires
        old(st).wf(),
    ensures
        final(st).wf(),
        r.stop == (Command::parse_spec(line@) == Some(Command::Quit)),
        match Command::parse_spec(line@) {
            None => r.text@ == "error: unknown command: "@ + trimmed(line@)
                && *final(st) == *old(st) && final(remote).sent() == old(remote).sent(),
            Some(Command::Status) => r.text@ == status_spec(*old(st))
                && *final(st) == *old(st) && final(remote).sent() == old(remote).sent(),
            Some(Command::Quit) => r.text@ == "shutting down"@
                && *final(st) == *old(st) && final(remote).sent() == old(remote).sent(),
            Some(Command::Enable) => enabled(*old(st), *final(st), old(remote).sent(), final(remote).sent(), final(st).mode == Mode::Enabled)
                && r.text@ == (if final(st).mode == Mode::Enabled { "enabled"@ } else { "error: enable failed"@ }),
            Some(Command::Disable) => exists|ok: bool|
                #[trigger] disabled(*old(st), *final(st), old(remote).sent(), final(remote).sent(), ok)
                && r.text@ == (if ok { "disabled"@ } else { "error: disable failed"@ }),
            Some(Command::Toggle) => exists|ok: bool|
                #[trigger] toggled(*old(st), *final(st), old(remote).sent(), final(remote).sent(), ok)
                && r.text@ == (if !ok {
                "error: toggle failed"@
            } else if final(st).mode == Mode::Enabled {
                "enabled"@
            } else {
                "disabled"@
            }),
        },
{
    match Command::parse(line) {
        Ok(Command::Enable) => {
            let text = if streaming_enable(st, remote).is_ok() {
                "enabled".to_owned()
            } else {
                "error: enable failed".to_owned()
            };
            CtlReply { text, stop: false }
        },
        Ok(Command::Disable) => {
            let rc = streaming_disable(st, remote);
            assert(disabled(*old(st), *st, old(remote).sent(), remote.sent(), rc is Ok));
            let text = if rc.is_ok() {
                "disabled".to_owned()
            } else {
                "error: disable failed".to_owned()
            };
            CtlReply { text, stop: false }
        },
        Ok(Command::Toggle) => {
            let rc = if st.mode == Mode::Enabled {
                streaming_disable(st, remote)
            } else {
                streaming_enable(st, remote)
            };
            assert(toggled(*old(st), *st, old(remote).sent(), remote.sent(), rc is Ok));
            let text = if rc.is_ok() {
                if st.mode == Mode::Enabled {
                    "enabled".to_owned()
                } else {
                    "disabled".to_owned()
                }
            } else {
                "error: toggle failed".to_owned()
            };
            CtlReply { text, stop: false }
        },
        Ok(Command::Status) => CtlReply { text: status_line(st), stop: false },
        Ok(Command::Quit) => CtlReply { text: "shutting down".to_owned(), stop: true },
        Err(crate::control::ControlError::UnknownCommand(t)) => {
            CtlReply { text: concat("error: unknown command: ", t.as_str()), stop: false }
        },
    }
}

/// Compositor events after which the focus may have changed.
pub open spec fn is_focus_event(ev: Seq<char>) -> bool {
    ev == "workspace"@ || ev == "focusedmon"@ || ev == "activewindow"@ || ev == "movewindow"@
}

/// What handling one event line did.
#[derive(Debug)]
pub enum EventOutcome {
    /// The line was not an event that matters here.
    Ignored,
    /// Reconcile ran, with this result.
    Reconciled(Result<(), HyprError>),
    /// The compositor reported that our virtual output is gone; the mode is now disabled.
    HeadlessRemoved,
}

/// Handles one `category>>payload` line of the compositor's event stream.
pub fn handle_event_line<H: Hypr>(st: &mut State, remote: &mut Remote<H>, line: &str) -> (r: EventOutcome)
    requires
        old(st).wf(),
    ensures
        final(st).wf(),
        match split_once(line@, ">>"@) {
            Some((ev, data)) => if is_focus_event(ev) {
                r matches EventOutcome::Reconciled(x)
                    && reconciled(*old(st), *final(st), old(remote).sent(), final(remote).sent(), x is Ok)
            } else if ev == "monitorremoved"@ && old(st).mode == Mode::Enabled
                && (old(st).headless matches Some(h) && h@ == data) {
                r is HeadlessRemoved && final(remote).sent() == old(remote).sent()
                    && *final(st) == (State {
                    mode: Mode::Disabled,
                    headless: None,
                    mirroring_active: false,
                    ..*old(st)
                })
            } else {
                r is Ignored && *final(st) == *old(st) && final(remote).sent() == old(remote).sent()
            },
            None => r is Ignored && *final(st) == *old(st) && final(remote).sent() == old(remote).sent(),
        },
{
    let (ev, data) = match split_once_at(line, ">>") {
        Some(p) => p,
        None => return EventOutcome::Ignored,
    };
    let e = ev.as_str();
    if str_eq(e, "workspace") || str_eq(e, "focusedmon") || str_eq(e, "activewindow")
        || str_eq(e, "movewindow") {
        EventOutcome::Reconciled(reconcile(st, remote))
    } else if str_eq(e, "monitorremoved") && st.mode == Mode::Enabled {
        let gone = match &st.headless {
            Some(h) => str_eq(data.as_str(), h.as_str()),
            None => false,
        };
        if gone {
            st.mode = Mode::Disabled;
            st.headless = None;
            st.mirroring_active = false;
            EventOutcome::HeadlessRemoved
        } else {
            EventOutcome::Ignored
        }
    } else {
        EventOutcome::Ignored
    }
}


/// Seconds to wait before dialing the event socket again.
pub const RECONNECT_DELAY_SECS: u64 = 2;

/// Failed dials in a row after which the daemon gives up.
pub const MAX_RECONNECT: usize = 30;

/// Counts failed dials of the event socket in a row.
pub struct Reconnect {
    attempts: usize,
}

impl Reconnect {
    pub closed spec fn attempts_spec(&self) -> nat {
        self.attempts as nat
    }

    pub fn new() -> (r: Reconnect)
        ensures
            r.attempts_spec() == 0,
    {
        Reconnect { attempts: 0 }
    }

    pub fn attempts(&self) -> (r: usize)
        ensures
            r == self.attempts_spec(),
    {
        self.attempts
    }

    /// Records a failed dial; says whether to try again after the delay.
    pub fn on_failure(&mut self) -> (retry: bool)
        ensures
            retry == (old(self).attempts_spec() < MAX_RECONNECT),
            final(self).attempts_spec() == if retry {
                old(self).attempts_spec() + 1
            } else {
                old(self).attempts_spec()
            },
    {
        if self.attempts < MAX_RECONNECT {
            self.attempts = self.attempts + 1;
            true
        } else {
            false
        }
    }

    /// Records a successful dial.
    pub fn on_connected(&mut self)
        ensures
            final(self).attempts_spec() == 0,
    {
        self.attempts = 0;
    }
}

/// The text that `String::from_utf8_lossy` makes of `b`.
pub uninterp spec fn utf8_lossy(b: Seq<u8>) -> Seq<char>;

/// Relies on `String::from_utf8_lossy`: the text of the bytes, each invalid
/// sequence replaced; the result depends on the bytes alone.
#[verifier::external_body]
fn decode_lossy(b: &[u8]) -> (r: String)
    ensures
        r@ == utf8_lossy(b@),
{
    String::from_utf8_lossy(b).into_owned()
}

/// `s` without its trailing `'\n'` and `'\r'` characters.
pub open spec fn trim_newlines(s: Seq<char>) -> Seq<char>
    decreases s.len(),
{
    if s.len() > 0 && (s.last() == '\n' || s.last() == '\r') {
        trim_newlines(s.drop_last())
    } else {
        s
    }
}

/// Removes the trailing line break characters of a decoded event record.
pub fn trim_event_line(s: &str) -> (r: String)
    ensures
        r@ == trim_newlines(s@),
{
    let v = chars_of(s);
    let mut n: usize = v.len();
    assert(v@.take(n as int) =~= v@);
    while n > 0 && (v[n - 1] == '\n' || v[n - 1] == '\r')
        invariant
            n <= v@.len(),
            trim_newlines(v@) == trim_newlines(v@.take(n as int)),
        decreases n,
    {
        assert(v@.take(n as int).drop_last() =~= v@.take(n - 1));
        n = n - 1;
    }
    crate::text::string_of(vstd::slice::slice_subrange(v.as_slice(), 0, n))
}

/// The first position of a newline byte in `b`.
pub open spec fn is_first_newline(b: Seq<u8>, i: int) -> bool {
    0 <= i < b.len() && b[i] == 10u8 && forall|j: int| 0 <= j < i ==> #[trigger] b[j] != 10u8
}

/// Bytes read from the event socket that do not yet form a whole record.
pub struct EventBuffer {
    bytes: Vec<u8>,
}

impl View for EventBuffer {
    type V = Seq<u8>;

    closed spec fn view(&self) -> Seq<u8> {
        self.bytes@
    }
}

impl EventBuffer {
    pub fn new() -> (r: EventBuffer)
        ensures
            r@ == Seq::<u8>::empty(),
    {
        EventBuffer { bytes: Vec::new() }
    }

    /// Appends bytes as they arrive.
    pub fn extend(&mut self, data: &[u8])
        ensures
            final(self)@ == old(self)@ + data@,
    {
        self.bytes.extend_from_slice(data);
    }

    /// Takes the oldest complete record, up to and including its newline, and
    /// returns its text without line breaks at the end; keeps a partial record.
    pub fn next_line(&mut self) -> (r: Option<String>)
        ensures
            (exists|i: int| is_first_newline(old(self)@, i)) ==> exists|i: int|
                is_first_newline(old(self)@, i) && final(self)@ == old(self)@.skip(i + 1)
                    && (r matches Some(l) && l@ == trim_newlines(utf8_lossy(#[trigger] old(self)@.take(i + 1)))),
            !(exists|i: int| is_first_newline(old(self)@, i)) ==> r is None && final(self)@ == old(self)@,
    {
        let mut i: usize = 0;
        while i < self.bytes.len()
            invariant
                i <= self.bytes@.len(),
                self.bytes@ == old(self)@,
                forall|j: int| 0 <= j < i ==> #[trigger] self.bytes@[j] != 10u8,
            decreases self.bytes@.len() - i,
        {
            if self.bytes[i] == 10u8 {
                let rest = self.bytes.split_off(i + 1);
                let text = decode_lossy(self.bytes.as_slice());
                proof {
                    assert(is_first_newline(old(self)@, i as int));
                    assert(self.bytes@ =~= old(self)@.take(i + 1));
                    assert(rest@ =~= old(self)@.skip(i + 1));
                }
                self.bytes = rest;
                return Some(trim_event_line(text.as_str()));
            }
            i = i + 1;
        }
        None
    }
}

} // verus!
