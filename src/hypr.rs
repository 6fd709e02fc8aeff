//! The compositor client: the request vocabulary, the decisions taken on its
//! replies, and a recorder of every request the library sends.
use vstd::prelude::*;
use crate::paths::{hypr_socket_path, instance_path_spec, PathError};
use crate::text::{
    chars_of, concat, has_prefix, skip_chars, starts_with, str_eq, trim, trimmed,
};

verus! {

/// An output as the compositor lists it.
#[derive(Debug)]
pub struct Monitor {
    pub name: String,
}

/// A workspace and the output that hosts it.
#[derive(Debug)]
pub struct Workspace {
    pub name: String,
    pub monitor: String,
}

/// The focused workspace.
#[derive(Debug)]
pub struct ActiveWorkspace {
    pub name: String,
}

/// Why a request to the compositor failed.
#[derive(Debug)]
pub enum HyprError {
    /// The socket could not be dialed, written, or read to the end.
    Connection(String),
    /// A structured reply does not have the expected shape.
    Parse(String),
    /// A mutating command was answered with something other than `ok`.
    Rejected { command: String, reply: String },
    /// No virtual output could be found after creating one.
    NoHeadlessOutput,
    /// Every output is a virtual one.
    NoPhysicalOutput,
}

/// The two primitive requests of the compositor's socket protocol. The
/// structured request is given once for each reply shape the library reads.
pub trait Hypr {
    /// Sends `/` + `args` and returns the reply text.
    fn request_raw(&self, args: &str) -> Result<String, HyprError>;

    /// Sends `j/` + `args` and decodes the reply as a list of outputs.
    fn request_monitors(&self, args: &str) -> Result<Vec<Monitor>, HyprError>;

    /// Sends `j/` + `args` and decodes the reply as a list of workspaces.
    fn request_workspaces(&self, args: &str) -> Result<Vec<Workspace>, HyprError>;

    /// Sends `j/` + `args` and decodes the reply as the focused workspace.
    fn request_active_workspace(&self, args: &str) -> Result<ActiveWorkspace, HyprError>;
}

/// The bytes of a plain request.
pub open spec fn plain_payload(args: Seq<char>) -> Seq<char> {
    "/"@ + args
}

/// The bytes of a structured request.
pub open spec fn json_payload(args: Seq<char>) -> Seq<char> {
    "j/"@ + args
}

/// Where requests to the compositor go.
pub struct HyprIpc {
    sock: String,
}

impl HyprIpc {
    pub closed spec fn socket_spec(&self) -> Seq<char> {
        self.sock@
    }

    /// The client of the compositor instance `signature` under `runtime_dir`.
    pub fn new(signature: &str, runtime_dir: &str) -> (r: Result<HyprIpc, PathError>)
        ensures
            signature@.len() == 0 || runtime_dir@.len() == 0 ==> r is Err,
            signature@.len() > 0 && runtime_dir@.len() > 0 ==> (r matches Ok(c)
                && c.socket_spec() == instance_path_spec(signature@, runtime_dir@, ".socket.sock"@)),
    {
        match hypr_socket_path(signature, runtime_dir) {
            Ok(sock) => Ok(HyprIpc { sock }),
            Err(e) => Err(e),
        }
    }

    pub fn socket(&self) -> (r: &str)
        ensures
            r@ == self.socket_spec(),
    {
        self.sock.as_str()
    }

    /// The bytes that ask for `args` with a plain reply.
    pub fn raw_payload(args: &str) -> (r: String)
        ensures
            r@ == plain_payload(args@),
    {
        concat("/", args)
    }

    /// The bytes that ask for `args` with a structured reply.
    pub fn json_payload(args: &str) -> (r: String)
        ensures
            r@ == json_payload(args@),
    {
        concat("j/", args)
    }
}

/// A compositor client together with the record of what was sent through it.
pub struct Remote<H> {
    client: H,
    sent: Ghost<Seq<Seq<char>>>,
}

impl<H: Hypr> Remote<H> {
    /// The payloads sent so far, oldest first.
    pub closed spec fn sent(&self) -> Seq<Seq<char>> {
        self.sent@
    }

    pub fn new(client: H) -> (r: Self)
        ensures
            r.sent() == Seq::<Seq<char>>::empty(),
    {
        Remote { client, sent: Ghost(Seq::empty()) }
    }

    pub fn client(&self) -> &H {
        &self.client
    }

    pub fn into_client(self) -> H {
        self.client
    }

    pub fn raw(&mut self, args: &str) -> (r: Result<String, HyprError>)
        ensures
            final(self).sent() == old(self).sent().push(plain_payload(args@)),
    {
        self.sent = Ghost(self.sent@.push(plain_payload(args@)));
        self.client.request_raw(args)
    }

    pub fn monitors(&mut self, args: &str) -> (r: Result<Vec<Monitor>, HyprError>)
        ensures
            final(self).sent() == old(self).sent().push(json_payload(args@)),
    {
        self.sent = Ghost(self.sent@.push(json_payload(args@)));
        self.client.request_monitors(args)
    }

    pub fn workspaces(&mut self, args: &str) -> (r: Result<Vec<Workspace>, HyprError>)
        ensures
            final(self).sent() == old(self).sent().push(json_payload(args@)),
    {
        self.sent = Ghost(self.sent@.push(json_payload(args@)));
        self.client.request_workspaces(args)
    }

    pub fn active(&mut self, args: &str) -> (r: Result<ActiveWorkspace, HyprError>)
        ensures
            final(self).sent() == old(self).sent().push(json_payload(args@)),
    {
        self.sent = Ghost(self.sent@.push(json_payload(args@)));
        self.client.request_active_workspace(args)
    }
}

/// Whether a reply accepts a mutating command: its trimmed text is `ok` in any case.
pub open spec fn is_ok_reply(resp: Seq<char>) -> bool {
    let t = trimmed(resp);
    t.len() == 2 && (t[0] == 'o' || t[0] == 'O') && (t[1] == 'k' || t[1] == 'K')
}

pub fn ok_reply(resp: &str) -> (r: bool)
    ensures
        r == is_ok_reply(resp@),
{
    let t = trim(resp);
    let v = chars_of(t.as_str());
    v.len() == 2 && (v[0] == 'o' || v[0] == 'O') && (v[1] == 'k' || v[1] == 'K')
}

/// Turns the reply to `command` into the command's outcome.
pub fn check_reply(command: &str, reply: String) -> (r: Result<(), HyprError>)
    ensures
        is_ok_reply(reply@) ==> r is Ok,
        !is_ok_reply(reply@) ==> (r matches Err(HyprError::Rejected { command: c, reply: x })
            && c@ == command@ && x@ == reply@),
{
    if ok_reply(reply.as_str()) {
        Ok(())
    } else {
        Err(HyprError::Rejected { command: command.to_owned(), reply })
    }
}

pub open spec fn create_command() -> Seq<char> {
    "output create headless"@
}

pub open spec fn remove_command(name: Seq<char>) -> Seq<char> {
    "output remove "@ + name
}

pub open spec fn mirror_command(headless: Seq<char>, source: Seq<char>) -> Seq<char> {
    "keyword monitor "@ + headless + ",preferred,auto,1,mirror,"@ + source
}

pub open spec fn park_command(headless: Seq<char>, resolution: Seq<char>) -> Seq<char> {
    "keyword monitor "@ + headless + ","@ + resolution + ",-9999x0,1"@
}

pub open spec fn bind_command(workspace: Seq<char>, monitor: Seq<char>) -> Seq<char> {
    "keyword workspace "@ + workspace + ",monitor:"@ + monitor + ",default:true"@
}

pub open spec fn move_command(workspace: Seq<char>, monitor: Seq<char>) -> Seq<char> {
    "dispatch moveworkspacetomonitor "@ + workspace + " "@ + monitor
}

/// Sends the mutating command `cmd` and checks the reply.
pub fn run_command<H: Hypr>(remote: &mut Remote<H>, cmd: &str) -> (r: Result<(), HyprError>)
    ensures
        final(remote).sent() == old(remote).sent().push(plain_payload(cmd@)),
{
    match remote.raw(cmd) {
        Ok(reply) => check_reply(cmd, reply),
        Err(e) => Err(e),
    }
}

/// Names of virtual outputs.
pub open spec fn is_virtual_name(name: Seq<char>) -> bool {
    starts_with(name, "HEADLESS-"@)
}

pub open spec fn digit_value(c: char) -> int {
    c as int - '0' as int
}

pub open spec fn is_digit(c: char) -> bool {
    '0' <= c && c <= '9'
}

/// The number that the decimal digits `d` spell.
pub open spec fn digits_value(d: Seq<char>) -> int
    decreases d.len(),
{
    if d.len() == 0 {
        0
    } else {
        digits_value(d.drop_last()) * 10 + digit_value(d.last())
    }
}

pub open spec fn all_digits(d: Seq<char>) -> bool {
    d.len() > 0 && forall|i: int| 0 <= i < d.len() ==> is_digit(#[trigger] d[i])
}

/// What `str::parse::<i32>` accepts: an optional sign, then decimal digits,
/// with a value in range.
pub open spec fn parse_i32_spec(s: Seq<char>) -> Option<int> {
    let neg = s.len() > 0 && s[0] == '-';
    let d = if s.len() > 0 && (s[0] == '-' || s[0] == '+') { s.drop_first() } else { s };
    let v = if neg { -digits_value(d) } else { digits_value(d) };
    if all_digits(d) && i32::MIN <= v && v <= i32::MAX {
        Some(v)
    } else {
        None
    }
}

proof fn lemma_digits_value_grows(d: Seq<char>, k: int)
    requires
        0 <= k <= d.len(),
        forall|i: int| 0 <= i < d.len() ==> is_digit(#[trigger] d[i]),
    ensures
        digits_value(d.take(k)) <= digits_value(d),
        0 <= digits_value(d.take(k)),
    decreases d.len(),
{
    if k < d.len() {
        lemma_digits_value_grows(d.drop_last(), k);
        assert(d.drop_last().take(k) =~= d.take(k));
        assert(digits_value(d.drop_last()) >= 0);
    } else {
        assert(d.take(k) =~= d);
        if d.len() > 0 {
            lemma_digits_value_grows(d.drop_last(), 0);
            assert(d.drop_last().take(0) =~= d.take(0));
            lemma_digits_value_grows(d.drop_last(), d.len() - 1);
            assert(d.drop_last().take(d.len() - 1) =~= d.drop_last());
        } else {
            assert(d.take(0) =~= d);
        }
    }
}

/// Parses a decimal `i32`, as `str::parse::<i32>` does.
pub fn parse_i32(s: &str) -> (r: Option<i32>)
    ensures
        match parse_i32_spec(s@) {
            Some(v) => r == Some(v as i32),
            None => r is None,
        },
{
    let v = chars_of(s);
    let n = v.len();
    if n == 0 {
        return None;
    }
    let neg = v[0] == '-';
    let start: usize = if v[0] == '-' || v[0] == '+' { 1 } else { 0 };
    let ghost d = if v@[0] == '-' || v@[0] == '+' { v@.drop_first() } else { v@ };
    assert(d =~= v@.skip(start as int));
    if start == n {
        return None;
    }
    let mut acc: i64 = 0;
    let mut i: usize = start;
    while i < n
        invariant
            start <= i <= n == v@.len(),
            v@ == s@,
            d == v@.skip(start as int),
            d == (if s@.len() > 0 && (s@[0] == '-' || s@[0] == '+') { s@.drop_first() } else { s@ }),
            neg == (s@.len() > 0 && s@[0] == '-'),
            forall|j: int| start <= j < i ==> is_digit(#[trigger] v@[j]),
            acc == digits_value(d.take(i - start)),
            0 <= acc <= 0x8000_0000,
        decreases n - i,
    {
        let c = v[i];
        if !('0' <= c && c <= '9') {
            proof {
                assert(d[i - start] == c);
                assert(!is_digit(d[i - start]));
            }
            return None;
        }
        let dv = (c as u32 - '0' as u32) as i64;
        proof {
            assert(d.take(i + 1 - start).drop_last() =~= d.take(i - start));
        }
        acc = acc * 10 + dv;
        i = i + 1;
        proof {
            assert(d.take(i - start).last() == c);
            assert(acc == digits_value(d.take(i - start)));
        }
        if acc > 0x8000_0000 {
            proof {
                if all_digits(d) {
                    lemma_digits_value_grows(d, i - start);
                }
            }
            return None;
        }
    }
    proof {
        assert(d.take(n - start) =~= d);
        assert forall|j: int| 0 <= j < d.len() implies is_digit(#[trigger] d[j]) by {
            assert(d[j] == v@[j + start]);
        }
    }
    if neg {
        Some((-acc) as i32)
    } else if acc <= 0x7fff_ffff {
        Some(acc as i32)
    } else {
        None
    }
}


/// How a name ranks as a freshly created virtual output: its number when it is
/// `HEADLESS-<n>` with `n` a non-negative `i32`, else -1.
pub open spec fn headless_rank(name: Seq<char>) -> int {
    if is_virtual_name(name) {
        match parse_i32_spec(name.skip("HEADLESS-"@.len() as int)) {
            Some(n) => if n >= 0 {
                n
            } else {
                -1
            },
            None => -1,
        }
    } else {
        -1
    }
}

pub open spec fn monitor_names(ms: Seq<Monitor>) -> Seq<Seq<char>> {
    ms.map_values(|m: Monitor| m.name@)
}

/// `k` is the first of the highest-ranked virtual outputs of `names`.
pub open spec fn is_newest_headless(names: Seq<Seq<char>>, k: int) -> bool {
    &&& 0 <= k < names.len()
    &&& headless_rank(names[k]) >= 0
    &&& forall|j: int| 0 <= j < k ==> #[trigger] headless_rank(names[j]) < headless_rank(names[k])
    &&& forall|j: int| k < j < names.len() ==> #[trigger] headless_rank(names[j]) <= headless_rank(names[k])
}

pub fn headless_number(name: &str) -> (r: i64)
    ensures
        r == headless_rank(name@),
{
    let p = chars_of("HEADLESS-");
    if !has_prefix(name, "HEADLESS-") {
        return -1;
    }
    let rest = skip_chars(name, p.len());
    match parse_i32(rest.as_str()) {
        Some(n) => if n >= 0 {
            n as i64
        } else {
            -1
        },
        None => -1,
    }
}

/// The virtual output with the highest number: the compositor may still list
/// outputs of earlier sessions, and numbers are never reused.
pub fn select_headless(monitors: &Vec<Monitor>) -> (r: Option<String>)
    ensures
        r matches Some(name) ==> exists|k: int|
            is_newest_headless(monitor_names(monitors@), k) && name@ == monitor_names(monitors@)[k],
        r is None ==> forall|j: int|
            0 <= j < monitors@.len() ==> #[trigger] headless_rank(monitor_names(monitors@)[j]) < 0,
{
    let ghost names = monitor_names(monitors@);
    let mut best_num: i64 = -1;
    let mut best: Option<usize> = None;
    let mut i: usize = 0;
    while i < monitors.len()
        invariant
            i <= monitors@.len(),
            names == monitor_names(monitors@),
            best is None ==> best_num == -1 && forall|j: int| 0 <= j < i ==> #[trigger] headless_rank(names[j]) < 0,
            best matches Some(k) ==> k < i && best_num == headless_rank(names[k as int]) && best_num >= 0
                && (forall|j: int| 0 <= j < k ==> #[trigger] headless_rank(names[j]) < best_num)
                && (forall|j: int| k < j < i ==> #[trigger] headless_rank(names[j]) <= best_num),
        decreases monitors@.len() - i,
    {
        let n = headless_number(monitors[i].name.as_str());
        if n > best_num {
            best_num = n;
            best = Some(i);
        }
        i = i + 1;
    }
    match best {
        Some(k) => {
            let name = monitors[k].name.clone();
            Some(name)
        },
        None => None,
    }
}

/// Creates a virtual output and returns its name.
pub fn create_headless<H: Hypr>(remote: &mut Remote<H>) -> (r: Result<String, HyprError>)
    ensures
        final(remote).sent() == old(remote).sent().push(plain_payload(create_command()))
            || final(remote).sent() == old(remote).sent().push(plain_payload(create_command())).push(
            json_payload("monitors all"@)),
        r matches Ok(name) ==> headless_rank(name@) >= 0 && is_virtual_name(name@)
            && final(remote).sent() == old(remote).sent().push(plain_payload(create_command())).push(
            json_payload("monitors all"@))
            && exists|names: Seq<Seq<char>>, k: int|
                #[trigger] is_newest_headless(names, k) && names[k] == name@,
{
    run_command(remote, "output create headless")?;
    let monitors = remote.monitors("monitors all")?;
    headless_from_listing(&monitors)
}

/// The newest virtual output of a listing, or `NoHeadlessOutput` when the
/// listing holds none.
pub fn headless_from_listing(monitors: &Vec<Monitor>) -> (r: Result<String, HyprError>)
    ensures
        r matches Ok(name) ==> exists|k: int|
            is_newest_headless(monitor_names(monitors@), k) && name@ == monitor_names(monitors@)[k],
        (forall|j: int| 0 <= j < monitors@.len() ==> #[trigger] headless_rank(monitor_names(monitors@)[j]) < 0)
            <==> r matches Err(HyprError::NoHeadlessOutput),
        r is Ok || r matches Err(HyprError::NoHeadlessOutput),
{
    match select_headless(monitors) {
        Some(name) => {
            proof {
                let k = choose|k: int| is_newest_headless(monitor_names(monitors@), k) && name@ == monitor_names(monitors@)[k];
                assert(headless_rank(monitor_names(monitors@)[k]) >= 0);
            }
            Ok(name)
        },
        None => Err(HyprError::NoHeadlessOutput),
    }
}

pub fn remove_headless<H: Hypr>(remote: &mut Remote<H>, name: &str) -> (r: Result<(), HyprError>)
    ensures
        final(remote).sent() == old(remote).sent().push(plain_payload(remove_command(name@))),
{
    let cmd = concat("output remove ", name);
    run_command(remote, cmd.as_str())
}

/// Makes `headless` show what `source` shows, at its preferred mode.
pub fn mirror_headless_from<H: Hypr>(remote: &mut Remote<H>, headless: &str, source: &str) -> (r: Result<(), HyprError>)
    ensures
        final(remote).sent() == old(remote).sent().push(plain_payload(mirror_command(headless@, source@))),
{
    let mut cmd = concat("keyword monitor ", headless);
    cmd.append(",preferred,auto,1,mirror,");
    cmd.append(source);
    run_command(remote, cmd.as_str())
}

/// Parks `headless` far outside the desktop at `resolution`, mirroring nothing.
pub fn disable_mirror<H: Hypr>(remote: &mut Remote<H>, headless: &str, resolution: &str) -> (r: Result<(), HyprError>)
    ensures
        final(remote).sent() == old(remote).sent().push(plain_payload(park_command(headless@, resolution@))),
{
    let mut cmd = concat("keyword monitor ", headless);
    cmd.append(",");
    cmd.append(resolution);
    cmd.append(",-9999x0,1");
    run_command(remote, cmd.as_str())
}

pub fn bind_workspace_to_monitor<H: Hypr>(remote: &mut Remote<H>, workspace: &str, monitor: &str) -> (r: Result<(), HyprError>)
    ensures
        final(remote).sent() == old(remote).sent().push(plain_payload(bind_command(workspace@, monitor@))),
{
    let mut cmd = concat("keyword workspace ", workspace);
    cmd.append(",monitor:");
    cmd.append(monitor);
    cmd.append(",default:true");
    run_command(remote, cmd.as_str())
}

pub fn move_workspace_to_monitor<H: Hypr>(remote: &mut Remote<H>, workspace: &str, monitor: &str) -> (r: Result<(), HyprError>)
    ensures
        final(remote).sent() == old(remote).sent().push(plain_payload(move_command(workspace@, monitor@))),
{
    let mut cmd = concat("dispatch moveworkspacetomonitor ", workspace);
    cmd.append(" ");
    cmd.append(monitor);
    run_command(remote, cmd.as_str())
}

/// Whether some output, virtual ones included, is named `name`.
pub fn monitor_exists<H: Hypr>(remote: &mut Remote<H>, name: &str) -> (r: Result<bool, HyprError>)
    ensures
        final(remote).sent() == old(remote).sent().push(json_payload("monitors all"@)),
{
    let monitors = remote.monitors("monitors all")?;
    Ok(has_monitor(&monitors, name))
}

pub fn has_monitor(monitors: &Vec<Monitor>, name: &str) -> (r: bool)
    ensures
        r == exists|k: int| 0 <= k < monitors@.len() && #[trigger] monitor_names(monitors@)[k] == name@,
{
    let mut i: usize = 0;
    while i < monitors.len()
        invariant
            i <= monitors@.len(),
            forall|k: int| 0 <= k < i ==> #[trigger] monitor_names(monitors@)[k] != name@,
        decreases monitors@.len() - i,
    {
        if str_eq(monitors[i].name.as_str(), name) {
            assert(monitor_names(monitors@)[i as int] == name@);
            return true;
        }
        i = i + 1;
    }
    false
}

/// The first output that is not a virtual one.
pub fn first_physical(monitors: &Vec<Monitor>) -> (r: Option<String>)
    ensures
        r matches Some(name) ==> exists|k: int|
            0 <= k < monitors@.len() && name@ == #[trigger] monitor_names(monitors@)[k]
                && !is_virtual_name(name@)
                && forall|j: int| 0 <= j < k ==> is_virtual_name(#[trigger] monitor_names(monitors@)[j]),
        r is None ==> forall|j: int| 0 <= j < monitors@.len() ==> is_virtual_name(#[trigger] monitor_names(monitors@)[j]),
{
    let mut i: usize = 0;
    while i < monitors.len()
        invariant
            i <= monitors@.len(),
            forall|j: int| 0 <= j < i ==> is_virtual_name(#[trigger] monitor_names(monitors@)[j]),
        decreases monitors@.len() - i,
    {
        if !has_prefix(monitors[i].name.as_str(), "HEADLESS-") {
            let name = monitors[i].name.clone();
            assert(monitor_names(monitors@)[i as int] == monitors@[i as int].name@);
            return Some(name);
        }
        i = i + 1;
    }
    None
}

pub fn detect_physical_monitor<H: Hypr>(remote: &mut Remote<H>) -> (r: Result<String, HyprError>)
    ensures
        final(remote).sent() == old(remote).sent().push(json_payload("monitors"@)),
        r matches Ok(name) ==> !is_virtual_name(name@) && exists|names: Seq<Seq<char>>, k: int|
            0 <= k < names.len() && #[trigger] names[k] == name@
                && forall|j: int| 0 <= j < k ==> is_virtual_name(#[trigger] names[j]),
{
    let monitors = remote.monitors("monitors")?;
    match first_physical(&monitors) {
        Some(name) => Ok(name),
        None => Err(HyprError::NoPhysicalOutput),
    }
}

pub fn active_workspace<H: Hypr>(remote: &mut Remote<H>) -> (r: Result<String, HyprError>)
    ensures
        final(remote).sent() == old(remote).sent().push(json_payload("activeworkspace"@)),
{
    let ws = remote.active("activeworkspace")?;
    Ok(ws.name)
}


/// Which output hosted each workspace at one moment, in the order the
/// compositor listed them.
pub struct WorkspaceSnapshot {
    entries: Vec<Workspace>,
}

pub open spec fn workspace_pairs(ws: Seq<Workspace>) -> Seq<(Seq<char>, Seq<char>)> {
    ws.map_values(|w: Workspace| (w.name@, w.monitor@))
}

/// The host of `ws` in `es`; where a name is listed twice the later entry wins.
pub open spec fn lookup(es: Seq<(Seq<char>, Seq<char>)>, ws: Seq<char>) -> Option<Seq<char>>
    decreases es.len(),
{
    if es.len() == 0 {
        None
    } else if es.last().0 == ws {
        Some(es.last().1)
    } else {
        lookup(es.drop_last(), ws)
    }
}

/// Where a workspace found on `headless` after its creation must go back to:
/// its host before, unless it is the streaming workspace, had no host, or was
/// hosted by a virtual output.
pub open spec fn restore_target(
    before: Seq<(Seq<char>, Seq<char>)>,
    ws: Seq<char>,
    host: Seq<char>,
    headless: Seq<char>,
    streaming: Seq<char>,
) -> Option<Seq<char>> {
    if host == headless && ws != streaming {
        match lookup(before, ws) {
            Some(prev) => if prev != headless && !is_virtual_name(prev) {
                Some(prev)
            } else {
                None
            },
            None => None,
        }
    } else {
        None
    }
}

/// No entry after position `i` of `es` names the same workspace.
pub open spec fn is_last_of_name(es: Seq<(Seq<char>, Seq<char>)>, i: int) -> bool {
    forall|j: int| i < j < es.len() ==> #[trigger] es[j].0 != es[i].0
}

/// The moves called for by the first `n` entries of `after`; a workspace
/// listed twice counts at its last entry only.
pub open spec fn stolen_upto(
    before: Seq<(Seq<char>, Seq<char>)>,
    after: Seq<(Seq<char>, Seq<char>)>,
    headless: Seq<char>,
    streaming: Seq<char>,
    n: int,
) -> Seq<(Seq<char>, Seq<char>)>
    decreases n,
{
    if n <= 0 {
        Seq::empty()
    } else {
        let prev = stolen_upto(before, after, headless, streaming, n - 1);
        let e = after[n - 1];
        match restore_target(before, e.0, e.1, headless, streaming) {
            Some(p) => if is_last_of_name(after, n - 1) {
                prev.push((e.0, p))
            } else {
                prev
            },
            None => prev,
        }
    }
}

/// The moves that undo what creating `headless` took, in the order of `after`.
pub open spec fn stolen(
    before: Seq<(Seq<char>, Seq<char>)>,
    after: Seq<(Seq<char>, Seq<char>)>,
    headless: Seq<char>,
    streaming: Seq<char>,
) -> Seq<(Seq<char>, Seq<char>)> {
    stolen_upto(before, after, headless, streaming, after.len() as int)
}

pub open spec fn move_payloads(moves: Seq<(Seq<char>, Seq<char>)>) -> Seq<Seq<char>> {
    moves.map_values(|m: (Seq<char>, Seq<char>)| plain_payload(move_command(m.0, m.1)))
}

impl WorkspaceSnapshot {
    pub closed spec fn entries(&self) -> Seq<(Seq<char>, Seq<char>)> {
        workspace_pairs(self.entries@)
    }

    pub fn new() -> (r: WorkspaceSnapshot)
        ensures
            r.entries() == Seq::<(Seq<char>, Seq<char>)>::empty(),
    {
        let r = WorkspaceSnapshot { entries: Vec::new() };
        assert(r.entries() =~= Seq::<(Seq<char>, Seq<char>)>::empty());
        r
    }

    pub fn from_workspaces(entries: Vec<Workspace>) -> (r: WorkspaceSnapshot)
        ensures
            r.entries() == workspace_pairs(entries@),
    {
        WorkspaceSnapshot { entries }
    }

    /// Records that `workspace` is hosted by `monitor`.
    pub fn push(&mut self, workspace: String, monitor: String)
        ensures
            final(self).entries() == old(self).entries().push((workspace@, monitor@)),
    {
        self.entries.push(Workspace { name: workspace, monitor });
        assert(self.entries() =~= old(self).entries().push((workspace@, monitor@)));
    }

    pub fn len(&self) -> (r: usize)
        ensures
            r == self.entries().len(),
    {
        self.entries.len()
    }

    /// The host of `workspace`, if the snapshot lists it.
    pub fn get(&self, workspace: &str) -> (r: Option<&str>)
        ensures
            match lookup(self.entries(), workspace@) {
                Some(m) => r matches Some(x) && x@ == m,
                None => r is None,
            },
    {
        let mut i: usize = self.entries.len();
        assert(self.entries().take(i as int) =~= self.entries());
        while i > 0
            invariant
                i <= self.entries@.len(),
                lookup(self.entries(), workspace@) == lookup(self.entries().take(i as int), workspace@),
            decreases i,
        {
            let ghost es = self.entries().take(i as int);
            assert(es.drop_last() =~= self.entries().take(i - 1));
            if str_eq(self.entries[i - 1].name.as_str(), workspace) {
                return Some(self.entries[i - 1].monitor.as_str());
            }
            i = i - 1;
        }
        None
    }
}

/// Whether a later entry of `after` than the one at `i` names the same workspace.
fn listed_later(after: &WorkspaceSnapshot, i: usize) -> (r: bool)
    requires
        i < after.entries().len(),
    ensures
        r == !is_last_of_name(after.entries(), i as int),
{
    let n = after.entries.len();
    let mut j: usize = i + 1;
    while j < n
        invariant
            i < j <= after.entries@.len(),
            n == after.entries@.len(),
            forall|k: int| i < k < j ==> #[trigger] after.entries()[k].0 != after.entries()[i as int].0,
        decreases after.entries@.len() - j,
    {
        if str_eq(after.entries[j].name.as_str(), after.entries[i].name.as_str()) {
            assert(after.entries()[j as int].0 == after.entries()[i as int].0);
            return true;
        }
        j = j + 1;
    }
    false
}

/// The moves that put back what creating `headless` took from other outputs.
pub fn stolen_workspaces(
    before: &WorkspaceSnapshot,
    after: &WorkspaceSnapshot,
    headless: &str,
    streaming: &str,
) -> (r: Vec<Workspace>)
    ensures
        workspace_pairs(r@) == stolen(before.entries(), after.entries(), headless@, streaming@),
{
    let mut r: Vec<Workspace> = Vec::new();
    let mut i: usize = 0;
    while i < after.entries.len()
        invariant
            i <= after.entries@.len(),
            workspace_pairs(r@) == stolen_upto(before.entries(), after.entries(), headless@, streaming@, i as int),
        decreases after.entries@.len() - i,
    {
        let ws = &after.entries[i];
        if str_eq(ws.monitor.as_str(), headless) && !str_eq(ws.name.as_str(), streaming)
            && !listed_later(after, i) {
            match before.get(ws.name.as_str()) {
                Some(prev) => {
                    if !str_eq(prev, headless) && !has_prefix(prev, "HEADLESS-") {
                        r.push(Workspace { name: ws.name.clone(), monitor: prev.to_owned() });
                        proof {
                            assert(workspace_pairs(r@) =~= stolen_upto(before.entries(), after.entries(), headless@, streaming@, i as int).push((ws.name@, prev@)));
                        }
                    }
                },
                None => {},
            }
        }
        i = i + 1;
    }
    r
}

pub fn snapshot_workspaces<H: Hypr>(remote: &mut Remote<H>) -> (r: Result<WorkspaceSnapshot, HyprError>)
    ensures
        final(remote).sent() == old(remote).sent().push(json_payload("workspaces"@)),
{
    let ws = remote.workspaces("workspaces")?;
    Ok(WorkspaceSnapshot::from_workspaces(ws))
}

/// What a restore sends: the second snapshot, then the first `k` moves that
/// the snapshot `after` calls for.
pub open spec fn restore_log(
    before: Seq<(Seq<char>, Seq<char>)>,
    after: Seq<(Seq<char>, Seq<char>)>,
    headless: Seq<char>,
    streaming: Seq<char>,
    k: int,
) -> Seq<Seq<char>> {
    seq![json_payload("workspaces"@)] + move_payloads(stolen(before, after, headless, streaming).take(k))
}

/// Takes a second snapshot and moves back every workspace that creating
/// `headless` took from another output; stops at the first failed move.
/// Returns how many were moved.
pub fn restore_headless_stolen_workspaces<H: Hypr>(
    remote: &mut Remote<H>,
    before: &WorkspaceSnapshot,
    headless: &str,
    streaming_workspace: &str,
) -> (r: Result<usize, HyprError>)
    ensures
        exists|after: Seq<(Seq<char>, Seq<char>)>, k: int|
            0 <= k <= stolen(before.entries(), after, headless@, streaming_workspace@).len()
            && final(remote).sent() == old(remote).sent()
                + #[trigger] restore_log(before.entries(), after, headless@, streaming_workspace@, k)
            && (r matches Ok(n) ==> n == k
                && k == stolen(before.entries(), after, headless@, streaming_workspace@).len()),
{
    let ghost base = old(remote).sent().push(json_payload("workspaces"@));
    let ghost s0 = old(remote).sent();
    let after = snapshot_workspaces(remote);
    if after.is_err() {
        let ghost none: Seq<(Seq<char>, Seq<char>)> = Seq::empty();
        assert(move_payloads(stolen(before.entries(), none, headless@, streaming_workspace@).take(0)) =~= Seq::<Seq<char>>::empty());
        assert(remote.sent() =~= s0 + restore_log(before.entries(), none, headless@, streaming_workspace@, 0));
    }
    let after = after?;
    let ghost after_entries = after.entries();
    let moves = stolen_workspaces(before, &after, headless, streaming_workspace);
    let ghost mv = stolen(before.entries(), after.entries(), headless@, streaming_workspace@);
    let mut i: usize = 0;
    assert(remote.sent() =~= s0 + restore_log(before.entries(), after_entries, headless@, streaming_workspace@, 0));
    while i < moves.len()
        invariant
            i <= moves@.len(),
            workspace_pairs(moves@) == mv,
            mv == stolen(before.entries(), after_entries, headless@, streaming_workspace@),
            s0 == old(remote).sent(),
            remote.sent() == s0 + restore_log(before.entries(), after_entries, headless@, streaming_workspace@, i as int),
        decreases moves@.len() - i,
    {
        let res = move_workspace_to_monitor(remote, moves[i].name.as_str(), moves[i].monitor.as_str());
        proof {
            assert(move_payloads(mv.take(i + 1)) =~= move_payloads(mv.take(i as int)).push(plain_payload(move_command(moves@[i as int].name@, moves@[i as int].monitor@))));
            assert(remote.sent() =~= s0 + restore_log(before.entries(), after_entries, headless@, streaming_workspace@, i + 1));
        }
        res?;
        i = i + 1;
    }
    Ok(moves.len())
}

/// Each move of the first `n` entries, as a fact over its position.
pub open spec fn sound_move(
    before: Seq<(Seq<char>, Seq<char>)>,
    after: Seq<(Seq<char>, Seq<char>)>,
    headless: Seq<char>,
    streaming: Seq<char>,
    n: int,
    m: (Seq<char>, Seq<char>),
) -> bool {
    &&& m.0 != streaming
    &&& lookup(before, m.0) == Some(m.1)
    &&& !is_virtual_name(m.1)
    &&& m.1 != headless
    &&& exists|j: int| 0 <= j < n && #[trigger] after[j] == (m.0, headless) && is_last_of_name(after, j)
}

proof fn lemma_stolen_sound(
    before: Seq<(Seq<char>, Seq<char>)>,
    after: Seq<(Seq<char>, Seq<char>)>,
    headless: Seq<char>,
    streaming: Seq<char>,
    n: int,
)
    requires
        0 <= n <= after.len(),
    ensures
        forall|i: int| 0 <= i < stolen_upto(before, after, headless, streaming, n).len()
            ==> sound_move(before, after, headless, streaming, n, #[trigger] stolen_upto(before, after, headless, streaming, n)[i]),
        forall|i1: int, i2: int| 0 <= i1 < i2 < stolen_upto(before, after, headless, streaming, n).len()
            ==> #[trigger] stolen_upto(before, after, headless, streaming, n)[i1].0
                != #[trigger] stolen_upto(before, after, headless, streaming, n)[i2].0,
    decreases n,
{
    if n > 0 {
        lemma_stolen_sound(before, after, headless, streaming, n - 1);
        let prev = stolen_upto(before, after, headless, streaming, n - 1);
        let cur = stolen_upto(before, after, headless, streaming, n);
        assert forall|i: int| 0 <= i < cur.len() implies sound_move(before, after, headless, streaming, n, #[trigger] cur[i]) by {
            if i < prev.len() {
                assert(cur[i] == prev[i]);
                assert(sound_move(before, after, headless, streaming, n - 1, prev[i]));
                let m = prev[i];
                let j = choose|j: int| 0 <= j < n - 1 && #[trigger] after[j] == (m.0, headless) && is_last_of_name(after, j);
                assert(after[j] == (m.0, headless));
            } else {
                assert(after[n - 1] == (after[n - 1].0, after[n - 1].1));
            }
        }
        assert forall|i1: int, i2: int| 0 <= i1 < i2 < cur.len() implies #[trigger] cur[i1].0 != #[trigger] cur[i2].0 by {
            assert(cur[i1] == prev[i1]);
            if i2 < prev.len() {
                assert(cur[i2] == prev[i2]);
                assert(prev[i1].0 != prev[i2].0);
            } else {
                let m = prev[i1];
                assert(sound_move(before, after, headless, streaming, n - 1, m));
                let j = choose|j: int| 0 <= j < n - 1 && #[trigger] after[j] == (m.0, headless) && is_last_of_name(after, j);
                assert(after[n - 1].0 != after[j].0);
                assert(cur[i2].0 == after[n - 1].0);
            }
        }
    }
}

proof fn lemma_stolen_complete(
    before: Seq<(Seq<char>, Seq<char>)>,
    after: Seq<(Seq<char>, Seq<char>)>,
    headless: Seq<char>,
    streaming: Seq<char>,
    n: int,
    j: int,
)
    requires
        0 <= j < n <= after.len(),
        after[j].1 == headless,
        after[j].0 != streaming,
        is_last_of_name(after, j),
        lookup(before, after[j].0) is Some,
        lookup(before, after[j].0)->0 != headless,
        !is_virtual_name(lookup(before, after[j].0)->0),
    ensures
        stolen_upto(before, after, headless, streaming, n).contains((after[j].0, lookup(before, after[j].0)->0)),
    decreases n,
{
    let prev = stolen_upto(before, after, headless, streaming, n - 1);
    let cur = stolen_upto(before, after, headless, streaming, n);
    if j < n - 1 {
        lemma_stolen_complete(before, after, headless, streaming, n - 1, j);
        let i = choose|i: int| 0 <= i < prev.len() && prev[i] == (after[j].0, lookup(before, after[j].0)->0);
        assert(cur[i] == prev[i]);
    } else {
        assert(cur[cur.len() - 1] == (after[j].0, lookup(before, after[j].0)->0));
    }
}

/// Restoring after the creation of `headless` moves only workspaces that
/// `after` shows on `headless` at their last entry, never the streaming
/// workspace, never one whose host before was a virtual output, each back to
/// its exact host before, and each at most once; and it moves every other
/// workspace last shown on `headless` that had another host before.
pub proof fn lemma_restore_moves(
    before: Seq<(Seq<char>, Seq<char>)>,
    after: Seq<(Seq<char>, Seq<char>)>,
    headless: Seq<char>,
    streaming: Seq<char>,
)
    ensures
        forall|i: int| 0 <= i < stolen(before, after, headless, streaming).len()
            ==> sound_move(before, after, headless, streaming, after.len() as int,
                #[trigger] stolen(before, after, headless, streaming)[i]),
        forall|j: int| 0 <= j < after.len() && #[trigger] after[j].1 == headless && after[j].0 != streaming
                && is_last_of_name(after, j)
                && lookup(before, after[j].0) is Some
                && lookup(before, after[j].0)->0 != headless
                && !is_virtual_name(lookup(before, after[j].0)->0)
                ==> stolen(before, after, headless, streaming).contains((after[j].0, lookup(before, after[j].0)->0)),
        forall|i1: int, i2: int| 0 <= i1 < i2 < stolen(before, after, headless, streaming).len()
            ==> #[trigger] stolen(before, after, headless, streaming)[i1].0
                != #[trigger] stolen(before, after, headless, streaming)[i2].0,
{
    lemma_stolen_sound(before, after, headless, streaming, after.len() as int);
    assert forall|j: int| 0 <= j < after.len() && #[trigger] after[j].1 == headless && after[j].0 != streaming
        && is_last_of_name(after, j)
        && lookup(before, after[j].0) is Some
        && lookup(before, after[j].0)->0 != headless
        && !is_virtual_name(lookup(before, after[j].0)->0)
        implies stolen(before, after, headless, streaming).contains((after[j].0, lookup(before, after[j].0)->0)) by {
        lemma_stolen_complete(before, after, headless, streaming, after.len() as int, j);
    }
}

} // verus!
