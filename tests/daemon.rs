use hyprstream::config::Config;
use hyprstream::daemon::{
    handle_ctl, handle_event_line, reconcile, reconcile_observed, streaming_disable, streaming_enable, EventBuffer,
    EventOutcome, HookQueue, Mode, Reconnect, State, MAX_RECONNECT,
};
use hyprstream::hypr::{ActiveWorkspace, Hypr, HyprError, Monitor, Remote, Workspace};
use std::cell::RefCell;

struct FakeHypr {
    active_ws: RefCell<String>,
    raw_calls: RefCell<Vec<String>>,
    json_calls: RefCell<Vec<String>>,
    monitors: RefCell<Vec<String>>,
    workspaces: RefCell<Vec<(String, String)>>,
    // workspaces that the compositor hands to a new virtual output
    stolen_on_create: Vec<String>,
    // raw commands starting with this are answered with an error text
    reject: Option<String>,
}

impl FakeHypr {
    fn new(active_ws: &str) -> Self {
        Self {
            active_ws: RefCell::new(active_ws.to_string()),
            raw_calls: RefCell::new(Vec::new()),
            json_calls: RefCell::new(Vec::new()),
            monitors: RefCell::new(Vec::new()),
            workspaces: RefCell::new(Vec::new()),
            stolen_on_create: Vec::new(),
            reject: None,
        }
    }

    fn set_active(&self, ws: &str) {
        *self.active_ws.borrow_mut() = ws.to_string();
    }

    fn calls(&self) -> usize {
        self.raw_calls.borrow().len() + self.json_calls.borrow().len()
    }
}

impl Hypr for FakeHypr {
    fn request_raw(&self, args: &str) -> Result<String, HyprError> {
        self.raw_calls.borrow_mut().push(args.to_string());
        if let Some(r) = &self.reject {
            if args.starts_with(r.as_str()) {
                return Ok("invalid".to_string());
            }
        }
        if args == "output create headless" {
            let n = self.monitors.borrow().len();
            let name = format!("HEADLESS-{n}");
            self.monitors.borrow_mut().push(name.clone());
            for (w, m) in self.workspaces.borrow_mut().iter_mut() {
                if self.stolen_on_create.contains(w) {
                    *m = name.clone();
                }
            }
        } else if let Some(name) = args.strip_prefix("output remove ") {
            self.monitors.borrow_mut().retain(|m| m != name);
        } else if let Some(rest) = args.strip_prefix("dispatch moveworkspacetomonitor ") {
            let mut parts = rest.split_whitespace();
            let ws = parts.next().unwrap_or("").to_string();
            let mon = parts.next().unwrap_or("").to_string();
            let mut wss = self.workspaces.borrow_mut();
            match wss.iter_mut().find(|(w, _)| *w == ws) {
                Some(e) => e.1 = mon,
                None => wss.push((ws, mon)),
            }
        }
        Ok("ok".to_string())
    }

    fn request_monitors(&self, args: &str) -> Result<Vec<Monitor>, HyprError> {
        self.json_calls.borrow_mut().push(args.to_string());
        Ok(self
            .monitors
            .borrow()
            .iter()
            .map(|n| Monitor { name: n.clone() })
            .collect())
    }

    fn request_workspaces(&self, args: &str) -> Result<Vec<Workspace>, HyprError> {
        self.json_calls.borrow_mut().push(args.to_string());
        Ok(self
            .workspaces
            .borrow()
            .iter()
            .map(|(w, m)| Workspace {
                name: w.clone(),
                monitor: m.clone(),
            })
            .collect())
    }

    fn request_active_workspace(&self, args: &str) -> Result<ActiveWorkspace, HyprError> {
        self.json_calls.borrow_mut().push(args.to_string());
        if args == "activeworkspace" {
            return Ok(ActiveWorkspace {
                name: self.active_ws.borrow().clone(),
            });
        }
        Err(HyprError::Parse(format!("unsupported json query in test: {args}")))
    }
}

fn enabled_state(cfg: Config) -> State {
    State {
        mode: Mode::Enabled,
        headless: Some("HEADLESS-1".to_string()),
        physical: "eDP-1".to_string(),
        active_workspace: String::new(),
        mirroring_active: false,
        cfg,
        hooks: HookQueue::new(),
    }
}

#[test]
fn reconcile_enables_and_disables_mirror_on_workspace_change() {
    let cfg = Config::default();
    let fake = FakeHypr::new(&cfg.streaming_workspace);
    let mut st = enabled_state(cfg);
    let mut remote = Remote::new(fake);

    reconcile(&mut st, &mut remote).unwrap();
    assert!(st.mirroring_active);
    assert!(remote
        .client()
        .raw_calls
        .borrow()
        .iter()
        .any(|c| c.contains("mirror,eDP-1")));

    remote.client().set_active("1");
    reconcile(&mut st, &mut remote).unwrap();
    assert!(!st.mirroring_active);
    assert!(remote
        .client()
        .raw_calls
        .borrow()
        .iter()
        .any(|c| c.contains("-9999x0")));
}

#[test]
fn reconcile_twice_sends_one_command_and_fires_one_hook() {
    let mut cfg = Config::default();
    cfg.on_streaming_enter = "notify-send enter".to_string();
    cfg.on_streaming_leave = "notify-send leave".to_string();
    let mut st = enabled_state(cfg);
    let mut remote = Remote::new(FakeHypr::new("9"));

    reconcile(&mut st, &mut remote).unwrap();
    reconcile(&mut st, &mut remote).unwrap();
    assert_eq!(
        *remote.client().raw_calls.borrow(),
        vec!["keyword monitor HEADLESS-1,preferred,auto,1,mirror,eDP-1".to_string()]
    );
    assert_eq!(st.active_workspace, "9");
    assert_eq!(st.hooks.take(), vec!["notify-send enter".to_string()]);

    remote.client().set_active("1");
    reconcile(&mut st, &mut remote).unwrap();
    reconcile(&mut st, &mut remote).unwrap();
    assert_eq!(
        remote.client().raw_calls.borrow().last().unwrap(),
        "keyword monitor HEADLESS-1,1920x1080@60,-9999x0,1"
    );
    assert_eq!(remote.client().raw_calls.borrow().len(), 2);
    assert_eq!(st.hooks.take(), vec!["notify-send leave".to_string()]);
}

#[test]
fn reconcile_does_nothing_when_disabled() {
    let mut st = State::new(Config::default());
    let mut remote = Remote::new(FakeHypr::new("9"));
    reconcile(&mut st, &mut remote).unwrap();
    assert_eq!(remote.client().calls(), 0);
    assert!(!st.mirroring_active);
}

#[test]
fn enable_when_enabled_sends_nothing() {
    let mut st = enabled_state(Config::default());
    let mut remote = Remote::new(FakeHypr::new("9"));
    assert!(streaming_enable(&mut st, &mut remote).is_ok());
    assert_eq!(remote.client().calls(), 0);
    assert_eq!(st.mode, Mode::Enabled);
    assert_eq!(st.headless.as_deref(), Some("HEADLESS-1"));
}

#[test]
fn disable_when_disabled_sends_nothing() {
    let mut st = State::new(Config::default());
    let mut remote = Remote::new(FakeHypr::new("9"));
    assert!(streaming_disable(&mut st, &mut remote).is_ok());
    assert_eq!(remote.client().calls(), 0);
    assert_eq!(st.mode, Mode::Disabled);
}

fn desktop(active: &str) -> FakeHypr {
    let mut fake = FakeHypr::new(active);
    fake.monitors = RefCell::new(vec!["eDP-1".to_string()]);
    fake.workspaces = RefCell::new(vec![
        ("1".to_string(), "eDP-1".to_string()),
        ("9".to_string(), "eDP-1".to_string()),
    ]);
    fake.stolen_on_create = vec!["1".to_string(), "9".to_string()];
    fake
}

#[test]
fn enable_moves_streaming_workspace_and_restores_others() {
    let mut cfg = Config::default();
    cfg.on_enable = "echo on".to_string();
    cfg.on_streaming_enter = "echo enter".to_string();
    let mut st = State::new(cfg);
    let mut remote = Remote::new(desktop("9"));

    assert!(streaming_enable(&mut st, &mut remote).is_ok());
    assert_eq!(st.mode, Mode::Enabled);
    assert_eq!(st.headless.as_deref(), Some("HEADLESS-1"));
    assert_eq!(st.physical, "eDP-1");
    assert!(st.mirroring_active);
    assert_eq!(st.active_workspace, "9");
    assert_eq!(
        *remote.client().raw_calls.borrow(),
        vec![
            "output create headless".to_string(),
            "keyword monitor HEADLESS-1,1920x1080@60,-9999x0,1".to_string(),
            "keyword workspace 9,monitor:HEADLESS-1,default:true".to_string(),
            "dispatch moveworkspacetomonitor 9 HEADLESS-1".to_string(),
            "dispatch moveworkspacetomonitor 1 eDP-1".to_string(),
            "keyword monitor HEADLESS-1,preferred,auto,1,mirror,eDP-1".to_string(),
        ]
    );
    assert_eq!(
        *remote.client().json_calls.borrow(),
        vec![
            "monitors".to_string(),
            "workspaces".to_string(),
            "monitors all".to_string(),
            "workspaces".to_string(),
            "activeworkspace".to_string(),
        ]
    );
    assert_eq!(
        st.hooks.take(),
        vec!["echo enter".to_string(), "echo on".to_string()]
    );
}

#[test]
fn enable_uses_configured_physical_output() {
    let mut cfg = Config::default();
    cfg.physical_monitor = "DP-3".to_string();
    let mut st = State::new(cfg);
    let mut remote = Remote::new(desktop("1"));
    assert!(streaming_enable(&mut st, &mut remote).is_ok());
    assert_eq!(st.physical, "DP-3");
    assert!(!st.mirroring_active);
    assert!(!remote.client().json_calls.borrow().contains(&"monitors".to_string()));
}

#[test]
fn enable_rolls_back_when_bind_is_rejected() {
    let mut fake = desktop("9");
    fake.reject = Some("keyword workspace".to_string());
    let mut st = State::new(Config::default());
    let mut remote = Remote::new(fake);

    match streaming_enable(&mut st, &mut remote) {
        Err(HyprError::Rejected { command, reply }) => {
            assert_eq!(command, "keyword workspace 9,monitor:HEADLESS-1,default:true");
            assert_eq!(reply, "invalid");
        }
        other => panic!("unexpected {:?}", other),
    }
    assert_eq!(st.mode, Mode::Disabled);
    assert!(st.headless.is_none());
    let raw = remote.client().raw_calls.borrow();
    assert_eq!(raw.last().unwrap(), "output remove HEADLESS-1");
    assert!(raw.contains(&"dispatch moveworkspacetomonitor 1 eDP-1".to_string()));
    assert!(remote.client().monitors.borrow().iter().all(|m| m != "HEADLESS-1"));
}

#[test]
fn enable_fails_without_physical_output() {
    let mut fake = FakeHypr::new("9");
    fake.monitors = RefCell::new(vec!["HEADLESS-3".to_string()]);
    let mut st = State::new(Config::default());
    let mut remote = Remote::new(fake);
    assert!(matches!(
        streaming_enable(&mut st, &mut remote),
        Err(HyprError::NoPhysicalOutput)
    ));
    assert_eq!(st.mode, Mode::Disabled);
    assert_eq!(st.physical, "");
}

#[test]
fn disable_parks_moves_back_and_removes() {
    let mut cfg = Config::default();
    cfg.on_disable = "echo off".to_string();
    let mut st = enabled_state(cfg);
    st.mirroring_active = true;
    st.active_workspace = "9".to_string();
    let mut remote = Remote::new(FakeHypr::new("9"));

    assert!(streaming_disable(&mut st, &mut remote).is_ok());
    assert_eq!(st.mode, Mode::Disabled);
    assert!(st.headless.is_none());
    assert!(!st.mirroring_active);
    assert_eq!(
        *remote.client().raw_calls.borrow(),
        vec![
            "keyword monitor HEADLESS-1,1920x1080@60,-9999x0,1".to_string(),
            "dispatch moveworkspacetomonitor 9 eDP-1".to_string(),
            "output remove HEADLESS-1".to_string(),
        ]
    );
    assert_eq!(st.hooks.take(), vec!["echo off".to_string()]);
}

#[test]
fn disable_commits_even_when_park_is_rejected() {
    let mut fake = FakeHypr::new("9");
    fake.reject = Some("keyword monitor".to_string());
    let mut st = enabled_state(Config::default());
    st.mirroring_active = true;
    let mut remote = Remote::new(fake);
    assert!(streaming_disable(&mut st, &mut remote).is_err());
    assert_eq!(st.mode, Mode::Disabled);
    assert!(st.headless.is_none());
    assert!(!st.mirroring_active);
    assert_eq!(
        *remote.client().raw_calls.borrow(),
        vec![
            "keyword monitor HEADLESS-1,1920x1080@60,-9999x0,1".to_string(),
            "dispatch moveworkspacetomonitor 9 eDP-1".to_string(),
            "output remove HEADLESS-1".to_string(),
        ]
    );
}

#[test]
fn control_disable_reports_a_rejected_park() {
    let mut fake = FakeHypr::new("9");
    fake.reject = Some("keyword monitor".to_string());
    let mut st = enabled_state(Config::default());
    st.mirroring_active = true;
    let mut remote = Remote::new(fake);
    assert_eq!(handle_ctl(&mut st, &mut remote, "disable").text, "error: disable failed");
    assert_eq!(st.mode, Mode::Disabled);
}

#[test]
fn reconcile_observed_acts_on_the_given_workspace() {
    let mut st = enabled_state(Config::default());
    let mut remote = Remote::new(FakeHypr::new("unused"));
    reconcile_observed(&mut st, &mut remote, "9".to_string()).unwrap();
    assert!(st.mirroring_active);
    assert_eq!(st.active_workspace, "9");
    assert_eq!(remote.client().json_calls.borrow().len(), 0);
    assert_eq!(
        *remote.client().raw_calls.borrow(),
        vec!["keyword monitor HEADLESS-1,preferred,auto,1,mirror,eDP-1".to_string()]
    );
    reconcile_observed(&mut st, &mut remote, "9".to_string()).unwrap();
    assert_eq!(remote.client().raw_calls.borrow().len(), 1);
    reconcile_observed(&mut st, &mut remote, "2".to_string()).unwrap();
    assert!(!st.mirroring_active);
    assert_eq!(st.active_workspace, "2");
    assert_eq!(
        remote.client().raw_calls.borrow().last().unwrap(),
        "keyword monitor HEADLESS-1,1920x1080@60,-9999x0,1"
    );
}

#[test]
fn reconcile_observed_keeps_state_when_mirror_is_rejected() {
    let mut fake = FakeHypr::new("9");
    fake.reject = Some("keyword monitor".to_string());
    let mut st = enabled_state(Config::default());
    let mut remote = Remote::new(fake);
    assert!(reconcile_observed(&mut st, &mut remote, "9".to_string()).is_err());
    assert!(!st.mirroring_active);
    assert_eq!(st.active_workspace, "");
}

#[test]
fn control_status_and_unknown() {
    let mut st = enabled_state(Config::default());
    st.active_workspace = "3".to_string();
    let mut remote = Remote::new(FakeHypr::new("9"));
    let r = handle_ctl(&mut st, &mut remote, " status\n");
    assert_eq!(
        r.text,
        "mode=enabled headless=HEADLESS-1 physical=eDP-1 workspace=3 mirroring=off"
    );
    assert!(!r.stop);
    let mut fresh = State::new(Config::default());
    let r = handle_ctl(&mut fresh, &mut remote, "status");
    assert_eq!(
        r.text,
        "mode=disabled headless=none physical=unknown workspace= mirroring=off"
    );
    let r = handle_ctl(&mut st, &mut remote, " bogus ");
    assert_eq!(r.text, "error: unknown command: bogus");
    assert_eq!(remote.client().calls(), 0);
    let r = handle_ctl(&mut st, &mut remote, "quit\n");
    assert_eq!(r.text, "shutting down");
    assert!(r.stop);
}

#[test]
fn control_toggle_and_failures() {
    let mut st = State::new(Config::default());
    let mut remote = Remote::new(desktop("1"));
    assert_eq!(handle_ctl(&mut st, &mut remote, "toggle").text, "enabled");
    assert_eq!(st.mode, Mode::Enabled);
    assert_eq!(handle_ctl(&mut st, &mut remote, "enable").text, "enabled");
    assert_eq!(handle_ctl(&mut st, &mut remote, "toggle").text, "disabled");
    assert_eq!(handle_ctl(&mut st, &mut remote, "disable").text, "disabled");

    let mut fake = desktop("1");
    fake.reject = Some("output create".to_string());
    let mut remote = Remote::new(fake);
    assert_eq!(handle_ctl(&mut st, &mut remote, "enable").text, "error: enable failed");
    assert_eq!(handle_ctl(&mut st, &mut remote, "toggle").text, "error: toggle failed");
    assert_eq!(st.mode, Mode::Disabled);
}

#[test]
fn events_reconcile_or_drop_the_headless_output() {
    let mut st = enabled_state(Config::default());
    let mut remote = Remote::new(FakeHypr::new("9"));
    match handle_event_line(&mut st, &mut remote, "workspace>>9") {
        EventOutcome::Reconciled(Ok(())) => {}
        other => panic!("unexpected {:?}", other),
    }
    assert!(st.mirroring_active);
    assert!(matches!(
        handle_event_line(&mut st, &mut remote, "openwindow>>a,b,c,d"),
        EventOutcome::Ignored
    ));
    assert!(matches!(
        handle_event_line(&mut st, &mut remote, "monitorremoved>>HEADLESS-2"),
        EventOutcome::Ignored
    ));
    assert!(matches!(
        handle_event_line(&mut st, &mut remote, "no separator"),
        EventOutcome::Ignored
    ));
    let before = remote.client().calls();
    assert!(matches!(
        handle_event_line(&mut st, &mut remote, "monitorremoved>>HEADLESS-1"),
        EventOutcome::HeadlessRemoved
    ));
    assert_eq!(remote.client().calls(), before);
    assert_eq!(st.mode, Mode::Disabled);
    assert!(st.headless.is_none());
    assert!(!st.mirroring_active);
}

#[test]
fn event_buffer_splits_records() {
    let mut b = EventBuffer::new();
    b.extend(b"workspace>>1\r\nfocus");
    assert_eq!(b.next_line(), Some("workspace>>1".to_string()));
    assert_eq!(b.next_line(), None);
    b.extend(b"edmon>>DP-1,2\n\n");
    assert_eq!(b.next_line(), Some("focusedmon>>DP-1,2".to_string()));
    assert_eq!(b.next_line(), Some(String::new()));
    assert_eq!(b.next_line(), None);
    b.extend(&[0x61, 0xff, 0x62, b'\n']);
    assert_eq!(b.next_line(), Some("a\u{fffd}b".to_string()));
}

#[test]
fn reconnect_gives_up_after_the_bound() {
    let mut r = Reconnect::new();
    for _ in 0..MAX_RECONNECT {
        assert!(r.on_failure());
    }
    assert!(!r.on_failure());
    assert_eq!(r.attempts(), MAX_RECONNECT);
    r.on_connected();
    assert_eq!(r.attempts(), 0);
    assert!(r.on_failure());
}

#[test]
fn blank_hooks_are_not_queued() {
    let mut q = HookQueue::new();
    q.fire("");
    q.fire("  \t");
    q.fire("echo hi");
    assert_eq!(q.take(), vec!["echo hi".to_string()]);
    assert!(q.take().is_empty());
}
