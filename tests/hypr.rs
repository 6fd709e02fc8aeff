use hyprstream::hypr::{
    check_reply, headless_from_listing, headless_number, ok_reply, parse_i32, restore_headless_stolen_workspaces,
    select_headless, stolen_workspaces, ActiveWorkspace, Hypr, HyprError, HyprIpc, Monitor,
    Remote, Workspace, WorkspaceSnapshot,
};
use hyprstream::paths::{
    config_default_path, ctl_socket_path, decimal_string, hypr_event_socket_path,
    hypr_socket_path, PathError,
};
use std::cell::RefCell;
use std::collections::HashMap;

struct FakeHypr {
    // workspace -> monitor
    workspaces: RefCell<HashMap<String, String>>,
    moves: RefCell<Vec<(String, String)>>,
}

impl FakeHypr {
    fn new(workspaces: impl IntoIterator<Item = (String, String)>) -> Self {
        Self {
            workspaces: RefCell::new(workspaces.into_iter().collect()),
            moves: RefCell::new(Vec::new()),
        }
    }
}

impl Hypr for FakeHypr {
    fn request_raw(&self, args: &str) -> Result<String, HyprError> {
        if let Some(rest) = args.strip_prefix("dispatch moveworkspacetomonitor ") {
            let mut parts = rest.split_whitespace();
            let ws = parts.next().unwrap_or("");
            let mon = parts.next().unwrap_or("");
            self.workspaces
                .borrow_mut()
                .insert(ws.to_string(), mon.to_string());
            self.moves
                .borrow_mut()
                .push((ws.to_string(), mon.to_string()));
        }
        Ok("ok".to_string())
    }

    fn request_monitors(&self, args: &str) -> Result<Vec<Monitor>, HyprError> {
        Err(HyprError::Parse(format!("unsupported query in test: {args}")))
    }

    fn request_workspaces(&self, args: &str) -> Result<Vec<Workspace>, HyprError> {
        if args == "workspaces" {
            return Ok(self
                .workspaces
                .borrow()
                .iter()
                .map(|(name, monitor)| Workspace {
                    name: name.clone(),
                    monitor: monitor.clone(),
                })
                .collect());
        }
        Err(HyprError::Parse(format!("unsupported query in test: {args}")))
    }

    fn request_active_workspace(&self, args: &str) -> Result<ActiveWorkspace, HyprError> {
        Err(HyprError::Parse(format!("unsupported query in test: {args}")))
    }
}

fn snapshot(pairs: &[(&str, &str)]) -> WorkspaceSnapshot {
    let mut s = WorkspaceSnapshot::new();
    for (w, m) in pairs {
        s.push(w.to_string(), m.to_string());
    }
    s
}

#[test]
fn restore_moves_only_non_streaming_workspaces_off_headless() {
    let before = snapshot(&[("1", "eDP-1"), ("9", "eDP-1")]);
    let fake = FakeHypr::new([
        ("1".to_string(), "HEADLESS-1".to_string()),
        ("9".to_string(), "HEADLESS-1".to_string()),
    ]);
    let mut remote = Remote::new(fake);

    let moved = restore_headless_stolen_workspaces(&mut remote, &before, "HEADLESS-1", "9").unwrap();
    assert_eq!(moved, 1);

    let moves = remote.client().moves.borrow();
    assert_eq!(moves.as_slice(), &[("1".to_string(), "eDP-1".to_string())]);
}

#[test]
fn restore_does_not_move_workspaces_without_previous_mapping() {
    let before = WorkspaceSnapshot::new();
    let fake = FakeHypr::new([("1".to_string(), "HEADLESS-1".to_string())]);
    let mut remote = Remote::new(fake);

    let moved = restore_headless_stolen_workspaces(&mut remote, &before, "HEADLESS-1", "9").unwrap();
    assert_eq!(moved, 0);
}

#[test]
fn stolen_skips_virtual_prior_hosts_and_other_outputs() {
    let before = snapshot(&[("1", "eDP-1"), ("2", "HEADLESS-0"), ("3", "DP-2"), ("4", "eDP-1"), ("3", "HDMI-A-1")]);
    let after = snapshot(&[("1", "HEADLESS-1"), ("2", "HEADLESS-1"), ("3", "HEADLESS-1"), ("4", "eDP-1"), ("9", "HEADLESS-1")]);
    let moves = stolen_workspaces(&before, &after, "HEADLESS-1", "9");
    let pairs: Vec<(String, String)> = moves.into_iter().map(|w| (w.name, w.monitor)).collect();
    assert_eq!(
        pairs,
        vec![
            ("1".to_string(), "eDP-1".to_string()),
            ("3".to_string(), "HDMI-A-1".to_string())
        ]
    );
    assert_eq!(before.get("3"), Some("HDMI-A-1"));
    assert_eq!(before.get("7"), None);
}

fn monitors(names: &[&str]) -> Vec<Monitor> {
    names.iter().map(|n| Monitor { name: n.to_string() }).collect()
}

#[test]
fn select_headless_takes_highest_number() {
    let ms = monitors(&["eDP-1", "HEADLESS-2", "HEADLESS-10", "HEADLESS-x", "HEADLESS--5", "HEADLESS-10"]);
    assert_eq!(select_headless(&ms), Some("HEADLESS-10".to_string()));
    assert_eq!(select_headless(&monitors(&["eDP-1", "HEADLESS-", "headless-3"])), None);
    assert_eq!(select_headless(&monitors(&["HEADLESS-+0"])), Some("HEADLESS-+0".to_string()));
    assert_eq!(headless_number("HEADLESS-7"), 7);
    assert_eq!(headless_number("HEADLESS--7"), -1);
    assert_eq!(headless_number("DP-7"), -1);
}

#[test]
fn ok_reply_is_trimmed_and_case_insensitive() {
    assert!(ok_reply("ok"));
    assert!(ok_reply(" OK\n"));
    assert!(ok_reply("oK"));
    assert!(!ok_reply("okay"));
    assert!(!ok_reply("not ok"));
    assert!(!ok_reply(""));
}

#[test]
fn check_reply_rejects_other_text() {
    assert!(check_reply("output remove HEADLESS-1", "ok\n".to_string()).is_ok());
    match check_reply("output remove HEADLESS-1", "error: no such output".to_string()) {
        Err(HyprError::Rejected { command, reply }) => {
            assert_eq!(command, "output remove HEADLESS-1");
            assert_eq!(reply, "error: no such output");
        }
        other => panic!("unexpected {:?}", other),
    }
}

#[test]
fn parse_i32_follows_std() {
    for s in ["0", "+7", "-0", "2147483647", "-2147483648", "007", "", "-", "+", "12a", "2147483648", "-2147483649", " 1", "99999999999"] {
        assert_eq!(parse_i32(s), s.parse::<i32>().ok(), "input {:?}", s);
    }
}

#[test]
fn payloads_carry_their_markers() {
    assert_eq!(HyprIpc::raw_payload("monitors"), "/monitors");
    assert_eq!(HyprIpc::json_payload("monitors all"), "j/monitors all");
    let ipc = HyprIpc::new("abc", "/run/user/1000").unwrap();
    assert_eq!(ipc.socket(), "/run/user/1000/hypr/abc/.socket.sock");
    assert!(HyprIpc::new("", "/run/user/1000").is_err());
}

#[test]
fn socket_paths() {
    assert_eq!(
        hypr_socket_path("sig", "/run/user/1000/").unwrap(),
        "/run/user/1000/hypr/sig/.socket.sock"
    );
    assert_eq!(
        hypr_event_socket_path("sig", "/run/user/1000").unwrap(),
        "/run/user/1000/hypr/sig/.socket2.sock"
    );
    assert_eq!(hypr_event_socket_path("sig", ""), Err(PathError::MissingInstance));
    assert_eq!(ctl_socket_path(Some("/run/user/1000"), 5), "/run/user/1000/hyprstream.sock");
    assert_eq!(ctl_socket_path(Some(""), 1000), "/tmp/hyprstream-1000.sock");
    assert_eq!(ctl_socket_path(None, 0), "/tmp/hyprstream-0.sock");
    assert_eq!(decimal_string(4294967295), "4294967295");
    assert_eq!(
        config_default_path(Some("/home/u/.cfg"), Some("/home/u")),
        "/home/u/.cfg/hyprstream/config"
    );
    assert_eq!(
        config_default_path(Some(""), Some("/home/u")),
        "/home/u/.config/hyprstream/config"
    );
    assert_eq!(config_default_path(None, None), "/etc/hyprstream/config");
}

#[test]
fn listing_without_virtual_output_is_an_error() {
    assert!(matches!(
        headless_from_listing(&monitors(&["eDP-1", "DP-2"])),
        Err(HyprError::NoHeadlessOutput)
    ));
    assert_eq!(
        headless_from_listing(&monitors(&["HEADLESS-3", "eDP-1", "HEADLESS-4"])).unwrap(),
        "HEADLESS-4"
    );
}

#[test]
fn workspace_listed_twice_is_moved_once() {
    let before = snapshot(&[("1", "eDP-1"), ("2", "eDP-1")]);
    let after = snapshot(&[("1", "HEADLESS-1"), ("2", "HEADLESS-1"), ("1", "HEADLESS-1"), ("2", "eDP-1")]);
    let moves = stolen_workspaces(&before, &after, "HEADLESS-1", "9");
    let pairs: Vec<(String, String)> = moves.into_iter().map(|w| (w.name, w.monitor)).collect();
    assert_eq!(pairs, vec![("1".to_string(), "eDP-1".to_string())]);
}
