//! Where the sockets and the configuration file live, from the values the
//! environment gives.
use vstd::prelude::*;
use crate::text::{concat, push_char};

verus! {

/// Why a compositor socket path cannot be formed.
#[derive(Debug, PartialEq, Eq, Structural)]
pub enum PathError {
    /// The compositor's instance signature or the runtime directory is unset or empty.
    MissingInstance,
}

/// `rel` appended to `base` as a path component, as `Path::join` does for a
/// relative `rel`.
pub open spec fn join_spec(base: Seq<char>, rel: Seq<char>) -> Seq<char> {
    if base.len() == 0 || base.last() == '/' {
        base + rel
    } else {
        base + "/"@ + rel
    }
}

pub open spec fn digit_spec(d: nat) -> char {
    if d == 0 { '0' } else if d == 1 { '1' } else if d == 2 { '2' } else if d == 3 { '3' }
    else if d == 4 { '4' } else if d == 5 { '5' } else if d == 6 { '6' } else if d == 7 { '7' }
    else if d == 8 { '8' } else { '9' }
}

/// The decimal digits of `n`, without leading zeros.
pub open spec fn decimal(n: nat) -> Seq<char>
    decreases n,
{
    if n < 10 {
        seq![digit_spec(n)]
    } else {
        decimal(n / 10).push(digit_spec(n % 10))
    }
}

pub open spec fn config_default_path_spec(xdg_config_home: Option<Seq<char>>, home: Option<Seq<char>>) -> Seq<char> {
    match (xdg_config_home, home) {
        (Some(x), _) if x.len() > 0 => join_spec(x, "hyprstream/config"@),
        (_, Some(h)) if h.len() > 0 => join_spec(h, ".config/hyprstream/config"@),
        _ => "/etc/hyprstream/config"@,
    }
}

pub open spec fn ctl_socket_path_spec(runtime_dir: Option<Seq<char>>, uid: nat) -> Seq<char> {
    match runtime_dir {
        Some(x) if x.len() > 0 => join_spec(x, "hyprstream.sock"@),
        _ => "/tmp/hyprstream-"@ + decimal(uid) + ".sock"@,
    }
}

pub open spec fn instance_path_spec(signature: Seq<char>, runtime_dir: Seq<char>, file: Seq<char>) -> Seq<char> {
    join_spec(runtime_dir, "hypr/"@ + signature + "/"@ + file)
}

fn join(base: &str, rel: &str) -> (r: String)
    ensures
        r@ == join_spec(base@, rel@),
{
    let b = crate::text::chars_of(base);
    if b.len() == 0 || b[b.len() - 1] == '/' {
        concat(base, rel)
    } else {
        let mut r = concat(base, "/");
        r.append(rel);
        r
    }
}

fn digit_char(d: u32) -> (c: char)
    requires
        d < 10,
    ensures
        c == digit_spec(d as nat),
{
    if d == 0 { '0' } else if d == 1 { '1' } else if d == 2 { '2' } else if d == 3 { '3' }
    else if d == 4 { '4' } else if d == 5 { '5' } else if d == 6 { '6' } else if d == 7 { '7' }
    else if d == 8 { '8' } else { '9' }
}

/// The decimal representation of `n`.
pub fn decimal_string(n: u32) -> (r: String)
    ensures
        r@ == decimal(n as nat),
    decreases n,
{
    if n < 10 {
        let mut r = String::new();
        push_char(&mut r, digit_char(n));
        assert(r@ =~= decimal(n as nat));
        r
    } else {
        let mut r = decimal_string(n / 10);
        push_char(&mut r, digit_char(n % 10));
        r
    }
}

/// The configuration file: under `$XDG_CONFIG_HOME`, else under `$HOME/.config`,
/// else the system-wide one. Unset and empty values are alike.
pub fn config_default_path(xdg_config_home: Option<&str>, home: Option<&str>) -> (r: String)
    ensures
        r@ == config_default_path_spec(
            match xdg_config_home { Some(x) => Some(x@), None => None },
            match home { Some(h) => Some(h@), None => None },
        ),
{
    if let Some(x) = xdg_config_home {
        if crate::text::chars_of(x).len() > 0 {
            return join(x, "hyprstream/config");
        }
    }
    if let Some(h) = home {
        if crate::text::chars_of(h).len() > 0 {
            return join(h, ".config/hyprstream/config");
        }
    }
    "/etc/hyprstream/config".to_owned()
}

/// The control socket: in the runtime directory, else a per-user file in `/tmp`.
pub fn ctl_socket_path(runtime_dir: Option<&str>, uid: u32) -> (r: String)
    ensures
        r@ == ctl_socket_path_spec(
            match runtime_dir { Some(x) => Some(x@), None => None },
            uid as nat,
        ),
{
    if let Some(x) = runtime_dir {
        if crate::text::chars_of(x).len() > 0 {
            return join(x, "hyprstream.sock");
        }
    }
    let d = decimal_string(uid);
    let mut r = concat("/tmp/hyprstream-", d.as_str());
    r.append(".sock");
    r
}

fn instance_path(signature: &str, runtime_dir: &str, file: &str) -> (r: Result<String, PathError>)
    ensures
        signature@.len() == 0 || runtime_dir@.len() == 0 ==> r == Err::<String, PathError>(PathError::MissingInstance),
        signature@.len() > 0 && runtime_dir@.len() > 0 ==> (r matches Ok(p) && p@ == instance_path_spec(signature@, runtime_dir@, file@)),
{
    if crate::text::chars_of(signature).len() == 0 || crate::text::chars_of(runtime_dir).len() == 0 {
        return Err(PathError::MissingInstance);
    }
    let mut rel = concat("hypr/", signature);
    rel.append("/");
    rel.append(file);
    Ok(join(runtime_dir, rel.as_str()))
}

/// The compositor's request socket.
pub fn hypr_socket_path(signature: &str, runtime_dir: &str) -> (r: Result<String, PathError>)
    ensures
        signature@.len() == 0 || runtime_dir@.len() == 0 ==> r == Err::<String, PathError>(PathError::MissingInstance),
        signature@.len() > 0 && runtime_dir@.len() > 0 ==> (r matches Ok(p) && p@ == instance_path_spec(signature@, runtime_dir@, ".socket.sock"@)),
{
    instance_path(signature, runtime_dir, ".socket.sock")
}

/// The compositor's event socket.
pub fn hypr_event_socket_path(signature: &str, runtime_dir: &str) -> (r: Result<String, PathError>)
    ensures
        signature@.len() == 0 || runtime_dir@.len() == 0 ==> r == Err::<String, PathError>(PathError::MissingInstance),
        signature@.len() > 0 && runtime_dir@.len() > 0 ==> (r matches Ok(p) && p@ == instance_path_spec(signature@, runtime_dir@, ".socket2.sock"@)),
{
    instance_path(signature, runtime_dir, ".socket2.sock")
}

} // verus!
