//! Requests to the privileged helper daemon.
//!
//! The daemon reads one JSON object per line, `{"cmd": ..., "params": {...}}`,
//! and answers with a JSON object whose `ok` field says whether the command was
//! accepted and carried out. This module decides, for each request line, which
//! VPN operation it asks for or why it is refused; carrying the operation out
//! is the daemon's part.
use vstd::prelude::*;
use crate::json::{
    json_bool, json_bool_at, json_error_of, json_parse_error, json_str, json_str_at, json_string,
    json_string_text, json_u64, json_u64_at, opt_string_view,
};
use crate::text::{chars_of, owned, push_str, string_from_chars, string_of_range, trim, trim_range};

verus! {

/// The fields of a request that the daemon reads.
#[derive(Debug)]
pub struct HelperRequest {
    pub cmd: Option<String>,
    pub socks_port: Option<u64>,
    pub config_path: Option<String>,
    pub profile_path: Option<String>,
    pub server: Option<String>,
    pub username: Option<String>,
    pub password: Option<String>,
    pub method: Option<String>,
    pub host: Option<String>,
    pub port: Option<u64>,
    pub system_wide: Option<bool>,
}

/// An operation the daemon carries out.
#[derive(Debug)]
pub enum HelperCommand {
    Ping,
    TorStart { socks_port: u16 },
    TorStop,
    WgStart { config_path: String },
    WgStop,
    OvpnStart { profile_path: String },
    OvpnStop,
    PptpStart { server: String, username: String, password: String },
    PptpStop,
    SsStart { method: String, password: String, host: String, port: u16, system_wide: bool },
    SsStop,
    Status,
}

/// The value of a [`HelperCommand`].
pub enum HelperCommandView {
    Ping,
    TorStart { socks_port: u16 },
    TorStop,
    WgStart { config_path: Seq<char> },
    WgStop,
    OvpnStart { profile_path: Seq<char> },
    OvpnStop,
    PptpStart { server: Seq<char>, username: Seq<char>, password: Seq<char> },
    PptpStop,
    SsStart {
        method: Seq<char>,
        password: Seq<char>,
        host: Seq<char>,
        port: u16,
        system_wide: bool,
    },
    SsStop,
    Status,
}

impl View for HelperCommand {
    type V = HelperCommandView;

    open spec fn view(&self) -> HelperCommandView {
        match self {
            HelperCommand::Ping => HelperCommandView::Ping,
            HelperCommand::TorStart { socks_port } => HelperCommandView::TorStart {
                socks_port: *socks_port,
            },
            HelperCommand::TorStop => HelperCommandView::TorStop,
            HelperCommand::WgStart { config_path } => HelperCommandView::WgStart {
                config_path: config_path@,
            },
            HelperCommand::WgStop => HelperCommandView::WgStop,
            HelperCommand::OvpnStart { profile_path } => HelperCommandView::OvpnStart {
                profile_path: profile_path@,
            },
            HelperCommand::OvpnStop => HelperCommandView::OvpnStop,
            HelperCommand::PptpStart { server, username, password } => HelperCommandView::PptpStart {
                server: server@,
                username: username@,
                password: password@,
            },
            HelperCommand::PptpStop => HelperCommandView::PptpStop,
            HelperCommand::SsStart { method, password, host, port, system_wide } =>
                HelperCommandView::SsStart {
                method: method@,
                password: password@,
                host: host@,
                port: *port,
                system_wide: *system_wide,
            },
            HelperCommand::SsStop => HelperCommandView::SsStop,
            HelperCommand::Status => HelperCommandView::Status,
        }
    }
}

/// The value of a [`HelperRequest`].
pub struct HelperRequestView {
    pub cmd: Option<Seq<char>>,
    pub socks_port: Option<u64>,
    pub config_path: Option<Seq<char>>,
    pub profile_path: Option<Seq<char>>,
    pub server: Option<Seq<char>>,
    pub username: Option<Seq<char>>,
    pub password: Option<Seq<char>>,
    pub method: Option<Seq<char>>,
    pub host: Option<Seq<char>>,
    pub port: Option<u64>,
    pub system_wide: Option<bool>,
}

impl View for HelperRequest {
    type V = HelperRequestView;

    open spec fn view(&self) -> HelperRequestView {
        HelperRequestView {
            cmd: opt_string_view(self.cmd),
            socks_port: self.socks_port,
            config_path: opt_string_view(self.config_path),
            profile_path: opt_string_view(self.profile_path),
            server: opt_string_view(self.server),
            username: opt_string_view(self.username),
            password: opt_string_view(self.password),
            method: opt_string_view(self.method),
            host: opt_string_view(self.host),
            port: self.port,
            system_wide: self.system_wide,
        }
    }
}

/// A missing text field counts as empty.
pub open spec fn or_empty(o: Option<Seq<char>>) -> Seq<char> {
    match o {
        Some(s) => s,
        None => Seq::empty(),
    }
}

/// The operation a request asks for, or why it is refused.
pub open spec fn spec_dispatch_request(r: HelperRequestView) -> Result<HelperCommandView, Seq<char>> {
    let cmd = or_empty(r.cmd);
    if cmd == "ping"@ {
        Ok(HelperCommandView::Ping)
    } else if cmd == "tor_start"@ {
        Ok(
            HelperCommandView::TorStart {
                socks_port: (match r.socks_port {
                    Some(p) => p,
                    None => 9050,
                }) as u16,
            },
        )
    } else if cmd == "tor_stop"@ {
        Ok(HelperCommandView::TorStop)
    } else if cmd == "wg_start"@ {
        let p = or_empty(r.config_path);
        if p.len() == 0 {
            Err("config_path required"@)
        } else {
            Ok(HelperCommandView::WgStart { config_path: p })
        }
    } else if cmd == "wg_stop"@ {
        Ok(HelperCommandView::WgStop)
    } else if cmd == "ovpn_start"@ {
        let p = or_empty(r.profile_path);
        if p.len() == 0 {
            Err("profile_path required"@)
        } else {
            Ok(HelperCommandView::OvpnStart { profile_path: p })
        }
    } else if cmd == "ovpn_stop"@ {
        Ok(HelperCommandView::OvpnStop)
    } else if cmd == "pptp_start"@ {
        let s = or_empty(r.server);
        let u = or_empty(r.username);
        if s.len() == 0 || u.len() == 0 {
            Err("server/username required"@)
        } else {
            Ok(
                HelperCommandView::PptpStart {
                    server: s,
                    username: u,
                    password: or_empty(r.password),
                },
            )
        }
    } else if cmd == "pptp_stop"@ {
        Ok(HelperCommandView::PptpStop)
    } else if cmd == "ss_start"@ {
        let h = or_empty(r.host);
        if h.len() == 0 {
            Err("host required"@)
        } else {
            Ok(
                HelperCommandView::SsStart {
                    method: or_empty(r.method),
                    password: or_empty(r.password),
                    host: h,
                    port: (match r.port {
                        Some(p) => p,
                        None => 443,
                    }) as u16,
                    system_wide: match r.system_wide {
                        Some(b) => b,
                        None => true,
                    },
                },
            )
        }
    } else if cmd == "ss_stop"@ {
        Ok(HelperCommandView::SsStop)
    } else if cmd == "status"@ {
        Ok(HelperCommandView::Status)
    } else {
        Err("unknown command '"@ + cmd + "'"@)
    }
}

pub open spec fn result_view(r: Result<HelperCommand, String>) -> Result<HelperCommandView, Seq<char>> {
    match r {
        Ok(c) => Ok(c@),
        Err(e) => Err(e@),
    }
}

fn text_or_empty(o: &Option<String>) -> (r: String)
    ensures
        r@ == or_empty(opt_string_view(*o)),
{
    match o {
        Some(s) => owned(s.as_str()),
        None => {
            let v: Vec<char> = Vec::new();
            string_from_chars(v.as_slice())
        },
    }
}

fn is_cmd(cmd: &String, lit: &str) -> (r: bool)
    ensures
        r == (cmd@ == lit@),
{
    let v = chars_of(cmd.as_str());
    let n = v.len();
    assert(v@.subrange(0, n as int) =~= v@);
    crate::text::range_eq(&v, 0, n, lit)
}

/// The operation a request asks for, or the error to answer with.
pub fn dispatch_request(r: &HelperRequest) -> (res: Result<HelperCommand, String>)
    ensures
        result_view(res) == spec_dispatch_request(r@),
{
    let cmd = text_or_empty(&r.cmd);
    if is_cmd(&cmd, "ping") {
        Ok(HelperCommand::Ping)
    } else if is_cmd(&cmd, "tor_start") {
        let p: u64 = match r.socks_port {
            Some(p) => p,
            None => 9050,
        };
        Ok(HelperCommand::TorStart { socks_port: p as u16 })
    } else if is_cmd(&cmd, "tor_stop") {
        Ok(HelperCommand::TorStop)
    } else if is_cmd(&cmd, "wg_start") {
        let p = text_or_empty(&r.config_path);
        if p.as_str().is_empty() {
            Err(owned("config_path required"))
        } else {
            Ok(HelperCommand::WgStart { config_path: p })
        }
    } else if is_cmd(&cmd, "wg_stop") {
        Ok(HelperCommand::WgStop)
    } else if is_cmd(&cmd, "ovpn_start") {
        let p = text_or_empty(&r.profile_path);
        if p.as_str().is_empty() {
            Err(owned("profile_path required"))
        } else {
            Ok(HelperCommand::OvpnStart { profile_path: p })
        }
    } else if is_cmd(&cmd, "ovpn_stop") {
        Ok(HelperCommand::OvpnStop)
    } else if is_cmd(&cmd, "pptp_start") {
        let s = text_or_empty(&r.server);
        let u = text_or_empty(&r.username);
        if s.as_str().is_empty() || u.as_str().is_empty() {
            Err(owned("server/username required"))
        } else {
            Ok(HelperCommand::PptpStart { server: s, username: u, password: text_or_empty(&r.password) })
        }
    } else if is_cmd(&cmd, "pptp_stop") {
        Ok(HelperCommand::PptpStop)
    } else if is_cmd(&cmd, "ss_start") {
        let h = text_or_empty(&r.host);
        if h.as_str().is_empty() {
            Err(owned("host required"))
        } else {
            let port: u64 = match r.port {
                Some(p) => p,
                None => 443,
            };
            let system_wide = match r.system_wide {
                Some(b) => b,
                None => true,
            };
            Ok(
                HelperCommand::SsStart {
                    method: text_or_empty(&r.method),
                    password: text_or_empty(&r.password),
                    host: h,
                    port: port as u16,
                    system_wide,
                },
            )
        }
    } else if is_cmd(&cmd, "ss_stop") {
        Ok(HelperCommand::SsStop)
    } else if is_cmd(&cmd, "status") {
        Ok(HelperCommand::Status)
    } else {
        let mut v: Vec<char> = Vec::new();
        push_str(&mut v, "unknown command '");
        push_str(&mut v, cmd.as_str());
        push_str(&mut v, "'");
        Err(string_from_chars(v.as_slice()))
    }
}

/// The fields a request line holds, as read by serde_json: `cmd` at the top
/// level, the rest under `params`.
pub open spec fn request_of(line: Seq<char>) -> HelperRequestView {
    HelperRequestView {
        cmd: json_str_at(line, "/cmd"@),
        socks_port: json_u64_at(line, "/params/socks_port"@),
        config_path: json_str_at(line, "/params/config_path"@),
        profile_path: json_str_at(line, "/params/profile_path"@),
        server: json_str_at(line, "/params/server"@),
        username: json_str_at(line, "/params/username"@),
        password: json_str_at(line, "/params/password"@),
        method: json_str_at(line, "/params/method"@),
        host: json_str_at(line, "/params/host"@),
        port: json_u64_at(line, "/params/port"@),
        system_wide: json_bool_at(line, "/params/system_wide"@),
    }
}

/// What [`dispatch`] answers for a request line.
pub open spec fn spec_dispatch(line: Seq<char>) -> Result<HelperCommandView, Seq<char>> {
    match json_parse_error(line) {
        Some(e) => Err("bad request: "@ + e),
        None => spec_dispatch_request(request_of(line)),
    }
}

/// Read the fields of a request line.
pub fn read_request(line: &str) -> (r: HelperRequest)
    ensures
        r@ == request_of(line@),
{
    HelperRequest {
        cmd: json_str(line, "/cmd"),
        socks_port: json_u64(line, "/params/socks_port"),
        config_path: json_str(line, "/params/config_path"),
        profile_path: json_str(line, "/params/profile_path"),
        server: json_str(line, "/params/server"),
        username: json_str(line, "/params/username"),
        password: json_str(line, "/params/password"),
        method: json_str(line, "/params/method"),
        host: json_str(line, "/params/host"),
        port: json_u64(line, "/params/port"),
        system_wide: json_bool(line, "/params/system_wide"),
    }
}

/// The operation a request line asks the daemon for, or the error to answer
/// with: malformed JSON is a bad request, an unknown `cmd` or a missing
/// required parameter is refused.
pub fn dispatch(line: &str) -> (res: Result<HelperCommand, String>)
    ensures
        result_view(res) == spec_dispatch(line@),
{
    match json_error_of(line) {
        Some(e) => {
            let mut v: Vec<char> = Vec::new();
            push_str(&mut v, "bad request: ");
            push_str(&mut v, e.as_str());
            Err(string_from_chars(v.as_slice()))
        },
        None => {
            let req = read_request(line);
            dispatch_request(&req)
        },
    }
}

/// The trimmed text of `t`.
fn trimmed(t: &str) -> (r: String)
    ensures
        r@ == trim(t@),
{
    let v = chars_of(t);
    let n = v.len();
    let (a, b) = trim_range(&v, 0, n);
    assert(v@.subrange(0, n as int) =~= v@);
    string_of_range(&v, a, b)
}

/// What a reply line of the helper says (`reply` is `None` when the helper
/// could not be reached or did not answer): nothing for a blank or malformed
/// line, else its `ok` flag and its `error` text, each when present.
pub open spec fn spec_helper_reply(reply: Option<Seq<char>>) -> Option<(Option<bool>, Option<Seq<char>>)> {
    match reply {
        None => None,
        Some(t) => {
            let body = trim(t);
            if body.len() == 0 || json_parse_error(body) is Some {
                None
            } else {
                Some((json_bool_at(body, "/ok"@), json_str_at(body, "/error"@)))
            }
        },
    }
}

/// Read the helper's reply line: `None` when there was no reply, or it is
/// blank or not JSON; else its `ok` and `error` fields.
pub fn helper_reply(reply: Option<&str>) -> (r: Option<(Option<bool>, Option<String>)>)
    ensures
        match spec_helper_reply(opt_str(reply)) {
            None => r is None,
            Some((ok, err)) => (r matches Some((ok2, err2)) && ok2 == ok && opt_string_view(err2)
                == err),
        },
{
    match reply {
        None => None,
        Some(t) => {
            let body = trimmed(t);
            if body.unicode_len() == 0 {
                return None;
            }
            if json_error_of(body.as_str()).is_some() {
                return None;
            }
            Some((json_bool(body.as_str(), "/ok"), json_str(body.as_str(), "/error")))
        },
    }
}

pub open spec fn opt_str(o: Option<&str>) -> Option<Seq<char>> {
    match o {
        Some(s) => Some(s@),
        None => None,
    }
}

/// Whether the helper daemon is usable, from its reply line to `ping`
/// (`None` when it did not answer, or where there is no daemon): only a
/// reply whose `ok` field is `true` counts.
pub fn available(ping_reply: Option<&str>) -> (r: bool)
    ensures
        r == match ping_reply {
            Some(t) => json_bool_at(trim(t@), "/ok"@) == Some(true),
            None => false,
        },
{
    match ping_reply {
        Some(t) => {
            let body = trimmed(t);
            match json_bool(body.as_str(), "/ok") {
                Some(b) => b,
                None => false,
            }
        },
        None => false,
    }
}

/// The reply line the daemon sends for a refused request or a failed
/// command: `error` and `ok: false`, keys in serde_json's order.
pub open spec fn spec_error_reply(error: Seq<char>) -> Seq<char> {
    "{\"error\":"@ + json_string_text(error) + ",\"ok\":false}"@
}

/// The reply line for a refused request or a failed command.
pub fn error_reply(error: &str) -> (r: String)
    ensures
        r@ == spec_error_reply(error@),
{
    let q = json_string(error);
    let mut v: Vec<char> = Vec::new();
    push_str(&mut v, "{\"error\":");
    push_str(&mut v, q.as_str());
    push_str(&mut v, ",\"ok\":false}");
    string_from_chars(v.as_slice())
}

} // verus!
