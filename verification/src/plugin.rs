//! The sudo approval plugin's decisions: what it asks the daemon, and what it tells sudo.

use crate::config::{Identity, IdentityView};
use crate::host;
use crate::host::login_of;
use crate::paths;
use crate::paths::joined_path;
use crate::proto::{LocalReq, LocalReqView, LocalResp};
use crate::text;
use crate::text::{first_after, number_in};
use vstd::prelude::*;

verus! {

/// What the plugin keeps from its opening until a command is checked.
#[derive(Debug, PartialEq, Eq)]
pub struct OpenCtx {
    pub uid: u32,
    pub cwd: String,
    pub runas: String,
    pub socket_path: String,
    /// The file that names the declared humans.
    pub identity_path: String,
}

pub struct OpenCtxView {
    pub uid: u32,
    pub cwd: Seq<char>,
    pub runas: Seq<char>,
    pub socket_path: Seq<char>,
    pub identity_path: Seq<char>,
}

impl DeepView for OpenCtx {
    type V = OpenCtxView;

    open spec fn deep_view(&self) -> OpenCtxView {
        OpenCtxView {
            uid: self.uid,
            cwd: self.cwd@,
            runas: self.runas@,
            socket_path: self.socket_path@,
            identity_path: self.identity_path@,
        }
    }
}

/// What follows a prefix in the first item that begins with it.
pub fn value(items: &Vec<String>, prefix: &str) -> (r: Option<String>)
    ensures
        r.deep_view() == first_after(items.deep_view(), prefix@),
{
    text::find_after(items, prefix)
}

/// A text, or the one that stands in for it.
pub open spec fn or_else(s: Option<Seq<char>>, fallback: Seq<char>) -> Seq<char> {
    match s {
        Some(t) => t,
        None => fallback,
    }
}

fn value_or(items: &Vec<String>, prefix: &str, fallback: &str) -> (r: String)
    ensures
        r@ == or_else(first_after(items.deep_view(), prefix@), fallback@),
{
    match value(items, prefix) {
        Some(v) => v,
        None => fallback.to_owned(),
    }
}

/// The user id that sudo names, or the process's own.
pub open spec fn uid_of(user_info: Seq<Seq<char>>, own_uid: u32) -> u32 {
    match first_after(user_info, "uid="@) {
        Some(s) => match number_in(s, u32::MAX as nat) {
            Some(n) => n as u32,
            None => own_uid,
        },
        None => own_uid,
    }
}

/// What the plugin keeps of what sudo tells it on opening. `own_uid` is the process's user id,
/// `default_socket` the socket and `default_identity` the identity file to use where no option names
/// one.
pub fn open(
    user_info: &Vec<String>,
    plugin_options: &Vec<String>,
    own_uid: u32,
    default_socket: &str,
    default_identity: &str,
) -> (r: OpenCtx)
    ensures
        r.deep_view() == (OpenCtxView {
            uid: uid_of(user_info.deep_view(), own_uid),
            cwd: or_else(first_after(user_info.deep_view(), "cwd="@), "/"@),
            runas: or_else(first_after(user_info.deep_view(), "runas_user="@), "root"@),
            socket_path: or_else(
                first_after(plugin_options.deep_view(), "SocketPath="@),
                default_socket@,
            ),
            identity_path: or_else(
                first_after(plugin_options.deep_view(), "IdentityPath="@),
                default_identity@,
            ),
        }),
{
    let uid: u32 = match value(user_info, "uid=") {
        Some(s) => match text::parse_u32(s.as_str()) {
            Some(uid) => uid,
            None => own_uid,
        },
        None => own_uid,
    };
    OpenCtx {
        uid,
        cwd: value_or(user_info, "cwd=", "/"),
        runas: value_or(user_info, "runas_user=", "root"),
        socket_path: value_or(plugin_options, "SocketPath=", default_socket),
        identity_path: value_or(plugin_options, "IdentityPath=", default_identity),
    }
}

/// What is asked of the daemon about a command. The command's own target user counts before the one
/// that was named on opening. Without an opening nothing is asked.
pub fn check(ctx: &Option<OpenCtx>, command_info: &Vec<String>, argv: Vec<String>) -> (r: Result<
    LocalReq,
    String,
>)
    ensures
        match *ctx {
            Some(c) => r matches Ok(req) && req.deep_view() == (LocalReqView::Request {
                uid: c.uid,
                cwd: c.cwd@,
                runas: or_else(first_after(command_info.deep_view(), "runas_user="@), c.runas@),
                argv: argv.deep_view(),
            }),
            None => r matches Err(e) && e@ == "judo plugin was not opened"@,
        },
{
    match ctx {
        Some(c) => Ok(
            LocalReq::Request {
                uid: c.uid,
                cwd: c.cwd.clone(),
                runas: value_or(command_info, "runas_user=", c.runas.as_str()),
                argv,
            },
        ),
        None => Err("judo plugin was not opened".to_owned()),
    }
}

/// What the daemon's answer means to sudo.
#[derive(Debug, PartialEq, Eq)]
pub enum Ruling {
    /// Whether the command may run, and what the user is told.
    Verdict { allow: bool, message: String },
    /// The daemon failed.
    Failed { message: String },
    /// The daemon answered something else.
    Unexpected,
}

/// What the daemon's answer means to sudo. Only the verdict `allow` lets a command run.
pub fn ruling(resp: &LocalResp) -> (r: Ruling)
    ensures
        match *resp {
            LocalResp::Verdict { verdict, message } => r matches Ruling::Verdict {
                allow: a,
                message: m,
            } && a == (verdict@ == "allow"@) && m@ == message@,
            LocalResp::Failed { message } => r matches Ruling::Failed { message: m } && m@
                == message@,
            _ => r == Ruling::Unexpected,
        },
{
    match resp {
        LocalResp::Verdict { verdict, message } => Ruling::Verdict {
            allow: text::same(verdict.as_str(), "allow"),
            message: message.clone(),
        },
        LocalResp::Failed { message } => Ruling::Failed { message: message.clone() },
        _ => Ruling::Unexpected,
    }
}

/// What sudo gets: one lets the command run, zero refuses it.
#[derive(Debug, PartialEq, Eq)]
pub struct Verdict {
    pub code: i32,
    /// What the user is told.
    pub message: String,
    /// Whether it is handed to sudo as an error too.
    pub is_error: bool,
}

/// Whether a user id is a declared human's, as far as the identity can be read and the password file
/// names its login.
pub open spec fn is_declared(identity: Option<IdentityView>, passwd: Seq<char>, uid: u32) -> bool {
    identity is Some && login_of(passwd, uid) is Some && identity->0.humans.contains(
        login_of(passwd, uid)->0,
    )
}

/// Whether a user id is a declared human's. `passwd` is the text of the password file.
pub fn declared_human(identity: Option<&Identity>, passwd: &str, uid: u32) -> (r: bool)
    ensures
        r == is_declared(identity.deep_view(), passwd@, uid),
{
    match identity {
        Some(known) => match host::username_for_uid(passwd, uid) {
            Some(login) => known.is_human(login.as_str()),
            None => false,
        },
        None => false,
    }
}

/// What sudo gets for an answer, or for the want of one. A declared human is never locked out: where
/// no answer came, their command runs. Anyone else's is refused without an allowing verdict.
pub fn conclude(answer: Result<(bool, String), String>, declared_human: bool) -> (r: Verdict)
    ensures
        declared_human && answer is Err ==> r.code == 1,
        match answer {
            Ok((allow, message)) => r.code == (if allow {
                1i32
            } else {
                0i32
            }) && r.message@ == message@ && !r.is_error,
            Err(e) => r.message@ == "judo approval failed: "@ + e@ && r.is_error
                == !declared_human,
        },
        !declared_human && answer is Err ==> r.code == 0,
{
    match answer {
        Ok((allow, message)) => Verdict {
            code: if allow {
                1
            } else {
                0
            },
            message,
            is_error: false,
        },
        Err(e) => Verdict {
            code: if declared_human {
                1
            } else {
                0
            },
            message: text::cat2("judo approval failed: ", e.as_str()),
            is_error: !declared_human,
        },
    }
}

/// The socket that the daemon listens on by default.
pub open spec fn default_socket(xdg_state: Option<Seq<char>>, home: Option<Seq<char>>) -> Seq<char> {
    let state = match xdg_state {
        Some(dir) => dir,
        None => joined_path(joined_path(or_else(home, "."@), ".local"@), "state"@),
    };
    joined_path(joined_path(state, "judo"@), "judo.sock"@)
}

/// The socket that the daemon listens on by default, from the state directory and the home directory
/// that the environment names.
pub fn default_socket_path(xdg_state: Option<&str>, home: Option<&str>) -> (r: String)
    ensures
        r@ == default_socket(xdg_state.deep_view(), home.deep_view()),
{
    let state: String = match xdg_state {
        Some(dir) => dir.to_owned(),
        None => {
            let base: &str = match home {
                Some(h) => h,
                None => ".",
            };
            paths::join(paths::join(base, ".local").as_str(), "state")
        },
    };
    paths::join(paths::join(state.as_str(), "judo").as_str(), "judo.sock")
}

/// The identity file that counts by default: the one of the superuser, whose home directory the
/// password file names. What the environment of a command says does not matter.
pub open spec fn default_identity(root_home: Option<Seq<char>>) -> Seq<char> {
    joined_path(
        joined_path(joined_path(or_else(root_home, "/root"@), ".config"@), "judo"@),
        "identity.json"@,
    )
}

/// The identity file that counts by default, from the home directory of the superuser.
pub fn default_identity_path(root_home: Option<&str>) -> (r: String)
    ensures
        r@ == default_identity(root_home.deep_view()),
{
    let base: &str = match root_home {
        Some(h) => h,
        None => "/root",
    };
    let dir: String = paths::join(paths::join(base, ".config").as_str(), "judo");
    paths::join(dir.as_str(), "identity.json")
}

} // verus!
