//! Where things are kept, who the declared humans are, and which workspaces are trusted.

use crate::paths;
use crate::paths::{joined_bytes, joined_path};
use crate::text;
use crate::text::decimal;
use url::Url;
use vstd::prelude::*;
use vstd::utf8::encode_utf8;

verus! {

/// Calls `dirs::config_dir`, and gives the directory's bytes, which need not be text. The answer comes
/// from the environment, so nothing is said of it.
#[verifier::external_body]
fn user_config_dir() -> (r: Option<Vec<u8>>) {
    dirs::config_dir().map(|p| p.into_os_string().into_encoded_bytes())
}

/// Calls `dirs::state_dir`, and gives the directory's bytes. The answer comes from the environment, so
/// nothing is said of it.
#[verifier::external_body]
fn user_state_dir() -> (r: Option<Vec<u8>>) {
    dirs::state_dir().map(|p| p.into_os_string().into_encoded_bytes())
}

/// Calls `dirs::data_local_dir`, and gives the directory's bytes. The answer comes from the
/// environment, so nothing is said of it.
#[verifier::external_body]
fn user_data_dir() -> (r: Option<Vec<u8>>) {
    dirs::data_local_dir().map(|p| p.into_os_string().into_encoded_bytes())
}

/// The bytes in an option.
pub open spec fn bytes_in(bytes: Option<Vec<u8>>) -> Option<Seq<u8>> {
    match bytes {
        Some(b) => Some(b@),
        None => None,
    }
}

/// A file or directory below a directory that is given by its bytes.
pub open spec fn under(dir: Seq<u8>, name: Seq<char>) -> Seq<u8> {
    joined_bytes(dir, encode_utf8(name))
}

/// The directory that `base` gives; without one, the current directory.
pub open spec fn or_here(base: Option<Seq<u8>>) -> Seq<u8> {
    match base {
        Some(b) => b,
        None => encode_utf8("."@),
    }
}

/// The library's own directory under a base.
pub open spec fn own_dir(base: Option<Seq<u8>>) -> Seq<u8> {
    under(or_here(base), "judo"@)
}

/// The configuration directory, given the user's.
pub fn config_dir_in(base: Option<Vec<u8>>) -> (r: Vec<u8>)
    ensures
        r@ == own_dir(bytes_in(base)),
{
    match base {
        Some(b) => paths::join_bytes(&b, "judo"),
        None => paths::join_bytes(&".".as_bytes_vec(), "judo"),
    }
}

/// The state directory, given the user's state directory and the user's data directory.
pub fn state_dir_in(state: Option<Vec<u8>>, data: Option<Vec<u8>>) -> (r: Vec<u8>)
    ensures
        r@ == own_dir(
            if state is Some {
                bytes_in(state)
            } else {
                bytes_in(data)
            },
        ),
{
    match state {
        Some(b) => paths::join_bytes(&b, "judo"),
        None => config_dir_in(data),
    }
}

/// The configuration directory.
pub fn config_dir() -> (r: Vec<u8>)
    ensures
        exists|base: Option<Seq<u8>>| r@ == #[trigger] own_dir(base),
{
    let base: Option<Vec<u8>> = user_config_dir();
    config_dir_in(base)
}

/// The state directory.
pub fn state_dir() -> (r: Vec<u8>)
    ensures
        exists|base: Option<Seq<u8>>| r@ == #[trigger] own_dir(base),
{
    let state: Option<Vec<u8>> = user_state_dir();
    let data: Option<Vec<u8>> = user_data_dir();
    state_dir_in(state, data)
}

/// The local socket under a state directory.
pub fn socket_path_in(state_dir: &Vec<u8>) -> (r: Vec<u8>)
    ensures
        r@ == under(state_dir@, "judo.sock"@),
{
    paths::join_bytes(state_dir, "judo.sock")
}

/// The local socket.
pub fn socket_path() -> (r: Vec<u8>)
    ensures
        exists|base: Option<Seq<u8>>| r@ == under(#[trigger] own_dir(base), "judo.sock"@),
{
    socket_path_in(&state_dir())
}

/// The audit log under a state directory.
pub fn audit_path_in(state_dir: &Vec<u8>) -> (r: Vec<u8>)
    ensures
        r@ == under(state_dir@, "audit.jsonl"@),
{
    paths::join_bytes(state_dir, "audit.jsonl")
}

/// The audit log.
pub fn audit_path() -> (r: Vec<u8>)
    ensures
        exists|base: Option<Seq<u8>>| r@ == under(#[trigger] own_dir(base), "audit.jsonl"@),
{
    audit_path_in(&state_dir())
}

/// The global policy file under a configuration directory.
pub fn global_policy_path_in(config_dir: &Vec<u8>) -> (r: Vec<u8>)
    ensures
        r@ == under(config_dir@, "judo.toml"@),
{
    paths::join_bytes(config_dir, "judo.toml")
}

/// The global policy file.
pub fn global_policy_path() -> (r: Vec<u8>)
    ensures
        exists|base: Option<Seq<u8>>| r@ == under(#[trigger] own_dir(base), "judo.toml"@),
{
    global_policy_path_in(&config_dir())
}

/// The policy file of a workspace.
pub fn workspace_policy_path(dir: &str) -> (r: String)
    ensures
        r@ == joined_path(dir@, "judo.toml"@),
{
    paths::join(dir, "judo.toml")
}

/// The parts of a URL that the relay's address is made of.
#[derive(Debug, Clone, PartialEq, Eq)]
pub struct UrlParts {
    pub scheme: String,
    pub host: Option<String>,
    /// The host, where it is a domain and no address.
    pub domain: Option<String>,
    /// The port, where the URL names one that is not its scheme's own.
    pub port: Option<u16>,
}

pub struct UrlPartsView {
    pub scheme: Seq<char>,
    pub host: Option<Seq<char>>,
    pub domain: Option<Seq<char>>,
    pub port: Option<u16>,
}

impl DeepView for UrlParts {
    type V = UrlPartsView;

    open spec fn deep_view(&self) -> UrlPartsView {
        UrlPartsView {
            scheme: self.scheme@,
            host: self.host.deep_view(),
            domain: self.domain.deep_view(),
            port: self.port,
        }
    }
}

/// The parts of a URL, or what is wrong with it.
pub uninterp spec fn url_parts(s: Seq<char>) -> Result<UrlPartsView, Seq<char>>;

/// Calls `url::Url::parse` and reads `scheme`, `host_str`, `domain` and `port` off the result; an
/// error is turned into its text. All of it depends on the text alone.
#[verifier::external_body]
pub(crate) fn parse_url(s: &str) -> (r: Result<UrlParts, String>)
    ensures
        match r {
            Ok(parts) => url_parts(s@) == Ok::<_, Seq<char>>(parts.deep_view()),
            Err(cause) => url_parts(s@) == Err::<UrlPartsView, _>(cause@),
        },
{
    match Url::parse(s) {
        Ok(url) => Ok(
            UrlParts {
                scheme: url.scheme().to_string(),
                host: url.host_str().map(|h| h.to_string()),
                domain: url.domain().map(|d| d.to_string()),
                port: url.port(),
            },
        ),
        Err(error) => Err(error.to_string()),
    }
}

/// Why a relay address is refused.
#[derive(Debug, Clone, PartialEq, Eq)]
pub enum ConfigError {
    InvalidUrl { cause: String },
    WrongScheme { scheme: String },
    NoHost,
}

pub enum ConfigErrorView {
    InvalidUrl { cause: Seq<char> },
    WrongScheme { scheme: Seq<char> },
    NoHost,
}

impl DeepView for ConfigError {
    type V = ConfigErrorView;

    open spec fn deep_view(&self) -> ConfigErrorView {
        match self {
            ConfigError::InvalidUrl { cause } => ConfigErrorView::InvalidUrl { cause: cause@ },
            ConfigError::WrongScheme { scheme } => ConfigErrorView::WrongScheme { scheme: scheme@ },
            ConfigError::NoHost => ConfigErrorView::NoHost,
        }
    }
}

/// The text of a refusal.
pub open spec fn config_error_text(e: ConfigErrorView) -> Seq<char> {
    match e {
        ConfigErrorView::InvalidUrl { cause } => "invalid relay WebSocket URL: "@ + cause,
        ConfigErrorView::WrongScheme { scheme } => "relay URL must use ws or wss, got "@ + scheme,
        ConfigErrorView::NoHost => "relay URL must include a host"@,
    }
}

impl ConfigError {
    /// The text of the refusal.
    pub fn message(&self) -> (r: String)
        ensures
            r@ == config_error_text(self.deep_view()),
    {
        match self {
            ConfigError::InvalidUrl { cause } => text::cat2(
                "invalid relay WebSocket URL: ",
                cause.as_str(),
            ),
            ConfigError::WrongScheme { scheme } => text::cat2(
                "relay URL must use ws or wss, got ",
                scheme.as_str(),
            ),
            ConfigError::NoHost => "relay URL must include a host".to_owned(),
        }
    }
}

/// The scheme of the pages behind a WebSocket scheme, with that scheme's own port.
pub open spec fn page_scheme(scheme: Seq<char>) -> Option<(Seq<char>, u16)> {
    if scheme == "wss"@ {
        Some(("https"@, 443u16))
    } else if scheme == "ws"@ {
        Some(("http"@, 80u16))
    } else {
        None
    }
}

/// The relying party's id and the origin of its pages, given the parts of the relay's address.
pub open spec fn rp_of(parts: Result<UrlPartsView, Seq<char>>) -> Result<
    (Seq<char>, Seq<char>),
    ConfigErrorView,
> {
    match parts {
        Err(cause) => Err(ConfigErrorView::InvalidUrl { cause }),
        Ok(url) => match page_scheme(url.scheme) {
            None => Err(ConfigErrorView::WrongScheme { scheme: url.scheme }),
            Some((page, own_port)) => match url.host {
                None => Err(ConfigErrorView::NoHost),
                Some(h) => {
                    let origin = page + "://"@ + h;
                    match url.port {
                        Some(p) => Ok(
                            (
                                h,
                                if p == own_port {
                                    origin
                                } else {
                                    origin + ":"@ + decimal(p as nat)
                                },
                            ),
                        ),
                        None => Ok((h, origin)),
                    }
                },
            },
        },
    }
}

/// The view of an outcome of reading the relay's address.
pub open spec fn rp_view(r: Result<(String, String), ConfigError>) -> Result<
    (Seq<char>, Seq<char>),
    ConfigErrorView,
> {
    match r {
        Ok((host, origin)) => Ok((host@, origin@)),
        Err(e) => Err(e.deep_view()),
    }
}

/// The view of a URL that was read.
pub open spec fn parts_view(r: Result<UrlParts, String>) -> Result<UrlPartsView, Seq<char>> {
    match r {
        Ok(parts) => Ok(parts.deep_view()),
        Err(cause) => Err(cause@),
    }
}

/// The relying party's id and the origin of its pages, given the parts of the relay's address.
pub fn rp_from_parts(parts: Result<UrlParts, String>) -> (r: Result<(String, String), ConfigError>)
    ensures
        rp_view(r) == rp_of(parts_view(parts)),
{
    let parts: UrlParts = match parts {
        Ok(parts) => parts,
        Err(cause) => {
            return Err(ConfigError::InvalidUrl { cause });
        },
    };
    let (page, own_port): (&str, u16) = if text::same(parts.scheme.as_str(), "wss") {
        ("https", 443)
    } else if text::same(parts.scheme.as_str(), "ws") {
        ("http", 80)
    } else {
        return Err(ConfigError::WrongScheme { scheme: parts.scheme });
    };
    let host: String = match parts.host {
        Some(host) => host,
        None => {
            return Err(ConfigError::NoHost);
        },
    };
    let mut origin: String = text::cat3(page, "://", host.as_str());
    if let Some(port) = parts.port {
        if port != own_port {
            origin.append(":");
            origin.append(text::decimal_text(port as u64).as_str());
        }
    }
    Ok((host, origin))
}

/// The relying party's id and the origin of its pages, from the relay's WebSocket address:
/// `wss://host[:port]/path` gives `host` and `https://host[:port]`, and `ws` gives `http`.
pub fn rp_from_relay(relay_url: &str) -> (r: Result<(String, String), ConfigError>)
    ensures
        rp_view(r) == rp_of(url_parts(relay_url@)),
{
    let parts: Result<UrlParts, String> = parse_url(relay_url);
    rp_from_parts(parts)
}

/// A passkey that was enrolled: its label and its serialized form.
#[derive(Debug, Clone, PartialEq, Eq)]
pub struct StoredPasskey {
    pub label: String,
    pub passkey_json: String,
}

pub struct StoredPasskeyView {
    pub label: Seq<char>,
    pub passkey_json: Seq<char>,
}

impl DeepView for StoredPasskey {
    type V = StoredPasskeyView;

    open spec fn deep_view(&self) -> StoredPasskeyView {
        StoredPasskeyView { label: self.label@, passkey_json: self.passkey_json@ }
    }
}

/// The daemon's identity and what its operator declared.
#[derive(Debug, Clone, PartialEq, Eq)]
pub struct Identity {
    pub daemon_id: String,
    pub ed25519_secret_b64: String,
    pub ed25519_public_b64: String,
    pub relay_url: String,
    /// The logins of the declared humans.
    pub humans: Vec<String>,
    pub ntfy_topic: String,
    pub passkeys: Vec<StoredPasskey>,
    /// The trusted workspaces.
    pub trusted: Vec<String>,
}

pub struct IdentityView {
    pub daemon_id: Seq<char>,
    pub ed25519_secret_b64: Seq<char>,
    pub ed25519_public_b64: Seq<char>,
    pub relay_url: Seq<char>,
    pub humans: Seq<Seq<char>>,
    pub ntfy_topic: Seq<char>,
    pub passkeys: Seq<StoredPasskeyView>,
    pub trusted: Seq<Seq<char>>,
}

impl DeepView for Identity {
    type V = IdentityView;

    open spec fn deep_view(&self) -> IdentityView {
        IdentityView {
            daemon_id: self.daemon_id@,
            ed25519_secret_b64: self.ed25519_secret_b64@,
            ed25519_public_b64: self.ed25519_public_b64@,
            relay_url: self.relay_url@,
            humans: self.humans.deep_view(),
            ntfy_topic: self.ntfy_topic@,
            passkeys: self.passkeys.deep_view(),
            trusted: self.trusted.deep_view(),
        }
    }
}

/// The identity file under a configuration directory.
pub fn identity_path_in(config_dir: &Vec<u8>) -> (r: Vec<u8>)
    ensures
        r@ == under(config_dir@, "identity.json"@),
{
    paths::join_bytes(config_dir, "identity.json")
}

/// Whether a list holds a text.
pub fn holds(list: &Vec<String>, s: &str) -> (r: bool)
    ensures
        r == list.deep_view().contains(s@),
{
    let mut i: usize = 0;
    while i < list.len()
        invariant
            i <= list.len(),
            forall|j: int| 0 <= j < i ==> #[trigger] list.deep_view()[j] != s@,
        decreases list.len() - i,
    {
        assert(list.deep_view()[i as int] == list@[i as int]@);
        if text::same(list[i].as_str(), s) {
            return true;
        }
        i = i + 1;
    }
    false
}

impl Identity {
    /// The identity file.
    pub fn path() -> (r: Vec<u8>)
        ensures
            exists|base: Option<Seq<u8>>|
                r@ == under(#[trigger] own_dir(base), "identity.json"@),
    {
        identity_path_in(&config_dir())
    }

    /// Whether a login is a declared human's.
    pub fn is_human(&self, user: &str) -> (r: bool)
        ensures
            r == self.deep_view().humans.contains(user@),
    {
        holds(&self.humans, user)
    }
}

/// What every path below a directory begins with: the directory and one slash.
pub open spec fn below(dir: Seq<char>) -> Seq<char> {
    if dir.len() > 0 && dir.last() == '/' {
        dir
    } else {
        dir + "/"@
    }
}

/// Whether a trusted directory is `cwd` or above it.
pub open spec fn governs(dir: Seq<char>, cwd: Seq<char>) -> bool {
    cwd == dir || below(dir).is_prefix_of(cwd)
}

/// Whether a trusted directory is `cwd` or above it.
fn is_over(dir: &str, cwd: &str) -> (r: bool)
    ensures
        r == governs(dir@, cwd@),
{
    let n: usize = dir.unicode_len();
    if text::same(cwd, dir) {
        true
    } else if n > 0 && dir.get_char(n - 1) == '/' {
        text::starts_with(cwd, dir)
    } else {
        text::starts_with(cwd, text::cat2(dir, "/").as_str())
    }
}

/// `t` is the trusted directory that governs `cwd`: among those that do, the longest.
pub open spec fn is_workspace(trusted: Seq<Seq<char>>, cwd: Seq<char>, t: Seq<char>) -> bool {
    &&& trusted.contains(t)
    &&& governs(t, cwd)
    &&& forall|i: int|
        0 <= i < trusted.len() && governs(#[trigger] trusted[i], cwd) ==> trusted[i].len() <= t.len()
}

/// Whether some trusted directory governs `cwd`.
pub open spec fn is_trusted(trusted: Seq<Seq<char>>, cwd: Seq<char>) -> bool {
    exists|i: int| 0 <= i < trusted.len() && governs(#[trigger] trusted[i], cwd)
}

/// The trusted directory that governs `cwd`, if any.
pub open spec fn workspace_in(trusted: Seq<Seq<char>>, cwd: Seq<char>) -> Option<Seq<char>> {
    if is_trusted(trusted, cwd) {
        Some(choose|t: Seq<char>| is_workspace(trusted, cwd, t))
    } else {
        None
    }
}

/// The trusted workspace whose policy governs `cwd`, if any: the longest one that does.
pub fn workspace_for<'a>(trusted: &'a [String], cwd: &str) -> (r: Option<&'a String>)
    ensures
        r is Some <==> is_trusted(trusted.deep_view(), cwd@),
        r matches Some(t) ==> is_workspace(trusted.deep_view(), cwd@, t@),
        r.deep_view() == workspace_in(trusted.deep_view(), cwd@),
{
    let ghost all = trusted.deep_view();
    let mut best: Option<usize> = None;
    let mut i: usize = 0;
    while i < trusted.len()
        invariant
            i <= trusted.len(),
            all == trusted.deep_view(),
            match best {
                None => forall|j: int| 0 <= j < i ==> !governs(#[trigger] all[j], cwd@),
                Some(b) => {
                    &&& b < i
                    &&& governs(all[b as int], cwd@)
                    &&& forall|j: int|
                        0 <= j < i && governs(#[trigger] all[j], cwd@) ==> all[j].len()
                            <= all[b as int].len()
                },
            },
        decreases trusted.len() - i,
    {
        let t: &String = &trusted[i];
        assert(all[i as int] == t@);
        if is_over(t.as_str(), cwd) {
            best = match best {
                Some(b) => {
                    assert(all[b as int] == trusted@[b as int]@);
                    if trusted[b].as_str().unicode_len() <= t.as_str().unicode_len() {
                        Some(i)
                    } else {
                        Some(b)
                    }
                },
                None => Some(i),
            };
        }
        i = i + 1;
    }
    match best {
        Some(b) => {
            assert(all[b as int] == trusted@[b as int]@);
            proof {
                let t = all[b as int];
                assert(is_workspace(all, cwd@, t));
                workspace_is_unique(
                    all,
                    cwd@,
                    t,
                    choose|t: Seq<char>| is_workspace(all, cwd@, t),
                );
            }
            Some(&trusted[b])
        },
        None => None,
    }
}

/// At most one directory is the workspace of `cwd`.
pub proof fn workspace_is_unique(
    trusted: Seq<Seq<char>>,
    cwd: Seq<char>,
    a: Seq<char>,
    b: Seq<char>,
)
    requires
        is_workspace(trusted, cwd, a),
        is_workspace(trusted, cwd, b),
    ensures
        a == b,
{
    let i = choose|i: int| 0 <= i < trusted.len() && trusted[i] == a;
    let j = choose|j: int| 0 <= j < trusted.len() && trusted[j] == b;
    assert(governs(trusted[i], cwd) && governs(trusted[j], cwd));
    assert(a.len() == b.len());
    reveal_strlit("/");
    assert(a == cwd.take(a.len() as int)) by {
        if a != cwd {
            assert(below(a).take(a.len() as int) == a);
            assert(cwd.take(a.len() as int) == below(a).take(a.len() as int));
        }
    }
    assert(b == cwd.take(b.len() as int)) by {
        if b != cwd {
            assert(below(b).take(b.len() as int) == b);
            assert(cwd.take(b.len() as int) == below(b).take(b.len() as int));
        }
    }
}

/// A trusted directory, the root among them, governs itself and every path below it.
pub proof fn trusted_directories_govern_below(dir: Seq<char>, rel: Seq<char>)
    requires
        dir.len() > 0,
        !paths::is_rooted(rel),
    ensures
        governs(dir, dir),
        governs(dir, joined_path(dir, rel)),
        governs("/"@, "/"@ + rel),
{
    reveal_strlit("/");
    let below_dir = joined_path(dir, rel);
    assert(below(dir) == below_dir.take(below(dir).len() as int));
    assert("/"@ == ("/"@ + rel).take(1));
}

} // verus!
