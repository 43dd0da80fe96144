//! Passkey ceremonies: the daemon is the relying party that verifies them.

use crate::config;
use crate::config::{
    config_error_text, rp_of, url_parts, ConfigError, ConfigErrorView, Identity, IdentityView,
    StoredPasskey, StoredPasskeyView,
};
use crate::text;
use crate::text::{all_digits, digits_value, pieces};
use vstd::prelude::*;
use webauthn_rs::prelude::{
    Passkey, PasskeyAuthentication, PasskeyRegistration, PublicKeyCredential,
    RegisterPublicKeyCredential, Url, Uuid,
};
use webauthn_rs::{Webauthn, WebauthnBuilder};

verus! {

/// The verifier of one relying party.
#[verifier::external_type_specification]
#[verifier::external_body]
pub struct ExWebauthn(webauthn_rs::Webauthn);

/// A registration that has begun.
#[verifier::external_type_specification]
#[verifier::external_body]
pub struct ExPasskeyRegistration(webauthn_rs::prelude::PasskeyRegistration);

/// An authentication that has begun.
#[verifier::external_type_specification]
#[verifier::external_body]
pub struct ExPasskeyAuthentication(webauthn_rs::prelude::PasskeyAuthentication);

/// An enrolled passkey.
#[verifier::external_type_specification]
#[verifier::external_body]
pub struct ExPasskey(webauthn_rs::prelude::Passkey);

/// An authenticator's answer to a registration.
#[verifier::external_type_specification]
#[verifier::external_body]
pub struct ExRegisterPublicKeyCredential(webauthn_rs::prelude::RegisterPublicKeyCredential);

/// An authenticator's answer to an authentication.
#[verifier::external_type_specification]
#[verifier::external_body]
pub struct ExPublicKeyCredential(webauthn_rs::prelude::PublicKeyCredential);

/// The verifier of a relying party, with the origins of its pages.
pub uninterp spec fn verifier_built(
    rp_id: Seq<char>,
    origin: Seq<char>,
    further: Seq<char>,
    name: Seq<char>,
    subdomains: bool,
) -> Webauthn;

/// Whether these are options and a state that a verifier can begin a registration for a user with.
pub uninterp spec fn registration_begun(
    verifier: Webauthn,
    user_name: Seq<char>,
    options_json: Seq<char>,
    state: PasskeyRegistration,
) -> bool;

/// The authenticator's answer to a registration that a text holds, or what keeps it from being one.
pub uninterp spec fn registration_read(json: Seq<char>) -> Result<
    RegisterPublicKeyCredential,
    Seq<char>,
>;

/// The passkey, written out, that a verifier makes of an answer to a registration, or why it does
/// not.
pub uninterp spec fn registration_ended(
    verifier: Webauthn,
    answer: RegisterPublicKeyCredential,
    state: PasskeyRegistration,
) -> Result<Seq<char>, CeremonyFaultView>;

/// The passkey that a text holds, or what keeps it from being one.
pub uninterp spec fn passkey_read(json: Seq<char>) -> Result<Passkey, Seq<char>>;

/// Whether these are options and a state that a verifier can begin an authentication by one of the
/// passkeys with.
pub uninterp spec fn authentication_begun(
    verifier: Webauthn,
    passkeys: Seq<Passkey>,
    options_json: Seq<char>,
    state: PasskeyAuthentication,
) -> bool;

/// The authenticator's answer to an authentication that a text holds, or what keeps it from being
/// one.
pub uninterp spec fn assertion_read(json: Seq<char>) -> Result<PublicKeyCredential, Seq<char>>;

/// Why a verifier does not accept an answer to an authentication; none where it does.
pub uninterp spec fn authentication_fault(
    verifier: Webauthn,
    answer: PublicKeyCredential,
    state: PasskeyAuthentication,
) -> Option<Seq<char>>;

/// Whether a relying party's id is a domain or a domain above it.
pub open spec fn is_effective(rp_id: Seq<char>, domain: Option<Seq<char>>) -> bool {
    domain matches Some(d) && (d == rp_id || ("."@ + rp_id).is_suffix_of(d))
}

/// Calls `WebauthnBuilder::new`, sets the name, whether subdomains are allowed and one further
/// origin, and calls `build`. It succeeds exactly where the id is the origin's domain or a domain
/// above it. Both origins must be URLs. The verifier depends on the five arguments alone.
#[verifier::external_body]
fn build(rp_id: &str, origin: &str, further: &str, name: &str, subdomains: bool) -> (r: Result<
    Webauthn,
    String,
>)
    requires
        url_parts(origin@) is Ok,
        url_parts(further@) is Ok,
    ensures
        r is Ok <==> is_effective(rp_id@, url_parts(origin@)->Ok_0.domain),
        r matches Ok(v) ==> v == verifier_built(rp_id@, origin@, further@, name@, subdomains),
        r matches Err(cause) ==> cause@ == "The configuration was invalid"@,
{
    let (origin, further) = (Url::parse(origin).unwrap(), Url::parse(further).unwrap());
    let builder = WebauthnBuilder::new(rp_id, &origin).map_err(|e| e.to_string())?;
    let builder = builder.rp_name(name).allow_subdomains(subdomains);
    builder.append_allowed_origin(&further).build().map_err(|e| e.to_string())
}

/// Why a ceremony is not carried on.
#[derive(Debug, PartialEq, Eq)]
pub enum CeremonyFault {
    Refused(String),
    /// What came of it cannot be written out.
    NotWritten(String),
}

pub enum CeremonyFaultView {
    Refused(Seq<char>),
    NotWritten(Seq<char>),
}

impl DeepView for CeremonyFault {
    type V = CeremonyFaultView;

    open spec fn deep_view(&self) -> CeremonyFaultView {
        match self {
            CeremonyFault::Refused(cause) => CeremonyFaultView::Refused(cause@),
            CeremonyFault::NotWritten(cause) => CeremonyFaultView::NotWritten(cause@),
        }
    }
}

/// Calls `Webauthn::start_passkey_registration` for a new user id, with the name as the display
/// name, and writes the options out as JSON. It succeeds for every name but the empty one. The user
/// id and the challenge are chance, so the options and the state are only said to be such as the
/// verifier can begin a registration for that name with.
#[verifier::external_body]
fn begin_registration(verifier: &Webauthn, user_name: &str) -> (r: Result<
    (String, PasskeyRegistration),
    CeremonyFault,
>)
    ensures
        r is Ok <==> user_name@.len() > 0,
        r matches Ok((options, state)) ==> registration_begun(
            *verifier,
            user_name@,
            options@,
            state,
        ),
        r matches Err(e) ==> e.deep_view() == CeremonyFaultView::Refused(
            "Invalid User Name supplied for registration"@,
        ),
{
    let begun = verifier.start_passkey_registration(Uuid::new_v4(), user_name, user_name, None);
    let (options, state) = begun.map_err(|e| CeremonyFault::Refused(e.to_string()))?;
    let written = serde_json::to_string(&options);
    Ok((written.map_err(|e| CeremonyFault::NotWritten(e.to_string()))?, state))
}

/// Calls `serde_json::from_str` for a `RegisterPublicKeyCredential`. The answer, or the text of the
/// error, depends on the text alone.
#[verifier::external_body]
fn read_registration(json: &str) -> (r: Result<RegisterPublicKeyCredential, String>)
    ensures
        match r {
            Ok(answer) => registration_read(json@) == Ok::<_, Seq<char>>(answer),
            Err(cause) => registration_read(json@) == Err::<RegisterPublicKeyCredential, _>(
                cause@,
            ),
        },
{
    serde_json::from_str(json).map_err(|e| e.to_string())
}

/// Calls `Webauthn::finish_passkey_registration` and writes the passkey out as JSON. Whether the
/// answer is accepted, and what comes of it, depend on the verifier, the answer and the state alone.
#[verifier::external_body]
fn end_registration(
    verifier: &Webauthn,
    answer: &RegisterPublicKeyCredential,
    state: &PasskeyRegistration,
) -> (r: Result<String, CeremonyFault>)
    ensures
        match r {
            Ok(json) => registration_ended(*verifier, *answer, *state) == Ok::<
                _,
                CeremonyFaultView,
            >(json@),
            Err(e) => registration_ended(*verifier, *answer, *state) == Err::<Seq<char>, _>(
                e.deep_view(),
            ),
        },
{
    let ended = verifier.finish_passkey_registration(answer, state);
    let passkey = ended.map_err(|e| CeremonyFault::Refused(e.to_string()))?;
    serde_json::to_string(&passkey).map_err(|e| CeremonyFault::NotWritten(e.to_string()))
}

/// Calls `serde_json::from_str` for a `Passkey`. The passkey, or the text of the error, depends on
/// the text alone.
#[verifier::external_body]
fn read_passkey(json: &str) -> (r: Result<Passkey, String>)
    ensures
        match r {
            Ok(passkey) => passkey_read(json@) == Ok::<_, Seq<char>>(passkey),
            Err(cause) => passkey_read(json@) == Err::<Passkey, _>(cause@),
        },
{
    serde_json::from_str(json).map_err(|e| e.to_string())
}

/// Calls `Webauthn::start_passkey_authentication`, which always succeeds, and writes the options out
/// as JSON. The challenge is chance, so the options and the state are only said to be such as the
/// verifier can begin an authentication by one of these passkeys with.
#[verifier::external_body]
fn begin_authentication(verifier: &Webauthn, passkeys: &Vec<Passkey>) -> (r: Result<
    (String, PasskeyAuthentication),
    CeremonyFault,
>)
    ensures
        r is Ok,
        r matches Ok((options, state)) ==> authentication_begun(
            *verifier,
            passkeys@,
            options@,
            state,
        ),
{
    let begun = verifier.start_passkey_authentication(passkeys);
    let (options, state) = begun.map_err(|e| CeremonyFault::Refused(e.to_string()))?;
    let written = serde_json::to_string(&options);
    Ok((written.map_err(|e| CeremonyFault::NotWritten(e.to_string()))?, state))
}

/// Calls `serde_json::from_str` for a `PublicKeyCredential`. The answer, or the text of the error,
/// depends on the text alone.
#[verifier::external_body]
fn read_assertion(json: &str) -> (r: Result<PublicKeyCredential, String>)
    ensures
        match r {
            Ok(answer) => assertion_read(json@) == Ok::<_, Seq<char>>(answer),
            Err(cause) => assertion_read(json@) == Err::<PublicKeyCredential, _>(cause@),
        },
{
    serde_json::from_str(json).map_err(|e| e.to_string())
}

/// Calls `Webauthn::finish_passkey_authentication`. Whether the answer is accepted, and why not,
/// depend on the verifier, the answer and the state alone.
#[verifier::external_body]
fn end_authentication(
    verifier: &Webauthn,
    answer: &PublicKeyCredential,
    state: &PasskeyAuthentication,
) -> (r: Result<(), String>)
    ensures
        match r {
            Ok(_) => authentication_fault(*verifier, *answer, *state) is None,
            Err(cause) => authentication_fault(*verifier, *answer, *state) == Some(cause@),
        },
{
    verifier.finish_passkey_authentication(answer, state).map(|_| ()).map_err(|e| e.to_string())
}

/// Why a verifier is not built or a ceremony fails.
#[derive(Debug, PartialEq, Eq)]
pub enum VerifierError {
    Relay(ConfigError),
    BadOrigin { cause: String },
    Configuration { cause: String },
    Unavailable { cause: String },
    RegistrationNotStarted { cause: String },
    RegistrationNotJson { cause: String },
    RegistrationFailed { cause: String },
    PasskeyNotJson { cause: String },
    AuthenticationNotStarted { cause: String },
    AssertionNotJson { cause: String },
    AuthenticationFailed { cause: String },
    NotWritten { cause: String },
}

pub enum VerifierErrorView {
    Relay(ConfigErrorView),
    BadOrigin { cause: Seq<char> },
    Configuration { cause: Seq<char> },
    Unavailable { cause: Seq<char> },
    RegistrationNotStarted { cause: Seq<char> },
    RegistrationNotJson { cause: Seq<char> },
    RegistrationFailed { cause: Seq<char> },
    PasskeyNotJson { cause: Seq<char> },
    AuthenticationNotStarted { cause: Seq<char> },
    AssertionNotJson { cause: Seq<char> },
    AuthenticationFailed { cause: Seq<char> },
    NotWritten { cause: Seq<char> },
}

impl DeepView for VerifierError {
    type V = VerifierErrorView;

    open spec fn deep_view(&self) -> VerifierErrorView {
        match self {
            VerifierError::Relay(e) => VerifierErrorView::Relay(e.deep_view()),
            VerifierError::BadOrigin { cause } => VerifierErrorView::BadOrigin { cause: cause@ },
            VerifierError::Configuration { cause } => VerifierErrorView::Configuration {
                cause: cause@,
            },
            VerifierError::Unavailable { cause } => VerifierErrorView::Unavailable {
                cause: cause@,
            },
            VerifierError::RegistrationNotStarted {
                cause,
            } => VerifierErrorView::RegistrationNotStarted { cause: cause@ },
            VerifierError::RegistrationNotJson { cause } => VerifierErrorView::RegistrationNotJson {
                cause: cause@,
            },
            VerifierError::RegistrationFailed { cause } => VerifierErrorView::RegistrationFailed {
                cause: cause@,
            },
            VerifierError::PasskeyNotJson { cause } => VerifierErrorView::PasskeyNotJson {
                cause: cause@,
            },
            VerifierError::AuthenticationNotStarted {
                cause,
            } => VerifierErrorView::AuthenticationNotStarted { cause: cause@ },
            VerifierError::AssertionNotJson { cause } => VerifierErrorView::AssertionNotJson {
                cause: cause@,
            },
            VerifierError::AuthenticationFailed {
                cause,
            } => VerifierErrorView::AuthenticationFailed { cause: cause@ },
            VerifierError::NotWritten { cause } => VerifierErrorView::NotWritten { cause: cause@ },
        }
    }
}

/// The text of a failure.
pub open spec fn verifier_error_text(e: VerifierErrorView) -> Seq<char> {
    match e {
        VerifierErrorView::Relay(e) => config_error_text(e),
        VerifierErrorView::BadOrigin { cause } => cause,
        VerifierErrorView::Configuration { cause } => "invalid WebAuthn RP configuration: "@
            + cause,
        VerifierErrorView::Unavailable { cause } => "WebAuthn ceremonies are unavailable: "@
            + cause,
        VerifierErrorView::RegistrationNotStarted { cause } =>
            "failed to start passkey registration: "@ + cause,
        VerifierErrorView::RegistrationNotJson { cause } =>
            "registration response is not valid WebAuthn JSON: "@ + cause,
        VerifierErrorView::RegistrationFailed { cause } => "passkey registration failed: "@ + cause,
        VerifierErrorView::PasskeyNotJson { cause } => "stored passkey JSON is invalid: "@ + cause,
        VerifierErrorView::AuthenticationNotStarted { cause } =>
            "failed to start passkey authentication: "@ + cause,
        VerifierErrorView::AssertionNotJson { cause } =>
            "assertion response is not valid WebAuthn JSON: "@ + cause,
        VerifierErrorView::AuthenticationFailed { cause } => "passkey authentication failed: "@
            + cause,
        VerifierErrorView::NotWritten { cause } => cause,
    }
}

impl VerifierError {
    /// The text of the failure.
    pub fn message(&self) -> (r: String)
        ensures
            r@ == verifier_error_text(self.deep_view()),
    {
        let (context, cause): (&str, &String) = match self {
            VerifierError::Relay(e) => {
                return e.message();
            },
            VerifierError::BadOrigin { cause } => {
                return cause.clone();
            },
            VerifierError::NotWritten { cause } => {
                return cause.clone();
            },
            VerifierError::Configuration { cause } => (
                "invalid WebAuthn RP configuration: ",
                cause,
            ),
            VerifierError::Unavailable { cause } => (
                "WebAuthn ceremonies are unavailable: ",
                cause,
            ),
            VerifierError::RegistrationNotStarted { cause } => (
                "failed to start passkey registration: ",
                cause,
            ),
            VerifierError::RegistrationNotJson { cause } => (
                "registration response is not valid WebAuthn JSON: ",
                cause,
            ),
            VerifierError::RegistrationFailed { cause } => ("passkey registration failed: ", cause),
            VerifierError::PasskeyNotJson { cause } => ("stored passkey JSON is invalid: ", cause),
            VerifierError::AuthenticationNotStarted { cause } => (
                "failed to start passkey authentication: ",
                cause,
            ),
            VerifierError::AssertionNotJson { cause } => (
                "assertion response is not valid WebAuthn JSON: ",
                cause,
            ),
            VerifierError::AuthenticationFailed { cause } => (
                "passkey authentication failed: ",
                cause,
            ),
        };
        text::cat2(context, cause.as_str())
    }
}

/// A number from zero to 255 in decimal, without leading zeros.
pub open spec fn is_octet(s: Seq<char>) -> bool {
    &&& 1 <= s.len() <= 3
    &&& all_digits(s)
    &&& digits_value(s) <= 255
    &&& s.len() > 1 ==> s[0] != '0'
}

/// Four octets with dots between them.
pub open spec fn is_ipv4(s: Seq<char>) -> bool {
    let parts = pieces(s, '.');
    parts.len() == 4 && forall|i: int| 0 <= i < 4 ==> is_octet(#[trigger] parts[i])
}

/// A relay on the machine itself or at an address, without TLS: enough to develop without a browser.
/// A host comes out of a URL, where an IPv6 address stands in brackets and counts as no address
/// here.
pub open spec fn is_headless_dev_rp(rp_id: Seq<char>, origin: Seq<char>) -> bool {
    "http://"@.is_prefix_of(origin) && (rp_id == "localhost"@ || is_ipv4(rp_id))
}

fn octet(s: &str) -> (r: bool)
    ensures
        r == is_octet(s@),
{
    let cs: Vec<char> = text::chars_of(s);
    if cs.len() < 1 || cs.len() > 3 || cs[0] == '+' || (cs.len() > 1 && cs[0] == '0') {
        assert(cs.len() > 0 && cs[0] == '+' ==> !text::is_digit(s@[0]));
        return false;
    }
    match text::parse_u64(s) {
        Some(v) => v <= 255,
        None => {
            proof {
                if all_digits(s@) {
                    lemma_short_digits(s@);
                }
            }
            false
        },
    }
}

proof fn lemma_short_digits(s: Seq<char>)
    requires
        1 <= s.len() <= 3,
        all_digits(s),
    ensures
        digits_value(s) <= 999,
{
    reveal_with_fuel(digits_value, 4);
    assert(s.len() == 1 ==> text::is_digit(s[0]));
    assert(s.len() == 2 ==> text::is_digit(s[0]) && text::is_digit(s[1]));
    assert(s.len() == 3 ==> text::is_digit(s[0]) && text::is_digit(s[1]) && text::is_digit(s[2]));
}

fn headless(rp_id: &str, origin: &str) -> (r: bool)
    ensures
        r == is_headless_dev_rp(rp_id@, origin@),
{
    if !text::starts_with(origin, "http://") {
        return false;
    }
    if text::same(rp_id, "localhost") {
        return true;
    }
    let parts: Vec<String> = text::split(rp_id, '.');
    assert(parts.deep_view().len() == parts.len());
    if parts.len() != 4 {
        return false;
    }
    let mut i: usize = 0;
    while i < 4
        invariant
            i <= 4,
            parts.len() == 4,
            parts.deep_view() == pieces(rp_id@, '.'),
            rp_id@ != "localhost"@,
            forall|j: int| 0 <= j < i ==> is_octet(#[trigger] pieces(rp_id@, '.')[j]),
        decreases 4 - i,
    {
        assert(parts@[i as int]@ == parts.deep_view()[i as int]);
        if !octet(parts[i].as_str()) {
            return false;
        }
        i = i + 1;
    }
    true
}

/// The verifier, or why there is none.
pub struct WebauthnVerifier {
    inner: Option<Webauthn>,
    config_error: Option<String>,
}

/// The crate's verifier, or why ceremonies are answered without one.
pub type Working = Result<Webauthn, Seq<char>>;

/// What comes of building a verifier: one that works, or one that answers every ceremony with a
/// text; or why there is none.
pub open spec fn verifier_for(relay_url: Seq<char>, enroll_origin: Option<Seq<char>>) -> Result<
    Working,
    VerifierErrorView,
> {
    match rp_of(url_parts(relay_url)) {
        Err(e) => Err(VerifierErrorView::Relay(e)),
        Ok((rp_id, rp_origin)) => {
            let enroll = match enroll_origin {
                Some(o) => o,
                None => rp_origin,
            };
            match url_parts(rp_origin) {
                Err(cause) => Err(VerifierErrorView::BadOrigin { cause }),
                Ok(origin) => match url_parts(enroll) {
                    Err(cause) => Err(VerifierErrorView::BadOrigin { cause }),
                    Ok(_) => {
                        let fault = VerifierErrorView::Configuration {
                            cause: "The configuration was invalid"@,
                        };
                        if is_effective(rp_id, origin.domain) {
                            Ok(Ok(verifier_built(rp_id, rp_origin, enroll, "judo"@, true)))
                        } else if is_headless_dev_rp(rp_id, rp_origin) {
                            Ok(Err(verifier_error_text(fault)))
                        } else {
                            Err(fault)
                        }
                    },
                },
            }
        },
    }
}

/// The view of an outcome of building a verifier.
pub open spec fn verifier_view(r: Result<WebauthnVerifier, VerifierError>) -> Result<
    Working,
    VerifierErrorView,
> {
    match r {
        Ok(v) => Ok(v@),
        Err(e) => Err(e.deep_view()),
    }
}

/// The first `n` stored passkeys, or what keeps the first that is none from being one.
pub open spec fn passkeys_read(jsons: Seq<Seq<char>>, n: int) -> Result<Seq<Passkey>, Seq<char>>
    decreases n,
{
    if n <= 0 {
        Ok(Seq::empty())
    } else {
        match passkeys_read(jsons, n - 1) {
            Err(fault) => Err(fault),
            Ok(before) => match passkey_read(jsons[n - 1]) {
                Err(fault) => Err(fault),
                Ok(passkey) => Ok(before.push(passkey)),
            },
        }
    }
}

/// The stored passkeys of an identity.
pub open spec fn passkeys_of(identity: IdentityView) -> Result<Seq<Passkey>, Seq<char>> {
    passkeys_read(
        identity.passkeys.map_values(|p: config::StoredPasskeyView| p.passkey_json),
        identity.passkeys.len() as int,
    )
}

fn load_passkeys(identity: &Identity) -> (r: Result<Vec<Passkey>, VerifierError>)
    ensures
        match passkeys_of(identity.deep_view()) {
            Ok(list) => r matches Ok(v) && v@ == list,
            Err(cause) => r matches Err(e) && e.deep_view() == (VerifierErrorView::PasskeyNotJson {
                cause,
            }),
        },
{
    let ghost stored = identity.deep_view().passkeys;
    let ghost jsons = stored.map_values(|p: config::StoredPasskeyView| p.passkey_json);
    let mut out: Vec<Passkey> = Vec::new();
    let mut i: usize = 0;
    assert(out@ == Seq::<Passkey>::empty());
    while i < identity.passkeys.len()
        invariant
            i <= identity.passkeys.len(),
            stored == identity.deep_view().passkeys,
            jsons == stored.map_values(|p: config::StoredPasskeyView| p.passkey_json),
            passkeys_read(jsons, i as int) == Ok::<_, Seq<char>>(out@),
        decreases identity.passkeys.len() - i,
    {
        assert(stored[i as int] == identity.passkeys@[i as int].deep_view());
        assert(jsons[i as int] == identity.passkeys@[i as int].passkey_json@);
        match read_passkey(identity.passkeys[i].passkey_json.as_str()) {
            Ok(p) => {
                out.push(p);
            },
            Err(cause) => {
                proof {
                    lemma_first_fault_stays(jsons, i + 1, jsons.len() as int);
                }
                return Err(VerifierError::PasskeyNotJson { cause });
            },
        }
        i = i + 1;
    }
    Ok(out)
}

proof fn lemma_first_fault_stays(jsons: Seq<Seq<char>>, k: int, n: int)
    requires
        0 <= k <= n,
        passkeys_read(jsons, k) is Err,
    ensures
        passkeys_read(jsons, n) == passkeys_read(jsons, k),
    decreases n,
{
    if k < n {
        lemma_first_fault_stays(jsons, k, n - 1);
    }
}

/// What comes of ending a registration: the passkey that is stored, or why there is none.
pub open spec fn registered(
    verifier: Working,
    response_json: Seq<char>,
    state: PasskeyRegistration,
    label: Seq<char>,
) -> Result<StoredPasskeyView, VerifierErrorView> {
    match (registration_read(response_json), verifier) {
        (Err(cause), _) => Err(VerifierErrorView::RegistrationNotJson { cause }),
        (Ok(_), Err(cause)) => Err(VerifierErrorView::Unavailable { cause }),
        (Ok(answer), Ok(v)) => match registration_ended(v, answer, state) {
            Ok(passkey_json) => Ok(StoredPasskeyView { label, passkey_json }),
            Err(CeremonyFaultView::Refused(cause)) => Err(
                VerifierErrorView::RegistrationFailed { cause },
            ),
            Err(CeremonyFaultView::NotWritten(cause)) => Err(
                VerifierErrorView::NotWritten { cause },
            ),
        },
    }
}

/// The view of an outcome of ending a registration.
pub open spec fn registered_view(r: Result<StoredPasskey, VerifierError>) -> Result<
    StoredPasskeyView,
    VerifierErrorView,
> {
    match r {
        Ok(p) => Ok(p.deep_view()),
        Err(e) => Err(e.deep_view()),
    }
}

/// What comes of ending an authentication.
pub open spec fn authenticated(
    verifier: Working,
    response_json: Seq<char>,
    state: PasskeyAuthentication,
) -> Result<(), VerifierErrorView> {
    match (assertion_read(response_json), verifier) {
        (Err(cause), _) => Err(VerifierErrorView::AssertionNotJson { cause }),
        (Ok(_), Err(cause)) => Err(VerifierErrorView::Unavailable { cause }),
        (Ok(answer), Ok(v)) => match authentication_fault(v, answer, state) {
            None => Ok(()),
            Some(cause) => Err(VerifierErrorView::AuthenticationFailed { cause }),
        },
    }
}

/// The view of an outcome of ending an authentication.
pub open spec fn authenticated_view(r: Result<(), VerifierError>) -> Result<(), VerifierErrorView> {
    match r {
        Ok(_) => Ok(()),
        Err(e) => Err(e.deep_view()),
    }
}

impl View for WebauthnVerifier {
    type V = Working;

    closed spec fn view(&self) -> Working {
        match (self.inner, self.config_error) {
            (Some(inner), _) => Ok(inner),
            (None, Some(cause)) => Err(cause@),
            (None, None) => Err("verifier was not configured"@),
        }
    }
}

impl WebauthnVerifier {
    /// The verifier for a relay. A further origin may be allowed for enrollment.
    pub fn new(relay_url: &str, enroll_origin: Option<&str>) -> (r: Result<
        WebauthnVerifier,
        VerifierError,
    >)
        ensures
            verifier_view(r) == verifier_for(relay_url@, enroll_origin.deep_view()),
    {
        let (rp_id, rp_origin): (String, String) = match config::rp_from_relay(relay_url) {
            Ok(rp) => rp,
            Err(e) => {
                return Err(VerifierError::Relay(e));
            },
        };
        let enroll: &str = match enroll_origin {
            Some(o) => o,
            None => rp_origin.as_str(),
        };
        if let Err(cause) = config::parse_url(rp_origin.as_str()) {
            return Err(VerifierError::BadOrigin { cause });
        }
        if let Err(cause) = config::parse_url(enroll) {
            return Err(VerifierError::BadOrigin { cause });
        }
        match build(rp_id.as_str(), rp_origin.as_str(), enroll, "judo", true) {
            Ok(inner) => Ok(WebauthnVerifier { inner: Some(inner), config_error: None }),
            Err(cause) => {
                let fault = VerifierError::Configuration { cause };
                if headless(rp_id.as_str(), rp_origin.as_str()) {
                    Ok(WebauthnVerifier { inner: None, config_error: Some(fault.message()) })
                } else {
                    Err(fault)
                }
            },
        }
    }

    fn inner(&self) -> (r: Result<&Webauthn, VerifierError>)
        ensures
            match self@ {
                Ok(inner) => r matches Ok(v) && *v == inner,
                Err(cause) => r matches Err(e) && e.deep_view() == (
                VerifierErrorView::Unavailable { cause }),
            },
    {
        match (&self.inner, &self.config_error) {
            (Some(inner), _) => Ok(inner),
            (None, Some(cause)) => Err(VerifierError::Unavailable { cause: cause.clone() }),
            (None, None) => Err(
                VerifierError::Unavailable { cause: "verifier was not configured".to_owned() },
            ),
        }
    }

    /// Begins the registration of a passkey: the options for the page, and what is needed to end
    /// it. A verifier that works begins one for every user with a name.
    pub fn start_registration(&self, user_name: &str) -> (r: Result<
        (String, PasskeyRegistration),
        VerifierError,
    >)
        ensures
            match self@ {
                Err(cause) => r matches Err(e) && e.deep_view() == (
                VerifierErrorView::Unavailable { cause }),
                Ok(v) => if user_name@.len() == 0 {
                    r matches Err(e) && e.deep_view() == (
                    VerifierErrorView::RegistrationNotStarted {
                        cause: "Invalid User Name supplied for registration"@,
                    })
                } else {
                    r matches Ok((options_json, state)) && registration_begun(
                        v,
                        user_name@,
                        options_json@,
                        state,
                    )
                },
            },
    {
        match self.inner() {
            Err(e) => Err(e),
            Ok(inner) => match begin_registration(inner, user_name) {
                Ok(begun) => Ok(begun),
                Err(CeremonyFault::Refused(cause)) => Err(
                    VerifierError::RegistrationNotStarted { cause },
                ),
                Err(CeremonyFault::NotWritten(cause)) => Err(VerifierError::NotWritten { cause }),
            },
        }
    }

    /// Ends a registration with the authenticator's answer. A text that is no such answer is
    /// refused first.
    pub fn finish_registration(
        &self,
        response_json: &str,
        state: &PasskeyRegistration,
        label: &str,
    ) -> (r: Result<StoredPasskey, VerifierError>)
        ensures
            registered_view(r) == registered(self@, response_json@, *state, label@),
    {
        let answer: RegisterPublicKeyCredential = match read_registration(response_json) {
            Ok(answer) => answer,
            Err(cause) => {
                return Err(VerifierError::RegistrationNotJson { cause });
            },
        };
        match self.inner() {
            Err(e) => Err(e),
            Ok(inner) => match end_registration(inner, &answer, state) {
                Ok(passkey_json) => Ok(StoredPasskey { label: label.to_owned(), passkey_json }),
                Err(CeremonyFault::Refused(cause)) => Err(
                    VerifierError::RegistrationFailed { cause },
                ),
                Err(CeremonyFault::NotWritten(cause)) => Err(VerifierError::NotWritten { cause }),
            },
        }
    }

    /// Begins an authentication by one of the enrolled passkeys: the options for the page, and what
    /// is needed to end it. A verifier that works begins one wherever the passkeys can be read.
    pub fn start_authentication(&self, identity: &Identity) -> (r: Result<
        (String, PasskeyAuthentication),
        VerifierError,
    >)
        ensures
            match (passkeys_of(identity.deep_view()), self@) {
                (Err(cause), _) => r matches Err(e) && e.deep_view() == (
                VerifierErrorView::PasskeyNotJson { cause }),
                (Ok(_), Err(cause)) => r matches Err(e) && e.deep_view() == (
                VerifierErrorView::Unavailable { cause }),
                (Ok(passkeys), Ok(v)) => r matches Ok((options_json, state))
                    && authentication_begun(v, passkeys, options_json@, state),
            },
    {
        let passkeys: Vec<Passkey> = match load_passkeys(identity) {
            Ok(passkeys) => passkeys,
            Err(e) => {
                return Err(e);
            },
        };
        match self.inner() {
            Err(e) => Err(e),
            Ok(inner) => match begin_authentication(inner, &passkeys) {
                Ok(begun) => Ok(begun),
                Err(CeremonyFault::Refused(cause)) => Err(
                    VerifierError::AuthenticationNotStarted { cause },
                ),
                Err(CeremonyFault::NotWritten(cause)) => Err(VerifierError::NotWritten { cause }),
            },
        }
    }

    /// Ends an authentication with the authenticator's answer. A text that is no such answer is
    /// refused first.
    pub fn finish_authentication(&self, response_json: &str, state: &PasskeyAuthentication) -> (r:
        Result<(), VerifierError>)
        ensures
            authenticated_view(r) == authenticated(self@, response_json@, *state),
    {
        let answer: PublicKeyCredential = match read_assertion(response_json) {
            Ok(answer) => answer,
            Err(cause) => {
                return Err(VerifierError::AssertionNotJson { cause });
            },
        };
        match self.inner() {
            Err(e) => Err(e),
            Ok(inner) => match end_authentication(inner, &answer, state) {
                Ok(()) => Ok(()),
                Err(cause) => Err(VerifierError::AuthenticationFailed { cause }),
            },
        }
    }
}

} // verus!
