//! What stands at the edges: the relay's pages and who verifies on them, sealed bodies, the places of
//! files, and what refusals say.

use crate::config::{
    config_error_text, own_dir, rp_of, under, url_parts, ConfigErrorView, UrlPartsView,
};
use crate::crypto::{
    b64_bytes, crypto_error_text, opened, opened_box, sealable, CryptoErrorView,
};
use crate::daemon::dropped_alert;
use crate::manager::{manager_error_text, EnvelopeState, ManagerErrorView};
use crate::text::{all_digits, decimal, digits_value, joined, pieces};
use crate::text_laws::{
    lemma_prints_back, parts_are_found_again, pieces_make_the_text, printed_numbers_are_shortest,
};
use crate::webauthn::{
    is_effective, is_headless_dev_rp, is_ipv4, is_octet, verifier_built, verifier_error_text, verifier_for,
    VerifierErrorView, Working,
};
use vstd::prelude::*;
use vstd::utf8::encode_utf8;

verus! {

/// A page may ask for the passkeys of its own domain and of those above it, and of no others.
pub proof fn pages_reach_their_own_domain(rp_id: Seq<char>, domain: Seq<char>, sub: Seq<char>)
    ensures
        is_effective(rp_id, Some(rp_id)),
        is_effective(rp_id, Some(sub + "."@ + rp_id)),
        is_effective(rp_id, Some(domain)) ==> domain == rp_id || exists|s: Seq<char>|
            domain == #[trigger] (s + "."@ + rp_id),
        !is_effective(rp_id, None),
{
    let tail = "."@ + rp_id;
    let d = sub + "."@ + rp_id;
    assert(tail =~= d.subrange(d.len() - tail.len(), d.len() as int));
    if tail.is_suffix_of(domain) {
        let s = domain.take(domain.len() - tail.len());
        assert(tail == domain.subrange(domain.len() - tail.len(), domain.len() as int));
        assert(domain =~= s + tail);
        assert(s + tail =~= s + "."@ + rp_id);
    }
}

/// The verifier stands on the relay's own pages: its party is the relay's host, its origin the page
/// behind the relay's address, and a further origin for enrollment counts where one is named.
pub proof fn verifiers_stand_on_the_relays_pages(
    relay_url: Seq<char>,
    relay: UrlPartsView,
    host: Seq<char>,
    page: UrlPartsView,
    further: Seq<char>,
)
    requires
        url_parts(relay_url) == Ok::<_, Seq<char>>(relay),
        relay.scheme == "wss"@,
        relay.host == Some(host),
        relay.port is None,
        url_parts("https"@ + "://"@ + host) == Ok::<_, Seq<char>>(page),
        page.domain == Some(host),
    ensures
        verifier_for(relay_url, None) == Ok::<_, VerifierErrorView>(
            Ok::<_, Seq<char>>(
                verifier_built(
                    host,
                    "https"@ + "://"@ + host,
                    "https"@ + "://"@ + host,
                    "judo"@,
                    true,
                ),
            ),
        ),
        url_parts(further) is Ok ==> verifier_for(relay_url, Some(further)) == Ok::<
            _,
            VerifierErrorView,
        >(
            Ok::<_, Seq<char>>(
                verifier_built(host, "https"@ + "://"@ + host, further, "judo"@, true),
            ),
        ),
        url_parts(further) is Err ==> verifier_for(relay_url, Some(further)) is Err,
{
    pages_reach_their_own_domain(host, host, host);
    crate::host_laws::pages_stand_behind_the_relay(relay, host);
}

/// A relay whose pages cannot hold passkeys has no verifier, unless it is one for development: that
/// answers every ceremony with the reason.
pub proof fn other_relays_have_no_verifier(
    relay_url: Seq<char>,
    host: Seq<char>,
    origin: Seq<char>,
    page: UrlPartsView,
)
    requires
        rp_of(url_parts(relay_url)) == Ok::<_, ConfigErrorView>((host, origin)),
        url_parts(origin) == Ok::<_, Seq<char>>(page),
        page.domain matches Some(d) ==> d != host && !("."@ + host).is_suffix_of(d),
    ensures
        is_headless_dev_rp(host, origin) ==> (verifier_for(relay_url, None) matches Ok(Err(cause))
            && cause == "invalid WebAuthn RP configuration: "@ + "The configuration was invalid"@),
        !is_headless_dev_rp(host, origin) ==> verifier_for(relay_url, None) == Err::<Working, _>(
            VerifierErrorView::Configuration { cause: "The configuration was invalid"@ },
        ),
{
}

/// Four numbers with dots between them.
pub open spec fn address(a: nat, b: nat, c: nat, d: nat) -> Seq<char> {
    joined(seq![decimal(a), decimal(b), decimal(c), decimal(d)], seq!['.'])
}

/// A relay on the machine itself, or at an address of four numbers, needs no working verifier, but only
/// without TLS.
pub proof fn addresses_are_for_development(a: nat, b: nat, c: nat, d: nat, rest: Seq<char>)
    requires
        a <= 255 && b <= 255 && c <= 255 && d <= 255,
    ensures
        is_headless_dev_rp(address(a, b, c, d), "http://"@ + rest),
        is_headless_dev_rp("localhost"@, "http://"@ + rest),
        !is_headless_dev_rp("localhost"@, "https://"@ + rest),
{
    let parts = seq![decimal(a), decimal(b), decimal(c), decimal(d)];
    lemma_octet(a);
    lemma_octet(b);
    lemma_octet(c);
    lemma_octet(d);
    assert forall|i: int| 0 <= i < parts.len() implies !(#[trigger] parts[i]).contains('.') by {
        let n = if i == 0 {
            a
        } else if i == 1 {
            b
        } else if i == 2 {
            c
        } else {
            d
        };
        assert(parts[i] == decimal(n));
        printed_numbers_are_shortest(n);
    }
    parts_are_found_again(parts, '.');
    let open = "http://"@ + rest;
    assert("http://"@ =~= open.subrange(0, "http://"@.len() as int));
    reveal_strlit("http://");
    reveal_strlit("https://");
    let tls = "https://"@ + rest;
    if "http://"@.is_prefix_of(tls) {
        assert("http://"@[4] == ':' && tls[4] == "https://"@[4] && "https://"@[4] == 's');
        assert("http://"@ == tls.subrange(0, "http://"@.len() as int));
        assert(tls.subrange(0, "http://"@.len() as int)[4] == tls[4]);
    }
}

/// The numbers of an address are written as short as can be, and lie below 256.
pub proof fn addresses_are_four_small_numbers(s: Seq<char>)
    requires
        is_ipv4(s),
    ensures
        exists|a: nat, b: nat, c: nat, d: nat|
            a < 256 && b < 256 && c < 256 && d < 256 && s == #[trigger] address(a, b, c, d),
{
    let parts = pieces(s, '.');
    pieces_make_the_text(s, '.');
    assert(is_octet(parts[0]) && is_octet(parts[1]) && is_octet(parts[2]) && is_octet(parts[3]));
    lemma_prints_back(parts[0]);
    lemma_prints_back(parts[1]);
    lemma_prints_back(parts[2]);
    lemma_prints_back(parts[3]);
    let a = digits_value(parts[0]);
    let b = digits_value(parts[1]);
    let c = digits_value(parts[2]);
    let d = digits_value(parts[3]);
    assert(parts =~= seq![decimal(a), decimal(b), decimal(c), decimal(d)]);
    assert(s == address(a, b, c, d));
}

proof fn lemma_octet(n: nat)
    requires
        n <= 255,
    ensures
        is_octet(decimal(n)),
{
    printed_numbers_are_shortest(n);
    crate::text::decimal_reads_back(n, 255);
    reveal_with_fuel(decimal, 3);
    let s = decimal(n);
    assert(crate::text::unsigned_part(s) == s);
    assert(all_digits(s) && digits_value(s) == n);
    assert(n / 10 / 10 < 10);
}

/// Only what was sealed is opened: a text of the right length, under a key of the right length, whose
/// tag is right.
pub proof fn only_sealed_texts_open(ciphertext: Seq<char>, key: Seq<char>, plain: Seq<u8>)
    ensures
        opened(ciphertext, key) == Ok::<_, CryptoErrorView>(plain) ==> {
            &&& b64_bytes(ciphertext) matches Ok(sealed) && sealed.len() > 24 && (b64_bytes(key)
                matches Ok(k) && k.len() == 32 && opened_box(k, sealed.take(24), sealed.skip(24))
                == Some(plain))
        },
        b64_bytes(ciphertext) is Err ==> opened(ciphertext, key)->Err_0 is CiphertextNotBase64,
        b64_bytes(ciphertext) matches Ok(sealed) ==> sealed.len() <= 24 ==> opened(ciphertext, key)
            == Err::<Seq<u8>, _>(CryptoErrorView::CiphertextTooShort),
        b64_bytes(ciphertext) matches Ok(sealed) ==> sealed.len() > 24 ==> (b64_bytes(key)
            matches Ok(k) ==> k.len() != 32 ==> opened(ciphertext, key) == Err::<Seq<u8>, _>(
            CryptoErrorView::WrongKeyLength,
        )),
{
}

/// A text of up to a thousand million bytes can be sealed.
pub proof fn bodies_can_be_sealed(n: int)
    requires
        0 <= n <= 1_000_000_000,
    ensures
        sealable(n),
{
}

/// A file's name stands behind its directory and one slash, and the library's own directory is the same
/// under every base.
pub proof fn files_stand_below_their_directory(dir: Seq<u8>, name: Seq<char>)
    requires
        dir.len() > 0,
        dir.last() != 0x2f,
        encode_utf8(name).len() == 0 || encode_utf8(name)[0] != 0x2f,
    ensures
        under(dir, name) == dir + seq![0x2fu8] + encode_utf8(name),
        own_dir(Some(dir)) == under(dir, "judo"@),
        own_dir(None) == under(encode_utf8("."@), "judo"@),
{
}

/// A refusal names the envelope, and how it was decided.
pub proof fn refusals_name_the_envelope(id: Seq<char>)
    ensures
        manager_error_text(ManagerErrorView::UnknownEnvelope { id }) == "unknown envelope "@ + id,
        manager_error_text(
            ManagerErrorView::ClosedEnvelope { id, state: EnvelopeState::Approved },
        ) == "envelope "@ + id + " is already "@ + "approved"@,
        manager_error_text(
            ManagerErrorView::ClosedEnvelope { id, state: EnvelopeState::Denied },
        ) == "envelope "@ + id + " is already "@ + "denied"@,
        manager_error_text(
            ManagerErrorView::ClosedEnvelope { id, state: EnvelopeState::Cancelled },
        ) == "envelope "@ + id + " is already "@ + "cancelled"@,
        manager_error_text(ManagerErrorView::IdInUse { id }) == "envelope id "@ + id
            + " is already in use"@,
{
}

/// A failure says what caused it, last, and in what.
pub proof fn failures_name_their_cause(cause: Seq<char>, path: Seq<char>)
    ensures
        cause.is_suffix_of(config_error_text(ConfigErrorView::InvalidUrl { cause })),
        cause.is_suffix_of(config_error_text(ConfigErrorView::WrongScheme { scheme: cause })),
        cause.is_suffix_of(
            crypto_error_text(CryptoErrorView::CiphertextNotBase64 { cause }),
        ),
        cause.is_suffix_of(crypto_error_text(CryptoErrorView::KeyNotBase64 { cause })),
        cause.is_suffix_of(verifier_error_text(VerifierErrorView::Configuration { cause })),
        cause.is_suffix_of(verifier_error_text(VerifierErrorView::Unavailable { cause })),
        cause.is_suffix_of(verifier_error_text(VerifierErrorView::PasskeyNotJson { cause })),
        cause.is_suffix_of(verifier_error_text(VerifierErrorView::AssertionNotJson { cause })),
        cause.is_suffix_of(verifier_error_text(VerifierErrorView::AuthenticationFailed { cause })),
        cause.is_suffix_of(verifier_error_text(VerifierErrorView::RegistrationNotJson { cause })),
        cause.is_suffix_of(verifier_error_text(VerifierErrorView::RegistrationFailed { cause })),
        dropped_alert(path, cause) == "judo notify: policy layer "@ + path + " dropped: "@ + cause,
{
    lemma_suffix("invalid relay WebSocket URL: "@, cause);
    lemma_suffix("relay URL must use ws or wss, got "@, cause);
    lemma_suffix("ciphertext is not valid base64: "@, cause);
    lemma_suffix("key is not valid base64: "@, cause);
    lemma_suffix("invalid WebAuthn RP configuration: "@, cause);
    lemma_suffix("WebAuthn ceremonies are unavailable: "@, cause);
    lemma_suffix("stored passkey JSON is invalid: "@, cause);
    lemma_suffix("assertion response is not valid WebAuthn JSON: "@, cause);
    lemma_suffix("passkey authentication failed: "@, cause);
    lemma_suffix("registration response is not valid WebAuthn JSON: "@, cause);
    lemma_suffix("passkey registration failed: "@, cause);
}

proof fn lemma_suffix(head: Seq<char>, tail: Seq<char>)
    ensures
        tail.is_suffix_of(head + tail),
{
    let s = head + tail;
    assert(tail =~= s.subrange(s.len() - tail.len(), s.len() as int));
}

} // verus!
