//! Private (account) websocket feeds: modes, endpoints and messages.
use vstd::prelude::*;

use crate::error::{text_outcome, AppError, AppResult};
use crate::text::{append_str, ascii_lower, owned, str_eq, trim_lower, trimmed};
use vstd::utf8::encode_utf8;
use base64::Engine;
use hmac::Mac;

verus! {

/// OKX production private websocket.
pub const OKX_PRIVATE_WS_URL_LIVE: &'static str = "wss://ws.okx.com:8443/ws/v5/private";

/// OKX demo-trading private websocket.
pub const OKX_PRIVATE_WS_URL_SIMULATED: &'static str =
    "wss://wspap.okx.com:8443/ws/v5/private?brokerId=9999";

/// OKX production business websocket (algo orders).
pub const OKX_BUSINESS_WS_URL: &'static str = "wss://ws.okx.com:8443/ws/v5/business";

/// OKX demo-trading business websocket.
pub const OKX_BUSINESS_WS_URL_SIMULATED: &'static str =
    "wss://wspap.okx.com:8443/ws/v5/business?brokerId=9999";

pub open spec fn live_text() -> Seq<char> {
    "live"@
}

pub open spec fn simulated_text() -> Seq<char> {
    "simulated"@
}

pub open spec fn msg_private_mode_prefix() -> Seq<char> {
    "OKX 私有实时模式只支持 live 或 simulated，收到 "@
}

/// What `normalize_private_mode` makes of a text: `live` or `simulated`
/// (trimmed, ASCII case ignored), anything else rejected.
pub open spec fn private_mode_outcome(mode: Seq<char>) -> Result<Seq<char>, Seq<char>> {
    let m = ascii_lower(trimmed(mode));
    if m == live_text() {
        Ok(live_text())
    } else if m == simulated_text() {
        Ok(simulated_text())
    } else {
        Err(msg_private_mode_prefix() + m)
    }
}

/// Accepts the private realtime modes `live` and `simulated`.
pub fn normalize_private_mode(mode: &str) -> (r: AppResult<String>)
    ensures
        text_outcome(r) == private_mode_outcome(mode@),
        r matches Err(e) ==> e is Validation,
{
    let m = trim_lower(mode);
    if str_eq(m.as_str(), "live") {
        Ok(owned("live"))
    } else if str_eq(m.as_str(), "simulated") {
        Ok(owned("simulated"))
    } else {
        let mut msg = owned("OKX 私有实时模式只支持 live 或 simulated，收到 ");
        append_str(&mut msg, m.as_str());
        Err(AppError::Validation(msg))
    }
}

/// The endpoint chosen for a mode: the live one for `live`, the demo one
/// otherwise.
pub open spec fn endpoint_outcome(mode: Seq<char>, live: Seq<char>, demo: Seq<char>) -> Result<
    Seq<char>,
    Seq<char>,
> {
    match private_mode_outcome(mode) {
        Err(e) => Err(e),
        Ok(m) => Ok(
            if m == live_text() {
                live
            } else {
                demo
            },
        ),
    }
}

pub open spec fn url_outcome(r: AppResult<&'static str>) -> Result<Seq<char>, Seq<char>> {
    match r {
        Ok(u) => Ok(u@),
        Err(e) => Err(e.message()),
    }
}

/// The private websocket endpoint of a mode.
pub fn private_ws_url(mode: &str) -> (r: AppResult<&'static str>)
    ensures
        url_outcome(r) == endpoint_outcome(
            mode@,
            "wss://ws.okx.com:8443/ws/v5/private"@,
            "wss://wspap.okx.com:8443/ws/v5/private?brokerId=9999"@,
        ),
        r matches Err(e) ==> e is Validation,
{
    let m = normalize_private_mode(mode)?;
    if str_eq(m.as_str(), "live") {
        Ok("wss://ws.okx.com:8443/ws/v5/private")
    } else {
        Ok("wss://wspap.okx.com:8443/ws/v5/private?brokerId=9999")
    }
}

/// The business (algo order) websocket endpoint of a mode.
pub fn private_business_ws_url(mode: &str) -> (r: AppResult<&'static str>)
    ensures
        url_outcome(r) == endpoint_outcome(
            mode@,
            "wss://ws.okx.com:8443/ws/v5/business"@,
            "wss://wspap.okx.com:8443/ws/v5/business?brokerId=9999"@,
        ),
        r matches Err(e) ==> e is Validation,
{
    let m = normalize_private_mode(mode)?;
    if str_eq(m.as_str(), "live") {
        Ok("wss://ws.okx.com:8443/ws/v5/business")
    } else {
        Ok("wss://wspap.okx.com:8443/ws/v5/business?brokerId=9999")
    }
}

/// Which of the two private websockets a connection uses.
#[derive(Clone, Copy, Debug, PartialEq, Eq, Structural)]
pub enum PrivateWsKind {
    Regular,
    Business,
}

impl PrivateWsKind {
    /// The endpoint of this kind of connection for a mode.
    pub fn url(self, mode: &str) -> (r: AppResult<&'static str>)
        ensures
            self is Regular ==> url_outcome(r) == endpoint_outcome(
                mode@,
                "wss://ws.okx.com:8443/ws/v5/private"@,
                "wss://wspap.okx.com:8443/ws/v5/private?brokerId=9999"@,
            ),
            self is Business ==> url_outcome(r) == endpoint_outcome(
                mode@,
                "wss://ws.okx.com:8443/ws/v5/business"@,
                "wss://wspap.okx.com:8443/ws/v5/business?brokerId=9999"@,
            ),
            r matches Err(e) ==> e is Validation,
    {
        match self {
            PrivateWsKind::Regular => private_ws_url(mode),
            PrivateWsKind::Business => private_business_ws_url(mode),
        }
    }

    /// The label under which a connection of this kind is governed:
    /// the mode itself, or `business:` before it.
    pub fn connect_mode(self, mode: &str) -> (out: String)
        ensures
            self is Regular ==> out@ == mode@,
            self is Business ==> out@ == "business:"@ + mode@,
    {
        match self {
            PrivateWsKind::Regular => owned(mode),
            PrivateWsKind::Business => {
                let mut out = owned("business:");
                append_str(&mut out, mode);
                out
            },
        }
    }

    /// How a closed connection of this kind is reported.
    pub fn closed_prefix(self) -> (out: &'static str)
        ensures
            self is Regular ==> out@ == "OKX private websocket closed"@,
            self is Business ==> out@ == "OKX business private websocket closed"@,
    {
        match self {
            PrivateWsKind::Regular => "OKX private websocket closed",
            PrivateWsKind::Business => "OKX business private websocket closed",
        }
    }

    /// How an ended stream of this kind is reported.
    pub fn ended_message(self) -> (out: &'static str)
        ensures
            self is Regular ==> out@ == "OKX private websocket stream ended"@,
            self is Business ==> out@ == "OKX business private websocket stream ended"@,
    {
        match self {
            PrivateWsKind::Regular => "OKX private websocket stream ended",
            PrivateWsKind::Business => "OKX business private websocket stream ended",
        }
    }
}

/// Which private websocket a message came from.
#[derive(Clone, Copy, Debug, PartialEq, Eq, Structural)]
pub enum PrivateMessageKind {
    Regular,
    Business,
}

impl PrivateMessageKind {
    /// The error reported when the exchange answers with an error event.
    pub fn error_message(self) -> (out: &'static str)
        ensures
            self is Regular ==> out@ == "OKX private websocket error"@,
            self is Business ==> out@ == "OKX business private websocket error"@,
    {
        match self {
            PrivateMessageKind::Regular => "OKX private websocket error",
            PrivateMessageKind::Business => "OKX business private websocket error",
        }
    }

    /// The error reported when the login is refused.
    pub fn login_error_message(self) -> (out: &'static str)
        ensures
            self is Regular ==> out@ == "OKX private websocket login failed"@,
            self is Business ==> out@ == "OKX business private websocket login failed"@,
    {
        match self {
            PrivateMessageKind::Regular => "OKX private websocket login failed",
            PrivateMessageKind::Business => "OKX business private websocket login failed",
        }
    }
}

/// A normalised mode is accepted again unchanged.
pub proof fn lemma_private_mode_idempotent(mode: Seq<char>)
    requires
        private_mode_outcome(mode) is Ok,
    ensures
        private_mode_outcome(private_mode_outcome(mode)->Ok_0) == private_mode_outcome(mode),
{
    reveal_strlit("live");
    reveal_strlit("simulated");
    let m = private_mode_outcome(mode)->Ok_0;
    assert(trimmed(m) == m) by {
        assert(crate::text::trim_front(m) == m);
        assert(crate::text::trim_back(m) == m);
    }
    assert(ascii_lower(m) =~= m);
}


/// HMAC-SHA256 of `msg` under `key`, as the `hmac` and `sha2` crates compute it.
pub uninterp spec fn hmac_sha256(key: Seq<u8>, msg: Seq<u8>) -> Seq<u8>;

/// The character of a base64 digit (0 to 63) in the standard alphabet:
/// `A`-`Z`, `a`-`z`, `0`-`9`, `+`, `/`.
pub open spec fn base64_digit(d: int) -> char {
    if d < 26 {
        (65 + d) as char
    } else if d < 52 {
        (97 + d - 26) as char
    } else if d < 62 {
        (48 + d - 52) as char
    } else if d == 62 {
        '+'
    } else {
        '/'
    }
}

/// Standard base64 (RFC 4648 alphabet, with padding) of some bytes: each
/// group of three bytes becomes four digits of six bits; a last group of
/// one or two bytes is padded with `=`.
pub open spec fn base64_standard(b: Seq<u8>) -> Seq<char>
    decreases b.len(),
{
    if b.len() == 0 {
        Seq::empty()
    } else {
        let b0 = b[0] as int;
        let b1 = if b.len() > 1 { b[1] as int } else { 0 };
        let b2 = if b.len() > 2 { b[2] as int } else { 0 };
        let d0 = base64_digit(b0 / 4);
        let d1 = base64_digit((b0 % 4) * 16 + b1 / 16);
        let d2 = base64_digit((b1 % 16) * 4 + b2 / 64);
        let d3 = base64_digit(b2 % 64);
        if b.len() == 1 {
            seq![d0, d1, '=', '=']
        } else if b.len() == 2 {
            seq![d0, d1, d2, '=']
        } else {
            seq![d0, d1, d2, d3] + base64_standard(b.skip(3))
        }
    }
}

/// `Hmac::<Sha256>::new_from_slice`, `update` and `finalize` from the `hmac`
/// crate. Its result is only named; the source shows that `new_from_slice`
/// accepts keys of any length and that the tag is the 32 bytes of a SHA-256
/// output.
#[verifier::external_body]
fn hmac_sha256_tag(key: &[u8], msg: &[u8]) -> (out: Vec<u8>)
    ensures
        out@ == hmac_sha256(key@, msg@),
        out@.len() == 32,
{
    let mut mac = match hmac::Hmac::<sha2::Sha256>::new_from_slice(key) {
        Ok(mac) => mac,
        Err(_) => return Vec::new(),
    };
    mac.update(msg);
    mac.finalize().into_bytes().to_vec()
}

/// `base64::engine::general_purpose::STANDARD.encode`: standard, padded
/// base64 of the bytes. Inputs are kept small enough that the crate's
/// encoded-length computation cannot overflow.
#[verifier::external_body]
fn base64_standard_encode(bytes: &[u8]) -> (out: String)
    requires
        bytes@.len() <= 1024,
    ensures
        out@ == base64_standard(bytes@),
{
    base64::engine::general_purpose::STANDARD.encode(bytes)
}

/// The text OKX signs for a websocket login: the timestamp, then
/// `GET/users/self/verify`.
pub open spec fn login_prehash(timestamp: Seq<char>) -> Seq<char> {
    timestamp + "GET/users/self/verify"@
}

/// The signature of a private websocket login: base64 of the HMAC-SHA256 of
/// the login text under the secret key, both taken as UTF-8 bytes.
pub fn sign_private_ws_login(secret_key: &str, timestamp: &str) -> (r: AppResult<String>)
    ensures
        r matches Ok(s) && s@ == base64_standard(
            hmac_sha256(encode_utf8(secret_key@), encode_utf8(login_prehash(timestamp@))),
        ),
{
    let mut message = owned(timestamp);
    append_str(&mut message, "GET/users/self/verify");
    let tag = hmac_sha256_tag(secret_key.as_bytes(), message.as_str().as_bytes());
    Ok(base64_standard_encode(tag.as_slice()))
}

} // verus!
