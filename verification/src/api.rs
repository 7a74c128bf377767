//! The local HTTP interface: who may call it, and what it answers.

use crate::config::{config_error, validate_config, ConfigInput, TelegramConfig};
use crate::keychain::SecretStoreError;
use crate::text::{parse_unsigned, parse_unsigned_in, push_str};
use vstd::prelude::*;
use vstd::string::*;
use vstd::utf8::encode_utf8;

verus! {

/// The protocol version reported by `/health`.
pub const HEALTH_VERSION: &'static str = "0.1.0";

/// The status reported by `/health`.
pub const HEALTH_STATUS: &'static str = "ok";

/// An error answer: a stable code and a sentence for the user. Neither ever
/// holds a credential.
pub struct AgentError {
    pub code: String,
    pub message: String,
}

impl AgentError {
    pub fn unauthorized() -> (error: Self)
        ensures
            error.code@ == "unauthorized"@,
            error.message@ == "A valid install bearer is required."@,
    {
        AgentError {
            code: String::from_str("unauthorized"),
            message: String::from_str("A valid install bearer is required."),
        }
    }

    pub fn invalid_configuration() -> (error: Self)
        ensures
            error.code@ == "invalid_configuration"@,
            error.message@ == "The Telegram configuration is invalid."@,
    {
        AgentError {
            code: String::from_str("invalid_configuration"),
            message: String::from_str("The Telegram configuration is invalid."),
        }
    }

    pub fn storage_unavailable() -> (error: Self)
        ensures
            error.code@ == "storage_unavailable"@,
            error.message@ == "Secure configuration storage is unavailable."@,
    {
        AgentError {
            code: String::from_str("storage_unavailable"),
            message: String::from_str("Secure configuration storage is unavailable."),
        }
    }
}

/// An answer: an HTTP status and, for an error, its body.
pub struct Reply {
    pub status: u16,
    pub error: Option<AgentError>,
}

/// The answer to a request without the install bearer: 401.
pub fn unauthorized_reply() -> (reply: Reply)
    ensures
        reply.status == 401,
        reply.error matches Some(e) && e.code@ == "unauthorized"@ && e.message@
            == "A valid install bearer is required."@,
{
    Reply { status: 401, error: Some(AgentError::unauthorized()) }
}

/// A byte a header value may hold: visible ASCII, space, tab, or any byte
/// above 127.
pub open spec fn header_byte_ok(b: u8) -> bool {
    (b >= 32 && b != 127) || b == 9
}

pub open spec fn header_bytes_ok(bytes: Seq<u8>) -> bool {
    forall|i: int| 0 <= i < bytes.len() ==> header_byte_ok(#[trigger] bytes[i])
}

/// `HeaderValue::from_str` (http, through axum), then `HeaderValue::as_bytes`:
/// the text's UTF-8 bytes, where every byte may stand in a header value;
/// `None` otherwise.
#[verifier::external_body]
fn header_value_bytes(text: &str) -> (bytes: Option<Vec<u8>>)
    ensures
        bytes is Some <==> header_bytes_ok(text.spec_bytes()),
        bytes matches Some(b) ==> b@ == text.spec_bytes(),
{
    axum::http::HeaderValue::from_str(text).ok().map(|value| value.as_bytes().to_vec())
}

/// The `Authorization` header value that the install bearer `secret` makes.
pub open spec fn bearer_header_text(secret: Seq<char>) -> Seq<char> {
    "Bearer "@ + secret
}

/// A request is let through only when its `Authorization` header is exactly
/// `Bearer <secret>`, and that is a valid header value.
pub open spec fn bearer_accepted(secret: Seq<char>, presented: Option<Seq<u8>>) -> bool {
    let expected = encode_utf8(bearer_header_text(secret));
    &&& header_bytes_ok(expected)
    &&& presented == Some(expected)
}

/// Whether the `Authorization` header presented (its bytes; `None` where it
/// is missing) carries the install bearer `secret`.
pub fn bearer_authorized(secret: &str, presented: Option<&[u8]>) -> (authorized: bool)
    ensures
        authorized == bearer_accepted(
            secret@,
            match presented {
                Some(p) => Some(p@),
                None => None,
            },
        ),
{
    let mut expected = String::from_str("Bearer ");
    push_str(&mut expected, secret);
    let expected_text = expected.as_str();
    proof {
        assert(expected_text@ =~= bearer_header_text(secret@));
        assert(expected_text.spec_bytes() == encode_utf8(bearer_header_text(secret@)));
    }
    let expected_bytes = match header_value_bytes(expected_text) {
        None => return false,
        Some(b) => b,
    };
    let p = match presented {
        None => return false,
        Some(p) => p,
    };
    if p.len() != expected_bytes.len() {
        assert(p@ != expected_bytes@);
        return false;
    }
    let mut i: usize = 0;
    while i < p.len()
        invariant
            p@.len() == expected_bytes@.len(),
            expected_bytes@ == encode_utf8(bearer_header_text(secret@)),
            presented == Some(p),
            i <= p@.len(),
            forall|j: int| 0 <= j < i ==> p@[j] == expected_bytes@[j],
        decreases p@.len() - i,
    {
        if p[i] != expected_bytes[i] {
            assert(p@[i as int] != expected_bytes@[i as int]);
            assert(p@ != expected_bytes@);
            return false;
        }
        i = i + 1;
    }
    assert(p@ =~= expected_bytes@);
    true
}

/// Checks a configuration sent to `POST /v1/config`: the configuration to
/// store, or the answer 400 `invalid_configuration`.
pub fn accept_configuration(input: ConfigInput) -> (result: Result<TelegramConfig, Reply>)
    ensures
        match config_error(input.bot_token@, input.api_id, input.api_hash@) {
            Some(_) => result matches Err(r) && r.status == 400 && (r.error matches Some(e)
                && e.code@ == "invalid_configuration"@ && e.message@
                == "The Telegram configuration is invalid."@),
            None => result matches Ok(c) && c.holds(input),
        },
{
    match validate_config(input) {
        Ok(c) => Ok(c),
        Err(_) => Err(Reply { status: 400, error: Some(AgentError::invalid_configuration()) }),
    }
}

/// The answer once the configuration was stored, or could not be: 204
/// without a body, or 500 `storage_unavailable`.
pub fn configuration_saved_reply(stored: Result<(), SecretStoreError>) -> (reply: Reply)
    ensures
        match stored {
            Ok(_) => reply.status == 204 && reply.error is None,
            Err(_) => reply.status == 500 && (reply.error matches Some(e) && e.code@
                == "storage_unavailable"@ && e.message@
                == "Secure configuration storage is unavailable."@),
        },
{
    match stored {
        Ok(()) => Reply { status: 204, error: None },
        Err(_) => Reply { status: 500, error: Some(AgentError::storage_unavailable()) },
    }
}

/// The loopback port the agent listens on unless told otherwise.
pub const DEFAULT_PORT: u16 = 43127;

/// The port to listen on, given the `OBS_TELEGRAM_AGENT_PORT` setting: a
/// valid non-zero port number, or else the default.
pub fn listener_port_from(setting: Option<&str>) -> (port: u16)
    ensures
        port == match setting {
            Some(s) => match parse_unsigned(s@, 65535) {
                Some(p) => if p != 0 {
                    p as u16
                } else {
                    DEFAULT_PORT
                },
                None => DEFAULT_PORT,
            },
            None => DEFAULT_PORT,
        },
{
    match setting {
        Some(s) => {
            let n = s.unicode_len();
            proof {
                assert(s@.subrange(0, n as int) =~= s@);
            }
            match parse_unsigned_in(s, 0, n, 65535) {
                Some(p) => if p != 0 {
                    p as u16
                } else {
                    DEFAULT_PORT
                },
                None => DEFAULT_PORT,
            }
        },
        None => DEFAULT_PORT,
    }
}

} // verus!
