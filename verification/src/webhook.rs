//! The inbound request surface: classifying a request path onto the
//! dispatch table, and decoding a request body that may arrive
//! base64-encoded.

use vstd::prelude::*;
use vstd::utf8::encode_utf8;
use crate::text::str_eq;

verus! {

/// Where a request path dispatches to.
#[derive(Clone, Copy, PartialEq, Eq, Structural, Debug)]
pub enum Route {
    /// The root path: a plain liveness reply.
    Hi,
    /// The secret-bearing path that installs the chat webhook.
    InstallWebhook,
    /// The synthetic path of a scheduled greeting sweep.
    Greet,
    /// The secret-bearing path that receives chat updates.
    Webhook,
    /// Anything else.
    Unknown,
}

/// What `classify_route` returns: the paths carrying the shared secret go
/// to their handlers, the fixed paths to theirs, everything else is
/// unknown.
pub open spec fn spec_route(path: Seq<char>, secret: Seq<char>) -> Route {
    if path == "/"@ {
        Route::Hi
    } else if path == "/install-webhook/"@ + secret {
        Route::InstallWebhook
    } else if path == "$/greet"@ {
        Route::Greet
    } else if path == "/hook/"@ + secret {
        Route::Webhook
    } else {
        Route::Unknown
    }
}

/// Classifies a request path against the dispatch table.
pub fn classify_route(path: &str, secret: &str) -> (r: Route)
    ensures
        r == spec_route(path@, secret@),
{
    if str_eq(path, "/") {
        return Route::Hi;
    }
    let mut install = String::from_str("/install-webhook/");
    install.append(secret);
    if str_eq(path, install.as_str()) {
        return Route::InstallWebhook;
    }
    if str_eq(path, "$/greet") {
        return Route::Greet;
    }
    let mut hook = String::from_str("/hook/");
    hook.append(secret);
    if str_eq(path, hook.as_str()) {
        return Route::Webhook;
    }
    Route::Unknown
}

/// Why a request body could not be decoded.
#[derive(Clone, Copy, PartialEq, Eq, Structural, Debug)]
pub enum BodyError {
    /// The body claimed to be base64 but is not valid standard base64.
    InvalidBase64,
}

/// What `base64::decode` yields on a given text: the decoded bytes, or
/// nothing when the text is not valid standard (padded) base64. The
/// result depends on the text alone.
pub uninterp spec fn base64_decoding(s: Seq<char>) -> Option<Seq<u8>>;

#[verifier::external_type_specification]
#[verifier::external_body]
pub struct ExDecodeError(base64::DecodeError);

/// Relies on `base64::decode`: decodes standard (padded) base64, failing
/// exactly on text that is not; the outcome is a function of the text.
#[verifier::external_body]
fn b64_decode(s: &str) -> (r: Result<Vec<u8>, base64::DecodeError>)
    ensures
        match r {
            Ok(v) => base64_decoding(s@) == Some(v@),
            Err(_) => base64_decoding(s@) is None,
        },
{
    base64::decode(s)
}

/// What `decode_body` returns: an absent body is empty, a plain body is
/// its UTF-8 bytes, and a base64 body is decoded or rejected.
pub open spec fn spec_decode_body(body: Option<String>, is_base64: bool) -> Result<
    Seq<u8>,
    BodyError,
> {
    match body {
        None => Ok(Seq::empty()),
        Some(s) => if is_base64 {
            match base64_decoding(s@) {
                Some(bytes) => Ok(bytes),
                None => Err(BodyError::InvalidBase64),
            }
        } else {
            Ok(encode_utf8(s@))
        },
    }
}

/// Decodes an inbound request body into the bytes the webhook handler
/// consumes.
pub fn decode_body(body: Option<String>, is_base64: bool) -> (r: Result<Vec<u8>, BodyError>)
    ensures
        match (r, spec_decode_body(body, is_base64)) {
            (Ok(v), Ok(bytes)) => v@ == bytes,
            (Err(e), Err(e2)) => e == e2,
            _ => false,
        },
{
    match body {
        None => {
            let v: Vec<u8> = Vec::new();
            proof {
                assert(v@ =~= Seq::<u8>::empty());
            }
            Ok(v)
        },
        Some(s) => {
            if is_base64 {
                match b64_decode(s.as_str()) {
                    Ok(v) => Ok(v),
                    Err(_) => Err(BodyError::InvalidBase64),
                }
            } else {
                Ok(s.as_str().as_bytes_vec())
            }
        },
    }
}

} // verus!
