//! Response emission: the three call shapes every endpoint uses.
//!
//! Each function builds a complete [`HttpResponse`]; the caller writes its
//! body to the connection, under the header `Content-Type:
//! application/json`, and writes nothing further afterwards.

use vstd::prelude::*;
use vstd::string::StringExecFns;

use crate::json::{encode_resp, encoded_resp};
use crate::types::{HttpResponse, RespData};

verus! {

/// Builds the handled-request response: status 200 — also for a recoverable
/// hardware failure, which the payload itself reports through `ok` — with
/// the payload encoded as JSON.  Encoding is total, so the downgrade to a
/// fixed fallback body that an encoding failure would force can never arise.
pub fn send_ok_with_json(data: &RespData) -> (r: HttpResponse)
    ensures
        r.status == 200,
        r.body@ == encoded_resp(data.led_on, data.message@, data.ok),
{
    HttpResponse { status: 200, body: encode_resp(data) }
}

/// Builds the bad-request response: status 400 and a fixed payload.  The
/// single toggle endpoint never reaches it on its own flow; it stands ready
/// for further endpoints.
pub fn send_bad_request() -> (r: HttpResponse)
    ensures
        r.status == 400,
        r.body@ == encoded_resp(None, "Bad request"@, false),
{
    let data = RespData {
        led_on: None,
        message: String::from_str("Bad request"),
        ok: false,
    };
    HttpResponse { status: 400, body: encode_resp(&data) }
}

/// Builds the server-error response: status 500, with the failure's textual
/// description as the payload's message.
pub fn send_server_error(message: String) -> (r: HttpResponse)
    ensures
        r.status == 500,
        r.body@ == encoded_resp(None, message@, false),
{
    let data = RespData { led_on: None, message, ok: false };
    HttpResponse { status: 500, body: encode_resp(&data) }
}

} // verus!
