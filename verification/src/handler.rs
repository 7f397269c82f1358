//! The toggle handler: one request, from body bytes to response.
//!
//! The caller owns the lock around [`State`] and the hardware pin.  It can
//! drive the pipeline itself — [`crate::body::read_to_json`], then
//! [`crate::state::plan_action`], the pin operation, and
//! [`crate::state::apply_action`] with the pin's answer, then
//! [`crate::response::send_ok_with_json`] — or call [`process_request`],
//! which composes the same steps and takes the pin's answer as an argument:
//! its contract holds for either answer the hardware may give.

use vstd::prelude::*;

use crate::body::{body_bytes, read_to_json, ReadEvent};
use crate::json::{encoded_resp, parse_led_request};
use crate::response::{send_ok_with_json, send_server_error};
use crate::state::{
    next_led_spec, outcome_message_spec, outcome_ok_spec, plan_action, plan_spec, apply_action,
    HwAction, State,
};
use crate::types::{BodyError, HttpResponse};

verus! {

/// The hardware operation one handled request performs: exactly one pin
/// operation for a request that changes the state, none for a request that
/// repeats the state or never reaches the state machine.
pub open spec fn handler_action(body: Option<Seq<u8>>, led_on: bool) -> HwAction {
    match body {
        Some(b) => match parse_led_request(b) {
            Some(req) => plan_spec(led_on, req),
            None => HwAction::NoAction,
        },
        None => HwAction::NoAction,
    }
}

/// The logical LED state after one handled request.
pub open spec fn handler_new_led(body: Option<Seq<u8>>, led_on: bool, hw_ok: bool) -> bool {
    match body {
        Some(b) => match parse_led_request(b) {
            Some(req) => next_led_spec(led_on, req, hw_ok),
            None => led_on,
        },
        None => led_on,
    }
}

/// The status code of one handled request's response: 200 whenever a typed
/// request was obtained — a hardware failure is reported inside the payload
/// — and 500 when the body could not be read or parsed.
pub open spec fn handler_status(body: Option<Seq<u8>>) -> int {
    match body {
        Some(b) => if parse_led_request(b) is Some {
            200
        } else {
            500
        },
        None => 500,
    }
}

/// The body of one handled request's response.  Its `ledOn` field, when
/// present, reflects the state after the attempted transition, never the
/// state before.
pub open spec fn handler_body(body: Option<Seq<u8>>, led_on: bool, hw_ok: bool) -> Seq<char> {
    match body {
        Some(b) => match parse_led_request(b) {
            Some(req) => encoded_resp(
                Some(next_led_spec(led_on, req, hw_ok)),
                outcome_message_spec(led_on, req, hw_ok),
                outcome_ok_spec(led_on, req, hw_ok),
            ),
            None => encoded_resp(None, BodyError::Parse.describe_spec(), false),
        },
        None => encoded_resp(None, BodyError::Io.describe_spec(), false),
    }
}

/// What one handled request produced: the response to write, and the
/// hardware operation that was performed on the way.
#[derive(Debug, Clone)]
pub struct HandledRequest {
    pub response: HttpResponse,
    pub action: HwAction,
}

/// Handles one complete request under the caller's lock: obtains the body
/// from the delivered read outcomes, parses it, runs the state transition
/// and builds the response.  `hw_ok` is the answer the hardware pin gives
/// when the one planned operation is performed; when no operation is needed
/// it is ignored, and the contract holds for either answer.
pub fn process_request(
    declared_len: usize,
    events: &Vec<ReadEvent>,
    hw_ok: bool,
    state: &mut State,
) -> (h: HandledRequest)
    ensures
        ({
            let body = body_bytes(declared_len as nat, events@);
            &&& h.action == handler_action(body, old(state).led_on)
            &&& final(state).led_on == handler_new_led(body, old(state).led_on, hw_ok)
            &&& h.response.status as int == handler_status(body)
            &&& h.response.body@ == handler_body(body, old(state).led_on, hw_ok)
        }),
{
    match read_to_json(declared_len, events) {
        Ok(req) => {
            let action = plan_action(state.led_on, req.led_on);
            let outcome = apply_action(state, req.led_on, hw_ok);
            let response = send_ok_with_json(&outcome);
            HandledRequest { response, action }
        },
        Err(e) => {
            let response = send_server_error(e.describe());
            HandledRequest { response, action: HwAction::NoAction }
        },
    }
}

// ---------------------------------------------------------------------------
// Laws of the toggle handler.
// ---------------------------------------------------------------------------
/// Law: a request for "on" while the LED is off performs exactly one
/// set-high operation; when it succeeds, the LED is on and the response is
/// status 200 with `ok` true, `ledOn` true and the message "LED turned on".
pub proof fn law_turn_on_from_off(b: Seq<u8>, hw_ok: bool)
    requires
        parse_led_request(b) == Some(true),
    ensures
        handler_action(Some(b), false) == HwAction::SetHigh,
        handler_status(Some(b)) == 200,
        hw_ok ==> handler_new_led(Some(b), false, hw_ok) == true,
        hw_ok ==> handler_body(Some(b), false, hw_ok) == encoded_resp(
            Some(true),
            "LED turned on"@,
            true,
        ),
{
}

/// Law: two consecutive requests for "on" while the LED is already on
/// perform no hardware operation — on the second in particular — leave the
/// state on, and the second answers `ok` true, `ledOn` true, "LED is
/// already on", whatever the hardware would have said.
pub proof fn law_turn_on_idempotent(b1: Seq<u8>, b2: Seq<u8>, hw_ok1: bool, hw_ok2: bool)
    requires
        parse_led_request(b1) == Some(true),
        parse_led_request(b2) == Some(true),
    ensures
        handler_action(Some(b1), true) == HwAction::NoAction,
        handler_new_led(Some(b1), true, hw_ok1) == true,
        handler_action(Some(b2), handler_new_led(Some(b1), true, hw_ok1)) == HwAction::NoAction,
        handler_new_led(Some(b2), handler_new_led(Some(b1), true, hw_ok1), hw_ok2) == true,
        handler_body(Some(b2), handler_new_led(Some(b1), true, hw_ok1), hw_ok2) == encoded_resp(
            Some(true),
            "LED is already on"@,
            true,
        ),
{
}

/// Law: a body that is not a well-formed toggle request reaches no hardware
/// operation and leaves the state unchanged; the response is status 500
/// with `ok` false and a non-empty message.
pub proof fn law_malformed_body_rejected(b: Seq<u8>, led_on: bool, hw_ok: bool)
    requires
        parse_led_request(b) is None,
    ensures
        handler_action(Some(b), led_on) == HwAction::NoAction,
        handler_new_led(Some(b), led_on, hw_ok) == led_on,
        handler_status(Some(b)) == 500,
        handler_body(Some(b), led_on, hw_ok) == encoded_resp(
            None,
            BodyError::Parse.describe_spec(),
            false,
        ),
        BodyError::Parse.describe_spec().len() > 0,
{
    reveal_strlit("request body is not a valid JSON toggle request");
}

/// Law: when the set-high operation fails while the LED is off and the
/// request asks for on, the state stays off and the response reports the
/// failure with `ledOn` false.
pub proof fn law_hw_failure_leaves_state(b: Seq<u8>)
    requires
        parse_led_request(b) == Some(true),
    ensures
        handler_action(Some(b), false) == HwAction::SetHigh,
        handler_new_led(Some(b), false, false) == false,
        handler_status(Some(b)) == 200,
        handler_body(Some(b), false, false) == encoded_resp(
            Some(false),
            "Failed to turn on the LED"@,
            false,
        ),
{
}

} // verus!
