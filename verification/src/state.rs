//! The shared device state and the toggle state machine.
//!
//! The hardware pin itself is an outside capability: the caller owns it, keeps
//! it under one lock together with this `State`, performs the one operation
//! that [`plan_action`] names, and hands the outcome back to [`apply_action`].
//! Taking `State` by `&mut` makes each transition exclusive for its whole
//! duration; the lock around the container extends that exclusion over the
//! hardware call and the response write.

use vstd::prelude::*;
use vstd::string::StringExecFns;

use crate::types::RespData;

verus! {

/// The logical LED state, guarded by the caller's lock.  Its invariant, kept
/// by [`apply_action`], is that `led_on` equals the last successfully applied
/// hardware level: a failed hardware operation changes neither the flag nor
/// the pin.
#[derive(Debug, Clone, Copy, PartialEq, Eq, Structural)]
pub struct State {
    pub led_on: bool,
}

/// The one hardware operation a transition calls for.
#[derive(Debug, Clone, Copy, PartialEq, Eq, Structural)]
pub enum HwAction {
    /// Drive the pin high (turn the LED on).
    SetHigh,
    /// Drive the pin low (turn the LED off).
    SetLow,
    /// The LED is already in the requested state: touch nothing.
    NoAction,
}

/// Which hardware operation a request asks for, given the current logical
/// state: a change of state needs exactly one pin operation, a request for
/// the current state needs none.
pub open spec fn plan_spec(led_on: bool, requested: bool) -> HwAction {
    if requested == led_on {
        HwAction::NoAction
    } else if requested {
        HwAction::SetHigh
    } else {
        HwAction::SetLow
    }
}

/// The logical LED state after a transition: the requested state when the
/// hardware operation succeeded (or none was needed), the old state when it
/// failed.
pub open spec fn next_led_spec(led_on: bool, requested: bool, hw_ok: bool) -> bool {
    if plan_spec(led_on, requested) == HwAction::NoAction || hw_ok {
        requested
    } else {
        led_on
    }
}

/// Whether the transition counts as a success: always, except when a needed
/// hardware operation failed.
pub open spec fn outcome_ok_spec(led_on: bool, requested: bool, hw_ok: bool) -> bool {
    plan_spec(led_on, requested) == HwAction::NoAction || hw_ok
}

/// The message of the transition's response.
pub open spec fn outcome_message_spec(led_on: bool, requested: bool, hw_ok: bool) -> Seq<char> {
    match plan_spec(led_on, requested) {
        HwAction::NoAction => if requested {
            "LED is already on"@
        } else {
            "LED is already off"@
        },
        HwAction::SetHigh => if hw_ok {
            "LED turned on"@
        } else {
            "Failed to turn on the LED"@
        },
        HwAction::SetLow => if hw_ok {
            "LED turned off"@
        } else {
            "Failed to turn off the LED"@
        },
    }
}

/// Decides which hardware operation the request needs.  The caller performs
/// it (outside this library) and reports the outcome to [`apply_action`].
pub fn plan_action(led_on: bool, requested: bool) -> (a: HwAction)
    ensures
        a == plan_spec(led_on, requested),
{
    if requested == led_on {
        HwAction::NoAction
    } else if requested {
        HwAction::SetHigh
    } else {
        HwAction::SetLow
    }
}

/// Applies the outcome of the planned hardware operation to the logical
/// state and builds the response payload.  `hw_ok` is the result of the
/// operation that [`plan_action`] named; when no operation was needed it is
/// ignored.  The response's `led_on` always reflects the state after the
/// attempted transition.
pub fn apply_action(state: &mut State, requested: bool, hw_ok: bool) -> (r: RespData)
    ensures
        final(state).led_on == next_led_spec(old(state).led_on, requested, hw_ok),
        r.ok == outcome_ok_spec(old(state).led_on, requested, hw_ok),
        r.message@ == outcome_message_spec(old(state).led_on, requested, hw_ok),
        r.led_on == Some(final(state).led_on),
{
    let ok: bool;
    let message: String;
    if requested == state.led_on {
        ok = true;
        message = if requested {
            String::from_str("LED is already on")
        } else {
            String::from_str("LED is already off")
        };
    } else if requested {
        if hw_ok {
            state.led_on = true;
            ok = true;
            message = String::from_str("LED turned on");
        } else {
            ok = false;
            message = String::from_str("Failed to turn on the LED");
        }
    } else {
        if hw_ok {
            state.led_on = false;
            ok = true;
            message = String::from_str("LED turned off");
        } else {
            ok = false;
            message = String::from_str("Failed to turn off the LED");
        }
    }
    RespData { led_on: Some(state.led_on), message, ok }
}

} // verus!
