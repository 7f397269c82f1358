use led_server::body::ReadEvent;
use led_server::handler::process_request;
use led_server::state::{apply_action, plan_action, HwAction, State};

fn request(body: &[u8]) -> Vec<ReadEvent> {
    vec![ReadEvent::Chunk(body.to_vec()), ReadEvent::Chunk(Vec::new())]
}

#[test]
fn plan_follows_the_transition_table() {
    assert_eq!(plan_action(false, true), HwAction::SetHigh);
    assert_eq!(plan_action(true, false), HwAction::SetLow);
    assert_eq!(plan_action(true, true), HwAction::NoAction);
    assert_eq!(plan_action(false, false), HwAction::NoAction);
}

#[test]
fn apply_updates_state_only_on_success() {
    let mut st = State { led_on: false };
    let r = apply_action(&mut st, true, true);
    assert!(st.led_on && r.ok);
    assert_eq!(r.message, "LED turned on");
    assert_eq!(r.led_on, Some(true));

    let mut st = State { led_on: false };
    let r = apply_action(&mut st, true, false);
    assert!(!st.led_on && !r.ok);
    assert_eq!(r.message, "Failed to turn on the LED");
    assert_eq!(r.led_on, Some(false));

    let mut st = State { led_on: true };
    let r = apply_action(&mut st, false, true);
    assert!(!st.led_on && r.ok);
    assert_eq!(r.message, "LED turned off");
    assert_eq!(r.led_on, Some(false));

    let mut st = State { led_on: true };
    let r = apply_action(&mut st, false, false);
    assert!(st.led_on && !r.ok);
    assert_eq!(r.message, "Failed to turn off the LED");
    assert_eq!(r.led_on, Some(true));
}

#[test]
fn turn_on_from_off_sets_high_once_and_reports_on() {
    let mut st = State { led_on: false };
    let h = process_request(0, &request(b"{\"ledOn\": true}"), true, &mut st);
    assert_eq!(h.action, HwAction::SetHigh);
    assert!(st.led_on);
    assert_eq!(h.response.status, 200);
    assert_eq!(
        h.response.body,
        "{\"ledOn\":true,\"message\":\"LED turned on\",\"ok\":true}"
    );
}

#[test]
fn repeated_on_request_makes_no_further_hardware_call() {
    let mut st = State { led_on: false };
    let first = process_request(0, &request(b"{\"ledOn\": true}"), true, &mut st);
    assert_eq!(first.action, HwAction::SetHigh);
    let second = process_request(0, &request(b"{\"ledOn\": true}"), true, &mut st);
    assert_eq!(second.action, HwAction::NoAction);
    assert!(st.led_on);
    assert_eq!(second.response.status, 200);
    assert_eq!(
        second.response.body,
        "{\"ledOn\":true,\"message\":\"LED is already on\",\"ok\":true}"
    );
}

#[test]
fn turn_off_when_already_off_is_a_no_op() {
    let mut st = State { led_on: false };
    let h = process_request(0, &request(b"{\"ledOn\": false}"), true, &mut st);
    assert_eq!(h.action, HwAction::NoAction);
    assert!(!st.led_on);
    assert_eq!(
        h.response.body,
        "{\"ledOn\":false,\"message\":\"LED is already off\",\"ok\":true}"
    );
}

#[test]
fn turn_off_from_on_sets_low() {
    let mut st = State { led_on: true };
    let h = process_request(0, &request(b"{\"ledOn\": false}"), true, &mut st);
    assert_eq!(h.action, HwAction::SetLow);
    assert!(!st.led_on);
    assert_eq!(
        h.response.body,
        "{\"ledOn\":false,\"message\":\"LED turned off\",\"ok\":true}"
    );
}

#[test]
fn hardware_failure_on_set_high_leaves_state_off() {
    let mut st = State { led_on: false };
    let h = process_request(0, &request(b"{\"ledOn\": true}"), false, &mut st);
    assert_eq!(h.action, HwAction::SetHigh);
    assert!(!st.led_on);
    assert_eq!(h.response.status, 200);
    assert_eq!(
        h.response.body,
        "{\"ledOn\":false,\"message\":\"Failed to turn on the LED\",\"ok\":false}"
    );
}

#[test]
fn malformed_body_reaches_no_hardware_and_answers_500() {
    let mut st = State { led_on: false };
    let h = process_request(0, &request(b"{\"ledOn\": \"yes\"}"), true, &mut st);
    assert_eq!(h.action, HwAction::NoAction);
    assert!(!st.led_on);
    assert_eq!(h.response.status, 500);
    assert_eq!(
        h.response.body,
        "{\"message\":\"request body is not a valid JSON toggle request\",\"ok\":false}"
    );

    let truncated = process_request(0, &request(b"{\"ledOn\": tr"), true, &mut st);
    assert_eq!(truncated.response.status, 500);
    assert_eq!(truncated.action, HwAction::NoAction);
}

#[test]
fn short_known_length_body_answers_500_io_message() {
    let mut st = State { led_on: false };
    let events = vec![ReadEvent::Chunk(b"{\"ledOn\": tru".to_vec()), ReadEvent::Chunk(Vec::new())];
    let h = process_request(17, &events, true, &mut st);
    assert_eq!(h.action, HwAction::NoAction);
    assert!(!st.led_on);
    assert_eq!(h.response.status, 500);
    assert_eq!(
        h.response.body,
        "{\"message\":\"failed to read the full request body\",\"ok\":false}"
    );
}

#[test]
fn known_length_request_is_handled_from_chunked_reads() {
    let payload: &[u8] = b"{\"ledOn\": true}";
    let events = vec![
        ReadEvent::Chunk(payload[..6].to_vec()),
        ReadEvent::Chunk(payload[6..].to_vec()),
    ];
    let mut st = State { led_on: false };
    let h = process_request(payload.len(), &events, true, &mut st);
    assert_eq!(h.response.status, 200);
    assert!(st.led_on);
}
