use led_server::json::{encode_resp, parse_toggle_request};
use led_server::response::{send_bad_request, send_ok_with_json, send_server_error};
use led_server::types::RespData;

fn parse(body: &[u8]) -> Option<bool> {
    parse_toggle_request(&body.to_vec()).map(|d| d.led_on)
}

#[test]
fn parse_accepts_the_two_plain_requests() {
    assert_eq!(parse(b"{\"ledOn\":true}"), Some(true));
    assert_eq!(parse(b"{\"ledOn\":false}"), Some(false));
}

#[test]
fn parse_accepts_json_whitespace_around_tokens() {
    assert_eq!(parse(b"  {\n\t\"ledOn\" : true\r\n}  "), Some(true));
    assert_eq!(parse(b"{ \"ledOn\" :false }"), Some(false));
}

#[test]
fn parse_rejects_wrong_value_type() {
    assert_eq!(parse(b"{\"ledOn\": \"yes\"}"), None);
    assert_eq!(parse(b"{\"ledOn\": 1}"), None);
}

#[test]
fn parse_rejects_truncated_json() {
    assert_eq!(parse(b"{\"ledOn\": tr"), None);
    assert_eq!(parse(b"{\"ledOn\":"), None);
    assert_eq!(parse(b"{"), None);
    assert_eq!(parse(b""), None);
}

#[test]
fn parse_rejects_other_shapes() {
    assert_eq!(parse(b"{\"ledOn\":true,\"x\":1}"), None);
    assert_eq!(parse(b"{\"ledon\":true}"), None);
    assert_eq!(parse(b"{\"ledOn\":truex}"), None);
    assert_eq!(parse(b"true"), None);
    assert_eq!(parse(b"{\"ledOn\":true} x"), None);
}

fn resp(led_on: Option<bool>, message: &str, ok: bool) -> RespData {
    RespData { led_on, message: message.to_string(), ok }
}

#[test]
fn encode_writes_fields_in_order() {
    assert_eq!(
        encode_resp(&resp(Some(true), "LED turned on", true)),
        "{\"ledOn\":true,\"message\":\"LED turned on\",\"ok\":true}"
    );
    assert_eq!(
        encode_resp(&resp(Some(false), "Failed to turn on the LED", false)),
        "{\"ledOn\":false,\"message\":\"Failed to turn on the LED\",\"ok\":false}"
    );
}

#[test]
fn encode_omits_absent_led_state() {
    assert_eq!(
        encode_resp(&resp(None, "Bad request", false)),
        "{\"message\":\"Bad request\",\"ok\":false}"
    );
}

#[test]
fn encode_escapes_message_characters() {
    assert_eq!(
        encode_resp(&resp(None, "a\"b\\c\nd", true)),
        "{\"message\":\"a\\\"b\\\\c\\nd\",\"ok\":true}"
    );
    assert_eq!(
        encode_resp(&resp(None, "\t\r\u{8}\u{c}", true)),
        "{\"message\":\"\\t\\r\\b\\f\",\"ok\":true}"
    );
    assert_eq!(
        encode_resp(&resp(None, "\u{1}\u{1f}", true)),
        "{\"message\":\"\\u0001\\u001f\",\"ok\":true}"
    );
}

#[test]
fn encode_passes_other_text_through() {
    assert_eq!(
        encode_resp(&resp(None, "héllo wörld", true)),
        "{\"message\":\"héllo wörld\",\"ok\":true}"
    );
}

#[test]
fn success_response_carries_payload_at_200() {
    let r = send_ok_with_json(&resp(Some(true), "LED is already on", true));
    assert_eq!(r.status, 200);
    assert_eq!(r.body, "{\"ledOn\":true,\"message\":\"LED is already on\",\"ok\":true}");
}

#[test]
fn bad_request_response_is_fixed() {
    let r = send_bad_request();
    assert_eq!(r.status, 400);
    assert_eq!(r.body, "{\"message\":\"Bad request\",\"ok\":false}");
}

#[test]
fn server_error_response_carries_message_at_500() {
    let r = send_server_error("something broke".to_string());
    assert_eq!(r.status, 500);
    assert_eq!(r.body, "{\"message\":\"something broke\",\"ok\":false}");
}
