//! The JSON wire format: the toggle request grammar and response encoding.
//!
//! The request body is the single shape `{"ledOn": <bool>}`, with JSON
//! whitespace allowed around the tokens; anything else is malformed.  The
//! response is the object `{"ledOn": <bool>, "message": <string>, "ok":
//! <bool>}` in compact form, `ledOn` omitted when absent, the message
//! escaped as JSON demands.

use vstd::prelude::*;
use vstd::string::{StrSliceExecFns, StringExecFns};

use crate::types::{ReqData, RespData};

verus! {

// ---------------------------------------------------------------------------
// Request grammar, over bytes.
// ---------------------------------------------------------------------------
/// JSON insignificant whitespace: space, tab, line feed, carriage return.
pub open spec fn is_json_ws(b: u8) -> bool {
    b == 0x20 || b == 0x09 || b == 0x0a || b == 0x0d
}

/// The first position at or after `i` that does not hold whitespace (the
/// length of the input when everything from `i` on is whitespace).
pub open spec fn ws_end(s: Seq<u8>, i: int) -> int
    decreases s.len() - i,
{
    if 0 <= i < s.len() && is_json_ws(s[i]) {
        ws_end(s, i + 1)
    } else {
        i
    }
}

/// Whether position `i` holds the byte `b`.
pub open spec fn byte_at(s: Seq<u8>, i: int, b: u8) -> bool {
    0 <= i < s.len() && s[i] == b
}

/// Whether the bytes of `lit` stand at position `i`.
pub open spec fn bytes_at(s: Seq<u8>, i: int, lit: Seq<u8>) -> bool {
    &&& 0 <= i
    &&& i + lit.len() <= s.len()
    &&& forall|k: int| 0 <= k < lit.len() ==> s[i + k] == lit[k]
}

/// The bytes of `"ledOn"`, quotes included.
pub open spec fn key_bytes() -> Seq<u8> {
    seq![0x22u8, 0x6c, 0x65, 0x64, 0x4f, 0x6e, 0x22]  // " l e d O n "
}

/// The bytes of the literal `true`.
pub open spec fn true_bytes() -> Seq<u8> {
    seq![0x74u8, 0x72, 0x75, 0x65]  // t r u e
}

/// The bytes of the literal `false`.
pub open spec fn false_bytes() -> Seq<u8> {
    seq![0x66u8, 0x61, 0x6c, 0x73, 0x65]  // f a l s e
}

/// The boolean at position `i` and the position just after it, when one of
/// the two JSON boolean literals stands there.
pub open spec fn value_at(s: Seq<u8>, i: int) -> Option<(bool, int)> {
    if bytes_at(s, i, true_bytes()) {
        Some((true, i + 4))
    } else if bytes_at(s, i, false_bytes()) {
        Some((false, i + 5))
    } else {
        None
    }
}

/// The requested LED state, when the whole input is the object
/// `{"ledOn": <bool>}` with optional JSON whitespace around the five tokens;
/// nothing otherwise.
pub open spec fn parse_led_request(s: Seq<u8>) -> Option<bool> {
    let i0 = ws_end(s, 0);
    if !byte_at(s, i0, 0x7b) {  // {
        None
    } else {
        let i1 = ws_end(s, i0 + 1);
        if !bytes_at(s, i1, key_bytes()) {
            None
        } else {
            let i2 = ws_end(s, i1 + 7);
            if !byte_at(s, i2, 0x3a) {  // :
                None
            } else {
                match value_at(s, ws_end(s, i2 + 1)) {
                    None => None,
                    Some((v, end)) => {
                        let i4 = ws_end(s, end);
                        if byte_at(s, i4, 0x7d) && ws_end(s, i4 + 1) == s.len() {  // }
                            Some(v)
                        } else {
                            None
                        }
                    },
                }
            }
        }
    }
}

/// Advances past JSON whitespace.
fn skip_ws(s: &Vec<u8>, i: usize) -> (j: usize)
    requires
        i <= s@.len(),
    ensures
        j as int == ws_end(s@, i as int),
        i <= j <= s@.len(),
{
    let mut j = i;
    loop
        invariant
            i <= j <= s@.len(),
            ws_end(s@, i as int) == ws_end(s@, j as int),
        ensures
            j as int == ws_end(s@, i as int),
        decreases s@.len() - j,
    {
        if j == s.len() {
            break;
        }
        let b = s[j];
        if !(b == 0x20 || b == 0x09 || b == 0x0a || b == 0x0d) {
            break;
        }
        j += 1;
    }
    j
}

/// Whether the quoted key `"ledOn"` stands at position `i`.
fn key_at(s: &Vec<u8>, i: usize) -> (r: bool)
    requires
        i <= s@.len(),
    ensures
        r == bytes_at(s@, i as int, key_bytes()),
{
    if s.len() - i < 7 {
        return false;
    }
    s[i] == 0x22 && s[i + 1] == 0x6c && s[i + 2] == 0x65 && s[i + 3] == 0x64 && s[i + 4] == 0x4f
        && s[i + 5] == 0x6e && s[i + 6] == 0x22
}

/// The boolean literal at position `i`, if one stands there: mirrors
/// [`value_at`].
fn bool_at(s: &Vec<u8>, i: usize) -> (r: Option<(bool, usize)>)
    requires
        i <= s@.len(),
    ensures
        match r {
            Some((v, end)) => value_at(s@, i as int) == Some((v, end as int)),
            None => value_at(s@, i as int) is None,
        },
{
    if s.len() - i >= 4 && s[i] == 0x74 && s[i + 1] == 0x72 && s[i + 2] == 0x75 && s[i + 3]
        == 0x65 {
        return Some((true, i + 4));
    }
    proof {
        assert(!bytes_at(s@, i as int, true_bytes()));
    }
    if s.len() - i >= 5 && s[i] == 0x66 && s[i + 1] == 0x61 && s[i + 2] == 0x6c && s[i + 3] == 0x73
        && s[i + 4] == 0x65 {
        return Some((false, i + 5));
    }
    proof {
        assert(!bytes_at(s@, i as int, false_bytes()));
    }
    None
}

/// Parses the request body as a toggle request: the grammar of
/// [`parse_led_request`], nothing less and nothing more.
pub fn parse_toggle_request(body: &Vec<u8>) -> (r: Option<ReqData>)
    ensures
        r is Some <==> parse_led_request(body@) is Some,
        r matches Some(d) ==> parse_led_request(body@) == Some(d.led_on),
{
    let i0 = skip_ws(body, 0);
    if !(i0 < body.len() && body[i0] == 0x7b) {
        return None;
    }
    let i1 = skip_ws(body, i0 + 1);
    if !key_at(body, i1) {
        return None;
    }
    let i2 = skip_ws(body, i1 + 7);
    if !(i2 < body.len() && body[i2] == 0x3a) {
        return None;
    }
    let i3 = skip_ws(body, i2 + 1);
    let (v, end) = match bool_at(body, i3) {
        Some(p) => p,
        None => {
            return None;
        },
    };
    let i4 = skip_ws(body, end);
    if !(i4 < body.len() && body[i4] == 0x7d) {
        return None;
    }
    let i5 = skip_ws(body, i4 + 1);
    if i5 != body.len() {
        return None;
    }
    Some(ReqData { led_on: v })
}

// ---------------------------------------------------------------------------
// Response encoding, over characters.
// ---------------------------------------------------------------------------
/// The lower-case hexadecimal digit of a value below sixteen.
pub open spec fn hex_digit(v: u32) -> char {
    if v == 0 {
        '0'
    } else if v == 1 {
        '1'
    } else if v == 2 {
        '2'
    } else if v == 3 {
        '3'
    } else if v == 4 {
        '4'
    } else if v == 5 {
        '5'
    } else if v == 6 {
        '6'
    } else if v == 7 {
        '7'
    } else if v == 8 {
        '8'
    } else if v == 9 {
        '9'
    } else if v == 10 {
        'a'
    } else if v == 11 {
        'b'
    } else if v == 12 {
        'c'
    } else if v == 13 {
        'd'
    } else if v == 14 {
        'e'
    } else {
        'f'
    }
}

/// The JSON escape of one character: quote and backslash get a backslash,
/// the named control characters their short escapes, other control
/// characters the `\u00XX` form, everything else stands as itself.
pub open spec fn escaped_char(c: char) -> Seq<char> {
    if c == '"' {
        seq!['\\', '"']
    } else if c == '\\' {
        seq!['\\', '\\']
    } else if c == '\u{8}' {
        seq!['\\', 'b']
    } else if c == '\t' {
        seq!['\\', 't']
    } else if c == '\n' {
        seq!['\\', 'n']
    } else if c == '\u{c}' {
        seq!['\\', 'f']
    } else if c == '\r' {
        seq!['\\', 'r']
    } else if (c as u32) < 0x20 {
        seq!['\\', 'u', '0', '0', hex_digit((c as u32) / 16), hex_digit((c as u32) % 16)]
    } else {
        seq![c]
    }
}

/// A whole string, escaped character by character.
pub open spec fn escaped(s: Seq<char>) -> Seq<char>
    decreases s.len(),
{
    if s.len() == 0 {
        Seq::empty()
    } else {
        escaped_char(s[0]) + escaped(s.drop_first())
    }
}

proof fn lemma_escaped_push(s: Seq<char>, c: char)
    ensures
        escaped(s.push(c)) == escaped(s) + escaped_char(c),
    decreases s.len(),
{
    if s.len() == 0 {
        assert(s.push(c)[0] == c);
        assert(s.push(c).drop_first() =~= Seq::<char>::empty());
        assert(escaped(s.push(c).drop_first()) == Seq::<char>::empty());
        assert(escaped(s.push(c)) == escaped_char(c) + Seq::<char>::empty());
        assert(escaped_char(c) + Seq::<char>::empty() =~= Seq::<char>::empty() + escaped_char(c));
        assert(escaped(s) == Seq::<char>::empty());
    } else {
        assert(s.push(c)[0] == s[0]);
        assert(s.push(c).drop_first() =~= s.drop_first().push(c));
        lemma_escaped_push(s.drop_first(), c);
        assert(escaped_char(s[0]) + (escaped(s.drop_first()) + escaped_char(c)) =~= (escaped_char(
            s[0],
        ) + escaped(s.drop_first())) + escaped_char(c));
    }
}

/// Relies on `String::push` of std: appends exactly one character.
#[verifier::external_body]
fn string_push(out: &mut String, c: char)
    ensures
        final(out)@ == old(out)@ + seq![c],
{
    out.push(c);
}

/// The executable mirror of [`hex_digit`].
fn hex_digit_char(v: u32) -> (c: char)
    requires
        v < 16,
    ensures
        c == hex_digit(v),
{
    if v == 0 {
        '0'
    } else if v == 1 {
        '1'
    } else if v == 2 {
        '2'
    } else if v == 3 {
        '3'
    } else if v == 4 {
        '4'
    } else if v == 5 {
        '5'
    } else if v == 6 {
        '6'
    } else if v == 7 {
        '7'
    } else if v == 8 {
        '8'
    } else if v == 9 {
        '9'
    } else if v == 10 {
        'a'
    } else if v == 11 {
        'b'
    } else if v == 12 {
        'c'
    } else if v == 13 {
        'd'
    } else if v == 14 {
        'e'
    } else {
        'f'
    }
}

/// Appends the JSON escape of one character.
fn push_escaped_char(out: &mut String, c: char)
    ensures
        final(out)@ == old(out)@ + escaped_char(c),
{
    let ghost pre = out@;
    if c == '"' {
        string_push(out, '\\');
        string_push(out, '"');
        proof {
            assert(out@ =~= pre + escaped_char(c));
        }
    } else if c == '\\' {
        string_push(out, '\\');
        string_push(out, '\\');
        proof {
            assert(out@ =~= pre + escaped_char(c));
        }
    } else if c == '\u{8}' {
        string_push(out, '\\');
        string_push(out, 'b');
        proof {
            assert(out@ =~= pre + escaped_char(c));
        }
    } else if c == '\t' {
        string_push(out, '\\');
        string_push(out, 't');
        proof {
            assert(out@ =~= pre + escaped_char(c));
        }
    } else if c == '\n' {
        string_push(out, '\\');
        string_push(out, 'n');
        proof {
            assert(out@ =~= pre + escaped_char(c));
        }
    } else if c == '\u{c}' {
        string_push(out, '\\');
        string_push(out, 'f');
        proof {
            assert(out@ =~= pre + escaped_char(c));
        }
    } else if c == '\r' {
        string_push(out, '\\');
        string_push(out, 'r');
        proof {
            assert(out@ =~= pre + escaped_char(c));
        }
    } else if (c as u32) < 0x20 {
        let v = c as u32;
        string_push(out, '\\');
        string_push(out, 'u');
        string_push(out, '0');
        string_push(out, '0');
        string_push(out, hex_digit_char(v / 16));
        string_push(out, hex_digit_char(v % 16));
        proof {
            assert(out@ =~= pre + escaped_char(c));
        }
    } else {
        string_push(out, c);
        proof {
            assert(out@ =~= pre + escaped_char(c));
        }
    }
}

/// Appends the JSON escape of a whole string.
fn append_escaped(out: &mut String, s: &str)
    ensures
        final(out)@ == old(out)@ + escaped(s@),
{
    let n = s.unicode_len();
    let mut i: usize = 0;
    proof {
        assert(s@.take(0) =~= Seq::<char>::empty());
        assert(out@ =~= out@ + escaped(s@.take(0)));
    }
    while i < n
        invariant
            i <= n,
            n == s@.len(),
            out@ == old(out)@ + escaped(s@.take(i as int)),
        decreases n - i,
    {
        let c = s.get_char(i);
        push_escaped_char(out, c);
        proof {
            assert(s@.take(i + 1) =~= s@.take(i as int).push(s@[i as int]));
            lemma_escaped_push(s@.take(i as int), s@[i as int]);
        }
        i += 1;
    }
    proof {
        assert(s@.take(n as int) =~= s@);
    }
}

/// The opening of the encoded response: the `ledOn` field when present.
pub open spec fn lead_chars(led_on: Option<bool>) -> Seq<char> {
    match led_on {
        Some(true) => "{\"ledOn\":true,"@,
        Some(false) => "{\"ledOn\":false,"@,
        None => "{"@,
    }
}

/// A JSON boolean.
pub open spec fn bool_chars(b: bool) -> Seq<char> {
    if b {
        "true"@
    } else {
        "false"@
    }
}

/// The complete JSON encoding of a response payload, in compact form and
/// with the fields in the order `ledOn`, `message`, `ok`.
pub open spec fn encoded_resp(led_on: Option<bool>, message: Seq<char>, ok: bool) -> Seq<char> {
    lead_chars(led_on) + "\"message\":\""@ + escaped(message) + "\",\"ok\":"@ + bool_chars(ok)
        + "}"@
}

/// Encodes a response payload to JSON text.  Encoding is total: every
/// payload, whatever its message holds, has exactly this encoding.
pub fn encode_resp(data: &RespData) -> (json: String)
    ensures
        json@ == encoded_resp(data.led_on, data.message@, data.ok),
{
    let mut out = match data.led_on {
        Some(true) => String::from_str("{\"ledOn\":true,"),
        Some(false) => String::from_str("{\"ledOn\":false,"),
        None => String::from_str("{"),
    };
    out.append("\"message\":\"");
    append_escaped(&mut out, data.message.as_str());
    out.append("\",\"ok\":");
    if data.ok {
        out.append("true");
    } else {
        out.append("false");
    }
    out.append("}");
    proof {
        assert(out@ =~= encoded_resp(data.led_on, data.message@, data.ok));
    }
    out
}

} // verus!
