//! Request body acquisition.
//!
//! The connection hands the caller a blocking byte stream; the caller reads
//! it and passes the outcomes here in order, as [`ReadEvent`]s.  The body is
//! assembled either by exact-length read (when the request declares a nonzero
//! `Content-Length`) or by draining the stream until it reports no more data.

use vstd::prelude::*;
use vstd::string::{StrSliceExecFns, StringSliceAdditionalSpecFns};
use vstd::utf8::{decode_utf8, valid_utf8};

use crate::json::parse_led_request;
use crate::types::{BodyError, ReqData};

verus! {

/// One outcome of a blocking read on the request's byte stream, in the order
/// delivered: a chunk of bytes (empty when the transport has no more data),
/// or a transport error.
#[derive(Debug, Clone)]
pub enum ReadEvent {
    Chunk(Vec<u8>),
    Failed,
}

/// The bytes a drain-until-closed reader obtains: the chunks concatenated in
/// order, up to the first empty chunk or transport error.  A mid-stream
/// error is deliberately not surfaced: the bytes read so far count as the
/// whole body, and the request goes on as if the stream had closed.
pub open spec fn drained_bytes(evs: Seq<ReadEvent>) -> Seq<u8>
    decreases evs.len(),
{
    if evs.len() == 0 {
        Seq::empty()
    } else {
        match evs[0] {
            ReadEvent::Chunk(d) => if d@.len() == 0 {
                Seq::<u8>::empty()
            } else {
                d@ + drained_bytes(evs.drop_first())
            },
            ReadEvent::Failed => Seq::empty(),
        }
    }
}

/// The body an exact-length read of `n` bytes obtains: the first `n` bytes
/// the stream delivers, or nothing when the stream ends or fails first.
pub open spec fn exact_bytes(evs: Seq<ReadEvent>, n: nat) -> Option<Seq<u8>> {
    if drained_bytes(evs).len() >= n {
        Some(drained_bytes(evs).take(n as int))
    } else {
        None
    }
}

/// The full body of a request whose length indicator is `declared_len`: an
/// exact-length read when the length is known and nonzero, a drain of the
/// stream otherwise.
pub open spec fn body_bytes(declared_len: nat, evs: Seq<ReadEvent>) -> Option<Seq<u8>> {
    if declared_len == 0 {
        Some(drained_bytes(evs))
    } else {
        exact_bytes(evs, declared_len)
    }
}

/// Whether an event ends a drain: an empty chunk (orderly close) or an error.
pub open spec fn ends_stream(ev: ReadEvent) -> bool {
    match ev {
        ReadEvent::Chunk(d) => d@.len() == 0,
        ReadEvent::Failed => true,
    }
}

proof fn lemma_drained_step(evs: Seq<ReadEvent>, i: int, d: Vec<u8>)
    requires
        0 <= i < evs.len(),
        evs[i] == ReadEvent::Chunk(d),
        d@.len() > 0,
    ensures
        drained_bytes(evs.skip(i)) == d@ + drained_bytes(evs.skip(i + 1)),
{
    assert(evs.skip(i)[0] == evs[i]);
    assert(evs.skip(i).drop_first() =~= evs.skip(i + 1));
}

proof fn lemma_drained_end(evs: Seq<ReadEvent>, i: int)
    requires
        0 <= i < evs.len(),
        ends_stream(evs[i]),
    ensures
        drained_bytes(evs.skip(i)) == Seq::<u8>::empty(),
{
    assert(evs.skip(i)[0] == evs[i]);
}

/// Appends the first `count` bytes of `data` to `buf`.
fn append_bytes(buf: &mut Vec<u8>, data: &Vec<u8>, count: usize)
    requires
        count <= data@.len(),
    ensures
        final(buf)@ == old(buf)@ + data@.take(count as int),
{
    let mut j: usize = 0;
    while j < count
        invariant
            j <= count,
            count <= data@.len(),
            buf@ == old(buf)@ + data@.take(j as int),
        decreases count - j,
    {
        buf.push(data[j]);
        proof {
            assert(buf@ =~= old(buf)@ + data@.take(j + 1));
        }
        j += 1;
    }
}

/// Drains the stream: concatenates non-empty chunks in order and stops at
/// the first empty chunk or transport error, which it does not surface.
pub fn read_streamed_body(events: &Vec<ReadEvent>) -> (body: Vec<u8>)
    ensures
        body@ == drained_bytes(events@),
{
    let mut buf: Vec<u8> = Vec::new();
    let mut i: usize = 0;
    proof {
        assert(events@.skip(0) =~= events@);
        assert(buf@ + drained_bytes(events@) =~= drained_bytes(events@));
    }
    while i < events.len()
        invariant_except_break
            i <= events@.len(),
            drained_bytes(events@) == buf@ + drained_bytes(events@.skip(i as int)),
        ensures
            buf@ == drained_bytes(events@),
        decreases events@.len() - i,
    {
        match &events[i] {
            ReadEvent::Chunk(d) => {
                if d.len() == 0 {
                    proof {
                        lemma_drained_end(events@, i as int);
                        assert(buf@ =~= buf@ + Seq::<u8>::empty());
                    }
                    break;
                }
                proof {
                    lemma_drained_step(events@, i as int, *d);
                    assert(d@.take(d@.len() as int) =~= d@);
                }
                let len = d.len();
                append_bytes(&mut buf, d, len);
                i += 1;
            },
            ReadEvent::Failed => {
                proof {
                    lemma_drained_end(events@, i as int);
                    assert(buf@ =~= buf@ + Seq::<u8>::empty());
                }
                break;
            },
        }
    }
    proof {
        if i == events@.len() {
            assert(events@.skip(i as int).len() == 0);
            assert(buf@ =~= buf@ + Seq::<u8>::empty());
        }
    }
    buf
}

/// Reads exactly `len` bytes from the stream.  A short stream — an orderly
/// close, a transport error, or simply too few bytes — fails the whole read
/// with an I/O error and returns no partial body.
pub fn read_exact_body(events: &Vec<ReadEvent>, len: usize) -> (r: Result<Vec<u8>, BodyError>)
    ensures
        match r {
            Ok(body) => exact_bytes(events@, len as nat) == Some(body@),
            Err(e) => e == BodyError::Io && exact_bytes(events@, len as nat) is None,
        },
{
    let mut buf: Vec<u8> = Vec::new();
    let mut i: usize = 0;
    proof {
        assert(events@.skip(0) =~= events@);
        assert(buf@ + drained_bytes(events@) =~= drained_bytes(events@));
    }
    while buf.len() < len
        invariant
            i <= events@.len(),
            buf@.len() <= len,
            drained_bytes(events@) == buf@ + drained_bytes(events@.skip(i as int)),
        decreases events@.len() - i,
    {
        if i == events.len() {
            proof {
                assert(events@.skip(i as int).len() == 0);
                assert(drained_bytes(events@) =~= buf@);
            }
            return Err(BodyError::Io);
        }
        match &events[i] {
            ReadEvent::Chunk(d) => {
                if d.len() == 0 {
                    proof {
                        lemma_drained_end(events@, i as int);
                        assert(drained_bytes(events@) =~= buf@);
                    }
                    return Err(BodyError::Io);
                }
                proof {
                    lemma_drained_step(events@, i as int, *d);
                }
                let need = len - buf.len();
                if d.len() >= need {
                    let ghost pre = buf@;
                    append_bytes(&mut buf, d, need);
                    proof {
                        assert(drained_bytes(events@).take(len as int) =~= pre
                            + d@.take(need as int));
                    }
                    return Ok(buf);
                } else {
                    let count = d.len();
                    proof {
                        assert(d@.take(count as int) =~= d@);
                    }
                    append_bytes(&mut buf, d, count);
                    proof {
                        assert(drained_bytes(events@) =~= buf@ + drained_bytes(
                            events@.skip(i + 1),
                        ));
                    }
                    i += 1;
                }
            },
            ReadEvent::Failed => {
                proof {
                    lemma_drained_end(events@, i as int);
                    assert(drained_bytes(events@) =~= buf@);
                }
                return Err(BodyError::Io);
            },
        }
    }
    proof {
        assert(buf@.len() == len);
        assert(drained_bytes(events@).take(len as int) =~= buf@);
    }
    Ok(buf)
}

/// Obtains the whole request body: an exact-length read when a nonzero
/// length was declared, a drain of the stream otherwise (which never fails).
pub fn read_body(declared_len: usize, events: &Vec<ReadEvent>) -> (r: Result<Vec<u8>, BodyError>)
    ensures
        match r {
            Ok(body) => body_bytes(declared_len as nat, events@) == Some(body@),
            Err(e) => e == BodyError::Io && body_bytes(declared_len as nat, events@) is None,
        },
{
    if declared_len > 0 {
        read_exact_body(events, declared_len)
    } else {
        Ok(read_streamed_body(events))
    }
}

/// Relies on `String::from_utf8` of std: it returns the decoded string
/// exactly when the bytes are valid UTF-8, and an error otherwise.
#[verifier::external_body]
fn string_from_utf8(bytes: Vec<u8>) -> (r: Option<String>)
    ensures
        r is Some <==> valid_utf8(bytes@),
        r matches Some(s) ==> s@ == decode_utf8(bytes@),
{
    String::from_utf8(bytes).ok()
}

/// Obtains the request body and decodes it as UTF-8 text.
pub fn read_to_string(declared_len: usize, events: &Vec<ReadEvent>) -> (r: Result<
    String,
    BodyError,
>)
    ensures
        ({
            let body = body_bytes(declared_len as nat, events@);
            match r {
                Ok(s) => body matches Some(b) && valid_utf8(b) && s@ == decode_utf8(b),
                Err(BodyError::Io) => body is None,
                Err(BodyError::Decode) => body matches Some(b) && !valid_utf8(b),
                Err(BodyError::Parse) => false,
            }
        }),
{
    let bytes = match read_body(declared_len, events) {
        Ok(b) => b,
        Err(e) => {
            return Err(e);
        },
    };
    match string_from_utf8(bytes) {
        Some(s) => Ok(s),
        None => Err(BodyError::Decode),
    }
}

/// Obtains the request body and parses it as a typed toggle request.
pub fn read_to_json(declared_len: usize, events: &Vec<ReadEvent>) -> (r: Result<
    ReqData,
    BodyError,
>)
    ensures
        ({
            let body = body_bytes(declared_len as nat, events@);
            match r {
                Ok(d) => body matches Some(b) && parse_led_request(b) == Some(d.led_on),
                Err(BodyError::Io) => body is None,
                Err(BodyError::Parse) => body matches Some(b) && parse_led_request(b) is None,
                Err(BodyError::Decode) => false,
            }
        }),
{
    let bytes = match read_body(declared_len, events) {
        Ok(b) => b,
        Err(e) => {
            return Err(e);
        },
    };
    match crate::json::parse_toggle_request(&bytes) {
        Some(d) => Ok(d),
        None => Err(BodyError::Parse),
    }
}

// ---------------------------------------------------------------------------
// The declared length.
// ---------------------------------------------------------------------------
/// A decimal digit byte.
pub open spec fn is_digit(b: u8) -> bool {
    0x30 <= b <= 0x39
}

/// Whether a run of bytes holds digits only.
pub open spec fn all_digits(s: Seq<u8>) -> bool {
    forall|k: int| 0 <= k < s.len() ==> is_digit(#[trigger] s[k])
}

/// The numeric value of a run of digit bytes, most significant first.
pub open spec fn digits_value(s: Seq<u8>) -> int
    decreases s.len(),
{
    if s.len() == 0 {
        0
    } else {
        digits_value(s.drop_last()) * 10 + (s.last() - 0x30)
    }
}

/// The byte count a length header declares: an optional leading plus sign,
/// then decimal digits whose value fits the machine word.  Anything else —
/// an empty value, another character, too large a number — counts as zero,
/// meaning the length is unknown.
pub open spec fn parsed_content_length(s: Seq<u8>) -> int {
    let t = if s.len() > 0 && s[0] == 0x2b {
        s.drop_first()
    } else {
        s
    };
    if t.len() > 0 && all_digits(t) && digits_value(t) <= usize::MAX {
        digits_value(t)
    } else {
        0
    }
}

proof fn lemma_digits_value_nonneg(s: Seq<u8>)
    requires
        all_digits(s),
    ensures
        digits_value(s) >= 0,
    decreases s.len(),
{
    if s.len() > 0 {
        assert(all_digits(s.drop_last()));
        lemma_digits_value_nonneg(s.drop_last());
    }
}

proof fn lemma_digits_value_prefix(s: Seq<u8>, i: int)
    requires
        all_digits(s),
        0 <= i <= s.len(),
    ensures
        digits_value(s.take(i)) <= digits_value(s),
    decreases s.len() - i,
{
    if i < s.len() {
        assert(s.take(i + 1).drop_last() =~= s.take(i));
        assert(s.take(i + 1).last() == s[i]);
        assert(all_digits(s.take(i)));
        lemma_digits_value_nonneg(s.take(i));
        lemma_digits_value_prefix(s, i + 1);
    } else {
        assert(s.take(i) =~= s);
    }
}

/// Reads the length a request declares: the value of its `Content-Length`
/// header, zero when the header is absent, malformed or too large for the
/// machine word.  Zero means the body's length is unknown and the stream is
/// drained instead.
pub fn content_length(header: Option<&str>) -> (n: usize)
    ensures
        n as int == match header {
            Some(h) => parsed_content_length(h.spec_bytes()),
            None => 0,
        },
{
    let h = match header {
        Some(h) => h,
        None => {
            return 0;
        },
    };
    let bs = h.as_bytes_vec();
    let start: usize = if bs.len() > 0 && bs[0] == 0x2b {
        1
    } else {
        0
    };
    let ghost t = if bs@.len() > 0 && bs@[0] == 0x2b {
        bs@.drop_first()
    } else {
        bs@
    };
    proof {
        assert(t =~= bs@.skip(start as int));
    }
    if start == bs.len() {
        return 0;
    }
    let mut acc: usize = 0;
    let mut i = start;
    proof {
        assert(t.take(0) =~= Seq::<u8>::empty());
    }
    #[verifier::loop_isolation(false)]
    while i < bs.len()
        invariant
            start <= i <= bs@.len(),
            all_digits(t.take(i - start)),
            acc as int == digits_value(t.take(i - start)),
        decreases bs@.len() - i,
    {
        let b = bs[i];
        proof {
            assert(t[i - start] == bs@[i as int]);
        }
        if b < 0x30 || b > 0x39 {
            assert(!all_digits(t));
            return 0;
        }
        let d = (b - 0x30) as usize;
        proof {
            assert(t.take(i - start + 1).drop_last() =~= t.take(i - start));
            assert(t.take(i - start + 1).last() == t[i - start]);
            vstd::arithmetic::div_mod::lemma_fundamental_div_mod(usize::MAX as int, 10);
            vstd::arithmetic::div_mod::lemma_mod_division_less_than_divisor(usize::MAX as int, 10);
        }
        if acc > usize::MAX / 10 || (acc == usize::MAX / 10 && d > usize::MAX % 10) {
            proof {
                if all_digits(t) {
                    lemma_digits_value_prefix(t, i - start + 1);
                }
            }
            return 0;
        }
        acc = acc * 10 + d;
        i += 1;
    }
    proof {
        assert(t.take(i - start) =~= t);
    }
    acc
}

// ---------------------------------------------------------------------------
// Laws of body acquisition.
// ---------------------------------------------------------------------------
/// The payload of an event: a chunk's bytes, nothing for an error.
pub open spec fn chunk_data(ev: ReadEvent) -> Seq<u8> {
    match ev {
        ReadEvent::Chunk(d) => d@,
        ReadEvent::Failed => Seq::empty(),
    }
}

/// Whether an event is a read that delivered bytes.
pub open spec fn is_data_chunk(ev: ReadEvent) -> bool {
    match ev {
        ReadEvent::Chunk(d) => d@.len() > 0,
        ReadEvent::Failed => false,
    }
}

/// The payloads of a run of events, concatenated in order.
pub open spec fn concat_chunks(evs: Seq<ReadEvent>) -> Seq<u8>
    decreases evs.len(),
{
    if evs.len() == 0 {
        Seq::empty()
    } else {
        chunk_data(evs[0]) + concat_chunks(evs.drop_first())
    }
}

/// Law: an exact-length read of `n` bytes returns precisely the first `n`
/// bytes the stream delivers, however the transport chunks them; a stream
/// that ends or fails before `n` bytes yields no body at all.
pub proof fn law_exact_length_read(evs: Seq<ReadEvent>, n: nat)
    ensures
        drained_bytes(evs).len() == n ==> exact_bytes(evs, n) == Some(drained_bytes(evs)),
        drained_bytes(evs).len() < n ==> exact_bytes(evs, n) is None,
{
    if drained_bytes(evs).len() == n {
        assert(drained_bytes(evs).take(n as int) =~= drained_bytes(evs));
    }
}

/// Law: bytes delivered across any number of non-empty reads, closed by a
/// terminating empty read or a transport error, concatenate in order into
/// the body the drain obtains.
pub proof fn law_streamed_reads_concatenate(evs: Seq<ReadEvent>)
    requires
        evs.len() > 0,
        forall|i: int| 0 <= i < evs.len() - 1 ==> is_data_chunk(#[trigger] evs[i]),
        ends_stream(evs.last()),
    ensures
        drained_bytes(evs) == concat_chunks(evs.take(evs.len() - 1)),
    decreases evs.len(),
{
    if evs.len() == 1 {
        assert(drained_bytes(evs) == Seq::<u8>::empty());
        assert(evs.take(0) =~= Seq::<ReadEvent>::empty());
    } else {
        assert(is_data_chunk(evs[0]));
        let rest = evs.drop_first();
        assert(rest.last() == evs.last());
        assert(forall|i: int| 0 <= i < rest.len() - 1 ==> is_data_chunk(#[trigger] rest[i]));
        law_streamed_reads_concatenate(rest);
        assert(evs.take(evs.len() - 1)[0] == evs[0]);
        assert(evs.take(evs.len() - 1).drop_first() =~= rest.take(rest.len() - 1));
    }
}

} // verus!
