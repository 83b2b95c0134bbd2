//! The wire codec: the length-framed binary encoding of a log record and
//! its decoder, with the per-datagram entry point of the receiver.
//!
//! A datagram is a 4-byte little-endian length prefix (advisory only; never
//! validated against the payload) followed by the record encoding. A record
//! is, in order: the module text, the severity as a 32-bit little-endian
//! code (declaration order, starting at zero), the message text, and the
//! timestamp text. Each text field is its UTF-8 byte length as a 64-bit
//! little-endian integer followed by the UTF-8 bytes themselves. Bytes after
//! a complete record are ignored.
use vstd::prelude::*;
use vstd::bytes::*;
use vstd::slice::slice_subrange;
use vstd::utf8::{decode_utf8, encode_utf8, valid_utf8};
use crate::record::{Message, MessageModel, MessageType};

verus! {

/// Why a datagram failed to decode into a record.
#[derive(Clone, Copy, PartialEq, Eq, Debug)]
pub enum DecodeError {
    /// The bytes end before a complete record (a missing header, or a
    /// length prefix that claims more bytes than were received).
    Truncated,
    /// The severity code is outside the four known values.
    BadSeverity,
    /// A text field is not valid UTF-8.
    InvalidUtf8,
}

/// What the error reporting prints for each decode failure.
pub open spec fn error_text(e: DecodeError) -> Seq<char> {
    match e {
        DecodeError::Truncated => "record is truncated"@,
        DecodeError::BadSeverity => "severity code out of range"@,
        DecodeError::InvalidUtf8 => "text field is not valid UTF-8"@,
    }
}

impl DecodeError {
    /// A short diagnostic for the operator-visible error channel.
    pub fn describe(&self) -> (s: &'static str)
        ensures
            s@ == error_text(*self),
    {
        match self {
            DecodeError::Truncated => "record is truncated",
            DecodeError::BadSeverity => "severity code out of range",
            DecodeError::InvalidUtf8 => "text field is not valid UTF-8",
        }
    }
}

/// The wire code of each severity: declaration order, starting at zero.
pub open spec fn severity_code(t: MessageType) -> u32 {
    match t {
        MessageType::Normal => 0,
        MessageType::Error => 1,
        MessageType::Warning => 2,
        MessageType::Debug => 3,
    }
}

/// The severity a wire code stands for.
pub open spec fn severity_of_code(d: u32) -> MessageType
    recommends
        d <= 3,
{
    if d == 0 {
        MessageType::Normal
    } else if d == 1 {
        MessageType::Error
    } else if d == 2 {
        MessageType::Warning
    } else {
        MessageType::Debug
    }
}

/// The encoding of one text field: UTF-8 byte length as u64 LE, then the
/// UTF-8 bytes.
pub open spec fn text_field_bytes(s: Seq<char>) -> Seq<u8> {
    spec_u64_to_le_bytes(encode_utf8(s).len() as u64) + encode_utf8(s)
}

/// The encoding of a whole record: module, severity code, message text,
/// timestamp, in that order.
pub open spec fn record_bytes(m: MessageModel) -> Seq<u8> {
    text_field_bytes(m.module) + spec_u32_to_le_bytes(severity_code(m.msg_type)) + text_field_bytes(
        m.string,
    ) + text_field_bytes(m.time)
}

/// A full datagram: the 4-byte little-endian payload length, then the
/// record encoding.
pub open spec fn datagram_bytes(m: MessageModel) -> Seq<u8> {
    spec_u32_to_le_bytes(record_bytes(m).len() as u32) + record_bytes(m)
}

/// The declared byte length of the text field whose length prefix starts
/// at `off`.
pub open spec fn field_len(b: Seq<u8>, off: int) -> int {
    spec_u64_from_le_bytes(b.subrange(off, off + 8)) as int
}

/// Whether a complete text field (length prefix and declared bytes) lies
/// at `off`.
pub open spec fn field_fits(b: Seq<u8>, off: int) -> bool {
    &&& off + 8 <= b.len()
    &&& off + 8 + field_len(b, off) <= b.len()
}

/// The bytes of the text field whose length prefix starts at `off`.
pub open spec fn field_bytes(b: Seq<u8>, off: int) -> Seq<u8> {
    b.subrange(off + 8, off + 8 + field_len(b, off))
}

/// The offset just past the text field that starts at `off`.
pub open spec fn field_end(b: Seq<u8>, off: int) -> int {
    off + 8 + field_len(b, off)
}

/// The byte-level shape of a record payload: either a structural failure,
/// or the three raw text fields and the severity. UTF-8 validity of the
/// text fields is judged separately.
pub enum WireShape {
    /// The bytes end before a complete record.
    Truncated,
    /// The severity code is outside the four known values.
    BadSeverity,
    /// A complete record: the raw bytes of each text field and the severity.
    Fields { module: Seq<u8>, severity: MessageType, text: Seq<u8>, time: Seq<u8> },
}

/// Parse the byte-level shape of a record payload. Trailing bytes after a
/// complete record are ignored.
pub open spec fn parse_wire(b: Seq<u8>) -> WireShape {
    if !field_fits(b, 0) {
        WireShape::Truncated
    } else {
        let o_sev = field_end(b, 0);
        if o_sev + 4 > b.len() {
            WireShape::Truncated
        } else {
            let d = spec_u32_from_le_bytes(b.subrange(o_sev, o_sev + 4));
            if d > 3 {
                WireShape::BadSeverity
            } else if !field_fits(b, o_sev + 4) {
                WireShape::Truncated
            } else {
                let o_time = field_end(b, o_sev + 4);
                if !field_fits(b, o_time) {
                    WireShape::Truncated
                } else {
                    WireShape::Fields {
                        module: field_bytes(b, 0),
                        severity: severity_of_code(d),
                        text: field_bytes(b, o_sev + 4),
                        time: field_bytes(b, o_time),
                    }
                }
            }
        }
    }
}

/// The exact decode contract: what `decode_record` returns for a payload
/// `b`, for every possible `b`.
pub open spec fn decodes_to(b: Seq<u8>, r: Result<Message, DecodeError>) -> bool {
    match parse_wire(b) {
        WireShape::Truncated => r == Err::<Message, DecodeError>(DecodeError::Truncated),
        WireShape::BadSeverity => r == Err::<Message, DecodeError>(DecodeError::BadSeverity),
        WireShape::Fields { module, severity, text, time } => {
            if valid_utf8(module) && valid_utf8(text) && valid_utf8(time) {
                &&& r matches Ok(m)
                &&& m.module@ == decode_utf8(module)
                &&& m.msg_type == severity
                &&& m.string@ == decode_utf8(text)
                &&& m.time@ == decode_utf8(time)
            } else {
                r == Err::<Message, DecodeError>(DecodeError::InvalidUtf8)
            }
        },
    }
}

/// Relies on `String::from_utf8`: it returns `Ok` exactly on UTF-8-valid
/// byte sequences, and then the string whose UTF-8 encoding is the input.
#[verifier::external_body]
fn bytes_to_string(b: &[u8]) -> (r: Option<String>)
    ensures
        r matches Some(s) ==> valid_utf8(b@) && s@ == decode_utf8(b@),
        r is None ==> !valid_utf8(b@),
{
    match String::from_utf8(b.to_vec()) {
        Ok(s) => Some(s),
        Err(_) => None,
    }
}

/// Decode a record payload (the datagram bytes after the 4-byte prefix).
/// Total over arbitrary bytes; `decodes_to` pins the result exactly.
pub fn decode_record(b: &[u8]) -> (r: Result<Message, DecodeError>)
    ensures
        decodes_to(b@, r),
{
    let n = b.len();
    if n < 8 {
        return Err(DecodeError::Truncated);
    }
    let m_len64 = u64_from_le_bytes(slice_subrange(b, 0, 8));
    if m_len64 > (n - 8) as u64 {
        return Err(DecodeError::Truncated);
    }
    let m_len = m_len64 as usize;
    let o_sev = 8 + m_len;
    assert(field_fits(b@, 0) && field_end(b@, 0) == o_sev);
    if n - o_sev < 4 {
        return Err(DecodeError::Truncated);
    }
    let d = u32_from_le_bytes(slice_subrange(b, o_sev, o_sev + 4));
    if d > 3 {
        return Err(DecodeError::BadSeverity);
    }
    let o_text = o_sev + 4;
    if n - o_text < 8 {
        assert(!field_fits(b@, o_text as int));
        return Err(DecodeError::Truncated);
    }
    let t_len64 = u64_from_le_bytes(slice_subrange(b, o_text, o_text + 8));
    if t_len64 > (n - o_text - 8) as u64 {
        return Err(DecodeError::Truncated);
    }
    let t_len = t_len64 as usize;
    let o_time = o_text + 8 + t_len;
    assert(field_fits(b@, o_text as int) && field_end(b@, o_text as int) == o_time);
    if n - o_time < 8 {
        assert(!field_fits(b@, o_time as int));
        return Err(DecodeError::Truncated);
    }
    let s_len64 = u64_from_le_bytes(slice_subrange(b, o_time, o_time + 8));
    if s_len64 > (n - o_time - 8) as u64 {
        return Err(DecodeError::Truncated);
    }
    let s_len = s_len64 as usize;
    assert(field_fits(b@, o_time as int));
    let module = match bytes_to_string(slice_subrange(b, 8, o_sev)) {
        Some(s) => s,
        None => {
            return Err(DecodeError::InvalidUtf8);
        },
    };
    let text = match bytes_to_string(slice_subrange(b, o_text + 8, o_time)) {
        Some(s) => s,
        None => {
            return Err(DecodeError::InvalidUtf8);
        },
    };
    let time = match bytes_to_string(slice_subrange(b, o_time + 8, o_time + 8 + s_len)) {
        Some(s) => s,
        None => {
            return Err(DecodeError::InvalidUtf8);
        },
    };
    let msg_type = if d == 0 {
        MessageType::Normal
    } else if d == 1 {
        MessageType::Error
    } else if d == 2 {
        MessageType::Warning
    } else {
        MessageType::Debug
    };
    Ok(Message { module, msg_type, string: text, time })
}

/// Append one encoded text field to the output buffer.
fn push_text_field(out: &mut Vec<u8>, s: &String)
    ensures
        final(out)@ == old(out)@ + text_field_bytes(s@),
{
    let bytes: &[u8] = s.as_str().as_bytes();
    let len64: u64 = bytes.len() as u64;
    let mut prefix = u64_to_le_bytes(len64);
    out.append(&mut prefix);
    out.extend_from_slice(bytes);
    proof {
        assert(out@ =~= old(out)@ + text_field_bytes(s@));
    }
}

/// Encode a record as its wire payload (without the datagram prefix).
pub fn encode_record(m: &Message) -> (out: Vec<u8>)
    ensures
        out@ == record_bytes(m@),
{
    let mut out: Vec<u8> = Vec::new();
    push_text_field(&mut out, &m.module);
    let code: u32 = match m.msg_type {
        MessageType::Normal => 0,
        MessageType::Error => 1,
        MessageType::Warning => 2,
        MessageType::Debug => 3,
    };
    let mut code_bytes = u32_to_le_bytes(code);
    out.append(&mut code_bytes);
    push_text_field(&mut out, &m.string);
    push_text_field(&mut out, &m.time);
    proof {
        assert(out@ =~= record_bytes(m@));
    }
    out
}

/// Encode a record as a complete datagram: the 4-byte little-endian payload
/// length, then the payload. `None` exactly when the payload is too long
/// for the 32-bit prefix.
pub fn encode_datagram(m: &Message) -> (r: Option<Vec<u8>>)
    ensures
        record_bytes(m@).len() <= u32::MAX ==> (r matches Some(v) && v@ == datagram_bytes(m@)),
        record_bytes(m@).len() > u32::MAX ==> r is None,
{
    let payload = encode_record(m);
    if payload.len() > u32::MAX as usize {
        return None;
    }
    let n32: u32 = payload.len() as u32;
    let mut out = u32_to_le_bytes(n32);
    let mut payload = payload;
    out.append(&mut payload);
    proof {
        assert(out@ =~= datagram_bytes(m@));
    }
    Some(out)
}

/// The encoding of a record parses back to its own fields: for any record
/// and any trailing bytes, the byte-level parse of the encoding recovers
/// the three UTF-8 field encodings and the severity exactly.
pub proof fn lemma_parse_record_bytes(m: MessageModel, extra: Seq<u8>)
    requires
        encode_utf8(m.module).len() <= u64::MAX,
        encode_utf8(m.string).len() <= u64::MAX,
        encode_utf8(m.time).len() <= u64::MAX,
    ensures
        parse_wire(record_bytes(m) + extra) == (WireShape::Fields {
            module: encode_utf8(m.module),
            severity: m.msg_type,
            text: encode_utf8(m.string),
            time: encode_utf8(m.time),
        }),
{
    lemma_auto_spec_u64_to_from_le_bytes();
    lemma_auto_spec_u32_to_from_le_bytes();
    let eb_m = encode_utf8(m.module);
    let eb_s = encode_utf8(m.string);
    let eb_t = encode_utf8(m.time);
    let b = record_bytes(m) + extra;
    assert(b.subrange(0, 8) =~= spec_u64_to_le_bytes(eb_m.len() as u64));
    assert(field_len(b, 0) == eb_m.len());
    assert(field_fits(b, 0));
    assert(field_bytes(b, 0) =~= eb_m);
    let o_sev = field_end(b, 0);
    assert(b.subrange(o_sev, o_sev + 4) =~= spec_u32_to_le_bytes(severity_code(m.msg_type)));
    assert(severity_of_code(spec_u32_from_le_bytes(b.subrange(o_sev, o_sev + 4))) == m.msg_type);
    let o_text = o_sev + 4;
    assert(b.subrange(o_text, o_text + 8) =~= spec_u64_to_le_bytes(eb_s.len() as u64));
    assert(field_len(b, o_text) == eb_s.len());
    assert(field_fits(b, o_text));
    assert(field_bytes(b, o_text) =~= eb_s);
    let o_time = field_end(b, o_text);
    assert(b.subrange(o_time, o_time + 8) =~= spec_u64_to_le_bytes(eb_t.len() as u64));
    assert(field_len(b, o_time) == eb_t.len());
    assert(field_fits(b, o_time));
    assert(field_bytes(b, o_time) =~= eb_t);
}

/// Round trip at the payload level: whatever `decode_record` returns on the
/// encoding of a record (with any trailing bytes) is `Ok`, and the decoded
/// record's fields equal the original's.
pub proof fn lemma_record_round_trip(m: MessageModel, extra: Seq<u8>, r: Result<
    Message,
    DecodeError,
>)
    requires
        encode_utf8(m.module).len() <= u64::MAX,
        encode_utf8(m.string).len() <= u64::MAX,
        encode_utf8(m.time).len() <= u64::MAX,
        decodes_to(record_bytes(m) + extra, r),
    ensures
        r matches Ok(d) && d@.module == m.module && d@.msg_type == m.msg_type && d@.string
            == m.string && d@.time == m.time,
{
    broadcast use vstd::utf8::encode_utf8_valid_utf8, vstd::utf8::encode_utf8_decode_utf8;

    lemma_parse_record_bytes(m, extra);
}

/// Round trip at the datagram level: whatever `handle_datagram` returns on
/// a complete framed datagram of a record is `Ok` with the original fields.
pub proof fn lemma_datagram_round_trip(m: MessageModel, r: Result<Message, DecodeError>)
    requires
        record_bytes(m).len() <= u32::MAX,
        decodes_to(datagram_bytes(m).skip(4), r),
    ensures
        r matches Ok(d) && d@.module == m.module && d@.msg_type == m.msg_type && d@.string
            == m.string && d@.time == m.time,
{
    lemma_auto_spec_u32_to_from_le_bytes();
    assert(datagram_bytes(m).skip(4) =~= record_bytes(m) + Seq::<u8>::empty());
    assert(encode_utf8(m.module).len() <= record_bytes(m).len());
    assert(encode_utf8(m.string).len() <= record_bytes(m).len());
    assert(encode_utf8(m.time).len() <= record_bytes(m).len());
    lemma_record_round_trip(m, Seq::<u8>::empty(), r);
}

/// One receiver iteration's decode step: take the bytes actually received
/// for one datagram, skip the 4-byte declared-length prefix (advisory only,
/// never validated), and decode the rest. Total over arbitrary bytes.
pub fn handle_datagram(buf: &[u8]) -> (r: Result<Message, DecodeError>)
    ensures
        buf@.len() < 4 ==> r == Err::<Message, DecodeError>(DecodeError::Truncated),
        buf@.len() >= 4 ==> decodes_to(buf@.skip(4), r),
{
    if buf.len() < 4 {
        return Err(DecodeError::Truncated);
    }
    let r = decode_record(slice_subrange(buf, 4, buf.len()));
    proof {
        assert(buf@.skip(4) =~= buf@.subrange(4, buf@.len() as int));
    }
    r
}

} // verus!

