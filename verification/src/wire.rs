//! The binary wire form of the protocol messages.
//!
//! Integers travel as base-128 varints — seven value bits per byte, least
//! significant group first, the high bit marking continuation — and text
//! travels as a varint byte length followed by the UTF-8 bytes. Every
//! message is a fixed sequence of tagged fields, always present and in
//! declaration order; `parse` functions are the exact inverses of the
//! `bytes` functions, and the round trip is proved.

use vstd::prelude::*;

verus! {

use vstd::utf8::{valid_utf8, decode_utf8, encode_utf8};
use crate::protocol::{
    DescribeResponse,
    ExecuteRequest,
    ExecuteResponse,
    ExecuteStatus,
    Language,
    RegisterRequest,
    RegisterResponse,
};

/// Relies on `String::from_utf8`: it succeeds exactly on valid UTF-8 input
/// and returns the string those bytes encode.
#[verifier::external_body]
pub(crate) fn bytes_to_string(bytes: Vec<u8>) -> (r: Option<String>)
    ensures
        r is Some <==> valid_utf8(bytes@),
        r matches Some(s) ==> s@ == decode_utf8(bytes@),
{
    String::from_utf8(bytes).ok()
}

/// The varint encoding of `x`.
pub open spec fn varint_bytes(x: nat) -> Seq<u8>
    decreases x,
{
    if x < 128 {
        seq![x as u8]
    } else {
        seq![(x % 128 + 128) as u8] + varint_bytes(x / 128)
    }
}

/// What a byte sequence starts with, read as a varint: the value and how
/// many bytes it took, or nothing when the input ends inside the number.
pub open spec fn varint_parse(s: Seq<u8>) -> Option<(nat, int)>
    decreases s.len(),
{
    if s.len() == 0 {
        None
    } else if s[0] < 128 {
        Some(((s[0] as nat), 1int))
    } else {
        match varint_parse(s.skip(1)) {
            Some(p) => Some(((s[0] - 128 + 128 * p.0) as nat, p.1 + 1)),
            None => None,
        }
    }
}

/// A parsed varint consumes at least one byte and no more than there are.
pub proof fn lemma_varint_parse_consumed(s: Seq<u8>)
    ensures
        varint_parse(s) matches Some(p) ==> 1 <= p.1 <= s.len(),
    decreases s.len(),
{
    if s.len() > 0 && s[0] >= 128 {
        lemma_varint_parse_consumed(s.skip(1));
    }
}

/// Reading back an encoded varint yields the encoded value and consumes
/// exactly its bytes, whatever follows them.
pub proof fn lemma_varint_round_trip(x: nat, rest: Seq<u8>)
    ensures
        varint_parse(varint_bytes(x) + rest) == Some((x, varint_bytes(x).len() as int)),
    decreases x,
{
    let s = varint_bytes(x) + rest;
    if x < 128 {
        assert(s[0] == x as u8);
    } else {
        lemma_varint_round_trip(x / 128, rest);
        assert(s.skip(1) =~= varint_bytes(x / 128) + rest);
        assert(s[0] == (x % 128 + 128) as u8);
        assert(x % 128 + 128 * (x / 128) == x) by {
            vstd::arithmetic::div_mod::lemma_fundamental_div_mod(x as int, 128);
        }
    }
}

/// Appends the varint encoding of `x`.
pub fn encode_varint(x: u64, out: &mut Vec<u8>)
    ensures
        final(out)@ =~= old(out)@ + varint_bytes(x as nat),
    decreases x,
{
    if x < 128 {
        out.push(x as u8);
    } else {
        out.push((x % 128 + 128) as u8);
        encode_varint(x / 128, out);
    }
}

/// Reads one varint starting at `pos`: the value and the position just
/// past it. Fails exactly when the input ends inside the number or the
/// value does not fit in 64 bits.
pub fn decode_varint(input: &[u8], pos: usize) -> (r: Option<(u64, usize)>)
    requires
        pos <= input@.len(),
    ensures
        r is Some <==> (varint_parse(input@.skip(pos as int)) matches Some(p) && p.0 <= u64::MAX),
        r matches Some(pr) ==> pos < pr.1 <= input@.len() && varint_parse(input@.skip(pos as int))
            == Some((pr.0 as nat, pr.1 - pos as int)),
    decreases input@.len() - pos,
{
    if pos == input.len() {
        return None;
    }
    let b = input[pos];
    if b < 128 {
        return Some((b as u64, pos + 1));
    }
    proof {
        assert(input@.skip(pos as int).skip(1) =~= input@.skip(pos as int + 1));
    }
    match decode_varint(input, pos + 1) {
        None => None,
        Some((v, next)) => {
            if v <= (u64::MAX - (b - 128) as u64) / 128 {
                Some(((b - 128) as u64 + 128 * v, next))
            } else {
                None
            }
        },
    }
}

/// The wire form of a byte string: its length as a varint, then the bytes.
pub open spec fn len_delim_bytes(b: Seq<u8>) -> Seq<u8> {
    varint_bytes(b.len()) + b
}

/// What a byte sequence starts with, read as a length-delimited byte
/// string: the contents and how many bytes the whole field took.
pub open spec fn len_delim_parse(s: Seq<u8>) -> Option<(Seq<u8>, int)> {
    match varint_parse(s) {
        Some(p) => if p.1 + p.0 <= s.len() {
            Some((s.subrange(p.1, p.1 + p.0), p.1 + p.0))
        } else {
            None
        },
        None => None,
    }
}

/// Reading back an encoded byte string yields its contents and consumes
/// exactly its bytes.
pub proof fn lemma_len_delim_round_trip(b: Seq<u8>, rest: Seq<u8>)
    ensures
        len_delim_parse(len_delim_bytes(b) + rest) == Some((b, len_delim_bytes(b).len() as int)),
{
    lemma_varint_round_trip(b.len(), b + rest);
    let s = len_delim_bytes(b) + rest;
    assert(s =~= varint_bytes(b.len()) + (b + rest));
    let n = varint_bytes(b.len()).len() as int;
    assert(s.subrange(n, n + b.len()) =~= b);
}

/// Appends all of `b`.
fn append_bytes(out: &mut Vec<u8>, b: &[u8])
    ensures
        final(out)@ =~= old(out)@ + b@,
{
    let mut i: usize = 0;
    while i < b.len()
        invariant
            i <= b@.len(),
            out@ =~= old(out)@ + b@.take(i as int),
        decreases b@.len() - i,
    {
        out.push(b[i]);
        i = i + 1;
    }
    assert(b@.take(b@.len() as int) =~= b@);
}

/// The bytes of `input` from `from` up to `to`, as their own vector.
fn copy_range(input: &[u8], from: usize, to: usize) -> (r: Vec<u8>)
    requires
        from <= to <= input@.len(),
    ensures
        r@ =~= input@.subrange(from as int, to as int),
{
    let mut r: Vec<u8> = Vec::new();
    let mut i: usize = from;
    while i < to
        invariant
            from <= i <= to <= input@.len(),
            r@ =~= input@.subrange(from as int, i as int),
        decreases to - i,
    {
        r.push(input[i]);
        assert(r@ =~= input@.subrange(from as int, i as int).push(input@[i as int]));
        i = i + 1;
    }
    r
}

/// Appends the wire form of the byte string `b`.
pub fn encode_len_delim(b: &[u8], out: &mut Vec<u8>)
    ensures
        final(out)@ =~= old(out)@ + len_delim_bytes(b@),
{
    let len = b.len();
    encode_varint(len as u64, out);
    append_bytes(out, b);
}

/// Reads one length-delimited byte string starting at `pos`: its contents
/// and the position just past it. Fails exactly when the input ends
/// before the announced length is over.
pub fn decode_len_delim(input: &[u8], pos: usize) -> (r: Option<(Vec<u8>, usize)>)
    requires
        pos <= input@.len(),
    ensures
        r is Some <==> len_delim_parse(input@.skip(pos as int)) is Some,
        r matches Some(pr) ==> pos < pr.1 <= input@.len() && len_delim_parse(
            input@.skip(pos as int),
        ) == Some((pr.0@, pr.1 - pos as int)),
{
    let ilen: usize = input.len();
    match decode_varint(input, pos) {
        None => {
            proof {
                if varint_parse(input@.skip(pos as int)) is Some {
                    // the announced length alone already exceeds the input
                    let p = varint_parse(input@.skip(pos as int)).unwrap();
                    lemma_varint_parse_consumed(input@.skip(pos as int));
                    assert(p.0 > u64::MAX);
                    assert(input@.skip(pos as int).len() <= ilen <= u64::MAX);
                    assert(p.1 + p.0 > input@.skip(pos as int).len());
                }
            }
            None
        },
        Some((len, next)) => {
            let remaining = ilen - next;
            if len <= remaining as u64 {
                let end = next + len as usize;
                let contents = copy_range(input, next, end);
                proof {
                    let s = input@.skip(pos as int);
                    assert(s.subrange(
                        next - pos as int,
                        next - pos as int + len as int,
                    ) =~= input@.subrange(next as int, next as int + len as int));
                }
                Some((contents, end))
            } else {
                proof {
                    let s = input@.skip(pos as int);
                    let p = varint_parse(s).unwrap();
                    assert(p.1 + p.0 > s.len());
                }
                None
            }
        },
    }
}

/// The wire form of one text field: its tag byte, then the UTF-8 bytes of
/// the text, length-delimited.
pub open spec fn string_field_bytes(tag: u8, s: Seq<char>) -> Seq<u8> {
    seq![tag] + len_delim_bytes(encode_utf8(s))
}

/// What a byte sequence starts with, read as a text field under `tag`:
/// the text and how many bytes the field took. Bytes that are not valid
/// UTF-8 are a fatal decode error, not a partial result.
pub open spec fn string_field_parse(tag: u8, s: Seq<u8>) -> Option<(Seq<char>, int)> {
    if s.len() == 0 || s[0] != tag {
        None
    } else {
        match len_delim_parse(s.skip(1)) {
            Some(p) => if valid_utf8(p.0) {
                Some((decode_utf8(p.0), p.1 + 1))
            } else {
                None
            },
            None => None,
        }
    }
}

/// Reading back an encoded text field yields the text and consumes
/// exactly the field's bytes.
pub proof fn lemma_string_field_round_trip(tag: u8, s: Seq<char>, rest: Seq<u8>)
    ensures
        string_field_parse(tag, string_field_bytes(tag, s) + rest) == Some((
            s,
            string_field_bytes(tag, s).len() as int,
        )),
{
    broadcast use vstd::utf8::encode_utf8_valid_utf8;
    broadcast use vstd::utf8::encode_utf8_decode_utf8;

    lemma_len_delim_round_trip(encode_utf8(s), rest);
    assert((string_field_bytes(tag, s) + rest).skip(1) =~= len_delim_bytes(encode_utf8(s))
        + rest);
}

/// Appends the wire form of the text field `s` under `tag`.
pub fn encode_string_field(tag: u8, s: &str, out: &mut Vec<u8>)
    ensures
        final(out)@ =~= old(out)@ + string_field_bytes(tag, s@),
{
    out.push(tag);
    encode_len_delim(s.as_bytes(), out);
}

/// Reads one text field under `tag` starting at `pos`: the text and the
/// position just past it.
pub fn decode_string_field(tag: u8, input: &[u8], pos: usize) -> (r: Option<(String, usize)>)
    requires
        pos <= input@.len(),
    ensures
        r is Some <==> string_field_parse(tag, input@.skip(pos as int)) is Some,
        r matches Some(pr) ==> pos < pr.1 <= input@.len() && string_field_parse(
            tag,
            input@.skip(pos as int),
        ) == Some((pr.0@, pr.1 - pos as int)),
{
    if pos == input.len() {
        return None;
    }
    if input[pos] != tag {
        return None;
    }
    proof {
        assert(input@.skip(pos as int).skip(1) =~= input@.skip(pos as int + 1));
    }
    match decode_len_delim(input, pos + 1) {
        None => None,
        Some((bytes, next)) => {
            match bytes_to_string(bytes) {
                None => None,
                Some(text) => Some((text, next)),
            }
        },
    }
}

/// The wire form of one unsigned-integer field: its tag byte, then the
/// value as a varint.
pub open spec fn uint_field_bytes(tag: u8, x: nat) -> Seq<u8> {
    seq![tag] + varint_bytes(x)
}

/// What a byte sequence starts with, read as an unsigned-integer field
/// under `tag`.
pub open spec fn uint_field_parse(tag: u8, s: Seq<u8>) -> Option<(nat, int)> {
    if s.len() == 0 || s[0] != tag {
        None
    } else {
        match varint_parse(s.skip(1)) {
            Some(p) => Some((p.0, p.1 + 1)),
            None => None,
        }
    }
}

/// Reading back an encoded unsigned-integer field yields the value and
/// consumes exactly the field's bytes.
pub proof fn lemma_uint_field_round_trip(tag: u8, x: nat, rest: Seq<u8>)
    ensures
        uint_field_parse(tag, uint_field_bytes(tag, x) + rest) == Some((
            x,
            uint_field_bytes(tag, x).len() as int,
        )),
{
    lemma_varint_round_trip(x, rest);
    assert((uint_field_bytes(tag, x) + rest).skip(1) =~= varint_bytes(x) + rest);
}

/// Appends the wire form of the unsigned-integer field `x` under `tag`.
pub fn encode_uint_field(tag: u8, x: u64, out: &mut Vec<u8>)
    ensures
        final(out)@ =~= old(out)@ + uint_field_bytes(tag, x as nat),
{
    out.push(tag);
    encode_varint(x, out);
}

/// Reads one unsigned-integer field under `tag` starting at `pos`.
pub fn decode_uint_field(tag: u8, input: &[u8], pos: usize) -> (r: Option<(u64, usize)>)
    requires
        pos <= input@.len(),
    ensures
        r is Some <==> (uint_field_parse(tag, input@.skip(pos as int)) matches Some(p) && p.0
            <= u64::MAX),
        r matches Some(pr) ==> pos < pr.1 <= input@.len() && uint_field_parse(
            tag,
            input@.skip(pos as int),
        ) == Some((pr.0 as nat, pr.1 - pos as int)),
{
    if pos == input.len() {
        return None;
    }
    if input[pos] != tag {
        return None;
    }
    proof {
        assert(input@.skip(pos as int).skip(1) =~= input@.skip(pos as int + 1));
    }
    match decode_varint(input, pos + 1) {
        None => None,
        Some((v, next)) => Some((v, next)),
    }
}

/// The 64-bit two's-complement image a 32-bit signed value travels as.
pub open spec fn int32_wire(x: i32) -> nat {
    if x >= 0 {
        x as nat
    } else {
        (x + 0x10000000000000000) as nat
    }
}

/// The 32-bit signed value behind a 64-bit wire image, when there is one.
pub open spec fn int32_unwire(v: nat) -> Option<i32> {
    if v < 0x80000000 {
        Some(v as i32)
    } else if 0x10000000000000000 - 0x80000000 <= v < 0x10000000000000000 {
        Some((v - 0x10000000000000000) as i32)
    } else {
        None
    }
}

/// Every 32-bit signed value survives the trip through its wire image.
pub proof fn lemma_int32_wire_round_trip(x: i32)
    ensures
        int32_unwire(int32_wire(x)) == Some(x),
{
}

/// Appends the wire form of the signed-integer field `x` under `tag`.
pub fn encode_int32_field(tag: u8, x: i32, out: &mut Vec<u8>)
    ensures
        final(out)@ =~= old(out)@ + uint_field_bytes(tag, int32_wire(x)),
{
    let wide: u64 = if x >= 0 {
        x as u64
    } else {
        let magnitude = (-(x as i64)) as u64;
        (u64::MAX - magnitude) + 1
    };
    encode_uint_field(tag, wide, out);
}

/// Reads one signed-integer field under `tag` starting at `pos`: fails
/// when the wire image fits no 32-bit signed value.
pub fn decode_int32_field(tag: u8, input: &[u8], pos: usize) -> (r: Option<(i32, usize)>)
    requires
        pos <= input@.len(),
    ensures
        r is Some <==> (uint_field_parse(tag, input@.skip(pos as int)) matches Some(p)
            && int32_unwire(p.0) is Some),
        r matches Some(pr) ==> pos < pr.1 <= input@.len() && (uint_field_parse(
            tag,
            input@.skip(pos as int),
        ) matches Some(p) && int32_unwire(p.0) == Some(pr.0) && p.1 == pr.1 - pos as int),
{
    match decode_uint_field(tag, input, pos) {
        None => None,
        Some((v, next)) => {
            if v < 0x80000000 {
                Some((v as i32, next))
            } else if v >= 0xFFFFFFFF80000000 {
                let magnitude = (u64::MAX - v) + 1;
                Some((-(magnitude as i64) as i32, next))
            } else {
                None
            }
        },
    }
}

// ---------------------------------------------------------------------------
// Messages. Field tags follow the usual scheme of eight times the field
// number plus the wire kind: 2 for length-delimited text, 0 for varints.
// ---------------------------------------------------------------------------
/// The wire form of a registration request: the announced host and port.
pub open spec fn register_request_bytes(host: Seq<char>, port: Seq<char>) -> Seq<u8> {
    string_field_bytes(10, host) + string_field_bytes(18, port)
}

/// What a byte sequence starts with, read as a registration request.
pub open spec fn register_request_parse(s: Seq<u8>) -> Option<((Seq<char>, Seq<char>), int)> {
    match string_field_parse(10, s) {
        Some(h) => match string_field_parse(18, s.skip(h.1)) {
            Some(p) => Some(((h.0, p.0), h.1 + p.1)),
            None => None,
        },
        None => None,
    }
}

/// Reading back an encoded registration request yields its fields and
/// consumes exactly its bytes.
pub proof fn lemma_register_request_round_trip(host: Seq<char>, port: Seq<char>, rest: Seq<u8>)
    ensures
        register_request_parse(register_request_bytes(host, port) + rest) == Some((
            (host, port),
            register_request_bytes(host, port).len() as int,
        )),
{
    let f1 = string_field_bytes(10, host);
    let f2 = string_field_bytes(18, port);
    assert(register_request_bytes(host, port) + rest =~= f1 + (f2 + rest));
    lemma_string_field_round_trip(10, host, f2 + rest);
    assert((f1 + (f2 + rest)).skip(f1.len() as int) =~= f2 + rest);
    lemma_string_field_round_trip(18, port, rest);
}

/// Appends the wire form of `m`.
pub fn encode_register_request(m: &RegisterRequest, out: &mut Vec<u8>)
    ensures
        final(out)@ =~= old(out)@ + register_request_bytes(m.host@, m.port@),
{
    encode_string_field(10, m.host.as_str(), out);
    encode_string_field(18, m.port.as_str(), out);
}

/// Reads one registration request starting at `pos`: the message and the
/// position just past it.
pub fn decode_register_request(input: &[u8], pos: usize) -> (r: Option<(RegisterRequest, usize)>)
    requires
        pos <= input@.len(),
    ensures
        r is Some <==> register_request_parse(input@.skip(pos as int)) is Some,
        r matches Some(pr) ==> pos < pr.1 <= input@.len() && register_request_parse(
            input@.skip(pos as int),
        ) == Some(((pr.0.host@, pr.0.port@), pr.1 - pos as int)),
{
    match decode_string_field(10, input, pos) {
        None => None,
        Some((host, mid)) => {
            proof {
                assert(input@.skip(pos as int).skip(mid - pos as int) =~= input@.skip(mid as int));
            }
            match decode_string_field(18, input, mid) {
                None => None,
                Some((port, next)) => Some((RegisterRequest { host, port }, next)),
            }
        },
    }
}

/// The wire form of a registration response: the assigned node identity.
pub open spec fn register_response_bytes(nodeid: i32) -> Seq<u8> {
    uint_field_bytes(8, int32_wire(nodeid))
}

/// What a byte sequence starts with, read as a registration response.
pub open spec fn register_response_parse(s: Seq<u8>) -> Option<(i32, int)> {
    match uint_field_parse(8, s) {
        Some(p) => match int32_unwire(p.0) {
            Some(id) => Some((id, p.1)),
            None => None,
        },
        None => None,
    }
}

/// Reading back an encoded registration response yields the identity and
/// consumes exactly its bytes.
pub proof fn lemma_register_response_round_trip(nodeid: i32, rest: Seq<u8>)
    ensures
        register_response_parse(register_response_bytes(nodeid) + rest) == Some((
            nodeid,
            register_response_bytes(nodeid).len() as int,
        )),
{
    lemma_uint_field_round_trip(8, int32_wire(nodeid), rest);
    lemma_int32_wire_round_trip(nodeid);
}

/// Appends the wire form of `m`.
pub fn encode_register_response(m: &RegisterResponse, out: &mut Vec<u8>)
    ensures
        final(out)@ =~= old(out)@ + register_response_bytes(m.nodeid),
{
    encode_int32_field(8, m.nodeid, out);
}

/// Reads one registration response starting at `pos`.
pub fn decode_register_response(input: &[u8], pos: usize) -> (r: Option<(RegisterResponse, usize)>)
    requires
        pos <= input@.len(),
    ensures
        r is Some <==> register_response_parse(input@.skip(pos as int)) is Some,
        r matches Some(pr) ==> pos < pr.1 <= input@.len() && register_response_parse(
            input@.skip(pos as int),
        ) == Some((pr.0.nodeid, pr.1 - pos as int)),
{
    match decode_int32_field(8, input, pos) {
        None => None,
        Some((nodeid, next)) => Some((RegisterResponse { nodeid }, next)),
    }
}

/// The wire form of an identity-probe response: the runner's host.
pub open spec fn describe_response_bytes(host: Seq<char>) -> Seq<u8> {
    string_field_bytes(10, host)
}

/// What a byte sequence starts with, read as an identity-probe response.
pub open spec fn describe_response_parse(s: Seq<u8>) -> Option<(Seq<char>, int)> {
    string_field_parse(10, s)
}

/// Reading back an encoded identity-probe response yields the host and
/// consumes exactly its bytes.
pub proof fn lemma_describe_response_round_trip(host: Seq<char>, rest: Seq<u8>)
    ensures
        describe_response_parse(describe_response_bytes(host) + rest) == Some((
            host,
            describe_response_bytes(host).len() as int,
        )),
{
    lemma_string_field_round_trip(10, host, rest);
}

/// Appends the wire form of `m`.
pub fn encode_describe_response(m: &DescribeResponse, out: &mut Vec<u8>)
    ensures
        final(out)@ =~= old(out)@ + describe_response_bytes(m.host@),
{
    encode_string_field(10, m.host.as_str(), out);
}

/// Reads one identity-probe response starting at `pos`.
pub fn decode_describe_response(input: &[u8], pos: usize) -> (r: Option<(DescribeResponse, usize)>)
    requires
        pos <= input@.len(),
    ensures
        r is Some <==> describe_response_parse(input@.skip(pos as int)) is Some,
        r matches Some(pr) ==> pos < pr.1 <= input@.len() && describe_response_parse(
            input@.skip(pos as int),
        ) == Some((pr.0.host@, pr.1 - pos as int)),
{
    match decode_string_field(10, input, pos) {
        None => None,
        Some((host, next)) => Some((DescribeResponse { host }, next)),
    }
}

/// The code a runtime target travels as.
pub open spec fn language_code(l: Language) -> nat {
    match l {
        Language::LangRust => 0,
    }
}

/// The runtime target behind a wire code, when there is one.
pub open spec fn language_uncode(v: nat) -> Option<Language> {
    if v == 0 {
        Some(Language::LangRust)
    } else {
        None
    }
}

/// The code an execution status travels as.
pub open spec fn status_code(s: ExecuteStatus) -> nat {
    match s {
        ExecuteStatus::Success => 0,
        ExecuteStatus::Timeout => 1,
        ExecuteStatus::Error => 2,
    }
}

/// The execution status behind a wire code, when there is one.
pub open spec fn status_uncode(v: nat) -> Option<ExecuteStatus> {
    if v == 0 {
        Some(ExecuteStatus::Success)
    } else if v == 1 {
        Some(ExecuteStatus::Timeout)
    } else if v == 2 {
        Some(ExecuteStatus::Error)
    } else {
        None
    }
}

/// The wire form of an execution request: the runtime target, the
/// program, and the reserved argument field.
pub open spec fn execute_request_bytes(
    language: Language,
    program: Seq<char>,
    args: Seq<char>,
) -> Seq<u8> {
    uint_field_bytes(8, language_code(language)) + string_field_bytes(18, program)
        + string_field_bytes(26, args)
}

/// What a byte sequence starts with, read as an execution request.
pub open spec fn execute_request_parse(s: Seq<u8>) -> Option<
    ((Language, Seq<char>, Seq<char>), int),
> {
    match uint_field_parse(8, s) {
        Some(l) => match language_uncode(l.0) {
            Some(language) => match string_field_parse(18, s.skip(l.1)) {
                Some(p) => match string_field_parse(26, s.skip(l.1 + p.1)) {
                    Some(a) => Some(((language, p.0, a.0), l.1 + p.1 + a.1)),
                    None => None,
                },
                None => None,
            },
            None => None,
        },
        None => None,
    }
}

/// Reading back an encoded execution request yields its fields and
/// consumes exactly its bytes.
pub proof fn lemma_execute_request_round_trip(
    language: Language,
    program: Seq<char>,
    args: Seq<char>,
    rest: Seq<u8>,
)
    ensures
        execute_request_parse(execute_request_bytes(language, program, args) + rest) == Some((
            (language, program, args),
            execute_request_bytes(language, program, args).len() as int,
        )),
{
    let f1 = uint_field_bytes(8, language_code(language));
    let f2 = string_field_bytes(18, program);
    let f3 = string_field_bytes(26, args);
    let s = execute_request_bytes(language, program, args) + rest;
    assert(s =~= f1 + (f2 + (f3 + rest)));
    lemma_uint_field_round_trip(8, language_code(language), f2 + (f3 + rest));
    assert(s.skip(f1.len() as int) =~= f2 + (f3 + rest));
    lemma_string_field_round_trip(18, program, f3 + rest);
    assert(s.skip(f1.len() + f2.len() as int) =~= f3 + rest);
    lemma_string_field_round_trip(26, args, rest);
}

/// The runtime target's wire code.
fn language_to_wire(l: Language) -> (v: u64)
    ensures
        v as nat == language_code(l),
{
    match l {
        Language::LangRust => 0,
    }
}

/// The runtime target behind a wire code.
fn language_from_wire(v: u64) -> (r: Option<Language>)
    ensures
        r == language_uncode(v as nat),
{
    if v == 0 {
        Some(Language::LangRust)
    } else {
        None
    }
}

/// Appends the wire form of `m`.
pub fn encode_execute_request(m: &ExecuteRequest, out: &mut Vec<u8>)
    ensures
        final(out)@ =~= old(out)@ + execute_request_bytes(m.language, m.program@, m.args@),
{
    encode_uint_field(8, language_to_wire(m.language), out);
    encode_string_field(18, m.program.as_str(), out);
    encode_string_field(26, m.args.as_str(), out);
}

/// Reads one execution request starting at `pos`: the message and the
/// position just past it.
pub fn decode_execute_request(input: &[u8], pos: usize) -> (r: Option<(ExecuteRequest, usize)>)
    requires
        pos <= input@.len(),
    ensures
        r is Some <==> execute_request_parse(input@.skip(pos as int)) is Some,
        r matches Some(pr) ==> pos < pr.1 <= input@.len() && execute_request_parse(
            input@.skip(pos as int),
        ) == Some(((pr.0.language, pr.0.program@, pr.0.args@), pr.1 - pos as int)),
{
    match decode_uint_field(8, input, pos) {
        None => None,
        Some((code, mid1)) => {
            match language_from_wire(code) {
                None => None,
                Some(language) => {
                    proof {
                        assert(input@.skip(pos as int).skip(mid1 - pos as int) =~= input@.skip(
                            mid1 as int,
                        ));
                    }
                    match decode_string_field(18, input, mid1) {
                        None => None,
                        Some((program, mid2)) => {
                            proof {
                                assert(input@.skip(pos as int).skip(mid2 - pos as int)
                                    =~= input@.skip(mid2 as int));
                            }
                            match decode_string_field(26, input, mid2) {
                                None => None,
                                Some((args, next)) => Some(
                                    (ExecuteRequest { language, program, args }, next),
                                ),
                            }
                        },
                    }
                },
            }
        },
    }
}

/// The wire form of an execution response: exit code, the two captured
/// streams, the status, and the duration in milliseconds.
pub open spec fn execute_response_bytes(
    retcode: i32,
    stdout: Seq<char>,
    stderr: Seq<char>,
    status: ExecuteStatus,
    duration: nat,
) -> Seq<u8> {
    uint_field_bytes(8, int32_wire(retcode)) + string_field_bytes(18, stdout)
        + string_field_bytes(26, stderr) + uint_field_bytes(32, status_code(status))
        + uint_field_bytes(40, duration)
}

/// What a byte sequence starts with, read as an execution response.
pub open spec fn execute_response_parse(s: Seq<u8>) -> Option<
    ((i32, Seq<char>, Seq<char>, ExecuteStatus, nat), int),
> {
    match uint_field_parse(8, s) {
        Some(c) => match int32_unwire(c.0) {
            Some(retcode) => match string_field_parse(18, s.skip(c.1)) {
                Some(o) => match string_field_parse(26, s.skip(c.1 + o.1)) {
                    Some(e) => match uint_field_parse(32, s.skip(c.1 + o.1 + e.1)) {
                        Some(st) => match status_uncode(st.0) {
                            Some(status) => match uint_field_parse(
                                40,
                                s.skip(c.1 + o.1 + e.1 + st.1),
                            ) {
                                Some(d) => if d.0 <= u64::MAX {
                                    Some((
                                        (retcode, o.0, e.0, status, d.0),
                                        c.1 + o.1 + e.1 + st.1 + d.1,
                                    ))
                                } else {
                                    None
                                },
                                None => None,
                            },
                            None => None,
                        },
                        None => None,
                    },
                    None => None,
                },
                None => None,
            },
            None => None,
        },
        None => None,
    }
}

/// Reading back an encoded execution response yields its fields and
/// consumes exactly its bytes.
#[verifier::rlimit(80)]
pub proof fn lemma_execute_response_round_trip(
    retcode: i32,
    stdout: Seq<char>,
    stderr: Seq<char>,
    status: ExecuteStatus,
    duration: nat,
    rest: Seq<u8>,
)
    requires
        duration <= u64::MAX,
    ensures
        execute_response_parse(
            execute_response_bytes(retcode, stdout, stderr, status, duration) + rest,
        ) == Some((
            (retcode, stdout, stderr, status, duration),
            execute_response_bytes(retcode, stdout, stderr, status, duration).len() as int,
        )),
{
    let f1 = uint_field_bytes(8, int32_wire(retcode));
    let f2 = string_field_bytes(18, stdout);
    let f3 = string_field_bytes(26, stderr);
    let f4 = uint_field_bytes(32, status_code(status));
    let f5 = uint_field_bytes(40, duration);
    let s = execute_response_bytes(retcode, stdout, stderr, status, duration) + rest;
    assert(s =~= f1 + (f2 + (f3 + (f4 + (f5 + rest)))));
    lemma_uint_field_round_trip(8, int32_wire(retcode), f2 + (f3 + (f4 + (f5 + rest))));
    lemma_int32_wire_round_trip(retcode);
    assert(s.skip(f1.len() as int) =~= f2 + (f3 + (f4 + (f5 + rest))));
    lemma_string_field_round_trip(18, stdout, f3 + (f4 + (f5 + rest)));
    assert(s.skip(f1.len() + f2.len() as int) =~= f3 + (f4 + (f5 + rest)));
    lemma_string_field_round_trip(26, stderr, f4 + (f5 + rest));
    assert(s.skip(f1.len() + f2.len() + f3.len() as int) =~= f4 + (f5 + rest));
    lemma_uint_field_round_trip(32, status_code(status), f5 + rest);
    assert(s.skip(f1.len() + f2.len() + f3.len() + f4.len() as int) =~= f5 + rest);
    lemma_uint_field_round_trip(40, duration, rest);
}

/// The execution status's wire code.
fn status_to_wire(s: ExecuteStatus) -> (v: u64)
    ensures
        v as nat == status_code(s),
{
    match s {
        ExecuteStatus::Success => 0,
        ExecuteStatus::Timeout => 1,
        ExecuteStatus::Error => 2,
    }
}

/// The execution status behind a wire code.
fn status_from_wire(v: u64) -> (r: Option<ExecuteStatus>)
    ensures
        r == status_uncode(v as nat),
{
    if v == 0 {
        Some(ExecuteStatus::Success)
    } else if v == 1 {
        Some(ExecuteStatus::Timeout)
    } else if v == 2 {
        Some(ExecuteStatus::Error)
    } else {
        None
    }
}

/// Appends the wire form of `m`.
pub fn encode_execute_response(m: &ExecuteResponse, out: &mut Vec<u8>)
    ensures
        final(out)@ =~= old(out)@ + execute_response_bytes(
            m.retcode,
            m.stdout@,
            m.stderr@,
            m.status,
            m.duration as nat,
        ),
{
    encode_int32_field(8, m.retcode, out);
    encode_string_field(18, m.stdout.as_str(), out);
    encode_string_field(26, m.stderr.as_str(), out);
    encode_uint_field(32, status_to_wire(m.status), out);
    encode_uint_field(40, m.duration, out);
}

/// Reads one execution response starting at `pos`: the message and the
/// position just past it.
pub fn decode_execute_response(input: &[u8], pos: usize) -> (r: Option<(ExecuteResponse, usize)>)
    requires
        pos <= input@.len(),
    ensures
        r is Some <==> execute_response_parse(input@.skip(pos as int)) is Some,
        r matches Some(pr) ==> pos < pr.1 <= input@.len() && execute_response_parse(
            input@.skip(pos as int),
        ) == Some((
            (pr.0.retcode, pr.0.stdout@, pr.0.stderr@, pr.0.status, pr.0.duration as nat),
            pr.1 - pos as int,
        )),
{
    match decode_int32_field(8, input, pos) {
        None => None,
        Some((retcode, mid1)) => {
            proof {
                assert(input@.skip(pos as int).skip(mid1 - pos as int) =~= input@.skip(
                    mid1 as int,
                ));
            }
            match decode_string_field(18, input, mid1) {
                None => None,
                Some((stdout, mid2)) => {
                    proof {
                        assert(input@.skip(pos as int).skip(mid2 - pos as int) =~= input@.skip(
                            mid2 as int,
                        ));
                    }
                    match decode_string_field(26, input, mid2) {
                        None => None,
                        Some((stderr, mid3)) => {
                            proof {
                                assert(input@.skip(pos as int).skip(mid3 - pos as int)
                                    =~= input@.skip(mid3 as int));
                            }
                            match decode_uint_field(32, input, mid3) {
                                None => None,
                                Some((code, mid4)) => {
                                    match status_from_wire(code) {
                                        None => None,
                                        Some(status) => {
                                            proof {
                                                assert(input@.skip(pos as int).skip(
                                                    mid4 - pos as int,
                                                ) =~= input@.skip(mid4 as int));
                                            }
                                            match decode_uint_field(40, input, mid4) {
                                                None => None,
                                                Some((duration, next)) => Some(
                                                    (
                                                        ExecuteResponse {
                                                            retcode,
                                                            stdout,
                                                            stderr,
                                                            status,
                                                            duration,
                                                        },
                                                        next,
                                                    ),
                                                ),
                                            }
                                        },
                                    }
                                },
                            }
                        },
                    }
                },
            }
        },
    }
}

} // verus!
