//! The field encodings of the wire format (little-endian fixed-width
//! integers, length-prefixed byte strings and UTF-8 text), produced and read
//! by `wincode`, and a cursor that reads fields one after the other.
use vstd::prelude::*;
use vstd::slice::slice_subrange;
use vstd::utf8::*;

verus! {

broadcast use {encode_utf8_valid_utf8, encode_utf8_decode_utf8, decode_utf8_encode_utf8};

/// The largest byte string or text, in bytes, that a field may hold.
pub const FIELD_LIMIT: usize = 4194304;

// ---------------------------------------------------------------------------
// Fixed-width integers
// ---------------------------------------------------------------------------

/// The value of four little-endian bytes.
pub open spec fn u32_from_le(b0: u8, b1: u8, b2: u8, b3: u8) -> u32 {
    (b0 as u32) | ((b1 as u32) << 8u32) | ((b2 as u32) << 16u32) | ((b3 as u32) << 24u32)
}

/// The value of eight little-endian bytes.
pub open spec fn u64_from_le(b0: u8, b1: u8, b2: u8, b3: u8, b4: u8, b5: u8, b6: u8, b7: u8) -> u64 {
    (b0 as u64) | ((b1 as u64) << 8u64) | ((b2 as u64) << 16u64) | ((b3 as u64) << 24u64) | ((
    b4 as u64) << 32u64) | ((b5 as u64) << 40u64) | ((b6 as u64) << 48u64) | ((b7 as u64)
        << 56u64)
}

/// The little-endian bytes of a `u32`.
pub open spec fn le_u32_bytes(x: u32) -> Seq<u8> {
    seq![
        (x & 0xff) as u8,
        ((x >> 8u32) & 0xff) as u8,
        ((x >> 16u32) & 0xff) as u8,
        ((x >> 24u32) & 0xff) as u8,
    ]
}

/// The little-endian bytes of a `u64`.
pub open spec fn le_u64_bytes(x: u64) -> Seq<u8> {
    seq![
        (x & 0xff) as u8,
        ((x >> 8u64) & 0xff) as u8,
        ((x >> 16u64) & 0xff) as u8,
        ((x >> 24u64) & 0xff) as u8,
        ((x >> 32u64) & 0xff) as u8,
        ((x >> 40u64) & 0xff) as u8,
        ((x >> 48u64) & 0xff) as u8,
        ((x >> 56u64) & 0xff) as u8,
    ]
}

/// The `u32` whose little-endian bytes begin `b`.
pub open spec fn le_u32_value(b: Seq<u8>) -> u32 {
    u32_from_le(b[0], b[1], b[2], b[3])
}

/// The `u64` whose little-endian bytes begin `b`.
pub open spec fn le_u64_value(b: Seq<u8>) -> u64 {
    u64_from_le(b[0], b[1], b[2], b[3], b[4], b[5], b[6], b[7])
}

pub proof fn lemma_u32_value_of_bytes(x: u32)
    ensures
        le_u32_bytes(x).len() == 4,
        le_u32_value(le_u32_bytes(x)) == x,
{
    assert(u32_from_le(
        (x & 0xff) as u8,
        ((x >> 8u32) & 0xff) as u8,
        ((x >> 16u32) & 0xff) as u8,
        ((x >> 24u32) & 0xff) as u8,
    ) == x) by (bit_vector);
}

pub proof fn lemma_u64_value_of_bytes(x: u64)
    ensures
        le_u64_bytes(x).len() == 8,
        le_u64_value(le_u64_bytes(x)) == x,
{
    assert(u64_from_le(
        (x & 0xff) as u8,
        ((x >> 8u64) & 0xff) as u8,
        ((x >> 16u64) & 0xff) as u8,
        ((x >> 24u64) & 0xff) as u8,
        ((x >> 32u64) & 0xff) as u8,
        ((x >> 40u64) & 0xff) as u8,
        ((x >> 48u64) & 0xff) as u8,
        ((x >> 56u64) & 0xff) as u8,
    ) == x) by (bit_vector);
}

pub proof fn lemma_u32_bytes_of_value(b: Seq<u8>)
    requires
        b.len() >= 4,
    ensures
        le_u32_bytes(le_u32_value(b)) == b.take(4),
{
    let (b0, b1, b2, b3) = (b[0], b[1], b[2], b[3]);
    let v = le_u32_value(b);
    assert(((v & 0xff) as u8 == b0) && (((v >> 8u32) & 0xff) as u8 == b1) && (((v >> 16u32)
        & 0xff) as u8 == b2) && (((v >> 24u32) & 0xff) as u8 == b3)) by (bit_vector)
        requires
            v == u32_from_le(b0, b1, b2, b3),
    ;
    assert(le_u32_bytes(v) =~= b.take(4));
}

pub proof fn lemma_u64_bytes_of_value(b: Seq<u8>)
    requires
        b.len() >= 8,
    ensures
        le_u64_bytes(le_u64_value(b)) == b.take(8),
{
    let (b0, b1, b2, b3, b4, b5, b6, b7) = (b[0], b[1], b[2], b[3], b[4], b[5], b[6], b[7]);
    let v = le_u64_value(b);
    assert(((v & 0xff) as u8 == b0) && (((v >> 8u64) & 0xff) as u8 == b1) && (((v >> 16u64)
        & 0xff) as u8 == b2) && (((v >> 24u64) & 0xff) as u8 == b3) && (((v >> 32u64) & 0xff)
        as u8 == b4) && (((v >> 40u64) & 0xff) as u8 == b5) && (((v >> 48u64) & 0xff) as u8
        == b6) && (((v >> 56u64) & 0xff) as u8 == b7)) by (bit_vector)
        requires
            v == u64_from_le(b0, b1, b2, b3, b4, b5, b6, b7),
    ;
    assert(le_u64_bytes(v) =~= b.take(8));
}


// ---------------------------------------------------------------------------
// Length-prefixed fields
// ---------------------------------------------------------------------------

/// A byte string as a field: its length as a little-endian `u64`, then its bytes.
pub open spec fn bytes_field(b: Seq<u8>) -> Seq<u8> {
    le_u64_bytes(b.len() as u64) + b
}

/// A text as a field: the field of its UTF-8 bytes.
pub open spec fn str_field(s: Seq<char>) -> Seq<u8> {
    bytes_field(encode_utf8(s))
}

/// A byte string is small enough to be a field.
pub open spec fn bytes_fit(b: Seq<u8>) -> bool {
    b.len() <= FIELD_LIMIT
}

/// A text is small enough to be a field.
pub open spec fn str_fits(s: Seq<char>) -> bool {
    encode_utf8(s).len() <= FIELD_LIMIT
}

/// The length that the field at the start of `b` announces.
pub open spec fn announced_len(b: Seq<u8>) -> int {
    le_u64_value(b) as int
}

/// `b` starts with a complete byte-string field of an admitted length.
pub open spec fn bytes_field_ok(b: Seq<u8>) -> bool {
    &&& b.len() >= 8
    &&& announced_len(b) <= FIELD_LIMIT
    &&& 8 + announced_len(b) <= b.len()
}

/// The bytes of the field at the start of `b`.
pub open spec fn bytes_field_body(b: Seq<u8>) -> Seq<u8> {
    b.subrange(8, 8 + announced_len(b))
}

/// A `u32` read from the start of `b`, with the number of bytes it takes.
pub closed spec fn parse_u32(b: Seq<u8>) -> Option<(u32, int)> {
    if b.len() >= 4 {
        Some((le_u32_value(b), 4))
    } else {
        None
    }
}

/// A `u64` read from the start of `b`, with the number of bytes it takes.
pub closed spec fn parse_u64(b: Seq<u8>) -> Option<(u64, int)> {
    if b.len() >= 8 {
        Some((le_u64_value(b), 8))
    } else {
        None
    }
}

/// A byte string read from the start of `b`, with the number of bytes it takes.
pub closed spec fn parse_bytes(b: Seq<u8>) -> Option<(Seq<u8>, int)> {
    if bytes_field_ok(b) {
        Some((bytes_field_body(b), 8 + announced_len(b)))
    } else {
        None
    }
}

/// A text read from the start of `b`, with the number of bytes it takes.
pub closed spec fn parse_str(b: Seq<u8>) -> Option<(Seq<char>, int)> {
    if bytes_field_ok(b) && valid_utf8(bytes_field_body(b)) {
        Some((decode_utf8(bytes_field_body(b)), 8 + announced_len(b)))
    } else {
        None
    }
}

pub proof fn lemma_le_u64_prefix(x: u64, rest: Seq<u8>)
    ensures
        le_u64_value(le_u64_bytes(x) + rest) == x,
{
    lemma_u64_value_of_bytes(x);
    let b = le_u64_bytes(x) + rest;
    assert(le_u64_value(b) == le_u64_value(le_u64_bytes(x))) by {
        assert forall|i: int| 0 <= i < 8 implies b[i] == le_u64_bytes(x)[i] by {}
    }
}

pub proof fn lemma_le_u32_prefix(x: u32, rest: Seq<u8>)
    ensures
        le_u32_value(le_u32_bytes(x) + rest) == x,
{
    lemma_u32_value_of_bytes(x);
    let b = le_u32_bytes(x) + rest;
    assert(le_u32_value(b) == le_u32_value(le_u32_bytes(x))) by {
        assert forall|i: int| 0 <= i < 4 implies b[i] == le_u32_bytes(x)[i] by {}
    }
}

/// Reading a `u32` from its encoding gives it back.
pub proof fn lemma_parse_u32_encoded(x: u32, rest: Seq<u8>)
    ensures
        parse_u32(le_u32_bytes(x) + rest) == Some((x, 4int)),
{
    lemma_le_u32_prefix(x, rest);
}

/// What a `u32` read took is that value's encoding.
pub proof fn lemma_parse_u32_sound(b: Seq<u8>)
    ensures
        parse_u32(b) matches Some((x, k)) ==> k == 4 && k <= b.len() && b.take(k) == le_u32_bytes(x),
{
    if b.len() >= 4 {
        lemma_u32_bytes_of_value(b);
    }
}

/// Reading a `u64` from its encoding gives it back.
pub proof fn lemma_parse_u64_encoded(x: u64, rest: Seq<u8>)
    ensures
        parse_u64(le_u64_bytes(x) + rest) == Some((x, 8int)),
{
    lemma_le_u64_prefix(x, rest);
}

/// What a `u64` read took is that value's encoding.
pub proof fn lemma_parse_u64_sound(b: Seq<u8>)
    ensures
        parse_u64(b) matches Some((x, k)) ==> k == 8 && k <= b.len() && b.take(k) == le_u64_bytes(x),
{
    if b.len() >= 8 {
        lemma_u64_bytes_of_value(b);
    }
}

/// Reading a byte string from its field gives it back.
pub proof fn lemma_parse_bytes_encoded(v: Seq<u8>, rest: Seq<u8>)
    requires
        bytes_fit(v),
    ensures
        parse_bytes(bytes_field(v) + rest) == Some((v, 8 + v.len() as int)),
{
    let b = bytes_field(v) + rest;
    lemma_u64_value_of_bytes(v.len() as u64);
    assert(b =~= le_u64_bytes(v.len() as u64) + (v + rest));
    lemma_le_u64_prefix(v.len() as u64, v + rest);
    assert(announced_len(b) == v.len());
    assert(bytes_field_body(b) =~= v);
}

/// What a byte-string read took is that string's field.
pub proof fn lemma_parse_bytes_sound(b: Seq<u8>)
    ensures
        parse_bytes(b) matches Some((v, k)) ==> k == 8 + v.len() && k <= b.len() && bytes_fit(v)
            && b.take(k) == bytes_field(v),
{
    if bytes_field_ok(b) {
        let v = bytes_field_body(b);
        lemma_u64_bytes_of_value(b);
        assert(v.len() == announced_len(b));
        assert(b.take(8 + announced_len(b)) =~= le_u64_bytes(v.len() as u64) + v);
    }
}

/// Reading a text from its field gives it back.
pub proof fn lemma_parse_str_encoded(s: Seq<char>, rest: Seq<u8>)
    requires
        str_fits(s),
    ensures
        parse_str(str_field(s) + rest) == Some((s, 8 + encode_utf8(s).len() as int)),
{
    lemma_parse_bytes_encoded(encode_utf8(s), rest);
}

/// What a text read took is that text's field.
pub proof fn lemma_parse_str_sound(b: Seq<u8>)
    ensures
        parse_str(b) matches Some((s, k)) ==> k == 8 + encode_utf8(s).len() && k <= b.len()
            && str_fits(s) && b.take(k) == str_field(s),
{
    lemma_parse_bytes_sound(b);
}


// ---------------------------------------------------------------------------
// The wincode calls
// ---------------------------------------------------------------------------

/// An error that `wincode` reports while writing.
#[verifier::external_type_specification]
#[verifier::external_body]
pub struct ExWriteError(wincode::WriteError);

/// An error that `wincode` reports while reading.
#[verifier::external_type_specification]
#[verifier::external_body]
pub struct ExReadError(wincode::ReadError);

/// `wincode::serialize` of a `u32`: under wincode's default configuration
/// (fixed-width integers, little-endian) it writes the four little-endian
/// bytes of the value and does not fail.
#[verifier::external_body]
fn wincode_write_u32(x: u32) -> (r: Result<Vec<u8>, wincode::WriteError>)
    ensures
        r is Ok,
        r matches Ok(v) ==> v@ == le_u32_bytes(x),
{
    wincode::serialize(&x)
}

/// `wincode::serialize` of a `u64`: the eight little-endian bytes of the
/// value; it does not fail.
#[verifier::external_body]
fn wincode_write_u64(x: u64) -> (r: Result<Vec<u8>, wincode::WriteError>)
    ensures
        r is Ok,
        r matches Ok(v) ==> v@ == le_u64_bytes(x),
{
    wincode::serialize(&x)
}

/// `wincode::serialize` of a `String`: the byte length of its UTF-8 form as a
/// little-endian `u64`, then those bytes. It fails exactly when the UTF-8
/// form is longer than the default preallocation limit (`FIELD_LIMIT`).
#[verifier::external_body]
fn wincode_write_string(s: &String) -> (r: Result<Vec<u8>, wincode::WriteError>)
    ensures
        (r is Ok) == str_fits(s@),
        r matches Ok(v) ==> v@ == str_field(s@),
{
    wincode::serialize(s)
}

/// `wincode::serialize` of a `Vec<u8>`: its length as a little-endian `u64`,
/// then its bytes. It fails exactly when it is longer than the default
/// preallocation limit (`FIELD_LIMIT`).
#[verifier::external_body]
fn wincode_write_bytes(b: &Vec<u8>) -> (r: Result<Vec<u8>, wincode::WriteError>)
    ensures
        (r is Ok) == bytes_fit(b@),
        r matches Ok(v) ==> v@ == bytes_field(b@),
{
    wincode::serialize(b)
}

/// `wincode::deserialize::<u32>`: the little-endian value of the first four
/// bytes, or an error when there are fewer; bytes after them are ignored.
#[verifier::external_body]
fn wincode_read_u32(b: &[u8]) -> (r: Result<u32, wincode::ReadError>)
    ensures
        match r {
            Ok(x) => parse_u32(b@) == Some((x, 4int)),
            Err(_) => parse_u32(b@) is None,
        },
{
    wincode::deserialize::<u32>(b)
}

/// `wincode::deserialize::<u64>`: the little-endian value of the first eight
/// bytes, or an error when there are fewer; bytes after them are ignored.
#[verifier::external_body]
fn wincode_read_u64(b: &[u8]) -> (r: Result<u64, wincode::ReadError>)
    ensures
        match r {
            Ok(x) => parse_u64(b@) == Some((x, 8int)),
            Err(_) => parse_u64(b@) is None,
        },
{
    wincode::deserialize::<u64>(b)
}

/// `wincode::deserialize::<Vec<u8>>`: a little-endian `u64` length, refused
/// above the default preallocation limit, then that many bytes, refused when
/// fewer remain; bytes after them are ignored.
#[verifier::external_body]
fn wincode_read_bytes(b: &[u8]) -> (r: Result<Vec<u8>, wincode::ReadError>)
    ensures
        match r {
            Ok(v) => parse_bytes(b@) matches Some((w, _)) && w == v@,
            Err(_) => parse_bytes(b@) is None,
        },
{
    wincode::deserialize::<Vec<u8>>(b)
}

/// `wincode::deserialize::<String>`: as for a `Vec<u8>`, and the bytes must
/// be valid UTF-8, whose characters the text then holds.
#[verifier::external_body]
fn wincode_read_string(b: &[u8]) -> (r: Result<String, wincode::ReadError>)
    ensures
        match r {
            Ok(s) => parse_str(b@) matches Some((t, _)) && t == s@,
            Err(_) => parse_str(b@) is None,
        },
{
    wincode::deserialize::<String>(b)
}

/// `wincode::error::invalid_tag_encoding`: the error wincode reports for an
/// enum tag that names no variant. Nothing is stated of its text.
#[verifier::external_body]
pub(crate) fn invalid_tag_error(tag: u32) -> wincode::ReadError {
    wincode::error::invalid_tag_encoding(tag as usize)
}

/// The `Display` text of a wincode read error. Nothing is stated of it.
#[verifier::external_body]
pub(crate) fn read_error_text(e: &wincode::ReadError) -> String {
    e.to_string()
}

/// The `Display` text of a wincode write error. Nothing is stated of it.
#[verifier::external_body]
pub(crate) fn write_error_text(e: &wincode::WriteError) -> String {
    e.to_string()
}

// ---------------------------------------------------------------------------
// Writing fields
// ---------------------------------------------------------------------------

/// Appends the encoding of a `u32`.
pub(crate) fn put_u32(out: &mut Vec<u8>, x: u32)
    ensures
        final(out)@ == old(out)@ + le_u32_bytes(x),
{
    if let Ok(mut v) = wincode_write_u32(x) {
        out.append(&mut v);
    }
}

/// Appends the encoding of a `u64`.
pub(crate) fn put_u64(out: &mut Vec<u8>, x: u64)
    ensures
        final(out)@ == old(out)@ + le_u64_bytes(x),
{
    if let Ok(mut v) = wincode_write_u64(x) {
        out.append(&mut v);
    }
}

/// Appends a text field, or fails when the text is too long.
pub(crate) fn put_string(out: &mut Vec<u8>, s: &String) -> (r: Result<(), wincode::WriteError>)
    ensures
        (r is Ok) == str_fits(s@),
        r is Ok ==> final(out)@ == old(out)@ + str_field(s@),
{
    match wincode_write_string(s) {
        Ok(mut v) => {
            out.append(&mut v);
            Ok(())
        },
        Err(e) => Err(e),
    }
}

/// Appends a byte-string field, or fails when the bytes are too many.
pub(crate) fn put_bytes(out: &mut Vec<u8>, b: &Vec<u8>) -> (r: Result<(), wincode::WriteError>)
    ensures
        (r is Ok) == bytes_fit(b@),
        r is Ok ==> final(out)@ == old(out)@ + bytes_field(b@),
{
    match wincode_write_bytes(b) {
        Ok(mut v) => {
            out.append(&mut v);
            Ok(())
        },
        Err(e) => Err(e),
    }
}

// ---------------------------------------------------------------------------
// Reading fields at a position
// ---------------------------------------------------------------------------

/// Reads a `u32` at `pos`, returning it with the position after it.
pub(crate) fn take_u32(data: &[u8], pos: usize) -> (r: Result<(u32, usize), wincode::ReadError>)
    requires
        pos <= data@.len(),
    ensures
        match r {
            Ok((x, next)) => next <= data@.len() && parse_u32(data@.skip(pos as int)) == Some(
                (x, next - pos),
            ),
            Err(_) => parse_u32(data@.skip(pos as int)) is None,
        },
{
    let rest = slice_subrange(data, pos, data.len());
    assert(rest@ =~= data@.skip(pos as int));
    match wincode_read_u32(rest) {
        Ok(x) => Ok((x, pos + 4)),
        Err(e) => Err(e),
    }
}

/// Reads a `u64` at `pos`, returning it with the position after it.
pub(crate) fn take_u64(data: &[u8], pos: usize) -> (r: Result<(u64, usize), wincode::ReadError>)
    requires
        pos <= data@.len(),
    ensures
        match r {
            Ok((x, next)) => next <= data@.len() && parse_u64(data@.skip(pos as int)) == Some(
                (x, next - pos),
            ),
            Err(_) => parse_u64(data@.skip(pos as int)) is None,
        },
{
    let rest = slice_subrange(data, pos, data.len());
    assert(rest@ =~= data@.skip(pos as int));
    match wincode_read_u64(rest) {
        Ok(x) => Ok((x, pos + 8)),
        Err(e) => Err(e),
    }
}

/// Reads a byte-string field at `pos`, returning it with the position after it.
pub(crate) fn take_bytes(data: &[u8], pos: usize) -> (r: Result<(Vec<u8>, usize), wincode::ReadError>)
    requires
        pos <= data@.len(),
    ensures
        match r {
            Ok((v, next)) => next <= data@.len() && parse_bytes(data@.skip(pos as int)) == Some(
                (v@, next - pos),
            ),
            Err(_) => parse_bytes(data@.skip(pos as int)) is None,
        },
{
    let rest = slice_subrange(data, pos, data.len());
    assert(rest@ =~= data@.skip(pos as int));
    match wincode_read_bytes(rest) {
        Ok(v) => {
            let next = pos + 8 + v.len();
            Ok((v, next))
        },
        Err(e) => Err(e),
    }
}

/// Reads a text field at `pos`, returning it with the position after it.
pub(crate) fn take_string(data: &[u8], pos: usize) -> (r: Result<(String, usize), wincode::ReadError>)
    requires
        pos <= data@.len(),
    ensures
        match r {
            Ok((s, next)) => next <= data@.len() && parse_str(data@.skip(pos as int)) == Some(
                (s@, next - pos),
            ),
            Err(_) => parse_str(data@.skip(pos as int)) is None,
        },
{
    let rest = slice_subrange(data, pos, data.len());
    assert(rest@ =~= data@.skip(pos as int));
    match wincode_read_string(rest) {
        Ok(s) => {
            let n = s.as_str().len();
            proof {
                let body = bytes_field_body(rest@);
                assert(encode_utf8(decode_utf8(body)) == body);
            }
            let next = pos + 8 + n;
            Ok((s, next))
        },
        Err(e) => Err(e),
    }
}

} // verus!
