//! The payload codec: integers and booleans as `bincode` writes them, and the
//! trait of the values that travel in a frame.

use bincode::rustc_serialize::DecodingError;
use bincode::SizeLimit;
use vstd::prelude::*;
use vstd::slice::slice_subrange;

verus! {

/// Why a payload could not be decoded.
#[derive(Clone, Copy, Debug, PartialEq, Eq, Structural)]
pub enum DecodeError {
    /// The payload ends before the value is complete.
    Truncated,
    /// A byte holds a value that no encoding produces.
    Invalid,
}

/// The four bytes of `value`, most significant first.
pub open spec fn be_bytes(value: u32) -> Seq<u8> {
    seq![
        (value / 0x100_0000) as u8,
        (value / 0x1_0000 % 0x100) as u8,
        (value / 0x100 % 0x100) as u8,
        (value % 0x100) as u8,
    ]
}

/// The number whose four bytes, most significant first, open `bytes`.
pub open spec fn be_value(bytes: Seq<u8>) -> u32
    recommends
        bytes.len() >= 4,
{
    (bytes[0] as int * 0x100_0000 + bytes[1] as int * 0x1_0000 + bytes[2] as int * 0x100
        + bytes[3] as int) as u32
}

/// The single byte of a boolean.
pub open spec fn bool_bytes(value: bool) -> Seq<u8> {
    seq![if value { 1u8 } else { 0u8 }]
}

/// What reading a 32-bit number at offset `at` of `bytes` gives.
pub open spec fn u32_at(bytes: Seq<u8>, at: int) -> Result<u32, DecodeError> {
    if 0 <= at && at + 4 <= bytes.len() {
        Ok(be_value(bytes.subrange(at, at + 4)))
    } else {
        Err(DecodeError::Truncated)
    }
}

/// What reading a boolean at offset `at` of `bytes` gives.
pub open spec fn bool_at(bytes: Seq<u8>, at: int) -> Result<bool, DecodeError> {
    if 0 <= at < bytes.len() {
        if bytes[at] == 1 {
            Ok(true)
        } else if bytes[at] == 0 {
            Ok(false)
        } else {
            Err(DecodeError::Invalid)
        }
    } else {
        Err(DecodeError::Truncated)
    }
}

/// Calls `bincode::rustc_serialize::encode` on a `u32` without a size limit.
/// Trusted: the result is the number's four bytes, most significant first.
/// Writing into a vector without a limit cannot fail.
#[verifier::external_body]
fn encode_u32(value: u32) -> (out: Vec<u8>)
    ensures
        out@ == be_bytes(value),
{
    bincode::rustc_serialize::encode(&value, SizeLimit::Infinite).unwrap()
}

/// Calls `bincode::rustc_serialize::decode` for a `u32`.
/// Trusted: four bytes or more give the number that the first four hold, most
/// significant first, and what follows them is not read; fewer give an I/O
/// error, reported as `Truncated`. That is `u32_at` at offset 0. The other two
/// errors of `bincode` cannot come: every four bytes are a number, and no
/// size limit is set.
#[verifier::external_body]
fn decode_u32(bytes: &[u8]) -> (value: Result<u32, DecodeError>)
    ensures
        value == u32_at(bytes@, 0),
{
    match bincode::rustc_serialize::decode::<u32>(bytes) {
        Ok(number) => Ok(number),
        Err(DecodingError::IoError(_)) => Err(DecodeError::Truncated),
        Err(DecodingError::InvalidEncoding(_)) => Err(DecodeError::Invalid),
        Err(DecodingError::SizeLimit) => Err(DecodeError::Invalid),
    }
}

/// Calls `bincode::rustc_serialize::encode` on a `bool` without a size limit.
/// Trusted: the result is one byte, 1 for `true` and 0 for `false`.
#[verifier::external_body]
fn encode_bool(value: bool) -> (out: Vec<u8>)
    ensures
        out@ == bool_bytes(value),
{
    bincode::rustc_serialize::encode(&value, SizeLimit::Infinite).unwrap()
}

/// Calls `bincode::rustc_serialize::decode` for a `bool`.
/// Trusted: a first byte of 1 gives `true` and of 0 gives `false`; any other
/// first byte is an invalid encoding, reported as `Invalid`; no byte at all
/// is an I/O error, reported as `Truncated`. That is `bool_at` at offset 0.
/// The size limit error of `bincode` cannot come: no limit is set.
#[verifier::external_body]
fn decode_bool(bytes: &[u8]) -> (value: Result<bool, DecodeError>)
    ensures
        value == bool_at(bytes@, 0),
{
    match bincode::rustc_serialize::decode::<bool>(bytes) {
        Ok(flag) => Ok(flag),
        Err(DecodingError::IoError(_)) => Err(DecodeError::Truncated),
        Err(DecodingError::InvalidEncoding(_)) => Err(DecodeError::Invalid),
        Err(DecodingError::SizeLimit) => Err(DecodeError::Invalid),
    }
}

/// Appends the encoding of `value` to `out`.
pub fn put_u32(out: &mut Vec<u8>, value: u32)
    ensures
        final(out)@ == old(out)@ + be_bytes(value),
{
    let mut bytes: Vec<u8> = encode_u32(value);
    out.append(&mut bytes);
}

/// Appends the encoding of `value` to `out`.
pub fn put_bool(out: &mut Vec<u8>, value: bool)
    ensures
        final(out)@ == old(out)@ + bool_bytes(value),
{
    let mut bytes: Vec<u8> = encode_bool(value);
    out.append(&mut bytes);
}

/// Reads the 32-bit number that starts at offset `at`.
pub fn get_u32(bytes: &[u8], at: usize) -> (value: Result<u32, DecodeError>)
    ensures
        value == u32_at(bytes@, at as int),
{
    if at > bytes.len() {
        return Err(DecodeError::Truncated);
    }
    let tail: &[u8] = slice_subrange(bytes, at, bytes.len());
    let value: Result<u32, DecodeError> = decode_u32(tail);
    proof {
        if bytes@.len() - at >= 4 {
            assert(tail@.subrange(0, 4) =~= bytes@.subrange(at as int, at + 4));
        }
    }
    value
}

/// Reads the boolean at offset `at`.
pub fn get_bool(bytes: &[u8], at: usize) -> (value: Result<bool, DecodeError>)
    ensures
        value == bool_at(bytes@, at as int),
{
    if at > bytes.len() {
        return Err(DecodeError::Truncated);
    }
    let tail: &[u8] = slice_subrange(bytes, at, bytes.len());
    decode_bool(tail)
}

/// A value that travels as the payload of a frame.
///
/// `payload` gives the bytes that stand for a value and `parsed` what a
/// sequence of bytes is read as. The two proof functions are the duties of an
/// implementation: a payload is read back as the value it stands for, it has
/// at least two bytes (a frame of fewer than six bytes is never taken out of a
/// buffer) and its length fits the 32-bit header of a frame.
pub trait Wire: Sized {
    /// The bytes that stand for the value.
    spec fn payload(&self) -> Seq<u8>;

    /// The value that `bytes` are read as, or why they cannot be read.
    spec fn parsed(bytes: Seq<u8>) -> Result<Self, DecodeError>;

    /// Encodes the value.
    fn encode(&self) -> (out: Vec<u8>)
        ensures
            out@ == self.payload(),
    ;

    /// Decodes a payload.
    fn decode(bytes: &[u8]) -> (value: Result<Self, DecodeError>)
        ensures
            value == Self::parsed(bytes@),
    ;

    /// A payload has between two and `u32::MAX` bytes.
    proof fn lemma_payload_len(&self)
        ensures
            2 <= self.payload().len() <= u32::MAX,
    ;

    /// A payload is read back as the value it stands for.
    proof fn lemma_parsed_payload(&self)
        ensures
            Self::parsed(self.payload()) matches Ok(value) && value == *self,
    ;
}

/// A number is read back from where its encoding stands, whatever stands
/// before and after.
pub proof fn lemma_u32_at(before: Seq<u8>, value: u32, after: Seq<u8>)
    ensures
        be_bytes(value).len() == 4,
        u32_at(before + be_bytes(value) + after, before.len() as int) matches Ok(number) && number
            == value,
{
    let bytes = before + be_bytes(value) + after;
    let at = before.len() as int;
    assert(bytes.subrange(at, at + 4) =~= be_bytes(value));
}

/// A boolean is read back from where its encoding stands, whatever stands
/// before and after.
pub proof fn lemma_bool_at(before: Seq<u8>, value: bool, after: Seq<u8>)
    ensures
        bool_bytes(value).len() == 1,
        bool_at(before + bool_bytes(value) + after, before.len() as int) matches Ok(flag) && flag
            == value,
{
}

} // verus!
