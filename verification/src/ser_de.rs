//! Length-prefixed framing of messages on a byte stream.
//!
//! A frame is a header of four bytes, which holds the length of the payload
//! as an unsigned number, least significant byte first, and then the payload.
//! The header counts the payload only. Frames follow one another with nothing
//! in between.

use crate::codec::{DecodeError, Wire};
use vstd::prelude::*;
use vstd::slice::slice_subrange;

verus! {

/// The header that announces a payload of `len` bytes.
pub open spec fn header(len: nat) -> Seq<u8> {
    seq![
        (len % 0x100) as u8,
        (len / 0x100 % 0x100) as u8,
        (len / 0x1_0000 % 0x100) as u8,
        (len / 0x100_0000 % 0x100) as u8,
    ]
}

/// The payload length that the first four bytes of `buf` announce.
pub open spec fn announced(buf: Seq<u8>) -> nat
    recommends
        buf.len() >= 4,
{
    buf[0] as nat + buf[1] as nat * 0x100 + buf[2] as nat * 0x1_0000 + buf[3] as nat * 0x100_0000
}

/// The frame that carries `payload`.
pub open spec fn framed(payload: Seq<u8>) -> Seq<u8> {
    header(payload.len()) + payload
}

/// Whether `buf` opens with a frame that can be taken: it has more than five
/// bytes, and all the bytes that its header announces.
pub open spec fn has_frame(buf: Seq<u8>) -> bool {
    buf.len() > 5 && announced(buf) + 4 <= buf.len()
}

/// The payload of the frame that opens `buf`.
pub open spec fn first_payload(buf: Seq<u8>) -> Seq<u8>
    recommends
        has_frame(buf),
{
    buf.subrange(4, 4 + announced(buf) as int)
}

/// What follows the frame that opens `buf`.
pub open spec fn after_frame(buf: Seq<u8>) -> Seq<u8>
    recommends
        has_frame(buf),
{
    buf.subrange(4 + announced(buf) as int, buf.len() as int)
}

/// What `de` returns on a buffer that holds `buf`.
pub open spec fn de_message<T: Wire>(buf: Seq<u8>) -> Result<Option<T>, DecodeError> {
    if has_frame(buf) {
        match T::parsed(first_payload(buf)) {
            Ok(message) => Ok(Some(message)),
            Err(error) => Err(error),
        }
    } else {
        Ok(None)
    }
}

/// What `de` leaves of a buffer that holds `buf`.
pub open spec fn de_remainder<T: Wire>(buf: Seq<u8>) -> Seq<u8> {
    if has_frame(buf) && T::parsed(first_payload(buf)) is Ok {
        after_frame(buf)
    } else {
        buf
    }
}

/// The messages that come out of a buffer that holds `buf` when `de` is called
/// until it returns no message: those of the whole frames at its start, up to
/// the first whose payload cannot be decoded.
pub open spec fn messages_in<T: Wire>(buf: Seq<u8>) -> Seq<T>
    decreases buf.len(),
{
    match de_message::<T>(buf) {
        Ok(Some(message)) => seq![message] + messages_in::<T>(de_remainder::<T>(buf)),
        _ => Seq::empty(),
    }
}

/// What is left of a buffer that holds `buf` when `de` was called until it
/// returned no message: the bytes from the first frame that is not whole, or
/// cannot be decoded, on.
pub open spec fn left_in<T: Wire>(buf: Seq<u8>) -> Seq<u8>
    decreases buf.len(),
{
    match de_message::<T>(buf) {
        Ok(Some(_)) => left_in::<T>(de_remainder::<T>(buf)),
        _ => buf,
    }
}

/// The error at which taking messages out of a buffer that holds `buf` stops,
/// if it stops at one.
pub open spec fn failure_in<T: Wire>(buf: Seq<u8>) -> Option<DecodeError> {
    match de_message::<T>(left_in::<T>(buf)) {
        Err(error) => Some(error),
        _ => None,
    }
}

/// The frames of `messages`, one after the other.
pub open spec fn frames_of<T: Wire>(messages: Seq<T>) -> Seq<u8>
    decreases messages.len(),
{
    if messages.len() == 0 {
        Seq::empty()
    } else {
        framed(messages.first().payload()) + frames_of(messages.drop_first())
    }
}

/// Puts the header in front of a payload.
pub fn frame(payload: Vec<u8>) -> (out: Vec<u8>)
    requires
        payload@.len() <= u32::MAX,
    ensures
        out@ == framed(payload@),
{
    let mut out: Vec<u8> = payload;
    let len: usize = out.len();
    out.insert(0, (len % 0x100) as u8);
    out.insert(1, (len / 0x100 % 0x100) as u8);
    out.insert(2, (len / 0x1_0000 % 0x100) as u8);
    out.insert(3, (len / 0x100_0000 % 0x100) as u8);
    assert(out@ =~= framed(payload@));
    out
}

/// Serialises a message into one frame.
pub fn ser<T: Wire>(data: T) -> (out: Vec<u8>)
    ensures
        out@ == framed(data.payload()),
{
    let payload: Vec<u8> = data.encode();
    proof {
        data.lemma_payload_len();
    }
    frame(payload)
}

/// The payload length of the frame that opens `buf`, if `buf` opens with a
/// frame that can be taken.
pub fn peek(buf: &Vec<u8>) -> (len: Option<usize>)
    ensures
        len is Some <==> has_frame(buf@),
        len matches Some(n) ==> n == announced(buf@),
{
    if buf.len() <= 5 {
        return None;
    }
    let length: u32 = buf[0] as u32 + buf[1] as u32 * 0x100 + buf[2] as u32 * 0x1_0000
        + buf[3] as u32 * 0x100_0000;
    let len: usize = length as usize;
    if buf.len() - 4 < len {
        return None;
    }
    Some(len)
}

/// Takes the message of the first frame out of `buf`.
///
/// While `buf` has five bytes or fewer, or fewer bytes than its header
/// announces, there is no message yet and `buf` stays as it is. A payload
/// that cannot be decoded is an error, and `buf` stays as it is too. Else the
/// frame leaves `buf` and its message is returned.
pub fn de<T: Wire>(buf: &mut Vec<u8>) -> (message: Result<Option<T>, DecodeError>)
    ensures
        message == de_message::<T>(old(buf)@),
        final(buf)@ == de_remainder::<T>(old(buf)@),
{
    let len: usize = match peek(buf) {
        Some(len) => len,
        None => {
            return Ok(None);
        },
    };
    assert(len + 4 <= buf.len());
    let decoded: Result<T, DecodeError> = T::decode(slice_subrange(buf.as_slice(), 4, len + 4));
    match decoded {
        Ok(message) => {
            let rest: Vec<u8> = buf.split_off(len + 4);
            *buf = rest;
            Ok(Some(message))
        },
        Err(error) => Err(error),
    }
}

/// A header announces the length that it was made for.
pub proof fn lemma_header_announces(len: nat, tail: Seq<u8>)
    requires
        len <= u32::MAX,
    ensures
        header(len).len() == 4,
        announced(header(len) + tail) == len,
{
    let b0: int = len as int % 0x100;
    let q1: int = len as int / 0x100;
    let b1: int = q1 % 0x100;
    let q2: int = q1 / 0x100;
    let b2: int = q2 % 0x100;
    let q3: int = q2 / 0x100;
    assert(q2 == len as int / 0x1_0000);
    assert(q3 == len as int / 0x100_0000);
    assert(q3 % 0x100 == q3);
    assert(len == b0 + b1 * 0x100 + b2 * 0x1_0000 + q3 * 0x100_0000);
    let buf = header(len) + tail;
    assert(buf[0] == b0 as u8);
    assert(buf[1] == b1 as u8);
    assert(buf[2] == b2 as u8);
    assert(buf[3] == q3 as u8);
}

/// The parts of a frame that is followed by `tail`.
pub proof fn lemma_frame_parts(payload: Seq<u8>, tail: Seq<u8>)
    requires
        payload.len() <= u32::MAX,
    ensures
        framed(payload).len() == payload.len() + 4,
        announced(framed(payload) + tail) == payload.len(),
        has_frame(framed(payload) + tail) <==> payload.len() + tail.len() >= 2,
        first_payload(framed(payload) + tail) == payload,
        after_frame(framed(payload) + tail) == tail,
{
    let buf = framed(payload) + tail;
    lemma_header_announces(payload.len(), payload + tail);
    assert(buf =~= header(payload.len()) + (payload + tail));
    assert(buf.subrange(4, 4 + payload.len() as int) =~= payload);
    assert(buf.subrange(4 + payload.len() as int, buf.len() as int) =~= tail);
}

/// What `de` leaves of a buffer is the end of the buffer, and at least four
/// bytes shorter where a message was taken.
pub proof fn lemma_remainder_is_the_end<T: Wire>(buf: Seq<u8>)
    ensures
        de_remainder::<T>(buf).len() <= buf.len(),
        de_remainder::<T>(buf) == buf.skip(buf.len() - de_remainder::<T>(buf).len()),
        de_message::<T>(buf) matches Ok(Some(_)) ==> de_remainder::<T>(buf).len() + 4 <= buf.len(),
{
    if has_frame(buf) && T::parsed(first_payload(buf)) is Ok {
    } else {
        assert(buf.skip(0) =~= buf);
    }
}

/// A buffer that holds the frame of a message and then `tail` gives the
/// message, and `tail` is left.
pub proof fn lemma_de_framed<T: Wire>(message: T, tail: Seq<u8>)
    ensures
        de_message::<T>(framed(message.payload()) + tail) matches Ok(Some(m)) && m == message,
        de_remainder::<T>(framed(message.payload()) + tail) == tail,
{
    message.lemma_payload_len();
    message.lemma_parsed_payload();
    lemma_frame_parts(message.payload(), tail);
}

/// Round trip: decoding the frame of a message gives that message and leaves
/// the buffer empty, and an empty buffer gives no further message.
pub proof fn lemma_round_trip<T: Wire>(message: T)
    ensures
        de_message::<T>(framed(message.payload())) matches Ok(Some(m)) && m == message,
        de_remainder::<T>(framed(message.payload())) == Seq::<u8>::empty(),
        de_message::<T>(Seq::<u8>::empty()) matches Ok(None),
{
    lemma_de_framed(message, Seq::<u8>::empty());
    assert(framed(message.payload()) + Seq::<u8>::empty() =~= framed(message.payload()));
}

/// Partial read: of the frame of a message cut in two, with the cut before
/// the last byte, the first part alone gives no message and stays whole; the
/// first part followed by the second gives the message and nothing is left.
pub proof fn lemma_partial_read<T: Wire>(message: T, cut: int)
    requires
        0 <= cut < framed(message.payload()).len(),
    ensures
        de_message::<T>(framed(message.payload()).take(cut)) matches Ok(None),
        de_remainder::<T>(framed(message.payload()).take(cut)) == framed(message.payload()).take(
            cut,
        ),
        de_message::<T>(
            framed(message.payload()).take(cut) + framed(message.payload()).skip(cut),
        ) matches Ok(Some(m)) && m == message,
        de_remainder::<T>(
            framed(message.payload()).take(cut) + framed(message.payload()).skip(cut),
        ) == Seq::<u8>::empty(),
{
    let whole = framed(message.payload());
    message.lemma_payload_len();
    lemma_frame_parts(message.payload(), Seq::<u8>::empty());
    lemma_round_trip(message);
    assert(whole.take(cut) + whole.skip(cut) =~= whole);
    if cut > 5 {
        assert(announced(whole.take(cut)) == announced(whole));
    }
}

/// Two messages in one buffer: decoding twice gives the first, then the
/// second, and leaves the buffer empty.
pub proof fn lemma_two_messages<A: Wire, B: Wire>(first: A, second: B)
    ensures
        de_message::<A>(framed(first.payload()) + framed(second.payload())) matches Ok(Some(m))
            && m == first,
        de_remainder::<A>(framed(first.payload()) + framed(second.payload())) == framed(
            second.payload(),
        ),
        de_message::<B>(framed(second.payload())) matches Ok(Some(m)) && m == second,
        de_remainder::<B>(framed(second.payload())) == Seq::<u8>::empty(),
{
    lemma_de_framed(first, framed(second.payload()));
    lemma_round_trip(second);
}

/// Frame buffer: a buffer that holds whole frames and then bytes that are no
/// whole frame yet gives the messages of the frames, in order, and is left
/// with those bytes as they are.
pub proof fn lemma_frames_come_out<T: Wire>(messages: Seq<T>, partial: Seq<u8>)
    requires
        !has_frame(partial),
    ensures
        messages_in::<T>(frames_of(messages) + partial) == messages,
        left_in::<T>(frames_of(messages) + partial) == partial,
        failure_in::<T>(frames_of(messages) + partial) is None,
    decreases messages.len(),
{
    let buf = frames_of(messages) + partial;
    if messages.len() == 0 {
        assert(buf =~= partial);
    } else {
        let first = messages.first();
        let rest = messages.drop_first();
        let tail = frames_of(rest) + partial;
        assert(buf =~= framed(first.payload()) + tail);
        lemma_de_framed(first, tail);
        lemma_frames_come_out(rest, partial);
        assert(seq![first] + rest =~= messages);
    }
}

/// No byte is lost: what is left of a buffer is the end of the buffer.
pub proof fn lemma_left_is_the_end<T: Wire>(buf: Seq<u8>)
    ensures
        left_in::<T>(buf).len() <= buf.len(),
        left_in::<T>(buf) == buf.skip(buf.len() - left_in::<T>(buf).len()),
    decreases buf.len(),
{
    let rest = de_remainder::<T>(buf);
    lemma_remainder_is_the_end::<T>(buf);
    if de_message::<T>(buf) matches Ok(Some(_)) {
        lemma_left_is_the_end::<T>(rest);
        let cut = buf.len() - rest.len();
        let kept = rest.len() - left_in::<T>(rest).len();
        assert(buf.skip(cut).skip(kept) =~= buf.skip(cut + kept));
    } else {
        assert(buf.skip(0) =~= buf);
    }
}

} // verus!
