//! The wire format: observations sent to the agent, actions received from
//! it. Every number on the wire is little-endian, and every message starts
//! with the same sentinel word, by which a reader notices that it has lost
//! its place in the stream.

use crate::field::FIELD_PIXELS;
use crate::input::{Input, INPUT_MASK};
use crate::raster::Renderer;
use byteorder::{ByteOrder, LittleEndian};
use vstd::prelude::*;
use vstd::slice::slice_subrange;

verus! {

/// The word that starts every message.
pub const SENTINEL: u32 = 0x1337BEEF;

/// Length of an action message: the sentinel and the input byte.
pub const ACTION_LEN: usize = 5;

/// Length of the pixels of an observation on the wire.
pub const PIXEL_BYTES: usize = 688128;

/// Length of an observation message: the sentinel, the pixels, the reward
/// and the flag that ends an episode.
pub const OBSERVATION_LEN: usize = 688137;

/// The four bytes of `x`, lowest first.
pub open spec fn le_bytes(x: u32) -> Seq<u8> {
    seq![
        (x % 256) as u8,
        (x / 256 % 256) as u8,
        (x / 65536 % 256) as u8,
        (x / 16777216) as u8,
    ]
}

/// The number whose bytes, lowest first, are the first four of `s`.
pub open spec fn le_value(s: Seq<u8>) -> int {
    s[0] + 256 * s[1] + 65536 * s[2] + 16777216 * s[3]
}

/// The bytes of each word of `ws` in turn.
pub open spec fn le_words(ws: Seq<u32>) -> Seq<u8> {
    Seq::new(4 * ws.len(), |i: int| le_bytes(ws[i / 4])[i % 4])
}

/// The words whose bytes make up `bs`, four bytes each.
pub open spec fn le_unwords(bs: Seq<u8>) -> Seq<u32> {
    Seq::new((bs.len() / 4) as nat, |i: int| le_value(bs.subrange(4 * i, 4 * i + 4)) as u32)
}

/// Why a message was not accepted.
#[derive(Clone, Copy, Debug, PartialEq, Eq, Structural)]
pub enum ProtocolError {
    /// The message has not the length of its kind.
    Length,
    /// The message does not start with the sentinel: the stream is out of
    /// step and nothing after this point can be trusted.
    Desync,
    /// The flag byte of an observation is neither 0 nor 1.
    Flag,
}

/// What an observation carries.
pub struct Observation {
    /// The framebuffer, row by row.
    pub pixels: Vec<u32>,
    /// The reward, as the bits of a single-precision number.
    pub reward_bits: u32,
    /// Whether the episode ended with this observation.
    pub done: bool,
}

/// An observation with its pixels as a sequence.
#[verifier::ext_equal]
pub struct ObservationView {
    pub pixels: Seq<u32>,
    pub reward_bits: u32,
    pub done: bool,
}

impl View for Observation {
    type V = ObservationView;

    open spec fn view(&self) -> ObservationView {
        ObservationView { pixels: self.pixels@, reward_bits: self.reward_bits, done: self.done }
    }
}

/// The message for an observation.
pub open spec fn observation_bytes(pixels: Seq<u32>, reward_bits: u32, done: bool) -> Seq<u8> {
    le_bytes(SENTINEL) + le_words(pixels) + le_bytes(reward_bits) + seq![
        if done {
            1u8
        } else {
            0u8
        },
    ]
}

/// What a reader makes of an observation message.
pub open spec fn parse_observation(bytes: Seq<u8>) -> Result<ObservationView, ProtocolError> {
    if bytes.len() != OBSERVATION_LEN {
        Err(ProtocolError::Length)
    } else if le_value(bytes) != SENTINEL {
        Err(ProtocolError::Desync)
    } else if bytes[OBSERVATION_LEN - 1] > 1 {
        Err(ProtocolError::Flag)
    } else {
        Ok(
            ObservationView {
                pixels: le_unwords(bytes.subrange(4, 4 + PIXEL_BYTES)),
                reward_bits: le_value(bytes.subrange(4 + PIXEL_BYTES, 8 + PIXEL_BYTES)) as u32,
                done: bytes[OBSERVATION_LEN - 1] == 1,
            },
        )
    }
}

/// The message for an action.
pub open spec fn action_bytes(bits: u8) -> Seq<u8> {
    le_bytes(SENTINEL) + seq![bits]
}

/// What a reader makes of the first four bytes of a message.
pub open spec fn parse_sentinel(prefix: Seq<u8>) -> Result<(), ProtocolError> {
    if prefix.len() != 4 {
        Err(ProtocolError::Length)
    } else if le_value(prefix) != SENTINEL {
        Err(ProtocolError::Desync)
    } else {
        Ok(())
    }
}

/// What a reader makes of an action message: the input bits, without those
/// that name no control.
pub open spec fn parse_action(bytes: Seq<u8>) -> Result<u8, ProtocolError> {
    if bytes.len() != ACTION_LEN {
        Err(ProtocolError::Length)
    } else if le_value(bytes) != SENTINEL {
        Err(ProtocolError::Desync)
    } else {
        Ok(bytes[4] & INPUT_MASK)
    }
}

/// Reading the bytes of a word gives the word back.
pub proof fn lemma_word_round_trip(x: u32)
    ensures
        le_bytes(x).len() == 4,
        le_value(le_bytes(x)) == x,
{
}

/// Four bytes are the bytes of the number that they hold, and of no other.
pub proof fn lemma_word_unique(s: Seq<u8>)
    requires
        s.len() == 4,
    ensures
        0 <= le_value(s) <= u32::MAX,
        le_bytes(le_value(s) as u32) == s,
{
    assert(le_bytes(le_value(s) as u32) =~= s);
}

/// Reading the bytes of a sequence of words gives the words back.
pub proof fn lemma_words_round_trip(ws: Seq<u32>)
    ensures
        le_words(ws).len() == 4 * ws.len(),
        le_unwords(le_words(ws)) == ws,
{
    let bs = le_words(ws);
    assert forall|i: int| 0 <= i < ws.len() implies le_unwords(bs)[i] == ws[i] by {
        let chunk = bs.subrange(4 * i, 4 * i + 4);
        assert(chunk =~= le_bytes(ws[i])) by {
            assert forall|j: int| 0 <= j < 4 implies chunk[j] == le_bytes(ws[i])[j] by {
                assert((4 * i + j) / 4 == i);
                assert((4 * i + j) % 4 == j);
            }
        }
        lemma_word_round_trip(ws[i]);
    }
    assert(le_unwords(bs) =~= ws);
}

/// A reader of the message for an observation gets back the same pixels,
/// the same reward bits and the same flag.
pub proof fn lemma_observation_round_trip(pixels: Seq<u32>, reward_bits: u32, done: bool)
    requires
        pixels.len() == FIELD_PIXELS,
    ensures
        observation_bytes(pixels, reward_bits, done).len() == OBSERVATION_LEN,
        parse_observation(observation_bytes(pixels, reward_bits, done)) == Ok::<
            ObservationView,
            ProtocolError,
        >(ObservationView { pixels, reward_bits, done }),
{
    let bytes = observation_bytes(pixels, reward_bits, done);
    lemma_word_round_trip(SENTINEL);
    lemma_word_round_trip(reward_bits);
    lemma_words_round_trip(pixels);
    assert(bytes.len() == OBSERVATION_LEN);
    assert(bytes.subrange(0, 4) =~= le_bytes(SENTINEL));
    assert(le_value(bytes) == le_value(bytes.subrange(0, 4)));
    assert(bytes.subrange(4, 4 + PIXEL_BYTES) =~= le_words(pixels));
    assert(bytes.subrange(4 + PIXEL_BYTES, 8 + PIXEL_BYTES) =~= le_bytes(reward_bits));
    let got = parse_observation(bytes);
    assert(got is Ok);
    assert(got->Ok_0 =~= ObservationView { pixels, reward_bits, done });
}

/// A reader of the message for an action gets back the same input bits,
/// without those that name no control.
pub proof fn lemma_action_round_trip(bits: u8)
    ensures
        action_bytes(bits).len() == ACTION_LEN,
        parse_action(action_bytes(bits)) == Ok::<u8, ProtocolError>(bits & INPUT_MASK),
{
    let bytes = action_bytes(bits);
    lemma_word_round_trip(SENTINEL);
    assert(bytes.subrange(0, 4) =~= le_bytes(SENTINEL));
    assert(le_value(bytes) == le_value(bytes.subrange(0, 4)));
}

/// An action message of the right length that starts with anything but the
/// sentinel is refused as out of step, whatever its input byte holds.
pub proof fn lemma_wrong_prefix_refused(bytes: Seq<u8>)
    requires
        bytes.len() == ACTION_LEN,
        bytes.subrange(0, 4) != le_bytes(SENTINEL),
    ensures
        parse_action(bytes) == Err::<u8, ProtocolError>(ProtocolError::Desync),
        parse_sentinel(bytes.subrange(0, 4)) == Err::<(), ProtocolError>(ProtocolError::Desync),
{
    let prefix = bytes.subrange(0, 4);
    lemma_word_unique(prefix);
    assert(le_value(bytes) == le_value(prefix));
}

/// `byteorder::LittleEndian::read_u32`: the number held in the first four
/// bytes of `src`, lowest byte first. It panics on fewer than four bytes.
#[verifier::external_body]
fn le_get_u32(src: &[u8]) -> (r: u32)
    requires
        src@.len() >= 4,
    ensures
        r == le_value(src@),
{
    LittleEndian::read_u32(src)
}

/// `byteorder::LittleEndian::write_u32`: puts the bytes of `n`, lowest
/// first, into the first four bytes of `dst` and leaves the rest. It panics
/// on fewer than four bytes.
#[verifier::external_body]
fn le_put_u32(dst: &mut [u8], n: u32)
    requires
        old(dst)@.len() >= 4,
    ensures
        final(dst)@ == le_bytes(n) + old(dst)@.subrange(4, old(dst)@.len() as int),
{
    LittleEndian::write_u32(dst, n)
}

/// `byteorder::LittleEndian::write_u32_into`: fills `dst` with the bytes of
/// each word of `src` in turn. It panics unless `dst` has four bytes for
/// each word.
#[verifier::external_body]
fn le_put_u32s(src: &[u32], dst: &mut [u8])
    requires
        old(dst)@.len() == 4 * src@.len(),
    ensures
        final(dst)@ == le_words(src@),
{
    LittleEndian::write_u32_into(src, dst)
}

/// `byteorder::LittleEndian::read_u32_into`: fills `dst` with the words
/// whose bytes make up `src`. It panics unless `src` has four bytes for
/// each word.
#[verifier::external_body]
fn le_get_u32s(src: &[u8], dst: &mut [u32])
    requires
        src@.len() == 4 * old(dst)@.len(),
    ensures
        final(dst)@ == le_unwords(src@),
{
    LittleEndian::read_u32_into(src, dst)
}

/// The four bytes of `n` on the wire.
fn word_bytes(n: u32) -> (out: Vec<u8>)
    ensures
        out@ == le_bytes(n),
{
    let mut out: Vec<u8> = vec![0u8; 4];
    le_put_u32(out.as_mut_slice(), n);
    assert(out@ =~= le_bytes(n));
    out
}

/// The message that carries the image of `renderer`, a reward and the flag
/// that ends an episode.
pub fn encode_observation(renderer: &Renderer, reward_bits: u32, done: bool) -> (out: Vec<u8>)
    ensures
        out@ == observation_bytes(renderer@, reward_bits, done),
        out@.len() == OBSERVATION_LEN,
{
    let pixels: &Vec<u32> = renderer.buffer();
    let mut out: Vec<u8> = word_bytes(SENTINEL);
    let mut body: Vec<u8> = vec![0u8; PIXEL_BYTES];
    le_put_u32s(pixels.as_slice(), body.as_mut_slice());
    let mut tail: Vec<u8> = word_bytes(reward_bits);
    out.append(&mut body);
    out.append(&mut tail);
    out.push(if done { 1u8 } else { 0u8 });
    out
}

/// Reads an observation message.
pub fn decode_observation(bytes: &[u8]) -> (r: Result<Observation, ProtocolError>)
    ensures
        match r {
            Ok(obs) => parse_observation(bytes@) == Ok::<ObservationView, ProtocolError>(obs@),
            Err(e) => parse_observation(bytes@) == Err::<ObservationView, ProtocolError>(e),
        },
{
    if bytes.len() != OBSERVATION_LEN {
        return Err(ProtocolError::Length);
    }
    if le_get_u32(bytes) != SENTINEL {
        return Err(ProtocolError::Desync);
    }
    let flag: u8 = bytes[OBSERVATION_LEN - 1];
    if flag > 1 {
        return Err(ProtocolError::Flag);
    }
    let mut pixels: Vec<u32> = vec![0u32; FIELD_PIXELS];
    le_get_u32s(slice_subrange(bytes, 4, 4 + PIXEL_BYTES), pixels.as_mut_slice());
    let reward_bits: u32 = le_get_u32(slice_subrange(bytes, 4 + PIXEL_BYTES, 8 + PIXEL_BYTES));
    Ok(Observation { pixels, reward_bits, done: flag == 1 })
}

/// The message that carries `input`.
pub fn encode_action(input: Input) -> (out: Vec<u8>)
    ensures
        out@ == action_bytes(input@),
        out@.len() == ACTION_LEN,
{
    let mut out: Vec<u8> = word_bytes(SENTINEL);
    out.push(input.bits());
    out
}

/// Checks the four bytes that start a message. `Desync` means that the
/// stream cannot be read any further.
pub fn check_sentinel(prefix: &[u8]) -> (r: Result<(), ProtocolError>)
    ensures
        r == parse_sentinel(prefix@),
{
    if prefix.len() != 4 {
        return Err(ProtocolError::Length);
    }
    if le_get_u32(prefix) != SENTINEL {
        return Err(ProtocolError::Desync);
    }
    Ok(())
}

/// Reads an action message. The input byte is looked at only after the
/// sentinel was found in place; its bits that name no control are dropped.
pub fn decode_action(bytes: &[u8]) -> (r: Result<Input, ProtocolError>)
    ensures
        match r {
            Ok(input) => parse_action(bytes@) == Ok::<u8, ProtocolError>(input@),
            Err(e) => parse_action(bytes@) == Err::<u8, ProtocolError>(e),
        },
{
    if bytes.len() != ACTION_LEN {
        return Err(ProtocolError::Length);
    }
    if le_get_u32(bytes) != SENTINEL {
        return Err(ProtocolError::Desync);
    }
    Ok(Input::from_bits_truncate(bytes[4]))
}

} // verus!
