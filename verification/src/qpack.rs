//! What the connection state needs of QPACK (RFC 9204): errors, decoded field sections, and the
//! acknowledgment of a field section.

use vstd::prelude::*;
use vstd::string::StringExecFns;

verus! {

/// Why a field section or an instruction could not be encoded.
#[derive(Debug)]
pub struct EncoderError(pub String);

/// Why a field section or an instruction could not be decoded.
#[derive(Debug)]
pub enum DecoderError {
    /// The field section is larger than allowed: its size.
    HeaderTooLong(u64),
    /// The field section refers to table entries that have not arrived: the insert count it needs.
    MissingRefs(usize),
    /// The input is malformed.
    Malformed(String),
}

/// An error of either direction.
#[derive(Debug)]
pub enum Error {
    /// An error of the encoder.
    Encoder(EncoderError),
    /// An error of the decoder.
    Decoder(DecoderError),
}

impl Error {
    /// The error in words: which side it comes from, then `detail`, the words for the error of
    /// that side.
    pub fn message(&self, detail: &str) -> (text: String)
        ensures
            text@ == match self {
                Error::Encoder(_) => "Encoder "@,
                Error::Decoder(_) => "Decoder "@,
            } + detail@,
    {
        let mut text: String = match self {
            Error::Encoder(_) => "Encoder ".to_owned(),
            Error::Decoder(_) => "Decoder ".to_owned(),
        };
        text.append(detail);
        text
    }
}

/// A field line: name and value.
#[derive(Debug)]
pub struct HeaderField {
    /// Name of the field.
    pub name: Vec<u8>,
    /// Value of the field.
    pub value: Vec<u8>,
}

/// A decoded field section.
#[derive(Debug)]
pub struct Decoded {
    /// The field lines in their order.
    pub fields: Vec<HeaderField>,
    /// Size of the field section, as the limit on it counts.
    pub mem_size: u64,
}

/// The bytes of a prefixed integer after its prefix: seven bits each, least significant first,
/// with the high bit set on all but the last.
pub open spec fn continuation(v: int) -> Seq<u8>
    decreases v,
{
    if v < 128 {
        seq![v as u8]
    } else {
        seq![(128 + v % 128) as u8] + continuation(v / 128)
    }
}

/// A Section Acknowledgment (RFC 9204, section 4.4.1): the high bit, then the stream identifier
/// as an integer with a seven-bit prefix.
pub open spec fn header_ack(stream_id: int) -> Seq<u8> {
    if stream_id < 127 {
        seq![(128 + stream_id) as u8]
    } else {
        seq![255u8] + continuation(stream_id - 127)
    }
}

/// Reads the bytes of a prefixed integer after its prefix: the value and the number of bytes.
pub open spec fn read_continuation(s: Seq<u8>) -> Option<(int, int)>
    decreases s.len(),
{
    if s.len() == 0 {
        None
    } else if s[0] < 128 {
        Some((s[0] as int, 1))
    } else {
        match read_continuation(s.drop_first()) {
            None => None,
            Some((rest, n)) => Some((s[0] - 128 + 128 * rest, n + 1)),
        }
    }
}

/// Reads a Section Acknowledgment: the stream identifier and the number of bytes.
pub open spec fn read_header_ack(s: Seq<u8>) -> Option<(int, int)> {
    if s.len() == 0 || s[0] < 128 {
        None
    } else if s[0] < 255 {
        Some((s[0] - 128, 1))
    } else {
        match read_continuation(s.drop_first()) {
            None => None,
            Some((rest, n)) => Some((127 + rest, n + 1)),
        }
    }
}

/// The acknowledgments of several streams, one after the other.
pub open spec fn header_acks(streams: Seq<u64>) -> Seq<u8>
    decreases streams.len(),
{
    if streams.len() == 0 {
        Seq::empty()
    } else {
        header_acks(streams.drop_last()) + header_ack(streams.last() as int)
    }
}

/// Reads Section Acknowledgments up to the end: the stream identifiers in their order.
pub open spec fn read_header_acks(s: Seq<u8>) -> Option<Seq<int>>
    decreases s.len(),
{
    if s.len() == 0 {
        Some(Seq::empty())
    } else {
        match read_header_ack(s) {
            None => None,
            Some((stream_id, n)) => {
                proof {
                    law_header_ack_read_bounds(s);
                }
                match read_header_acks(s.skip(n)) {
                    None => None,
                    Some(rest) => Some(seq![stream_id] + rest),
                }
            },
        }
    }
}

/// The instruction that acknowledges the field section of stream `stream_id`.
pub fn ack_header(stream_id: u64) -> (instruction: Vec<u8>)
    ensures
        instruction@ == header_ack(stream_id as int),
        instruction@.len() <= 11,
{
    let mut instruction: Vec<u8> = Vec::new();
    if stream_id < 127 {
        instruction.push((128 + stream_id) as u8);
        return instruction;
    }
    instruction.push(255);
    let mut remaining: u64 = stream_id - 127;
    proof {
        law_header_ack_size(stream_id);
    }
    while remaining >= 128
        invariant
            instruction@ + continuation(remaining as int) == header_ack(stream_id as int),
        decreases remaining,
    {
        let ghost before = instruction@;
        let ghost value = remaining as int;
        instruction.push((128 + remaining % 128) as u8);
        remaining = remaining / 128;
        proof {
            assert(instruction@ + continuation(value / 128) =~= before + continuation(value));
        }
    }
    instruction.push(remaining as u8);
    assert(instruction@ =~= header_ack(stream_id as int));
    instruction
}

/// The acknowledgment of any stream takes between one and eleven bytes.
pub proof fn law_header_ack_size(stream_id: u64)
    ensures
        1 <= header_ack(stream_id as int).len() <= 11,
{
    reveal_with_fuel(continuation, 10);
}

/// An acknowledgment reads back as the stream it is about, whatever follows it.
pub proof fn law_header_ack_round_trip(stream_id: int, rest: Seq<u8>)
    requires
        0 <= stream_id,
    ensures
        read_header_ack(header_ack(stream_id) + rest) == Some(
            (stream_id, header_ack(stream_id).len() as int),
        ),
{
    if stream_id >= 127 {
        let tail = continuation(stream_id - 127);
        assert((seq![255u8] + tail + rest).drop_first() =~= tail + rest);
        lemma_read_continuation(stream_id - 127, rest);
    }
}

/// How the bytes of an acknowledgment follow from the stream. A small identifier goes into the one
/// byte, below its high bit. From 127 on that byte is full and the excess follows, seven bits at a
/// time from the lowest, each byte but the last with its high bit set: past its lowest seven bits
/// the excess continues as the excess divided by 128 would.
pub proof fn law_header_ack_digits(stream_id: int)
    requires
        0 <= stream_id,
    ensures
        stream_id < 127 ==> header_ack(stream_id).len() == 1 && header_ack(stream_id)[0] == 128
            + stream_id,
        127 <= stream_id < 255 ==> header_ack(stream_id).len() == 2 && header_ack(stream_id)[0]
            == 255 && header_ack(stream_id)[1] == stream_id - 127,
        255 <= stream_id ==> header_ack(stream_id).len() > 2 && header_ack(stream_id)[0] == 255
            && header_ack(stream_id)[1] == 128 + (stream_id - 127) % 128 && header_ack(
            stream_id,
        ).skip(2) == header_ack(127 + (stream_id - 127) / 128).skip(1),
{
    if 255 <= stream_id {
        let excess = stream_id - 127;
        let tail = continuation(excess / 128);
        assert(header_ack(stream_id).skip(2) =~= tail);
        assert(header_ack(127 + excess / 128).skip(1) =~= tail);
        reveal_with_fuel(continuation, 2);
    }
}

/// The acknowledgments of several streams read back as these streams, in their order.
pub proof fn law_header_acks_read_back(streams: Seq<u64>)
    ensures
        read_header_acks(header_acks(streams)) == Some(
            streams.map_values(|stream_id: u64| stream_id as int),
        ),
    decreases streams.len(),
{
    let ids = streams.map_values(|stream_id: u64| stream_id as int);
    if streams.len() == 0 {
        assert(ids =~= Seq::empty());
    } else {
        let first = header_ack(streams[0] as int);
        let tail = streams.drop_first();
        lemma_header_acks_front(streams);
        law_header_ack_round_trip(streams[0] as int, header_acks(tail));
        assert((first + header_acks(tail)).skip(first.len() as int) =~= header_acks(tail));
        law_header_acks_read_back(tail);
        law_header_ack_size(streams[0]);
        assert(seq![streams[0] as int] + tail.map_values(|stream_id: u64| stream_id as int) =~= ids);
    }
}

/// The acknowledgments of several streams start with that of the first of them.
proof fn lemma_header_acks_front(streams: Seq<u64>)
    requires
        streams.len() > 0,
    ensures
        header_acks(streams) == header_ack(streams[0] as int) + header_acks(streams.drop_first()),
    decreases streams.len(),
{
    let front = streams.drop_last();
    if front.len() == 0 {
        assert(header_acks(front) + header_ack(streams[0] as int) =~= header_ack(streams[0] as int)
            + header_acks(streams.drop_first()));
    } else {
        lemma_header_acks_front(front);
        assert(streams.drop_first().drop_last() =~= front.drop_first());
        assert(header_acks(streams) =~= header_ack(streams[0] as int) + header_acks(
            streams.drop_first(),
        ));
    }
}

/// Reading an acknowledgment takes at least one byte and no more than there are.
pub proof fn law_header_ack_read_bounds(s: Seq<u8>)
    ensures
        read_header_ack(s) matches Some((_, n)) ==> 1 <= n <= s.len(),
{
    if s.len() > 0 {
        lemma_read_continuation_bounds(s.drop_first());
    }
}

/// Reading the bytes after a prefix takes at least one byte and no more than there are.
proof fn lemma_read_continuation_bounds(s: Seq<u8>)
    ensures
        read_continuation(s) matches Some((_, n)) ==> 1 <= n <= s.len(),
    decreases s.len(),
{
    if s.len() > 0 {
        lemma_read_continuation_bounds(s.drop_first());
    }
}

/// The bytes after the prefix read back as the value they were made of.
proof fn lemma_read_continuation(v: int, rest: Seq<u8>)
    requires
        0 <= v,
    ensures
        read_continuation(continuation(v) + rest) == Some((v, continuation(v).len() as int)),
    decreases v,
{
    if v >= 128 {
        let s = continuation(v) + rest;
        assert(s.drop_first() =~= continuation(v / 128) + rest);
        lemma_read_continuation(v / 128, rest);
    }
}

} // verus!
