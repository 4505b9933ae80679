//! The packet exchanged between two transports, and its byte layout.
//!
//! A packet is a 32-bit tag followed by its fields. Integers are written
//! little-endian at fixed width; a string is written as the 64-bit count of
//! its UTF-8 bytes followed by those bytes. There is no header, no version
//! and no checksum. Bytes after the last field are ignored by the reader.
//!
//! The bytes themselves are produced and consumed by `bincode`. This module
//! states the layout and says how bytes are read against it, binds the two
//! `bincode` calls to the layout, and proves that reading undoes writing.

use vstd::prelude::*;
use vstd::utf8::{decode_utf8, encode_utf8, valid_utf8};
use vstd::utf8::{decode_utf8_encode_utf8, encode_utf8_decode_utf8, encode_utf8_valid_utf8};
use crate::net::UDP_BUFFER_SIZE;

verus! {

/// The tag of a message packet, the only packet there is.
pub const MESSAGE_TAG: u32 = 0;

/// What travels in one datagram: a chat line and the name its sender claims.
#[derive(Debug, PartialEq, Eq)]
pub enum NetPacket {
    Message { from: String, body: String },
}

/// What a [`NetPacket`] stands for in contracts.
pub enum NetPacketView {
    Message { from: Seq<char>, body: Seq<char> },
}

impl View for NetPacket {
    type V = NetPacketView;

    open spec fn view(&self) -> NetPacketView {
        match self {
            NetPacket::Message { from, body } => NetPacketView::Message { from: from@, body: body@ },
        }
    }
}

/// `256` to the power `width`: one more than the largest number that
/// `width` bytes can hold.
pub open spec fn radix(width: nat) -> nat
    decreases width,
{
    if width == 0 {
        1
    } else {
        256 * radix((width - 1) as nat)
    }
}

/// The `width` low bytes of `value`, least significant first.
pub open spec fn le_bytes(value: nat, width: nat) -> Seq<u8>
    decreases width,
{
    if width == 0 {
        Seq::empty()
    } else {
        seq![(value % 256) as u8] + le_bytes(value / 256, (width - 1) as nat)
    }
}

/// The number that `bytes` spell, least significant byte first.
pub open spec fn le_value(bytes: Seq<u8>) -> nat
    decreases bytes.len(),
{
    if bytes.len() == 0 {
        0
    } else {
        bytes[0] as nat + 256 * le_value(bytes.drop_first())
    }
}

/// A string on the wire: the count of its UTF-8 bytes in eight bytes, then
/// the bytes.
pub open spec fn string_field(s: Seq<char>) -> Seq<u8> {
    le_bytes(encode_utf8(s).len(), 8) + encode_utf8(s)
}

/// A tag and two strings on the wire, one after the other.
pub open spec fn packet_bytes(tag: u32, from: Seq<char>, body: Seq<char>) -> Seq<u8> {
    le_bytes(tag as nat, 4) + string_field(from) + string_field(body)
}

/// Reads one string off the front of `bytes`: the string and what follows
/// it, or `None` where the count is cut short, promises more bytes than are
/// left, or the bytes counted are not UTF-8.
pub open spec fn read_string(bytes: Seq<u8>) -> Option<(Seq<char>, Seq<u8>)> {
    if bytes.len() < 8 {
        None
    } else {
        let count = le_value(bytes.take(8));
        let rest = bytes.skip(8);
        if count > rest.len() || !valid_utf8(rest.take(count as int)) {
            None
        } else {
            Some((decode_utf8(rest.take(count as int)), rest.skip(count as int)))
        }
    }
}

/// Reads a tag and two strings off the front of `bytes`; whatever follows
/// them is ignored.
pub open spec fn read_packet(bytes: Seq<u8>) -> Option<(u32, Seq<char>, Seq<char>)> {
    if bytes.len() < 4 {
        None
    } else {
        match read_string(bytes.skip(4)) {
            None => None,
            Some((from, rest)) => match read_string(rest) {
                None => None,
                Some((body, _)) => Some((le_value(bytes.take(4)) as u32, from, body)),
            },
        }
    }
}

/// The bytes that carry `packet`.
pub open spec fn encoding(packet: NetPacketView) -> Seq<u8> {
    match packet {
        NetPacketView::Message { from, body } => packet_bytes(MESSAGE_TAG, from, body),
    }
}

/// The packet that `bytes` carry, if they carry one: the fields must read
/// back and the tag must be a known one.
pub open spec fn decoding(bytes: Seq<u8>) -> Option<NetPacketView> {
    match read_packet(bytes) {
        Some((tag, from, body)) => if tag == MESSAGE_TAG {
            Some(NetPacketView::Message { from, body })
        } else {
            None
        },
        None => None,
    }
}

/// The error type of `bincode`. Nothing is read from it: a packet that does
/// not read back is dropped whatever the reason.
#[verifier::external_type_specification]
#[verifier::external_body]
pub struct ExBincodeErrorKind(bincode::ErrorKind);

/// `bincode::serialize` on a tuple of a `u32` and two strings.
///
/// Not proved, taken from `bincode`: with the options that `serialize`
/// fixes (little-endian, fixed-width integers, no size limit) a tuple is
/// written as its elements in order with nothing between them, a `u32` as
/// four bytes, a string as the eight-byte count of its UTF-8 bytes and then
/// those bytes. The writer is a `Vec` and no limit is set, so the call does
/// not fail.
#[verifier::external_body]
fn serialize_fields(tag: u32, from: &String, body: &String) -> (result: Result<
    Vec<u8>,
    Box<bincode::ErrorKind>,
>)
    ensures
        result is Ok,
        result matches Ok(bytes) ==> bytes@ == packet_bytes(tag, from@, body@),
{
    bincode::serialize(&(tag, from, body))
}

/// `bincode::deserialize` into a tuple of a `u32` and two strings.
///
/// Not proved, taken from `bincode`: reading undoes writing. Where the call
/// succeeds, the input begins with the bytes that `bincode::serialize` gives
/// for the tuple returned; where it fails, the input begins with the bytes
/// of no such tuple. Bytes left over are allowed.
#[verifier::external_body]
fn deserialize_fields(bytes: &[u8]) -> (result: Result<
    (u32, String, String),
    Box<bincode::ErrorKind>,
>)
    ensures
        match result {
            Ok((tag, from, body)) => packet_bytes(tag, from@, body@).is_prefix_of(bytes@),
            Err(_) => forall|tag: u32, from: Seq<char>, body: Seq<char>|
                !(#[trigger] packet_bytes(tag, from, body)).is_prefix_of(bytes@),
        },
{
    bincode::deserialize::<(u32, String, String)>(bytes)
}

impl NetPacket {
    /// Writes the packet out.
    pub fn encode(&self) -> (bytes: Vec<u8>)
        ensures
            bytes@ == encoding(self@),
    {
        match self {
            NetPacket::Message { from, body } => {
                serialize_fields(MESSAGE_TAG, from, body).unwrap()
            },
        }
    }

    /// Reads a packet back. `None` exactly where the bytes carry none: the
    /// input is cut short, a string in it is not UTF-8, or the tag is unknown.
    pub fn decode(bytes: &[u8]) -> (packet: Option<NetPacket>)
        ensures
            match packet {
                Some(p) => decoding(bytes@) == Some(p@),
                None => decoding(bytes@) is None,
            },
    {
        match deserialize_fields(bytes) {
            Ok((tag, from, body)) => {
                proof {
                    assert(bytes@.len() == bytes.len());
                    lemma_prefix_reads_back(tag, from@, body@, bytes@);
                }
                if tag == MESSAGE_TAG {
                    Some(NetPacket::Message { from, body })
                } else {
                    None
                }
            },
            Err(_) => {
                proof {
                    if read_packet(bytes@) is Some {
                        lemma_read_packet_is_prefix(bytes@);
                    }
                }
                None
            },
        }
    }
}

/// `le_bytes` gives exactly `width` bytes.
pub proof fn lemma_le_bytes_len(value: nat, width: nat)
    ensures
        le_bytes(value, width).len() == width,
    decreases width,
{
    if width > 0 {
        lemma_le_bytes_len(value / 256, (width - 1) as nat);
    }
}

/// A number that fits in `width` bytes is read back from them.
pub proof fn lemma_le_round_trip(value: nat, width: nat)
    requires
        value < radix(width),
    ensures
        le_value(le_bytes(value, width)) == value,
    decreases width,
{
    if width > 0 {
        let head = seq![(value % 256) as u8];
        let tail = le_bytes(value / 256, (width - 1) as nat);
        lemma_le_bytes_len(value / 256, (width - 1) as nat);
        lemma_le_round_trip(value / 256, (width - 1) as nat);
        assert((head + tail).drop_first() =~= tail);
    }
}

/// A string field followed by anything reads back as the string, with what
/// followed left over.
pub proof fn lemma_read_string_field(s: Seq<char>, tail: Seq<u8>)
    requires
        encode_utf8(s).len() < radix(8),
    ensures
        read_string(string_field(s) + tail) == Some((s, tail)),
{
    let text = encode_utf8(s);
    let count = le_bytes(text.len(), 8);
    let bytes = string_field(s) + tail;
    lemma_le_bytes_len(text.len(), 8);
    lemma_le_round_trip(text.len(), 8);
    assert(bytes.take(8) =~= count);
    assert(bytes.skip(8) =~= text + tail);
    assert((text + tail).take(text.len() as int) =~= text);
    assert((text + tail).skip(text.len() as int) =~= tail);
    encode_utf8_valid_utf8(s);
    encode_utf8_decode_utf8(s);
}

/// The fields of a packet followed by anything read back as they were
/// written.
pub proof fn lemma_read_packet_bytes(tag: u32, from: Seq<char>, body: Seq<char>, tail: Seq<u8>)
    requires
        encode_utf8(from).len() < radix(8),
        encode_utf8(body).len() < radix(8),
    ensures
        read_packet(packet_bytes(tag, from, body) + tail) == Some((tag, from, body)),
{
    let bytes = packet_bytes(tag, from, body) + tail;
    lemma_le_bytes_len(tag as nat, 4);
    assert(radix(4) == 0x1_0000_0000) by {
        reveal_with_fuel(radix, 5);
    }
    lemma_le_round_trip(tag as nat, 4);
    assert(bytes.take(4) =~= le_bytes(tag as nat, 4));
    assert(bytes.skip(4) =~= string_field(from) + (string_field(body) + tail));
    lemma_read_string_field(from, string_field(body) + tail);
    lemma_read_string_field(body, tail);
}

/// Bytes that begin with the fields of a packet read back as those fields,
/// as long as there are no more of them than memory can hold.
pub proof fn lemma_prefix_reads_back(tag: u32, from: Seq<char>, body: Seq<char>, bytes: Seq<u8>)
    requires
        packet_bytes(tag, from, body).is_prefix_of(bytes),
        bytes.len() <= usize::MAX,
    ensures
        read_packet(bytes) == Some((tag, from, body)),
{
    let written = packet_bytes(tag, from, body);
    assert(radix(8) == 0x1_0000_0000_0000_0000) by {
        reveal_with_fuel(radix, 9);
    }
    lemma_le_bytes_len(tag as nat, 4);
    lemma_le_bytes_len(encode_utf8(from).len(), 8);
    lemma_le_bytes_len(encode_utf8(body).len(), 8);
    lemma_read_packet_bytes(tag, from, body, bytes.skip(written.len() as int));
    assert(written + bytes.skip(written.len() as int) =~= bytes);
}

/// Bytes spell the number they are read as: writing that number at their
/// width gives them back.
pub proof fn lemma_le_bytes_of_value(bytes: Seq<u8>)
    ensures
        le_value(bytes) < radix(bytes.len()),
        le_bytes(le_value(bytes), bytes.len()) == bytes,
    decreases bytes.len(),
{
    if bytes.len() > 0 {
        let rest = bytes.drop_first();
        lemma_le_bytes_of_value(rest);
        let value = le_value(bytes);
        assert(value % 256 == bytes[0] as nat && value / 256 == le_value(rest));
        assert(le_bytes(value, bytes.len()) =~= bytes);
    }
}

/// A string that reads off the front of some bytes stands there as its
/// field, followed by what the reading left over.
pub proof fn lemma_read_string_is_field(bytes: Seq<u8>)
    requires
        read_string(bytes) is Some,
    ensures
        ({
            let (text, rest) = read_string(bytes)->0;
            string_field(text) + rest == bytes
        }),
{
    let count = le_value(bytes.take(8));
    let rest = bytes.skip(8);
    let text = rest.take(count as int);
    lemma_le_bytes_of_value(bytes.take(8));
    decode_utf8_encode_utf8(text);
    assert(string_field(decode_utf8(text)) + rest.skip(count as int) =~= bytes);
}

/// Fields that read off the front of some bytes stand there as they would
/// be written.
pub proof fn lemma_read_packet_is_prefix(bytes: Seq<u8>)
    requires
        read_packet(bytes) is Some,
    ensures
        ({
            let (tag, from, body) = read_packet(bytes)->0;
            packet_bytes(tag, from, body).is_prefix_of(bytes)
        }),
{
    let (tag, from, body) = read_packet(bytes)->0;
    let after_tag = bytes.skip(4);
    let (_, after_from) = read_string(after_tag)->0;
    let (_, after_body) = read_string(after_from)->0;
    assert(bytes.take(4).len() == 4);
    lemma_le_bytes_of_value(bytes.take(4));
    assert(radix(4) == 0x1_0000_0000) by {
        reveal_with_fuel(radix, 5);
    }
    assert(le_bytes(tag as nat, 4) == bytes.take(4));
    lemma_read_string_is_field(after_tag);
    lemma_read_string_is_field(after_from);
    assert(bytes =~= bytes.take(4) + after_tag);
    assert(bytes =~= packet_bytes(tag, from, body) + after_body);
}

/// Round trip: a packet whose bytes fit in one datagram is read back from
/// them exactly as it was written, for every sender and every body, and
/// also when other bytes follow.
pub proof fn law_decode_undoes_encode(packet: NetPacketView, trailing: Seq<u8>)
    requires
        encoding(packet).len() <= UDP_BUFFER_SIZE,
    ensures
        decoding(encoding(packet)) == Some(packet),
        decoding(encoding(packet) + trailing) == Some(packet),
{
    match packet {
        NetPacketView::Message { from, body } => {
            lemma_le_bytes_len(MESSAGE_TAG as nat, 4);
            lemma_le_bytes_len(encode_utf8(from).len(), 8);
            lemma_le_bytes_len(encode_utf8(body).len(), 8);
            assert(radix(8) == 0x1_0000_0000_0000_0000) by {
                reveal_with_fuel(radix, 9);
            }
            lemma_read_packet_bytes(MESSAGE_TAG, from, body, trailing);
            lemma_read_packet_bytes(MESSAGE_TAG, from, body, Seq::empty());
            assert(encoding(packet) + Seq::<u8>::empty() =~= encoding(packet));
        },
    }
}

} // verus!
