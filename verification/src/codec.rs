//! The transport-stream codec: the `mpeg2ts` packet reader and writer, with
//! the contracts that the rest of the library relies on. Nothing in this file
//! is proved; each item says what it takes on trust.

use vstd::prelude::*;
use mpeg2ts::ts::{ReadTsPacket, TsPacket, TsPacketReader, TsPacketWriter, WriteTsPacket};

verus! {

/// Size in bytes of one transport packet.
pub const PACKET_SIZE: usize = 188;

/// `mpeg2ts::ts::TsPacket`, a decoded transport packet. The library only
/// carries it from the reader to the writer.
#[verifier::external_type_specification]
#[verifier::external_body]
pub struct ExTsPacket(mpeg2ts::ts::TsPacket);

/// `mpeg2ts::ts::TsPacketReader`, the packet reader over a byte stream.
#[verifier::external_type_specification]
#[verifier::external_body]
#[verifier::reject_recursive_types(R)]
pub struct ExTsPacketReader<R>(mpeg2ts::ts::TsPacketReader<R>);

/// `mpeg2ts::Error`, the codec's error.
#[verifier::external_type_specification]
#[verifier::external_body]
pub struct ExCodecFailure(mpeg2ts::Error);

/// The bytes that a reader over a byte slice has handed out as whole packets
/// since it was made.
pub uninterp spec fn reader_consumed(reader: TsPacketReader<&[u8]>) -> Seq<u8>;

/// The bytes of its slice that a reader has not read yet.
pub uninterp spec fn reader_unread(reader: TsPacketReader<&[u8]>) -> Seq<u8>;

/// What `read_ts_packet` makes of the 188 bytes `packet` on a reader that has
/// consumed `consumed` before them: the packet, or `None` where it fails.
pub uninterp spec fn decoded(consumed: Seq<u8>, packet: Seq<u8>) -> Option<TsPacket>;

/// The bytes that `write_ts_packet` writes for a packet, or `None` where it
/// fails.
pub uninterp spec fn encoded(packet: TsPacket) -> Option<Seq<u8>>;

/// The two clock references of a packet's adaptation field, PCR first, OPCR
/// second, each as its 27 MHz count.
pub uninterp spec fn clock_references(packet: TsPacket) -> (Option<u64>, Option<u64>);

/// Makes a packet reader over `bytes` with `TsPacketReader::new`: nothing is
/// consumed yet and all of `bytes` is unread.
#[verifier::external_body]
pub(crate) fn new_reader<'a>(bytes: &'a [u8]) -> (reader: TsPacketReader<&'a [u8]>)
    ensures
        reader_consumed(reader) == Seq::<u8>::empty(),
        reader_unread(reader) == bytes@,
{
    TsPacketReader::new(bytes)
}

/// Reads the next packet with `ReadTsPacket::read_ts_packet`.
///
/// The reader is taken by value and handed back only with a packet, so a
/// reader that has failed is never used again. On an exhausted reader the
/// result is `Ok(None)`. Where at least 188 bytes are unread, the outcome is
/// that of `decoded` on the bytes consumed so far and the next 188: a packet
/// together with the reader advanced by exactly those 188 bytes, or the
/// codec's error. Nothing is claimed where fewer than 188 bytes are left.
#[verifier::external_body]
pub(crate) fn read_packet<'a>(reader: TsPacketReader<&'a [u8]>) -> (r: Result<
    Option<(TsPacket, TsPacketReader<&'a [u8]>)>,
    mpeg2ts::Error,
>)
    ensures
        reader_unread(reader).len() == 0 ==> r matches Ok(None),
        reader_unread(reader).len() >= 188 ==> match decoded(
            reader_consumed(reader),
            reader_unread(reader).take(188),
        ) {
            Some(packet) => r matches Ok(Some((p, next))) && p == packet && reader_consumed(next)
                == reader_consumed(reader) + reader_unread(reader).take(188) && reader_unread(next)
                == reader_unread(reader).skip(188),
            None => r is Err,
        },
{
    let mut reader = reader;
    match reader.read_ts_packet() {
        Ok(Some(packet)) => Ok(Some((packet, reader))),
        Ok(None) => Ok(None),
        Err(e) => Err(e),
    }
}

/// Picks the two clock references out of a packet's adaptation field with
/// `ClockReference::as_u64`; both are `None` where the packet has no such
/// field.
#[verifier::external_body]
pub(crate) fn packet_clocks(packet: &TsPacket) -> (r: (Option<u64>, Option<u64>))
    ensures
        r == clock_references(*packet),
{
    match &packet.adaptation_field {
        Some(field) => (field.pcr.map(|c| c.as_u64()), field.opcr.map(|c| c.as_u64())),
        None => (None, None),
    }
}

/// The largest clock count that the writer can put into the six bytes of a
/// PCR field, plus one: 300 times 2 to the 33rd.
pub const CLOCK_LIMIT: u64 = 2576980377600;

/// A clock reference that is absent or small enough for the writer.
pub open spec fn clock_fits(clock: Option<u64>) -> bool {
    match clock {
        Some(count) => count < CLOCK_LIMIT,
        None => true,
    }
}

/// Appends one packet to `out` with `WriteTsPacket::write_ts_packet`, through
/// a `TsPacketWriter` over `out`.
///
/// The writer stops the process on a clock reference of `CLOCK_LIMIT` or
/// more, so such a packet is not admitted. For the others, the bytes of
/// `encoded` are appended, always 188 of them, or the codec's error is
/// returned with `out` as it was.
#[verifier::external_body]
pub(crate) fn write_packet(out: &mut Vec<u8>, packet: &TsPacket) -> (r: Result<(), mpeg2ts::Error>)
    requires
        clock_fits(clock_references(*packet).0),
        clock_fits(clock_references(*packet).1),
    ensures
        match encoded(*packet) {
            Some(bytes) => r is Ok && bytes.len() == 188 && final(out)@ == old(out)@ + bytes,
            None => r is Err && final(out)@ == old(out)@,
        },
{
    TsPacketWriter::new(out).write_ts_packet(packet)
}

} // verus!
