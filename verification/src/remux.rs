//! The segment remuxer: a segment's bytes go through the codec packet by
//! packet and come out appended to the output stream.

use vstd::prelude::*;
use vstd::slice::slice_subrange;
use crate::codec::{
    clock_fits, clock_references, decoded, encoded, new_reader, packet_clocks, read_packet,
    reader_consumed, reader_unread, write_packet, PACKET_SIZE,
};
use crate::error::{CodecFault, PacketError, SegmentError};

verus! {

/// Number of whole packets in a buffer of `len` bytes.
pub open spec fn whole_packets(len: nat) -> nat {
    len / 188
}

/// The bytes of the packet at `index` in a segment.
pub open spec fn packet_at(segment: Seq<u8>, index: nat) -> Seq<u8> {
    segment.subrange(188 * index as int, 188 * index as int + 188)
}

/// What the codec makes of one packet that follows `consumed` in its
/// segment: the bytes written for it, or the step that gave up.
pub open spec fn repacked(consumed: Seq<u8>, packet: Seq<u8>) -> Result<Seq<u8>, CodecFault> {
    match decoded(consumed, packet) {
        None => Err(CodecFault::Decode),
        Some(p) => if !clock_fits(clock_references(p).0) || !clock_fits(clock_references(p).1) {
            Err(CodecFault::ClockRange)
        } else {
            match encoded(p) {
                Some(bytes) => Ok(bytes),
                None => Err(CodecFault::Encode),
            }
        },
    }
}

/// What the codec makes of the packet at `index` in a segment.
pub open spec fn repacked_at(segment: Seq<u8>, index: nat) -> Result<Seq<u8>, CodecFault> {
    repacked(segment.take(188 * index as int), packet_at(segment, index))
}

/// Position of the first packet from `from` on, below `limit`, that the
/// codec does not pass; `limit` where it passes them all.
pub open spec fn first_refused(segment: Seq<u8>, from: nat, limit: nat) -> nat
    decreases limit - from,
{
    if from >= limit {
        limit
    } else if repacked_at(segment, from) is Ok {
        first_refused(segment, from + 1, limit)
    } else {
        from
    }
}

/// The bytes written for the first `count` packets of a segment.
pub open spec fn packets_output(segment: Seq<u8>, count: nat) -> Seq<u8>
    decreases count,
{
    if count == 0 {
        Seq::empty()
    } else {
        packets_output(segment, (count - 1) as nat) + match repacked_at(
            segment,
            (count - 1) as nat,
        ) {
            Ok(bytes) => bytes,
            Err(_) => Seq::empty(),
        }
    }
}

/// Number of packets of a segment that reach the output: all whole packets,
/// or those before the first one that the codec does not pass.
pub open spec fn passed_packets(segment: Seq<u8>) -> nat {
    first_refused(segment, 0, whole_packets(segment.len()))
}

/// The bytes that remuxing a segment appends to the output.
pub open spec fn segment_output(segment: Seq<u8>) -> Seq<u8> {
    packets_output(segment, passed_packets(segment))
}

/// The result of remuxing a segment: the number of its whole packets, or the
/// first packet that the codec did not pass and why.
pub open spec fn segment_result(segment: Seq<u8>) -> Result<usize, PacketError> {
    let passed = passed_packets(segment);
    if passed == whole_packets(segment.len()) {
        Ok(passed as usize)
    } else {
        Err(
            PacketError {
                packet: passed as usize,
                fault: match repacked_at(segment, passed) {
                    Err(fault) => fault,
                    Ok(_) => CodecFault::Decode,
                },
            },
        )
    }
}

/// Remuxes one segment: reads its whole packets in order and writes each to
/// `out` as soon as it is read. Bytes after the last whole packet are
/// dropped. Stops at the first packet that the codec does not pass; what was
/// written before it stays in `out`.
pub fn remux_segment(segment: &[u8], out: &mut Vec<u8>) -> (r: Result<usize, PacketError>)
    ensures
        r == segment_result(segment@),
        final(out)@ == old(out)@ + segment_output(segment@),
        final(out)@.len() == old(out)@.len() + 188 * passed_packets(segment@),
{
    let whole: usize = segment.len() / PACKET_SIZE;
    let mut reader = new_reader(slice_subrange(segment, 0, whole * PACKET_SIZE));
    let mut count: usize = 0;
    assert(segment@.take(0) == Seq::<u8>::empty());
    loop
        invariant
            whole == whole_packets(segment@.len()),
            count <= whole,
            reader_consumed(reader) == segment@.take(188 * count),
            reader_unread(reader) == segment@.subrange(188 * count, 188 * whole),
            first_refused(segment@, count as nat, whole as nat) == passed_packets(segment@),
            out@ == old(out)@ + packets_output(segment@, count as nat),
            out@.len() == old(out)@.len() + 188 * count,
        ensures
            count == whole,
        decreases whole - count,
    {
        proof {
            if count < whole {
                assert(reader_unread(reader).take(188) == packet_at(segment@, count as nat));
                assert(reader_consumed(reader) + reader_unread(reader).take(188) == segment@.take(
                    188 * (count + 1),
                ));
                assert(reader_unread(reader).skip(188) == segment@.subrange(
                    188 * (count + 1),
                    188 * whole,
                ));
            }
        }
        match read_packet(reader) {
            Ok(None) => {
                break ;
            },
            Ok(Some((packet, next))) => {
                let (pcr, opcr) = packet_clocks(&packet);
                if !below_clock_limit(pcr) || !below_clock_limit(opcr) {
                    return Err(PacketError { packet: count, fault: CodecFault::ClockRange });
                }
                match write_packet(out, &packet) {
                    Ok(()) => {},
                    Err(_) => {
                        return Err(PacketError { packet: count, fault: CodecFault::Encode });
                    },
                }
                reader = next;
                count = count + 1;
            },
            Err(_) => {
                return Err(PacketError { packet: count, fault: CodecFault::Decode });
            },
        }
    }
    Ok(count)
}

/// Position of the first segment from `from` on that is not remuxed to its
/// end; the number of segments where all are.
pub open spec fn first_failed(segments: Seq<Seq<u8>>, from: nat) -> nat
    decreases segments.len() - from,
{
    if from >= segments.len() {
        segments.len()
    } else if segment_result(segments[from as int]) is Ok {
        first_failed(segments, from + 1)
    } else {
        from
    }
}

/// The outputs of the first `count` segments, one after the other.
pub open spec fn segments_output(segments: Seq<Seq<u8>>, count: nat) -> Seq<u8>
    decreases count,
{
    if count == 0 {
        Seq::empty()
    } else {
        segments_output(segments, (count - 1) as nat) + segment_output(segments[count - 1])
    }
}

/// The bytes that remuxing a run of segments appends to the output: the
/// output of each segment in order, up to and including the first segment
/// that is not remuxed to its end.
pub open spec fn stream_output(segments: Seq<Seq<u8>>) -> Seq<u8> {
    let failed = first_failed(segments, 0);
    if failed == segments.len() {
        segments_output(segments, failed)
    } else {
        segments_output(segments, failed + 1)
    }
}

/// The result of remuxing a run of segments: their number, or the first
/// packet that the codec did not pass.
pub open spec fn stream_result(segments: Seq<Seq<u8>>) -> Result<usize, SegmentError> {
    let failed = first_failed(segments, 0);
    if failed == segments.len() {
        Ok(failed as usize)
    } else {
        match segment_result(segments[failed as int]) {
            Err(error) => Err(SegmentError { segment: failed as usize, error }),
            Ok(_) => Ok(failed as usize),
        }
    }
}

/// Remuxes a run of fetched segments into `out`, in the order given, and
/// returns how many there were. Stops at the first packet that the codec
/// does not pass; what was written before it stays in `out`.
pub fn remux(segments: &Vec<Vec<u8>>, out: &mut Vec<u8>) -> (r: Result<usize, SegmentError>)
    ensures
        r == stream_result(segments.deep_view()),
        final(out)@ == old(out)@ + stream_output(segments.deep_view()),
{
    let ghost bodies = segments.deep_view();
    let mut done: usize = 0;
    while done < segments.len()
        invariant
            bodies == segments.deep_view(),
            done <= segments.len(),
            first_failed(bodies, done as nat) == first_failed(bodies, 0),
            out@ == old(out)@ + segments_output(bodies, done as nat),
        decreases segments.len() - done,
    {
        assert(bodies[done as int] == segments[done as int]@);
        let result = remux_segment(segments[done].as_slice(), out);
        assert(out@ == old(out)@ + segments_output(bodies, (done + 1) as nat));
        match result {
            Ok(_) => {},
            Err(error) => {
                return Err(SegmentError { segment: done, error });
            },
        }
        done = done + 1;
    }
    Ok(done)
}

/// A packet that the codec writes back exactly as it was read.
pub open spec fn passes_unchanged(segment: Seq<u8>, index: nat) -> bool {
    repacked_at(segment, index) == Ok::<Seq<u8>, CodecFault>(packet_at(segment, index))
}

/// Two buffers that agree on their first `count` packets are remuxed alike
/// over those packets.
pub proof fn same_packets_same_output(a: Seq<u8>, b: Seq<u8>, count: nat)
    requires
        188 * count <= a.len(),
        188 * count <= b.len(),
        a.take(188 * count as int) == b.take(188 * count as int),
    ensures
        forall|i: nat| i < count ==> repacked_at(a, i) == repacked_at(b, i),
        forall|from: nat| first_refused(a, from, count) == first_refused(b, from, count),
        forall|k: nat| k <= count ==> packets_output(a, k) == packets_output(b, k),
{
    assert forall|i: nat| i < count implies repacked_at(a, i) == repacked_at(b, i) by {
        let shared = a.take(188 * count as int);
        assert(a.take(188 * i as int) == shared.take(188 * i as int));
        assert(b.take(188 * i as int) == shared.take(188 * i as int));
        assert(packet_at(a, i) == shared.subrange(188 * i as int, 188 * i as int + 188));
        assert(packet_at(b, i) == shared.subrange(188 * i as int, 188 * i as int + 188));
    }
    assert forall|from: nat| first_refused(a, from, count) == first_refused(b, from, count) by {
        same_first_refused(a, b, from, count);
    }
    assert forall|k: nat| k <= count implies packets_output(a, k) == packets_output(b, k) by {
        same_packets_output(a, b, k, count);
    }
}

proof fn same_first_refused(a: Seq<u8>, b: Seq<u8>, from: nat, count: nat)
    requires
        forall|i: nat| i < count ==> repacked_at(a, i) == repacked_at(b, i),
    ensures
        first_refused(a, from, count) == first_refused(b, from, count),
    decreases count - from,
{
    if from < count {
        same_first_refused(a, b, from + 1, count);
    }
}

proof fn same_packets_output(a: Seq<u8>, b: Seq<u8>, k: nat, count: nat)
    requires
        k <= count,
        forall|i: nat| i < count ==> repacked_at(a, i) == repacked_at(b, i),
    ensures
        packets_output(a, k) == packets_output(b, k),
    decreases k,
{
    if k > 0 {
        same_packets_output(a, b, (k - 1) as nat, count);
    }
}

/// Bytes after the last whole packet of a segment change nothing: the
/// segment is remuxed as its first `188 * N` bytes are, where `N` is the
/// number of its whole packets, and no more than `N` packets come out.
pub proof fn trailing_bytes_dropped(segment: Seq<u8>)
    ensures
        ({
            let whole = whole_packets(segment.len());
            let aligned = segment.take(188 * whole as int);
            &&& segment_output(segment) == segment_output(aligned)
            &&& segment_result(segment) == segment_result(aligned)
            &&& passed_packets(segment) == passed_packets(aligned)
            &&& passed_packets(segment) <= whole
            &&& segment_result(segment) is Ok ==> passed_packets(segment) == whole
        }),
{
    let whole = whole_packets(segment.len());
    let aligned = segment.take(188 * whole as int);
    assert(aligned.take(188 * whole as int) == aligned);
    assert(whole_packets(aligned.len()) == whole);
    same_packets_same_output(segment, aligned, whole);
    first_refused_bounds(segment, 0, whole);
}

/// `first_refused` lies between its start and its limit, and where it is
/// below the limit the packet there is refused.
pub proof fn first_refused_bounds(segment: Seq<u8>, from: nat, limit: nat)
    requires
        from <= limit,
    ensures
        from <= first_refused(segment, from, limit) <= limit,
        first_refused(segment, from, limit) < limit ==> repacked_at(
            segment,
            first_refused(segment, from, limit),
        ) is Err,
    decreases limit - from,
{
    if from < limit && repacked_at(segment, from) is Ok {
        first_refused_bounds(segment, from + 1, limit);
    }
}

/// Remuxing is lossless on a buffer made of whole packets that the codec
/// writes back as it read them: the output is the buffer itself, and every
/// packet is counted.
pub proof fn unchanged_packets_round_trip(segment: Seq<u8>, count: nat)
    requires
        segment.len() == 188 * count,
        forall|i: nat| i < count ==> passes_unchanged(segment, i),
    ensures
        passed_packets(segment) == count,
        segment_result(segment) is Ok,
        segment_output(segment) == segment,
        stream_output(seq![segment]) == segment,
{
    assert(whole_packets(segment.len()) == count);
    all_pass(segment, 0, count);
    output_is_prefix(segment, count, count);
    assert(segment.take(188 * count as int) == segment);
    let alone = seq![segment];
    assert(first_failed(alone, 1) == 1);
    assert(first_failed(alone, 0) == 1);
    assert(segments_output(alone, 0) == Seq::<u8>::empty());
    assert(segments_output(alone, 1) == Seq::<u8>::empty() + segment);
}

proof fn all_pass(segment: Seq<u8>, from: nat, count: nat)
    requires
        from <= count,
        forall|i: nat| i < count ==> passes_unchanged(segment, i),
    ensures
        first_refused(segment, from, count) == count,
    decreases count - from,
{
    if from < count {
        assert(passes_unchanged(segment, from));
        all_pass(segment, from + 1, count);
    }
}

proof fn output_is_prefix(segment: Seq<u8>, k: nat, count: nat)
    requires
        k <= count,
        segment.len() == 188 * count,
        forall|i: nat| i < count ==> passes_unchanged(segment, i),
    ensures
        packets_output(segment, k) == segment.take(188 * k as int),
    decreases k,
{
    if k > 0 {
        let j = (k - 1) as nat;
        output_is_prefix(segment, j, count);
        assert(passes_unchanged(segment, j));
        assert(segment.take(188 * j as int) + packet_at(segment, j) == segment.take(
            188 * k as int,
        ));
    } else {
        assert(segment.take(0) == Seq::<u8>::empty());
    }
}

/// Segments come out in playlist order, whole and one after the other: where
/// every segment of a first run is remuxed to its end, the output of that run
/// followed by a second run is the first run's output and then the second
/// run's.
pub proof fn order_preserved(first: Seq<Seq<u8>>, second: Seq<Seq<u8>>)
    requires
        first_failed(first, 0) == first.len(),
    ensures
        stream_output(first + second) == stream_output(first) + stream_output(second),
        first_failed(first + second, 0) == first.len() + first_failed(second, 0),
{
    let all = first + second;
    failed_in_second(first, second, 0);
    let failed = first_failed(second, 0);
    first_failed_bounds(second, 0);
    let upto = if failed == second.len() {
        failed
    } else {
        failed + 1
    };
    output_of_joined(first, second, upto as nat);
}

/// `first_failed` lies between its start and the number of segments.
pub proof fn first_failed_bounds(segments: Seq<Seq<u8>>, from: nat)
    requires
        from <= segments.len(),
    ensures
        from <= first_failed(segments, from) <= segments.len(),
    decreases segments.len() - from,
{
    if from < segments.len() && segment_result(segments[from as int]) is Ok {
        first_failed_bounds(segments, from + 1);
    }
}

proof fn passes_from(segments: Seq<Seq<u8>>, from: nat, at: nat)
    requires
        from <= at < segments.len(),
        first_failed(segments, from) == segments.len(),
    ensures
        segment_result(segments[at as int]) is Ok,
        first_failed(segments, at) == segments.len(),
    decreases at - from,
{
    if from < at {
        first_failed_bounds(segments, from + 1);
        passes_from(segments, from + 1, at);
    }
}

proof fn failed_in_second(first: Seq<Seq<u8>>, second: Seq<Seq<u8>>, from: nat)
    requires
        from <= first.len(),
        first_failed(first, 0) == first.len(),
    ensures
        first_failed(first + second, from) == first.len() + first_failed(second, 0),
    decreases first.len() - from,
{
    let all = first + second;
    if from < first.len() {
        passes_from(first, 0, from);
        assert(all[from as int] == first[from as int]);
        failed_in_second(first, second, from + 1);
    } else {
        shifted_failed(first, second, 0);
    }
}

proof fn shifted_failed(first: Seq<Seq<u8>>, second: Seq<Seq<u8>>, from: nat)
    requires
        from <= second.len(),
    ensures
        first_failed(first + second, first.len() + from) == first.len() + first_failed(
            second,
            from,
        ),
    decreases second.len() - from,
{
    let all = first + second;
    if from < second.len() {
        assert(all[first.len() + from as int] == second[from as int]);
        shifted_failed(first, second, from + 1);
    }
}

proof fn output_of_joined(first: Seq<Seq<u8>>, second: Seq<Seq<u8>>, count: nat)
    requires
        count <= second.len(),
    ensures
        segments_output(first + second, first.len() + count) == segments_output(
            first,
            first.len(),
        ) + segments_output(second, count),
    decreases count,
{
    let all = first + second;
    if count == 0 {
        output_of_prefix(first, second, first.len());
        assert(segments_output(second, 0) == Seq::<u8>::empty());
        assert(segments_output(first, first.len()) + Seq::<u8>::empty() == segments_output(
            first,
            first.len(),
        ));
    } else {
        output_of_joined(first, second, (count - 1) as nat);
        assert(all[first.len() + count - 1] == second[count - 1]);
        assert(segments_output(all, first.len() + count) == segments_output(
            all,
            (first.len() + count - 1) as nat,
        ) + segment_output(second[count - 1]));
        assert((segments_output(first, first.len()) + segments_output(
            second,
            (count - 1) as nat,
        )) + segment_output(second[count - 1]) == segments_output(first, first.len()) + (
        segments_output(second, (count - 1) as nat) + segment_output(second[count - 1])));
    }
}

proof fn output_of_prefix(first: Seq<Seq<u8>>, second: Seq<Seq<u8>>, count: nat)
    requires
        count <= first.len(),
    ensures
        segments_output(first + second, count) == segments_output(first, count),
    decreases count,
{
    if count > 0 {
        output_of_prefix(first, second, (count - 1) as nat);
        assert((first + second)[count - 1] == first[count - 1]);
    }
}

/// Tells whether a clock reference is absent or small enough for the writer.
fn below_clock_limit(clock: Option<u64>) -> (fits: bool)
    ensures
        fits == clock_fits(clock),
{
    match clock {
        Some(count) => count < crate::codec::CLOCK_LIMIT,
        None => true,
    }
}

} // verus!
