use m3u8_dl::{remux, remux_segment, CodecFault, PacketError, SegmentError};

/// A packet on PID 17 that carries 184 bytes of payload and nothing else.
fn raw_packet(fill: u8, counter: u8) -> Vec<u8> {
    let mut packet = vec![0x47, 0x00, 0x11, 0x10 | (counter & 0x0f)];
    packet.extend(std::iter::repeat(fill).take(184));
    packet
}

fn raw_packets(first_fill: u8, count: u8) -> Vec<u8> {
    let mut bytes = Vec::new();
    for i in 0..count {
        bytes.extend(raw_packet(first_fill.wrapping_add(i), i));
    }
    bytes
}

/// A program association table as encoders usually write it: the section,
/// then stuffing up to the end of the packet.
fn pat_packet() -> Vec<u8> {
    let mut packet = vec![
        71, 64, 0, 17, 0, 0, 176, 13, 0, 0, 195, 0, 0, 0, 1, 225, 224, 232, 95, 116, 236,
    ];
    packet.extend(std::iter::repeat(255u8).take(167));
    packet
}

/// A packet on PID 17 that holds only an adaptation field with a PCR.
fn pcr_packet(pcr: [u8; 6]) -> Vec<u8> {
    let mut packet = vec![0x47, 0x00, 0x11, 0x20, 183, 0x10];
    packet.extend(pcr);
    packet.extend(std::iter::repeat(255u8).take(176));
    packet
}

#[test]
fn whole_unchanged_packets_round_trip() {
    let input = raw_packets(1, 4);
    assert_eq!(input.len(), 4 * 188);
    let mut out = Vec::new();
    assert_eq!(remux_segment(&input, &mut out), Ok(4));
    assert_eq!(out, input);
}

#[test]
fn empty_segment_gives_empty_output() {
    let mut out = Vec::new();
    assert_eq!(remux_segment(&[], &mut out), Ok(0));
    assert!(out.is_empty());
}

#[test]
fn single_packet_round_trip() {
    let input = raw_packet(0xab, 7);
    let mut out = Vec::new();
    assert_eq!(remux_segment(&input, &mut out), Ok(1));
    assert_eq!(out, input);
}

#[test]
fn output_is_appended_to_what_is_there() {
    let input = raw_packets(9, 2);
    let mut out = vec![1, 2, 3];
    assert_eq!(remux_segment(&input, &mut out), Ok(2));
    assert_eq!(&out[..3], &[1, 2, 3]);
    assert_eq!(&out[3..], &input[..]);
}

#[test]
fn segments_come_out_in_playlist_order() {
    let s1 = raw_packets(10, 2);
    let s2 = raw_packets(20, 1);
    let s3 = raw_packets(30, 3);
    let mut out = Vec::new();
    assert_eq!(remux(&vec![s1.clone(), s2.clone(), s3.clone()], &mut out), Ok(3));
    let mut expected = s1;
    expected.extend(s2);
    expected.extend(s3);
    assert_eq!(out, expected);
}

#[test]
fn no_segments_give_no_output() {
    let mut out = Vec::new();
    assert_eq!(remux(&Vec::new(), &mut out), Ok(0));
    assert!(out.is_empty());
}

#[test]
fn trailing_bytes_are_dropped() {
    let mut input = raw_packets(40, 2);
    input.extend(std::iter::repeat(0x47u8).take(57));
    assert_eq!(input.len(), 188 * 2 + 57);
    let mut out = Vec::new();
    assert_eq!(remux_segment(&input, &mut out), Ok(2));
    assert_eq!(out.len(), 2 * 188);
    assert_eq!(&out[..], &input[..2 * 188]);
}

#[test]
fn fewer_bytes_than_a_packet_give_nothing() {
    let input = vec![0x47u8; 187];
    let mut out = Vec::new();
    assert_eq!(remux_segment(&input, &mut out), Ok(0));
    assert!(out.is_empty());
}

#[test]
fn trailing_bytes_do_not_reach_the_next_segment() {
    let mut first = raw_packets(50, 1);
    first.extend(raw_packet(51, 1).into_iter().take(100));
    let second = raw_packets(60, 2);
    let mut out = Vec::new();
    assert_eq!(remux(&vec![first.clone(), second.clone()], &mut out), Ok(2));
    let mut expected = first[..188].to_vec();
    expected.extend(second);
    assert_eq!(out, expected);
}

#[test]
fn bad_sync_byte_stops_the_segment() {
    let mut input = raw_packets(70, 3);
    input[188] = 0x00;
    let mut out = Vec::new();
    assert_eq!(
        remux_segment(&input, &mut out),
        Err(PacketError { packet: 1, fault: CodecFault::Decode })
    );
    assert_eq!(&out[..], &input[..188]);
}

#[test]
fn unknown_pid_is_refused() {
    let mut input = raw_packet(80, 0);
    input[1] = 0x01;
    input[2] = 0x00;
    let mut out = Vec::new();
    assert_eq!(
        remux_segment(&input, &mut out),
        Err(PacketError { packet: 0, fault: CodecFault::Decode })
    );
    assert!(out.is_empty());
}

#[test]
fn failing_segment_stops_the_run() {
    let good = raw_packets(90, 2);
    let bad = vec![0u8; 188];
    let mut out = Vec::new();
    assert_eq!(
        remux(&vec![good.clone(), bad, good.clone()], &mut out),
        Err(SegmentError {
            segment: 1,
            error: PacketError { packet: 0, fault: CodecFault::Decode },
        })
    );
    assert_eq!(out, good);
}

#[test]
fn failing_packet_keeps_what_was_written_before() {
    let first = raw_packets(100, 1);
    let mut second = raw_packets(110, 2);
    second[188] = 0x46;
    let mut out = Vec::new();
    assert_eq!(
        remux(&vec![first.clone(), second.clone()], &mut out),
        Err(SegmentError {
            segment: 1,
            error: PacketError { packet: 1, fault: CodecFault::Decode },
        })
    );
    let mut expected = first;
    expected.extend(&second[..188]);
    assert_eq!(out, expected);
}

#[test]
fn oversized_clock_reference_is_refused() {
    let input = pcr_packet([255, 255, 255, 255, 255, 255]);
    assert_eq!(input.len(), 188);
    let mut out = Vec::new();
    assert_eq!(
        remux_segment(&input, &mut out),
        Err(PacketError { packet: 0, fault: CodecFault::ClockRange })
    );
    assert!(out.is_empty());
}

#[test]
fn clock_reference_at_the_limit_is_refused() {
    // base 2^33 - 1, extension 300: exactly 300 * 2^33
    let input = pcr_packet([255, 255, 255, 255, 129, 44]);
    let mut out = Vec::new();
    assert_eq!(
        remux_segment(&input, &mut out),
        Err(PacketError { packet: 0, fault: CodecFault::ClockRange })
    );
}

#[test]
fn clock_reference_below_the_limit_is_written() {
    // base 2^33 - 1, extension 299: 300 * 2^33 - 1
    let input = pcr_packet([255, 255, 255, 255, 129, 43]);
    let mut out = Vec::new();
    assert_eq!(remux_segment(&input, &mut out), Ok(1));
    assert_eq!(out, pcr_packet([255, 255, 255, 255, 129, 255]));
}

#[test]
fn stuffed_table_is_rewritten_by_the_codec() {
    let input = pat_packet();
    assert_eq!(input.len(), 188);
    let mut out = Vec::new();
    assert_eq!(remux_segment(&input, &mut out), Ok(1));
    let mut expected = vec![0x47, 0x40, 0x00, 0x31, 166, 0];
    expected.extend(std::iter::repeat(255u8).take(165));
    expected.extend(&input[4..21]);
    assert_eq!(out, expected);
    assert_ne!(out, input);
}

#[test]
fn rewritten_table_passes_unchanged() {
    let mut once = Vec::new();
    assert_eq!(remux_segment(&pat_packet(), &mut once), Ok(1));
    let mut twice = Vec::new();
    assert_eq!(remux_segment(&once, &mut twice), Ok(1));
    assert_eq!(twice, once);
}

#[test]
fn every_passed_packet_is_188_bytes() {
    let mut input = pat_packet();
    input.extend(raw_packets(120, 5));
    input.extend(pcr_packet([0, 0, 1, 244, 0, 5]));
    let mut out = Vec::new();
    assert_eq!(remux_segment(&input, &mut out), Ok(7));
    assert_eq!(out.len(), 7 * 188);
}

/// A small deterministic generator of test bytes.
struct Lcg(u64);

impl Lcg {
    fn next(&mut self) -> u64 {
        self.0 = self.0.wrapping_mul(6364136223846793005).wrapping_add(1442695040888963407);
        self.0 >> 33
    }

    fn byte(&mut self) -> u8 {
        (self.next() & 0xff) as u8
    }

    fn clock(&mut self) -> [u8; 6] {
        match self.next() % 4 {
            0 => [255, 255, 255, 255, 128 | self.byte(), self.byte()],
            1 => [255, 255, 255, 255, 129, 40 + (self.next() % 8) as u8],
            _ => [self.byte(), self.byte(), self.byte(), self.byte(), self.byte(), self.byte()],
        }
    }
}

/// A packet on PID 17 that holds only an adaptation field, with the optional
/// parts that `flags` names filled from the generator.
fn adaptation_packet(rng: &mut Lcg, flags: u8) -> Vec<u8> {
    let mut packet = vec![0x47, 0x00, 0x11, 0x20 | (rng.byte() & 0x0f), 183, flags];
    if flags & 0x10 != 0 {
        packet.extend(rng.clock());
    }
    if flags & 0x08 != 0 {
        packet.extend(rng.clock());
    }
    if flags & 0x04 != 0 {
        packet.push(rng.byte());
    }
    if flags & 0x02 != 0 {
        let len = rng.byte() % 8;
        packet.push(len);
        for _ in 0..len {
            packet.push(rng.byte());
        }
    }
    if flags & 0x01 != 0 {
        let parts = rng.byte() & 0xe0;
        let mut fields = vec![parts];
        if parts & 0x80 != 0 {
            fields.extend([rng.byte(), rng.byte()]);
        }
        if parts & 0x40 != 0 {
            fields.extend([rng.byte(), rng.byte(), rng.byte()]);
        }
        if parts & 0x20 != 0 {
            fields.extend([rng.byte() | 1, rng.byte(), rng.byte() | 1, rng.byte(), rng.byte() | 1]);
        }
        packet.push(fields.len() as u8);
        packet.extend(fields);
    }
    packet.resize(188, 0xff);
    packet
}

#[test]
fn adaptation_fields_are_written_or_refused_whole() {
    let mut rng = Lcg(7);
    let mut written = 0;
    let mut out_of_range = 0;
    for _ in 0..20000 {
        let flags = rng.byte();
        let input = adaptation_packet(&mut rng, flags);
        assert_eq!(input.len(), 188);
        let mut out = Vec::new();
        match remux_segment(&input, &mut out) {
            Ok(count) => {
                assert_eq!(count, 1);
                assert_eq!(out.len(), 188);
                assert_eq!(&out[..3], &input[..3]);
                written += 1;
            }
            Err(error) => {
                assert_eq!(error.packet, 0);
                assert!(out.is_empty());
                if error.fault == CodecFault::ClockRange {
                    out_of_range += 1;
                }
            }
        }
    }
    assert!(written > 1000);
    assert!(out_of_range > 100);
}

#[test]
fn arbitrary_packets_are_written_or_refused_whole() {
    let mut rng = Lcg(11);
    let mut written = 0;
    for _ in 0..20000 {
        let mut input = vec![0x47, rng.byte() & 0xe0, rng.byte() & 0x1f, rng.byte()];
        while input.len() < 188 {
            input.push(if rng.next() % 3 == 0 { 0xff } else { rng.byte() });
        }
        let mut out = vec![0xEE];
        match remux_segment(&input, &mut out) {
            Ok(count) => {
                assert_eq!(count, 1);
                assert_eq!(out.len(), 189);
                written += 1;
            }
            Err(error) => {
                assert_eq!(error.packet, 0);
                assert_eq!(out, vec![0xEE]);
            }
        }
    }
    assert!(written > 100);
}
