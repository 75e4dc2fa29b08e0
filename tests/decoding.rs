use moss_decoder::extract::{extract_packet, format_error_msg};
use moss_decoder::moss_protocol::MossWord;
use moss_decoder::{
    calc_prealloc_val, decode_event, decode_events_skip_n_take_m, decode_multiple_events,
    DecodeError, MossHit, MossPacket, ParseErrorKind, StreamDecoder,
};

fn example_frame() -> Vec<u8> {
    vec![
        0xD0, 0xFF, 0xFF, 0xC0, 0x00, 0x50, 0x88, 0xC1, 0x25, 0x6E, 0xB1, 0xC2, 0xC3, 0x00, 0x50,
        0x88, 0xE0,
    ]
}

fn example_packet(unit_id: u8) -> MossPacket {
    MossPacket {
        unit_id,
        hits: vec![
            MossHit { region: 0, row: 2, column: 8 },
            MossHit { region: 1, row: 301, column: 433 },
            MossHit { region: 3, row: 2, column: 8 },
        ],
    }
}

/// A frame of `unit` with one hit in region 0 at `row`, `column`.
fn one_hit_frame(unit: u8, row: u16, column: u16) -> Vec<u8> {
    let d0 = ((row >> 3) & 0x3F) as u8;
    let d1 = 0x40 | (((row & 0x07) << 3) as u8) | (((column >> 6) & 0x07) as u8);
    let d2 = 0x80 | ((column & 0x3F) as u8);
    vec![0xD0 | unit, 0xC0, d0, d1, d2, 0xE0]
}

fn three_frames() -> Vec<Vec<u8>> {
    let mut second = example_frame();
    second[0] = 0xD5;
    vec![one_hit_frame(2, 7, 9), second, one_hit_frame(9, 511, 0)]
}

#[test]
fn example_frame_decodes_to_three_hits() {
    let bytes = example_frame();
    let (packet, trailer_idx) = decode_event(&bytes).unwrap();
    assert_eq!(packet, example_packet(0));
    assert_eq!(trailer_idx, 16);
    assert!(bytes[trailer_idx + 1..].is_empty());
}

#[test]
fn header_then_trailer_is_an_empty_packet() {
    let (packet, trailer_idx) = extract_packet(&[0xD3, 0xE0]).unwrap();
    assert_eq!(packet, MossPacket { unit_id: 3, hits: vec![] });
    assert_eq!(trailer_idx, 1);

    let (packet, trailer_idx) = decode_event(&[0xFF, 0xFA, 0xD3, 0xE0, 0xFF, 0xFF]).unwrap();
    assert_eq!(packet, MossPacket { unit_id: 3, hits: vec![] });
    assert_eq!(trailer_idx, 3);
}

#[test]
fn header_without_trailer_reports_end_of_buffer() {
    let bytes = [0xFF, 0xD0, 0xC0, 0x00, 0x50, 0x88, 0xFF];
    match decode_event(&bytes) {
        Err(DecodeError::Parse(e)) => {
            assert_eq!(e.kind(), ParseErrorKind::EndOfBufferNoTrailer);
            assert_eq!(e.err_index(), 6);
        }
        other => panic!("unexpected result {other:?}"),
    }
}

#[test]
fn short_buffers_are_insufficient() {
    for len in 0..6 {
        let bytes = vec![0xD0; len];
        assert!(matches!(decode_event(&bytes), Err(DecodeError::InsufficientBytes)));
        assert!(matches!(decode_multiple_events(&bytes), Err(DecodeError::InsufficientBytes)));
        assert!(matches!(calc_prealloc_val(&bytes), Err(DecodeError::InsufficientBytes)));
    }
}

#[test]
fn no_header_is_reported() {
    match decode_event(&[0xFF, 0xFA, 0xFF, 0xFF, 0xFA, 0xFF]) {
        Err(DecodeError::Parse(e)) => {
            assert_eq!(e.kind(), ParseErrorKind::NoHeaderFound);
            assert_eq!(e.err_index(), 6);
            assert_eq!(e.message(), "No Unit Frame Header found");
        }
        other => panic!("unexpected result {other:?}"),
    }
}

#[test]
fn protocol_error_names_expected_words_and_dumps_bytes() {
    let bytes = [0xD1, 0xC0, 0x00, 0x50, 0x88, 0x50, 0xC1, 0xE0];
    match extract_packet(&bytes) {
        Err(e) => {
            assert_eq!(e.kind(), ParseErrorKind::ProtocolError);
            assert_eq!(e.err_index(), 5);
            assert_eq!(
                e.message(),
                "Expected REGION_HEADER_1/DATA_0/IDLE/UNIT_FRAME_TRAILER, got: 0x50. \
                 Dump from header and 10 bytes past error: D1 C0 00 50 88 [ERROR = 50] C1 E0"
            );
            assert!(e.describe().starts_with("ProtocolError: Expected REGION_HEADER_1"));
        }
        Ok(p) => panic!("unexpected packet {p:?}"),
    }
}

#[test]
fn region_headers_must_come_in_order() {
    // region header 2 straight after region 0
    let bytes = [0xD1, 0xC0, 0x00, 0x50, 0x88, 0xC2, 0xE0];
    let e = extract_packet(&bytes).unwrap_err();
    assert_eq!(e.kind(), ParseErrorKind::ProtocolError);
    assert_eq!(e.err_index(), 5);
    // a delimiter inside a frame
    let bytes = [0xD1, 0xC0, 0xFA, 0xE0];
    let e = extract_packet(&bytes).unwrap_err();
    assert_eq!(e.err_index(), 2);
    // a hit before any region header
    let bytes = [0xD1, 0x00, 0x50, 0x88, 0xE0];
    let e = extract_packet(&bytes).unwrap_err();
    assert_eq!(e.err_index(), 1);
    assert!(e.message().starts_with("Expected REGION_HEADER_0/IDLE/UNIT_FRAME_TRAILER, got: 0x00."));
}

#[test]
fn error_dump_stops_ten_bytes_past_error() {
    let bytes: Vec<u8> = (0u8..20).collect();
    let msg = format_error_msg("Expected DATA_1", 2, &bytes);
    assert_eq!(
        msg,
        "Expected DATA_1, got: 0x02. Dump from header and 10 bytes past error: 00 01 [ERROR = 02] \
         03 04 05 06 07 08 09 0A 0B 0C"
    );
    let msg = format_error_msg("Expected DATA_2", 0, &[0xAB]);
    assert_eq!(
        msg,
        "Expected DATA_2, got: 0xAB. Dump from header and 10 bytes past error:  [ERROR = AB] "
    );
}

#[test]
fn rows_and_columns_round_trip() {
    for &(row, column) in &[(0u16, 0u16), (511, 511), (301, 433), (2, 8), (256, 1), (7, 448)] {
        let bytes = one_hit_frame(4, row, column);
        let (packet, trailer_idx) = decode_event(&bytes).unwrap();
        assert_eq!(trailer_idx, 5);
        assert_eq!(packet.unit_id, 4);
        assert_eq!(packet.hits, vec![MossHit { region: 0, row, column }]);
    }
}

#[test]
fn concatenated_frames_give_one_packet_each_in_order() {
    let frames = three_frames();
    let bytes: Vec<u8> = frames.concat();
    let (packets, last_trailer) = decode_multiple_events(&bytes).unwrap();
    assert_eq!(last_trailer, bytes.len() - 1);
    let units: Vec<u8> = packets.iter().map(|p| p.unit_id).collect();
    assert_eq!(units, vec![2, 5, 9]);
    assert_eq!(packets[0].hits, vec![MossHit { region: 0, row: 7, column: 9 }]);
    assert_eq!(packets[1].hits, example_packet(5).hits);
    assert_eq!(packets[2].hits, vec![MossHit { region: 0, row: 511, column: 0 }]);
}

#[test]
fn filler_between_frames_changes_nothing() {
    let frames = three_frames();
    let plain: Vec<u8> = frames.concat();
    let mut padded = vec![0xFF, 0xFA];
    padded.extend_from_slice(&frames[0]);
    padded.extend_from_slice(&[0xFA, 0xFA, 0xFF, 0xFF, 0xFF]);
    padded.extend_from_slice(&frames[1]);
    padded.push(0xFF);
    padded.extend_from_slice(&frames[2]);
    let (a, _) = decode_multiple_events(&plain).unwrap();
    let (b, last_trailer) = decode_multiple_events(&padded).unwrap();
    assert_eq!(a, b);
    assert_eq!(last_trailer, padded.len() - 1);
}

#[test]
fn trailing_noise_is_an_error() {
    let mut bytes = example_frame();
    bytes.extend_from_slice(&[0xFF; 6]);
    match decode_multiple_events(&bytes) {
        Err(DecodeError::Parse(e)) => assert_eq!(e.kind(), ParseErrorKind::NoHeaderFound),
        other => panic!("unexpected result {other:?}"),
    }
    // fewer than six bytes after the last frame are left alone
    bytes.truncate(example_frame().len() + 5);
    let (packets, last_trailer) = decode_multiple_events(&bytes).unwrap();
    assert_eq!(packets, vec![example_packet(0)]);
    assert_eq!(last_trailer, 16);
}

#[test]
fn stream_split_anywhere_matches_whole() {
    let frames = three_frames();
    let mut bytes: Vec<u8> = vec![0xFA];
    for f in &frames {
        bytes.extend_from_slice(f);
        bytes.push(0xFF);
    }
    let mut whole = StreamDecoder::new();
    whole.feed(&bytes);
    assert_eq!(whole.packets().len(), 3);
    for split in 0..=bytes.len() {
        let mut parts = StreamDecoder::new();
        parts.feed(&bytes[..split]);
        parts.feed(&bytes[split..]);
        assert_eq!(parts.packets(), whole.packets(), "split at {split}");
        assert_eq!(parts.pending(), whole.pending(), "split at {split}");
    }
    let packets = whole.finish().unwrap();
    assert_eq!(packets.len(), 3);
}

#[test]
fn stream_keeps_an_incomplete_frame() {
    let bytes = example_frame();
    let mut stream = StreamDecoder::new();
    stream.feed(&bytes[..10]);
    assert!(stream.packets().is_empty());
    assert_eq!(stream.pending(), &bytes[..10]);
    stream.feed(&bytes[10..]);
    assert_eq!(stream.packets(), &vec![example_packet(0)]);
    assert!(stream.pending().is_empty());
    assert!(matches!(StreamDecoder::new().finish(), Err(DecodeError::NoPackets)));
}

#[test]
fn skip_then_take() {
    let frames = three_frames();
    let bytes: Vec<u8> = frames.concat();
    let (packets, last_trailer) = decode_events_skip_n_take_m(&bytes, 1, 2).unwrap();
    assert_eq!(packets.len(), 2);
    assert_eq!(packets[0].unit_id, 5);
    assert_eq!(packets[1].unit_id, 9);
    assert_eq!(last_trailer, bytes.len() - 1);

    let (packets, last_trailer) = decode_events_skip_n_take_m(&bytes, 0, 1).unwrap();
    assert_eq!(packets[0].unit_id, 2);
    assert_eq!(last_trailer, 5);
}

#[test]
fn skip_take_errors() {
    let bytes: Vec<u8> = three_frames().concat();
    assert!(matches!(decode_events_skip_n_take_m(&bytes, 3, 1), Err(DecodeError::Parse(_))));
    assert!(matches!(decode_events_skip_n_take_m(&bytes, 4, 1), Err(DecodeError::SkipNoHeader(3))));
    assert!(matches!(decode_events_skip_n_take_m(&bytes, 1, 0), Err(DecodeError::NoPackets)));
    let open = [0xD0, 0xC0, 0xFF];
    assert!(matches!(decode_events_skip_n_take_m(&open, 1, 1), Err(DecodeError::SkipNoTrailer(0))));
}

#[test]
fn prealloc_is_one_per_kib_at_least_ten() {
    assert_eq!(calc_prealloc_val(&[0u8; 6]).unwrap(), 10);
    assert_eq!(calc_prealloc_val(&vec![0u8; 10 * 1024]).unwrap(), 10);
    assert_eq!(calc_prealloc_val(&vec![0u8; 11 * 1024]).unwrap(), 11);
    assert_eq!(calc_prealloc_val(&vec![0u8; 20 * 1024 + 1023]).unwrap(), 20);
}

#[test]
fn bytes_are_classified_by_pattern() {
    assert_eq!(MossWord::from_byte(0xFF), Ok(MossWord::Idle));
    assert_eq!(MossWord::from_byte(0xE0), Ok(MossWord::UnitFrameTrailer));
    assert_eq!(MossWord::from_byte(0xFA), Ok(MossWord::Delimiter));
    assert_eq!(MossWord::from_byte(0xC2), Ok(MossWord::RegionHeader(2)));
    assert_eq!(MossWord::from_byte(0xDB), Ok(MossWord::UnitFrameHeader(11)));
    assert_eq!(MossWord::from_byte(0x3F), Ok(MossWord::Data0));
    assert_eq!(MossWord::from_byte(0x40), Ok(MossWord::Data1));
    assert_eq!(MossWord::from_byte(0xBF), Ok(MossWord::Data2));
    assert_eq!(MossWord::from_byte(0xC5), Err(()));
    assert_eq!(MossWord::from_byte(0xE1), Err(()));
}

#[test]
fn stream_decodes_short_frames_and_keeps_a_fragment() {
    let mut bytes = example_frame();
    bytes.extend_from_slice(&[0xD3, 0xE0, 0xD0]);
    let mut stream = StreamDecoder::new();
    stream.feed(&bytes);
    assert_eq!(
        stream.packets(),
        &vec![example_packet(0), MossPacket { unit_id: 3, hits: vec![] }]
    );
    assert_eq!(stream.pending(), &[0xD0]);
    let packets = stream.finish().unwrap();
    assert_eq!(packets.len(), 2);
}

#[test]
fn stream_stops_at_a_bad_frame_keeping_earlier_packets() {
    let mut bytes = example_frame();
    bytes.extend_from_slice(&[0xD3, 0xE0, 0xD1, 0xFA, 0xE0]);
    let mut stream = StreamDecoder::new();
    stream.feed(&bytes);
    assert_eq!(
        stream.packets(),
        &vec![example_packet(0), MossPacket { unit_id: 3, hits: vec![] }]
    );
    assert_eq!(stream.pending(), &[0xD1, 0xFA, 0xE0]);
    // later chunks do not get past the bad frame
    stream.feed(&example_frame());
    assert_eq!(stream.packets().len(), 2);
}

#[test]
fn stream_of_only_an_empty_frame_gives_one_packet() {
    let mut stream = StreamDecoder::new();
    stream.feed(&[0xD3]);
    assert!(stream.packets().is_empty());
    stream.feed(&[0xE0]);
    let packets = stream.finish().unwrap();
    assert_eq!(packets, vec![MossPacket { unit_id: 3, hits: vec![] }]);
}
