//! Decoding of raw MOSS readout data into hits and packets.
//!
//! A buffer holds unit frames (a header, region headers and hit words, a
//! trailer) with idle and delimiter bytes between them. The decoders here find
//! each frame, check it against the frame grammar and collect its hits.
pub mod extract;
pub mod frames;
pub mod moss_protocol;
pub mod moss_protocol_nested_fsm;
pub mod parse_error;
pub mod stream;
pub mod text;

use vstd::prelude::*;
use vstd::slice::slice_subrange;

pub use crate::moss_protocol::{MossHit, MossPacket};
pub use crate::parse_error::{DecodeError, ParseError, ParseErrorKind};
pub use crate::stream::StreamDecoder;

use crate::extract::{
    extract_packet, find_header, header_from, lemma_header_from_bounds, lemma_packet_outcome_bounds,
    packet_outcome,
};
use crate::moss_protocol::{packet_models, PacketModel, UNIT_FRAME_TRAILER};
use crate::moss_protocol_nested_fsm::hits_in_range;
use crate::parse_error::{DecodeErrorView, ParseErrorView};

verus! {

/// The smallest buffer that the decoders accept.
pub const MINIMUM_EVENT_SIZE: usize = 6;

/// The least number of packets that room is made for.
pub const MIN_PREALLOC: usize = 10;

/// What decoding one event from the start of `bytes` gives.
pub open spec fn event_outcome(bytes: Seq<u8>) -> Result<(PacketModel, int), DecodeErrorView> {
    if bytes.len() < MINIMUM_EVENT_SIZE {
        Err(DecodeErrorView::InsufficientBytes)
    } else {
        match packet_outcome(bytes) {
            Ok(r) => Ok(r),
            Err(e) => Err(DecodeErrorView::Parse(e)),
        }
    }
}

/// Decodes the first MOSS event of `bytes` into a [MossPacket] and the index
/// of its trailer byte. Fails on fewer than six bytes, where no header is
/// found, and where the frame breaks the protocol or has no trailer.
pub fn decode_event(bytes: &[u8]) -> (r: Result<(MossPacket, usize), DecodeError>)
    ensures
        bytes@.len() < MINIMUM_EVENT_SIZE ==> r matches Err(DecodeError::InsufficientBytes),
        match r {
            Ok((p, t)) => event_outcome(bytes@) == Ok::<(PacketModel, int), DecodeErrorView>((p@, t as int)),
            Err(e) => event_outcome(bytes@) == Err::<(PacketModel, int), DecodeErrorView>(e@),
        },
        r matches Ok((p, _)) ==> p.unit_id <= 15 && hits_in_range(p.hits@),
{
    if bytes.len() < MINIMUM_EVENT_SIZE {
        return Err(DecodeError::InsufficientBytes);
    }
    match extract_packet(bytes) {
        Ok((packet, trailer_idx)) => Ok((packet, trailer_idx)),
        Err(e) => Err(DecodeError::Parse(e)),
    }
}

/// The room made for the packets of a buffer: one per KiB, at least ten.
pub open spec fn prealloc_for(len: int) -> int {
    if len / 1024 > MIN_PREALLOC {
        len / 1024
    } else {
        MIN_PREALLOC as int
    }
}

/// The number of packets to make room for when decoding `bytes`; fails on
/// fewer than six bytes.
pub fn calc_prealloc_val(bytes: &[u8]) -> (r: Result<usize, DecodeError>)
    ensures
        match r {
            Ok(n) => bytes@.len() >= MINIMUM_EVENT_SIZE && n == prealloc_for(bytes@.len() as int),
            Err(e) => bytes@.len() < MINIMUM_EVENT_SIZE && e is InsufficientBytes,
        },
{
    let byte_cnt = bytes.len();
    if byte_cnt < MINIMUM_EVENT_SIZE {
        return Err(DecodeError::InsufficientBytes);
    }
    if byte_cnt / 1024 > MIN_PREALLOC {
        Ok(byte_cnt / 1024)
    } else {
        Ok(MIN_PREALLOC)
    }
}

/// Packets `ps` in front of what a later part of a decode gave.
pub open spec fn prepend_packets<E>(ps: Seq<PacketModel>, start: int, rest: Result<(Seq<PacketModel>, int), E>) -> Result<(Seq<PacketModel>, int), E> {
    match rest {
        Ok((qs, end)) => Ok((ps + qs, start + end)),
        Err(e) => Err(e),
    }
}

/// Decodes frame after frame from the start of `bytes` while at least six
/// bytes are left: the packets and how many bytes they took, or the first error.
pub open spec fn batch(bytes: Seq<u8>) -> Result<(Seq<PacketModel>, int), ParseErrorView>
    decreases bytes.len(),
{
    if bytes.len() < MINIMUM_EVENT_SIZE {
        Ok((Seq::empty(), 0))
    } else {
        match packet_outcome(bytes) {
            Err(e) => Err(e),
            Ok((p, t)) => {
                proof {
                    lemma_packet_outcome_bounds(bytes);
                }
                prepend_packets(seq![p], t + 1, batch(bytes.subrange(t + 1, bytes.len() as int)))
            },
        }
    }
}

/// What [decode_multiple_events] gives: the packets and the index of the last
/// trailer, or the error.
pub open spec fn batch_outcome(bytes: Seq<u8>) -> Result<(Seq<PacketModel>, int), DecodeErrorView> {
    if bytes.len() < MINIMUM_EVENT_SIZE {
        Err(DecodeErrorView::InsufficientBytes)
    } else {
        match batch(bytes) {
            Err(e) => Err(DecodeErrorView::Parse(e)),
            Ok((ps, end)) => if ps.len() == 0 {
                Err(DecodeErrorView::NoPackets)
            } else {
                Ok((ps, end - 1))
            },
        }
    }
}

/// Decodes every MOSS event of `bytes` into a list of [MossPacket]s and the
/// index of the last trailer. Decoding stops when fewer than six bytes are
/// left; a frame that fails fails the whole call.
pub fn decode_multiple_events(bytes: &[u8]) -> (r: Result<(Vec<MossPacket>, usize), DecodeError>)
    ensures
        bytes@.len() < MINIMUM_EVENT_SIZE ==> r matches Err(DecodeError::InsufficientBytes),
        match r {
            Ok((ps, t)) => batch_outcome(bytes@) == Ok::<(Seq<PacketModel>, int), DecodeErrorView>((packet_models(ps@), t as int)),
            Err(e) => batch_outcome(bytes@) == Err::<(Seq<PacketModel>, int), DecodeErrorView>(e@),
        },
{
    let approx_moss_packets = match calc_prealloc_val(bytes) {
        Ok(n) => n,
        Err(e) => return Err(e),
    };
    let mut moss_packets: Vec<MossPacket> = Vec::with_capacity(approx_moss_packets);
    let n = bytes.len();
    let mut last_trailer_idx: usize = 0;
    assert(bytes@.subrange(0, n as int) =~= bytes@);
    while n - last_trailer_idx >= MINIMUM_EVENT_SIZE
        invariant
            last_trailer_idx <= n == bytes@.len(),
            moss_packets@.len() > 0 ==> last_trailer_idx > 0,
            batch(bytes@) == prepend_packets(
                packet_models(moss_packets@),
                last_trailer_idx as int,
                batch(bytes@.subrange(last_trailer_idx as int, n as int)),
            ),
        decreases n - last_trailer_idx,
    {
        let rest = slice_subrange(bytes, last_trailer_idx, n);
        proof {
            lemma_packet_outcome_bounds(rest@);
        }
        match extract_packet(rest) {
            Ok((moss_packet, trailer_idx)) => {
                let ghost before = moss_packets@;
                moss_packets.push(moss_packet);
                proof {
                    assert(rest@.subrange(trailer_idx + 1, rest@.len() as int) =~= bytes@.subrange(
                        last_trailer_idx + trailer_idx + 1,
                        n as int,
                    ));
                    assert(packet_models(moss_packets@) =~= packet_models(before) + seq![moss_packet@]);
                    assert(packet_models(before) + seq![moss_packet@] + Seq::<PacketModel>::empty() =~= packet_models(before) + seq![moss_packet@]);
                    let tail = batch(bytes@.subrange(last_trailer_idx + trailer_idx + 1, n as int));
                    match tail {
                        Ok((qs, end)) => {
                            assert(packet_models(before) + (seq![moss_packet@] + qs) =~= packet_models(moss_packets@) + qs);
                        },
                        Err(_) => {},
                    }
                }
                last_trailer_idx = last_trailer_idx + trailer_idx + 1;
            },
            Err(e) => {
                return Err(DecodeError::Parse(e));
            },
        }
    }
    proof {
        assert(packet_models(moss_packets@) + Seq::<PacketModel>::empty() =~= packet_models(moss_packets@));
    }
    if moss_packets.len() == 0 {
        Err(DecodeError::NoPackets)
    } else {
        Ok((moss_packets, last_trailer_idx - 1))
    }
}

/// The index of the first trailer byte at or after `i`, or the length of
/// `bytes` where there is none.
pub open spec fn trailer_from(bytes: Seq<u8>, i: int) -> int
    decreases bytes.len() - i,
{
    if i < 0 || i >= bytes.len() {
        bytes.len() as int
    } else if bytes[i] == UNIT_FRAME_TRAILER {
        i
    } else {
        trailer_from(bytes, i + 1)
    }
}

/// Skipping frames `i` to `skip - 1` from `pos` by their header and trailer
/// alone: the position after the last trailer skipped, or the number of the
/// frame whose header or trailer is missing.
pub open spec fn skip_frames(bytes: Seq<u8>, pos: int, i: int, skip: int) -> Result<int, DecodeErrorView>
    decreases skip - i,
{
    if i >= skip {
        Ok(pos)
    } else {
        let h = header_from(bytes, pos);
        if h >= bytes.len() {
            Err(DecodeErrorView::SkipNoHeader(i))
        } else {
            let t = trailer_from(bytes, h);
            if t >= bytes.len() {
                Err(DecodeErrorView::SkipNoTrailer(i))
            } else {
                skip_frames(bytes, t + 1, i + 1, skip)
            }
        }
    }
}

/// Decoding `take` frames one after the other from the start of `bytes`: the
/// packets and how many bytes they took, or the first error.
pub open spec fn take_frames(bytes: Seq<u8>, take: int) -> Result<(Seq<PacketModel>, int), ParseErrorView>
    decreases take,
{
    if take <= 0 {
        Ok((Seq::empty(), 0))
    } else {
        match packet_outcome(bytes) {
            Err(e) => Err(e),
            Ok((p, t)) => prepend_packets(
                seq![p],
                t + 1,
                take_frames(bytes.subrange(t + 1, bytes.len() as int), take - 1),
            ),
        }
    }
}

/// What [decode_events_skip_n_take_m] gives: the packets and the index of the
/// last trailer, or the error.
pub open spec fn skip_take_outcome(bytes: Seq<u8>, skip: int, take: int) -> Result<(Seq<PacketModel>, int), DecodeErrorView> {
    match skip_frames(bytes, 0, 0, skip) {
        Err(e) => Err(e),
        Ok(pos) => match take_frames(bytes.subrange(pos, bytes.len() as int), take) {
            Err(e) => Err(DecodeErrorView::Parse(e)),
            Ok((ps, end)) => if ps.len() == 0 {
                Err(DecodeErrorView::NoPackets)
            } else {
                Ok((ps, pos + end - 1))
            },
        },
    }
}

/// The index of the first trailer byte at or after `from`, or the length of
/// `bytes` where there is none.
fn find_trailer(bytes: &[u8], from: usize) -> (r: usize)
    ensures
        r == trailer_from(bytes@, from as int),
{
    let n = bytes.len();
    let mut i: usize = from;
    if i > n {
        return n;
    }
    while i < n
        invariant
            from <= i <= n == bytes@.len(),
            trailer_from(bytes@, from as int) == trailer_from(bytes@, i as int),
        decreases n - i,
    {
        if bytes[i] == UNIT_FRAME_TRAILER {
            return i;
        }
        i = i + 1;
    }
    n
}

proof fn lemma_trailer_from_bounds(bytes: Seq<u8>, i: int)
    ensures
        0 <= i <= bytes.len() ==> i <= trailer_from(bytes, i),
        trailer_from(bytes, i) <= bytes.len(),
    decreases bytes.len() - i,
{
    if 0 <= i < bytes.len() && bytes[i] != UNIT_FRAME_TRAILER {
        lemma_trailer_from_bounds(bytes, i + 1);
    }
}

/// Skips `skip` events of `bytes`, finding only their headers and trailers,
/// then decodes the next `take` events. Returns the packets and the index of
/// the last trailer; fails where a frame to skip lacks its header or trailer,
/// where a frame to decode fails, and where no packet was decoded.
pub fn decode_events_skip_n_take_m(bytes: &[u8], skip: usize, take: usize) -> (r: Result<(Vec<MossPacket>, usize), DecodeError>)
    ensures
        match r {
            Ok((ps, t)) => skip_take_outcome(bytes@, skip as int, take as int) == Ok::<(Seq<PacketModel>, int), DecodeErrorView>((packet_models(ps@), t as int)),
            Err(e) => skip_take_outcome(bytes@, skip as int, take as int) == Err::<(Seq<PacketModel>, int), DecodeErrorView>(e@),
        },
{
    let mut moss_packets: Vec<MossPacket> = Vec::with_capacity(take);
    let n = bytes.len();
    let mut last_trailer_idx: usize = 0;
    let mut i: usize = 0;
    while i < skip
        invariant
            last_trailer_idx <= n == bytes@.len(),
            i <= skip,
            skip_frames(bytes@, 0, 0, skip as int) == skip_frames(bytes@, last_trailer_idx as int, i as int, skip as int),
        decreases skip - i,
    {
        let header_idx = find_header(bytes, last_trailer_idx);
        proof {
            lemma_header_from_bounds(bytes@, last_trailer_idx as int);
        }
        if header_idx >= n {
            return Err(DecodeError::SkipNoHeader(i));
        }
        let trailer_idx = find_trailer(bytes, header_idx);
        proof {
            lemma_trailer_from_bounds(bytes@, header_idx as int);
        }
        if trailer_idx >= n {
            return Err(DecodeError::SkipNoTrailer(i));
        }
        last_trailer_idx = trailer_idx + 1;
        i = i + 1;
    }
    let ghost start = last_trailer_idx as int;
    let mut j: usize = 0;
    assert(bytes@.subrange(start, n as int) =~= bytes@.subrange(last_trailer_idx as int, n as int));
    while j < take
        invariant
            start <= last_trailer_idx <= n == bytes@.len(),
            j <= take,
            moss_packets@.len() == j,
            j > 0 ==> last_trailer_idx > 0,
            0 <= start,
            skip_frames(bytes@, 0, 0, skip as int) == Ok::<int, DecodeErrorView>(start),
            take_frames(bytes@.subrange(start, n as int), take as int) == prepend_packets(
                packet_models(moss_packets@),
                last_trailer_idx - start,
                take_frames(bytes@.subrange(last_trailer_idx as int, n as int), take - j),
            ),
        decreases take - j,
    {
        let rest = slice_subrange(bytes, last_trailer_idx, n);
        proof {
            lemma_packet_outcome_bounds(rest@);
        }
        match extract_packet(rest) {
            Ok((moss_packet, trailer_idx)) => {
                let ghost before = moss_packets@;
                moss_packets.push(moss_packet);
                proof {
                    assert(rest@.subrange(trailer_idx + 1, rest@.len() as int) =~= bytes@.subrange(
                        last_trailer_idx + trailer_idx + 1,
                        n as int,
                    ));
                    assert(packet_models(moss_packets@) =~= packet_models(before) + seq![moss_packet@]);
                    let tail = take_frames(bytes@.subrange(last_trailer_idx + trailer_idx + 1, n as int), take - j - 1);
                    match tail {
                        Ok((qs, end)) => {
                            assert(packet_models(before) + (seq![moss_packet@] + qs) =~= packet_models(moss_packets@) + qs);
                        },
                        Err(_) => {},
                    }
                }
                last_trailer_idx = last_trailer_idx + trailer_idx + 1;
            },
            Err(e) => {
                return Err(DecodeError::Parse(e));
            },
        }
        j = j + 1;
    }
    proof {
        assert(packet_models(moss_packets@) + Seq::<PacketModel>::empty() =~= packet_models(moss_packets@));
    }
    if moss_packets.len() == 0 {
        Err(DecodeError::NoPackets)
    } else {
        Ok((moss_packets, last_trailer_idx - 1))
    }
}

} // verus!
