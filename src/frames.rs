//! What the decoders give on buffers made of whole, valid unit frames.
use vstd::prelude::*;

use crate::extract::{header_from, lemma_header_from_skip, packet_outcome};
use crate::moss_protocol::{is_header_byte, PacketModel, DELIMITER, IDLE};
use crate::parse_error::{DecodeErrorView, ParseErrorView};
use crate::moss_protocol_nested_fsm::{frame_result, lemma_run_frame_window, FrameState};
use crate::{batch, batch_outcome, event_outcome, MINIMUM_EVENT_SIZE};

verus! {

/// A unit frame on its own: a header byte, then words that the frame grammar
/// accepts, the last byte being the trailer that closes it.
pub open spec fn is_valid_frame(f: Seq<u8>) -> bool {
    &&& f.len() >= 2
    &&& is_header_byte(f[0])
    &&& frame_result(f, 0) matches Ok((_, t)) && t == f.len() - 1
}

/// The packet of a valid frame: the header's low nibble and the frame's hits.
pub open spec fn frame_packet(f: Seq<u8>) -> PacketModel {
    PacketModel { unit_id: f[0] & 0x0F, hits: frame_result(f, 0)->Ok_0.0 }
}

/// Bytes that hold no frame header.
pub open spec fn is_headerless(g: Seq<u8>) -> bool {
    forall|j: int| 0 <= j < g.len() ==> !is_header_byte(#[trigger] g[j])
}

/// Bytes that are all idle or delimiter bytes.
pub open spec fn is_filler(g: Seq<u8>) -> bool {
    forall|j: int| 0 <= j < g.len() ==> #[trigger] g[j] == IDLE || g[j] == DELIMITER
}

/// Each frame with its gap in front of it, one after the other.
pub open spec fn interleave(gaps: Seq<Seq<u8>>, frames: Seq<Seq<u8>>) -> Seq<u8>
    decreases frames.len(),
{
    if frames.len() == 0 || gaps.len() == 0 {
        Seq::empty()
    } else {
        gaps[0] + frames[0] + interleave(gaps.drop_first(), frames.drop_first())
    }
}

/// A valid frame after header-free bytes, with anything after it, decodes to
/// the frame's packet, its trailer being the frame's last byte.
pub proof fn lemma_packet_after_gap(g: Seq<u8>, f: Seq<u8>, rest: Seq<u8>)
    requires
        is_headerless(g),
        is_valid_frame(f),
    ensures
        packet_outcome(g + f + rest) == Ok::<(PacketModel, int), ParseErrorView>(
            (frame_packet(f), g.len() + f.len() - 1),
        ),
{
    let s = g + f + rest;
    let a = g.len() as int;
    assert forall|j: int| 0 <= j < a implies !is_header_byte(#[trigger] s[j]) by {
        assert(s[j] == g[j]);
    }
    assert(s[a] == f[0]);
    lemma_header_from_skip(s, 0, a);
    assert(header_from(s, 0) == a);
    assert(f =~= s.subrange(a, a + f.len()));
    lemma_run_frame_window(s, a, f, 1, FrameState::AwaitRegion0, Seq::empty());
}

proof fn lemma_interleave_len(gaps: Seq<Seq<u8>>, frames: Seq<Seq<u8>>)
    requires
        gaps.len() == frames.len() > 0,
    ensures
        interleave(gaps, frames).len() >= frames.last().len(),
    decreases frames.len(),
{
    if frames.len() > 1 {
        lemma_interleave_len(gaps.drop_first(), frames.drop_first());
    }
}

proof fn lemma_batch_interleave(gaps: Seq<Seq<u8>>, frames: Seq<Seq<u8>>)
    requires
        gaps.len() == frames.len(),
        forall|k: int| 0 <= k < frames.len() ==> is_valid_frame(#[trigger] frames[k]),
        forall|k: int| 0 <= k < gaps.len() ==> is_headerless(#[trigger] gaps[k]),
        frames.len() > 0 ==> frames.last().len() >= MINIMUM_EVENT_SIZE,
    ensures
        batch(interleave(gaps, frames)) == Ok::<(Seq<PacketModel>, int), ParseErrorView>(
            (frames.map_values(|f: Seq<u8>| frame_packet(f)), interleave(gaps, frames).len() as int),
        ),
    decreases frames.len(),
{
    let s = interleave(gaps, frames);
    if frames.len() == 0 {
        assert(frames.map_values(|f: Seq<u8>| frame_packet(f)) =~= Seq::<PacketModel>::empty());
    } else {
        let g = gaps[0];
        let f = frames[0];
        let gs = gaps.drop_first();
        let fs = frames.drop_first();
        let s1 = interleave(gs, fs);
        assert(s == g + f + s1);
        assert(is_valid_frame(frames[0]));
        assert(is_headerless(gaps[0]));
        lemma_packet_after_gap(g, f, s1);
        lemma_interleave_len(gaps, frames);
        let t = g.len() + f.len() - 1;
        assert(s.subrange(t + 1, s.len() as int) =~= s1);
        if fs.len() > 0 {
            assert(fs.last() == frames.last());
        }
        assert forall|k: int| 0 <= k < fs.len() implies is_valid_frame(#[trigger] fs[k]) by {
            assert(fs[k] == frames[k + 1]);
        }
        assert forall|k: int| 0 <= k < gs.len() implies is_headerless(#[trigger] gs[k]) by {
            assert(gs[k] == gaps[k + 1]);
        }
        lemma_batch_interleave(gs, fs);
        assert(frames.map_values(|f: Seq<u8>| frame_packet(f)) =~= seq![frame_packet(f)]
            + fs.map_values(|f: Seq<u8>| frame_packet(f)));
    }
}

/// Frames with idle or delimiter bytes between them, each frame valid and the
/// last one at least six bytes long, decode to the frames' packets in order:
/// the filler changes no packet. The last trailer is the buffer's last byte.
pub proof fn lemma_filler_between_frames(gaps: Seq<Seq<u8>>, frames: Seq<Seq<u8>>)
    requires
        gaps.len() == frames.len() > 0,
        forall|k: int| 0 <= k < frames.len() ==> is_valid_frame(#[trigger] frames[k]),
        forall|k: int| 0 <= k < gaps.len() ==> is_filler(#[trigger] gaps[k]),
        frames.last().len() >= MINIMUM_EVENT_SIZE,
    ensures
        batch_outcome(interleave(gaps, frames)) == Ok::<(Seq<PacketModel>, int), DecodeErrorView>(
            (frames.map_values(|f: Seq<u8>| frame_packet(f)), interleave(gaps, frames).len() - 1),
        ),
{
    assert forall|k: int| 0 <= k < gaps.len() implies is_headerless(#[trigger] gaps[k]) by {
        let g = gaps[k];
        assert forall|j: int| 0 <= j < g.len() implies !is_header_byte(#[trigger] g[j]) by {
            let b = g[j];
            assert(b == IDLE || b == DELIMITER);
            assert(b & 0xF0 != 0xD0) by (bit_vector)
                requires
                    b == 0xFF || b == 0xFA,
            ;
        }
    }
    lemma_batch_interleave(gaps, frames);
    lemma_interleave_len(gaps, frames);
}

proof fn lemma_interleave_empty_gaps(gaps: Seq<Seq<u8>>, frames: Seq<Seq<u8>>)
    requires
        gaps.len() == frames.len(),
        forall|k: int| 0 <= k < gaps.len() ==> (#[trigger] gaps[k]).len() == 0,
    ensures
        interleave(gaps, frames) == frames.flatten(),
    decreases frames.len(),
{
    if frames.len() > 0 {
        let gs = gaps.drop_first();
        assert forall|k: int| 0 <= k < gs.len() implies (#[trigger] gs[k]).len() == 0 by {
            assert(gs[k] == gaps[k + 1]);
        }
        lemma_interleave_empty_gaps(gs, frames.drop_first());
        assert(gaps[0] =~= Seq::<u8>::empty());
        assert(gaps[0] + frames[0] =~= frames[0]);
    }
}

/// Valid frames one after the other, the last one at least six bytes long,
/// decode to as many packets as there are frames, in their order.
pub proof fn lemma_concatenated_frames(frames: Seq<Seq<u8>>)
    requires
        frames.len() > 0,
        forall|k: int| 0 <= k < frames.len() ==> is_valid_frame(#[trigger] frames[k]),
        frames.last().len() >= MINIMUM_EVENT_SIZE,
    ensures
        batch_outcome(frames.flatten()) == Ok::<(Seq<PacketModel>, int), DecodeErrorView>(
            (frames.map_values(|f: Seq<u8>| frame_packet(f)), frames.flatten().len() - 1),
        ),
{
    let gaps = Seq::new(frames.len(), |k: int| Seq::<u8>::empty());
    assert forall|k: int| 0 <= k < gaps.len() implies is_filler(#[trigger] gaps[k]) by {}
    lemma_interleave_empty_gaps(gaps, frames);
    lemma_filler_between_frames(gaps, frames);
}

/// A valid frame of at least six bytes at the start of a buffer decodes as one
/// event to a packet with the header's unit id and the frame's hits; its
/// trailer is the frame's last byte, so what follows it is left unprocessed.
pub proof fn lemma_single_frame(f: Seq<u8>, rest: Seq<u8>)
    requires
        is_valid_frame(f),
        f.len() >= MINIMUM_EVENT_SIZE,
    ensures
        event_outcome(f + rest) == Ok::<(PacketModel, int), DecodeErrorView>((frame_packet(f), f.len() - 1)),
        frame_packet(f).unit_id == f[0] & 0x0F,
        (f + rest).subrange(f.len() as int, (f + rest).len() as int) == rest,
{
    lemma_packet_after_gap(Seq::empty(), f, rest);
    assert(Seq::<u8>::empty() + f + rest =~= f + rest);
    assert((f + rest).subrange(f.len() as int, (f + rest).len() as int) =~= rest);
}

} // verus!
