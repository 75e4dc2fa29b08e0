//! Decoding a stream that arrives in chunks: bytes that do not yet form a
//! complete frame are kept and decoded once the next chunk has come.
use vstd::prelude::*;
use vstd::slice::{slice_subrange, slice_to_vec};

use crate::extract::{
    extract_packet, lemma_packet_outcome_append, lemma_packet_outcome_bounds, packet_outcome,
};
use crate::moss_protocol::{packet_models, MossPacket, PacketModel};
use crate::parse_error::DecodeError;

verus! {

/// Extracts packets from the start of `bytes` until an extraction fails: the
/// packets and how many bytes they took. A failure only ends the run, and the
/// bytes from where it failed on are not taken.
pub open spec fn drain(bytes: Seq<u8>) -> (Seq<PacketModel>, int)
    decreases bytes.len(),
{
    match packet_outcome(bytes) {
        Ok((p, t)) => {
            proof {
                lemma_packet_outcome_bounds(bytes);
            }
            let rest = drain(bytes.subrange(t + 1, bytes.len() as int));
            (seq![p] + rest.0, t + 1 + rest.1)
        },
        Err(_) => (Seq::empty(), 0),
    }
}

/// What a stream decoder holds: the packets decoded so far and the bytes that
/// wait for the next chunk.
pub struct StreamModel {
    pub packets: Seq<PacketModel>,
    pub pending: Seq<u8>,
}

/// The state after a chunk: the chunk is appended to the waiting bytes, every
/// frame that is now complete is decoded, and the rest waits.
pub open spec fn feed_model(st: StreamModel, chunk: Seq<u8>) -> StreamModel {
    let buf = st.pending + chunk;
    let (ps, used) = drain(buf);
    StreamModel { packets: st.packets + ps, pending: buf.subrange(used, buf.len() as int) }
}

/// A run takes no more bytes than there are.
pub proof fn lemma_drain_bounds(bytes: Seq<u8>)
    ensures
        0 <= drain(bytes).1 <= bytes.len(),
    decreases bytes.len(),
{
    if let Ok((p, t)) = packet_outcome(bytes) {
        lemma_packet_outcome_bounds(bytes);
        lemma_drain_bounds(bytes.subrange(t + 1, bytes.len() as int));
    }
}

/// Draining `x + b` takes what draining `x` takes, then goes on over the bytes
/// that `x` left with `b` after them.
pub proof fn lemma_drain_append(x: Seq<u8>, b: Seq<u8>)
    ensures
        ({
            let (ps, used) = drain(x);
            let (qs, more) = drain(x.subrange(used, x.len() as int) + b);
            drain(x + b) == (ps + qs, used + more)
        }),
    decreases x.len(),
{
    lemma_drain_bounds(x);
    match packet_outcome(x) {
        Ok((p, t)) => {
            lemma_packet_outcome_bounds(x);
            lemma_packet_outcome_append(x, b);
            let x1 = x.subrange(t + 1, x.len() as int);
            assert((x + b).subrange(t + 1, (x + b).len() as int) =~= x1 + b);
            lemma_drain_append(x1, b);
            lemma_drain_bounds(x1);
            let (ps1, used1) = drain(x1);
            assert(x.subrange(t + 1 + used1, x.len() as int) =~= x1.subrange(used1, x1.len() as int));
            let (qs, more) = drain(x1.subrange(used1, x1.len() as int) + b);
            assert(seq![p] + (ps1 + qs) =~= (seq![p] + ps1) + qs);
        },
        Err(_) => {
            assert(x.subrange(0, x.len() as int) =~= x);
            let (qs, more) = drain(x + b);
            assert(Seq::<PacketModel>::empty() + qs =~= qs);
        },
    }
}

/// Feeding a stream in two chunks leaves the decoder as feeding their
/// concatenation at once: a frame cut at the chunk boundary waits and is
/// decoded whole once the second chunk has come.
pub proof fn lemma_split_chunks(st: StreamModel, a: Seq<u8>, b: Seq<u8>)
    ensures
        feed_model(feed_model(st, a), b) == feed_model(st, a + b),
{
    let x = st.pending + a;
    lemma_drain_append(x, b);
    lemma_drain_bounds(x);
    let (ps, used) = drain(x);
    let y = x.subrange(used, x.len() as int) + b;
    lemma_drain_bounds(y);
    let (qs, more) = drain(y);
    assert(st.pending + (a + b) =~= x + b);
    assert(y.subrange(more, y.len() as int) =~= (x + b).subrange(used + more, (x + b).len() as int));
    assert(st.packets + ps + qs =~= st.packets + (ps + qs));
}

/// A decoder of a chunked stream of bytes.
pub struct StreamDecoder {
    pending: Vec<u8>,
    packets: Vec<MossPacket>,
}

impl View for StreamDecoder {
    type V = StreamModel;

    closed spec fn view(&self) -> StreamModel {
        StreamModel { packets: packet_models(self.packets@), pending: self.pending@ }
    }
}

impl StreamDecoder {
    /// A decoder that has seen no bytes.
    pub fn new() -> (r: Self)
        ensures
            r@.packets == Seq::<PacketModel>::empty(),
            r@.pending == Seq::<u8>::empty(),
    {
        let r = StreamDecoder { pending: Vec::new(), packets: Vec::new() };
        assert(r@.packets =~= Seq::<PacketModel>::empty());
        r
    }

    /// Takes the next chunk: decodes frame after frame until an extraction
    /// fails (a frame not yet complete, or a bad one), and keeps the bytes
    /// from there on for the next chunk.
    pub fn feed(&mut self, chunk: &[u8])
        ensures
            final(self)@ == feed_model(old(self)@, chunk@),
    {
        let ghost old_pending = self.pending@;
        let mut k: usize = 0;
        while k < chunk.len()
            invariant
                k <= chunk@.len(),
                self.pending@ == old_pending + chunk@.subrange(0, k as int),
                self.packets == old(self).packets,
            decreases chunk@.len() - k,
        {
            self.pending.push(chunk[k]);
            k = k + 1;
            assert(self.pending@ =~= old_pending + chunk@.subrange(0, k as int));
        }
        assert(chunk@.subrange(0, chunk@.len() as int) =~= chunk@);
        let ghost buf = self.pending@;
        let n = self.pending.len();
        let mut decoded: Vec<MossPacket> = Vec::new();
        let mut last: usize = 0;
        let mut done = false;
        assert(buf.subrange(0, n as int) =~= buf);
        while !done
            invariant
                last <= n == buf.len(),
                self.pending@ == buf,
                self.packets == old(self).packets,
                ({
                    let (ps, used) = drain(buf);
                    let (qs, more) = drain(buf.subrange(last as int, n as int));
                    &&& ps == packet_models(decoded@) + qs
                    &&& used == last + more
                    &&& done ==> qs.len() == 0 && more == 0
                }),
            decreases n - last + if done { 0int } else { 1int },
        {
            let rest = slice_subrange(self.pending.as_slice(), last, n);
            proof {
                lemma_packet_outcome_bounds(rest@);
            }
            match extract_packet(rest) {
                Ok((packet, trailer_idx)) => {
                    let ghost before = decoded@;
                    decoded.push(packet);
                    proof {
                        let r1 = rest@.subrange(trailer_idx + 1, rest@.len() as int);
                        assert(r1 =~= buf.subrange(last + trailer_idx + 1, n as int));
                        let (qs, more) = drain(r1);
                        assert(packet_models(decoded@) =~= packet_models(before) + seq![packet@]);
                        assert(packet_models(before) + (seq![packet@] + qs) =~= packet_models(decoded@) + qs);
                    }
                    last = last + trailer_idx + 1;
                },
                Err(_) => {
                    proof {
                        assert(packet_models(decoded@) + Seq::<PacketModel>::empty() =~= packet_models(decoded@));
                    }
                    done = true;
                },
            }
        }
        let tail = slice_to_vec(slice_subrange(self.pending.as_slice(), last, n));
        self.pending = tail;
        let ghost before = self.packets@;
        let ghost added = decoded@;
        self.packets.append(&mut decoded);
        proof {
            assert(packet_models(self.packets@) =~= packet_models(before) + packet_models(added));
        }
    }

    /// The packets decoded so far.
    pub fn packets(&self) -> (r: &Vec<MossPacket>)
        ensures
            packet_models(r@) == self@.packets,
    {
        &self.packets
    }

    /// The bytes that wait for the next chunk.
    pub fn pending(&self) -> (r: &[u8])
        ensures
            r@ == self@.pending,
    {
        self.pending.as_slice()
    }

    /// Ends the stream: the packets decoded, or an error where there are none.
    /// Bytes still waiting are dropped.
    pub fn finish(self) -> (r: Result<Vec<MossPacket>, DecodeError>)
        ensures
            match r {
                Ok(ps) => self@.packets.len() > 0 && packet_models(ps@) == self@.packets,
                Err(e) => self@.packets.len() == 0 && e is NoPackets,
            },
    {
        if self.packets.len() == 0 {
            Err(DecodeError::NoPackets)
        } else {
            Ok(self.packets)
        }
    }
}

} // verus!
