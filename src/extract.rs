//! Locating the next unit frame in a buffer and decoding it into a packet.
use vstd::prelude::*;
use vstd::slice::slice_subrange;

use crate::moss_protocol::{is_header_byte, MossPacket, PacketModel};
use crate::moss_protocol_nested_fsm::{
    extract_hits, frame_result, hits_in_range, lemma_run_frame_bounds, lemma_run_frame_window,
    FrameState,
};
use crate::parse_error::{ParseError, ParseErrorKind, ParseErrorView};
use vstd::string::StringExecFns;

use crate::text::{append_hex_bytes, append_hex_pair, hex_join, hex_pair};

verus! {

/// The index of the first header byte at or after `i`, or the length of
/// `bytes` where there is none.
pub open spec fn header_from(bytes: Seq<u8>, i: int) -> int
    decreases bytes.len() - i,
{
    if i < 0 || i >= bytes.len() {
        bytes.len() as int
    } else if is_header_byte(bytes[i]) {
        i
    } else {
        header_from(bytes, i + 1)
    }
}

/// The message of a buffer without a frame header.
pub open spec fn no_header_text() -> Seq<char> {
    "No Unit Frame Header found"@
}

/// How many bytes past the offending one a diagnostic shows.
pub const DUMP_BYTES_PAST_ERROR: usize = 10;

/// A protocol error message: what was expected, the offending byte of `frame`
/// at `err_idx`, the frame's bytes before it and up to ten bytes after it.
pub open spec fn error_message(expected: Seq<char>, frame: Seq<u8>, err_idx: int) -> Seq<char> {
    let end = if err_idx + 1 + DUMP_BYTES_PAST_ERROR < frame.len() {
        err_idx + 1 + DUMP_BYTES_PAST_ERROR
    } else {
        frame.len() as int
    };
    expected + ", got: 0x"@ + hex_pair(frame[err_idx])
        + ". Dump from header and 10 bytes past error: "@ + hex_join(frame.subrange(0, err_idx))
        + " [ERROR = "@ + hex_pair(frame[err_idx]) + "] "@
        + hex_join(frame.subrange(err_idx + 1, end))
}

/// What extracting the first packet of `bytes` gives: the packet and the index
/// of its trailer, or the error.
pub open spec fn packet_outcome(bytes: Seq<u8>) -> Result<(PacketModel, int), ParseErrorView> {
    let h = header_from(bytes, 0);
    if h >= bytes.len() {
        Err(
            ParseErrorView {
                kind: ParseErrorKind::NoHeaderFound,
                message: no_header_text(),
                index: bytes.len() as int,
            },
        )
    } else {
        match frame_result(bytes, h) {
            Ok((hits, trailer)) => Ok((PacketModel { unit_id: bytes[h] & 0x0F, hits }, trailer)),
            Err(e) => if e.kind == ParseErrorKind::ProtocolError {
                Err(
                    ParseErrorView {
                        message: error_message(e.message, bytes.subrange(h, bytes.len() as int), e.index),
                        ..e
                    },
                )
            } else {
                Err(e)
            },
        }
    }
}

/// The header search ends inside the bytes or at their end.
pub proof fn lemma_header_from_bounds(bytes: Seq<u8>, i: int)
    ensures
        0 <= i <= bytes.len() ==> i <= header_from(bytes, i),
        header_from(bytes, i) <= bytes.len(),
        header_from(bytes, i) < bytes.len() ==> is_header_byte(bytes[header_from(bytes, i)]),
    decreases bytes.len() - i,
{
    if 0 <= i < bytes.len() && !is_header_byte(bytes[i]) {
        lemma_header_from_bounds(bytes, i + 1);
    }
}

/// A packet's trailer lies after its header, inside the bytes.
pub proof fn lemma_packet_outcome_bounds(bytes: Seq<u8>)
    ensures
        packet_outcome(bytes) matches Ok((_, t)) ==> 0 < t < bytes.len(),
{
    let h = header_from(bytes, 0);
    lemma_header_from_bounds(bytes, 0);
    lemma_run_frame_bounds(bytes, h + 1, FrameState::AwaitRegion0, Seq::empty());
}

/// Where no header byte stands from `i` to before `k`, the search from `i`
/// reaches `k`.
pub proof fn lemma_header_from_skip(bytes: Seq<u8>, i: int, k: int)
    requires
        0 <= i <= k <= bytes.len(),
        forall|j: int| i <= j < k ==> !is_header_byte(#[trigger] bytes[j]),
    ensures
        header_from(bytes, i) == header_from(bytes, k),
    decreases k - i,
{
    if i < k {
        lemma_header_from_skip(bytes, i + 1, k);
    }
}

/// A header found inside a window of the bytes is found on the whole of them.
pub proof fn lemma_header_from_window(s: Seq<u8>, a: int, f: Seq<u8>, j: int)
    requires
        0 <= a,
        a + f.len() <= s.len(),
        f == s.subrange(a, a + f.len()),
        0 <= j,
        header_from(f, j) < f.len(),
    ensures
        header_from(s, a + j) == a + header_from(f, j),
    decreases f.len() - j,
{
    if j < f.len() {
        assert(s[a + j] == f[j]);
        if !is_header_byte(f[j]) {
            lemma_header_from_window(s, a, f, j + 1);
            assert(a + j + 1 == a + (j + 1));
        }
    }
}

/// Bytes appended after a packet that decodes change neither the packet nor
/// its trailer's index.
pub proof fn lemma_packet_outcome_append(x: Seq<u8>, b: Seq<u8>)
    requires
        packet_outcome(x) is Ok,
    ensures
        packet_outcome(x + b) == packet_outcome(x),
{
    let s = x + b;
    assert(x =~= s.subrange(0, x.len() as int));
    let h = header_from(x, 0);
    lemma_header_from_bounds(x, 0);
    assert(h < x.len());
    lemma_header_from_window(s, 0, x, 0);
    lemma_run_frame_window(s, 0, x, h + 1, FrameState::AwaitRegion0, Seq::empty());
    assert(s[h] == x[h]);
}

/// The index of the first header byte at or after `from`, or the length of
/// `bytes` where there is none.
pub fn find_header(bytes: &[u8], from: usize) -> (r: usize)
    ensures
        r == header_from(bytes@, from as int),
{
    let n = bytes.len();
    let mut i: usize = from;
    if i > n {
        return n;
    }
    while i < n
        invariant
            from <= i <= n == bytes@.len(),
            header_from(bytes@, from as int) == header_from(bytes@, i as int),
        decreases n - i,
    {
        if bytes[i] & 0xF0 == 0xD0 {
            return i;
        }
        i = i + 1;
    }
    n
}

/// Formats an error message with what was expected and the byte at `err_idx`
/// of `bytes`, with a dump of the bytes from the start of `bytes` (the frame
/// header) to ten bytes past the error.
pub fn format_error_msg(err_str: &str, err_idx: usize, bytes: &[u8]) -> (r: String)
    requires
        err_idx < bytes@.len(),
    ensures
        r@ == error_message(err_str@, bytes@, err_idx as int),
{
    let n = bytes.len();
    let error_byte = bytes[err_idx];
    let end = if n - (err_idx + 1) > DUMP_BYTES_PAST_ERROR {
        err_idx + 1 + DUMP_BYTES_PAST_ERROR
    } else {
        n
    };
    let mut out = String::new();
    out.append(err_str);
    out.append(", got: 0x");
    append_hex_pair(&mut out, error_byte);
    out.append(". Dump from header and 10 bytes past error: ");
    append_hex_bytes(&mut out, bytes, 0, err_idx);
    out.append(" [ERROR = ");
    append_hex_pair(&mut out, error_byte);
    out.append("] ");
    append_hex_bytes(&mut out, bytes, err_idx + 1, end);
    assert(out@ =~= error_message(err_str@, bytes@, err_idx as int));
    out
}

/// Skips bytes up to the first unit frame header, then decodes that frame.
/// Returns the packet and the index of its trailer in `bytes`.
pub fn extract_packet(bytes: &[u8]) -> (r: Result<(MossPacket, usize), ParseError>)
    ensures
        match r {
            Ok((p, trailer)) => packet_outcome(bytes@) == Ok::<(PacketModel, int), ParseErrorView>((p@, trailer as int)),
            Err(e) => packet_outcome(bytes@) == Err::<(PacketModel, int), ParseErrorView>(e@),
        },
        r matches Ok((p, _)) ==> p.unit_id <= 15 && hits_in_range(p.hits@),
{
    let header_idx = find_header(bytes, 0);
    if header_idx >= bytes.len() {
        return Err(ParseError::new(ParseErrorKind::NoHeaderFound, "No Unit Frame Header found", bytes.len()));
    }
    proof {
        lemma_run_frame_bounds(bytes@, header_idx + 1, FrameState::AwaitRegion0, Seq::empty());
    }
    match extract_hits(bytes, header_idx) {
        Ok((hits, trailer)) => {
            let header = bytes[header_idx];
            let unit_id = header & 0x0F;
            assert(header & 0x0F <= 15) by (bit_vector);
            let packet = MossPacket { unit_id, hits };
            Ok((packet, trailer))
        },
        Err(e) => {
            if e.kind() == ParseErrorKind::ProtocolError {
                let frame = slice_subrange(bytes, header_idx, bytes.len());
                let message = format_error_msg(e.message(), e.err_index(), frame);
                Err(ParseError::with_message(ParseErrorKind::ProtocolError, message, e.err_index()))
            } else {
                Err(e)
            }
        },
    }
}

} // verus!
