//! The grammar of a unit frame as a finite-state machine, and the decoding of
//! the hits of one frame with it.
use vstd::prelude::*;

use crate::moss_protocol::moss_hit::{
    add_data0, add_data1, add_data2, begin_hit, hit_in_range, lemma_steps_in_range, with_data1,
    with_data2,
};
use crate::moss_protocol::{word_of, MossHit, MossWord};
use crate::parse_error::{ParseError, ParseErrorKind, ParseErrorView};

verus! {

/// Where the frame grammar stands after the bytes consumed so far.
/// The `u8` is the region of the most recent region header.
#[derive(Debug, Clone, Copy, PartialEq, Eq, Structural)]
pub enum FrameState {
    /// Just after the header: only idle words until region header 0, or the trailer.
    AwaitRegion0,
    /// Just after a region header.
    RegionSeen(u8),
    /// A `Data0` word opened a hit; `Data1` must follow.
    Data0Pending(u8),
    /// A `Data1` word came; `Data2` must follow.
    Data1Pending(u8),
    /// A hit was completed by its `Data2` word.
    Data2Done(u8),
    /// An idle word came after a region header or a hit.
    Idle(u8),
    /// The trailer closed the frame.
    TrailerSeen,
}

/// The state after a word in `region` where a new hit, idle, the next region
/// header or the trailer may come.
pub open spec fn between_hits(region: u8, w: Option<MossWord>) -> Option<FrameState> {
    match w {
        Some(MossWord::Data0) => Some(FrameState::Data0Pending(region)),
        Some(MossWord::Idle) => Some(FrameState::Idle(region)),
        Some(MossWord::RegionHeader(n)) => if n == region + 1 {
            Some(FrameState::RegionSeen(n))
        } else {
            None
        },
        Some(MossWord::UnitFrameTrailer) => Some(FrameState::TrailerSeen),
        _ => None,
    }
}

/// The transition of the frame grammar; `None` where the word is not allowed.
/// Region headers come in the order 0, 1, 2, 3, each at most once.
pub open spec fn next_state(st: FrameState, w: Option<MossWord>) -> Option<FrameState> {
    match st {
        FrameState::AwaitRegion0 => match w {
            Some(MossWord::Idle) => Some(FrameState::AwaitRegion0),
            Some(MossWord::RegionHeader(n)) => if n == 0 {
                Some(FrameState::RegionSeen(0))
            } else {
                None
            },
            Some(MossWord::UnitFrameTrailer) => Some(FrameState::TrailerSeen),
            _ => None,
        },
        FrameState::RegionSeen(r) => between_hits(r, w),
        FrameState::Data2Done(r) => between_hits(r, w),
        FrameState::Idle(r) => between_hits(r, w),
        FrameState::Data0Pending(r) => if w == Some(MossWord::Data1) {
            Some(FrameState::Data1Pending(r))
        } else {
            None
        },
        FrameState::Data1Pending(r) => if w == Some(MossWord::Data2) {
            Some(FrameState::Data2Done(r))
        } else {
            None
        },
        FrameState::TrailerSeen => None,
    }
}

/// The hits after byte `b` moved the grammar from `st`: a `Data0` word opens a
/// hit in the current region, `Data1` and `Data2` complete the last one.
pub open spec fn hits_after(hits: Seq<MossHit>, st: FrameState, b: u8) -> Seq<MossHit> {
    match next_state(st, word_of(b)) {
        Some(FrameState::Data0Pending(r)) => hits.push(begin_hit(r, b)),
        Some(FrameState::Data1Pending(_)) => hits.update(hits.len() - 1, with_data1(hits.last(), b)),
        Some(FrameState::Data2Done(_)) => hits.update(hits.len() - 1, with_data2(hits.last(), b)),
        _ => hits,
    }
}

/// How running the grammar over a frame ends.
pub enum FrameOutcome {
    /// The trailer at index `trailer` closed the frame.
    Complete { hits: Seq<MossHit>, trailer: int },
    /// The byte at `index` is not allowed in `state`.
    Invalid { index: int, state: FrameState },
    /// The bytes ran out before the trailer.
    Unterminated,
}

/// Runs the grammar from state `st` with hits `hits` over `bytes[i..]`.
pub open spec fn run_frame(bytes: Seq<u8>, i: int, st: FrameState, hits: Seq<MossHit>) -> FrameOutcome
    decreases bytes.len() - i,
{
    if i < 0 || i >= bytes.len() {
        FrameOutcome::Unterminated
    } else {
        match next_state(st, word_of(bytes[i])) {
            None => FrameOutcome::Invalid { index: i, state: st },
            Some(FrameState::TrailerSeen) => FrameOutcome::Complete { hits, trailer: i },
            Some(next) => run_frame(bytes, i + 1, next, hits_after(hits, st, bytes[i])),
        }
    }
}

/// A run ends at a byte at or after where it started and inside the bytes.
pub proof fn lemma_run_frame_bounds(bytes: Seq<u8>, i: int, st: FrameState, hits: Seq<MossHit>)
    ensures
        match run_frame(bytes, i, st, hits) {
            FrameOutcome::Complete { trailer, .. } => 0 <= i <= trailer < bytes.len(),
            FrameOutcome::Invalid { index, .. } => 0 <= i <= index < bytes.len(),
            FrameOutcome::Unterminated => true,
        },
    decreases bytes.len() - i,
{
    if 0 <= i < bytes.len() {
        match next_state(st, word_of(bytes[i])) {
            None => {},
            Some(FrameState::TrailerSeen) => {},
            Some(next) => lemma_run_frame_bounds(bytes, i + 1, next, hits_after(hits, st, bytes[i])),
        }
    }
}

/// The region that a state carries is one of the four.
pub open spec fn region_in_range(st: FrameState) -> bool {
    match st {
        FrameState::RegionSeen(r) => r <= 3,
        FrameState::Data0Pending(r) => r <= 3,
        FrameState::Data1Pending(r) => r <= 3,
        FrameState::Data2Done(r) => r <= 3,
        FrameState::Idle(r) => r <= 3,
        _ => true,
    }
}

/// Every hit of the sequence is in range.
pub open spec fn hits_in_range(hits: Seq<MossHit>) -> bool {
    forall|k: int| 0 <= k < hits.len() ==> hit_in_range(#[trigger] hits[k])
}

/// One step of the grammar keeps the region and every hit in range.
pub proof fn lemma_step_in_range(hits: Seq<MossHit>, st: FrameState, b: u8)
    requires
        hits_in_range(hits),
        region_in_range(st),
        (st is Data0Pending || st is Data1Pending) ==> hits.len() > 0,
    ensures
        next_state(st, word_of(b)) matches Some(n) ==> region_in_range(n) && hits_in_range(hits_after(hits, st, b)),
{
    assert(b & 0x03 <= 3) by (bit_vector);
    if hits.len() > 0 {
        lemma_steps_in_range(hits.last(), 0, b);
    }
    match next_state(st, word_of(b)) {
        Some(FrameState::Data0Pending(r)) => {
            lemma_steps_in_range(hits.last(), r, b);
            let h2 = hits_after(hits, st, b);
            assert forall|k: int| 0 <= k < h2.len() implies hit_in_range(#[trigger] h2[k]) by {
                if k < hits.len() {
                    assert(h2[k] == hits[k]);
                }
            }
        },
        Some(FrameState::Data1Pending(_)) | Some(FrameState::Data2Done(_)) => {
            let h2 = hits_after(hits, st, b);
            assert forall|k: int| 0 <= k < h2.len() implies hit_in_range(#[trigger] h2[k]) by {
                if k < hits.len() - 1 {
                    assert(h2[k] == hits[k]);
                }
            }
        },
        _ => {},
    }
}

/// An outcome with its indices moved `offset` bytes on.
pub open spec fn shift_outcome(o: FrameOutcome, offset: int) -> FrameOutcome {
    match o {
        FrameOutcome::Complete { hits, trailer } => FrameOutcome::Complete { hits, trailer: trailer + offset },
        FrameOutcome::Invalid { index, state } => FrameOutcome::Invalid { index: index + offset, state },
        FrameOutcome::Unterminated => FrameOutcome::Unterminated,
    }
}

/// A run that ends inside a window of the bytes ends the same way on the
/// whole of them: the grammar reads nothing past the byte where it stops.
pub proof fn lemma_run_frame_window(
    s: Seq<u8>,
    a: int,
    f: Seq<u8>,
    i: int,
    st: FrameState,
    hits: Seq<MossHit>,
)
    requires
        0 <= a,
        a + f.len() <= s.len(),
        f == s.subrange(a, a + f.len()),
        0 <= i,
        !(run_frame(f, i, st, hits) is Unterminated),
    ensures
        run_frame(s, a + i, st, hits) == shift_outcome(run_frame(f, i, st, hits), a),
    decreases f.len() - i,
{
    if i < f.len() {
        assert(s[a + i] == f[i]);
        match next_state(st, word_of(f[i])) {
            None => {},
            Some(FrameState::TrailerSeen) => {},
            Some(next) => {
                lemma_run_frame_window(s, a, f, i + 1, next, hits_after(hits, st, f[i]));
                assert(a + i + 1 == a + (i + 1));
            },
        }
    }
}

/// What the grammar expects in a state, as told in an error message.
pub open spec fn expected_text(st: FrameState) -> Seq<char> {
    match st {
        FrameState::AwaitRegion0 => "Expected REGION_HEADER_0/IDLE/UNIT_FRAME_TRAILER"@,
        FrameState::Data0Pending(_) => "Expected DATA_1"@,
        FrameState::Data1Pending(_) => "Expected DATA_2"@,
        FrameState::TrailerSeen => "Expected nothing after UNIT_FRAME_TRAILER"@,
        FrameState::RegionSeen(r) => between_hits_text(r),
        FrameState::Data2Done(r) => between_hits_text(r),
        FrameState::Idle(r) => between_hits_text(r),
    }
}

/// What may come between hits of `region`, as told in an error message.
pub open spec fn between_hits_text(region: u8) -> Seq<char> {
    if region == 0 {
        "Expected REGION_HEADER_1/DATA_0/IDLE/UNIT_FRAME_TRAILER"@
    } else if region == 1 {
        "Expected REGION_HEADER_2/DATA_0/IDLE/UNIT_FRAME_TRAILER"@
    } else if region == 2 {
        "Expected REGION_HEADER_3/DATA_0/IDLE/UNIT_FRAME_TRAILER"@
    } else {
        "Expected DATA_0/IDLE/UNIT_FRAME_TRAILER"@
    }
}

/// The message of a frame that ends without its trailer.
pub open spec fn no_trailer_text() -> Seq<char> {
    "Reached the end of the buffer before a UNIT_FRAME_TRAILER"@
}

/// What decoding the hits of the frame whose header is at `header` gives;
/// error indices count from the header.
pub open spec fn frame_result(bytes: Seq<u8>, header: int) -> Result<(Seq<MossHit>, int), ParseErrorView> {
    match run_frame(bytes, header + 1, FrameState::AwaitRegion0, Seq::empty()) {
        FrameOutcome::Complete { hits, trailer } => Ok((hits, trailer)),
        FrameOutcome::Invalid { index, state } => Err(
            ParseErrorView {
                kind: ParseErrorKind::ProtocolError,
                message: expected_text(state),
                index: index - header,
            },
        ),
        FrameOutcome::Unterminated => Err(
            ParseErrorView {
                kind: ParseErrorKind::EndOfBufferNoTrailer,
                message: no_trailer_text(),
                index: bytes.len() - header,
            },
        ),
    }
}

fn between_hits_step(region: u8, word: Option<MossWord>) -> (r: Option<FrameState>)
    ensures
        r == between_hits(region, word),
{
    match word {
        Some(MossWord::Data0) => Some(FrameState::Data0Pending(region)),
        Some(MossWord::Idle) => Some(FrameState::Idle(region)),
        Some(MossWord::RegionHeader(n)) => {
            if region < 255 && n == region + 1 {
                Some(FrameState::RegionSeen(n))
            } else {
                None
            }
        },
        Some(MossWord::UnitFrameTrailer) => Some(FrameState::TrailerSeen),
        _ => None,
    }
}

impl FrameState {
    /// The state after `word`, or `None` where the grammar does not allow it.
    /// `None` for the word stands for a byte that matches no pattern.
    pub fn transition(self, word: Option<MossWord>) -> (r: Option<FrameState>)
        ensures
            r == next_state(self, word),
    {
        match self {
            FrameState::AwaitRegion0 => match word {
                Some(MossWord::Idle) => Some(FrameState::AwaitRegion0),
                Some(MossWord::RegionHeader(n)) => {
                    if n == 0 {
                        Some(FrameState::RegionSeen(0))
                    } else {
                        None
                    }
                },
                Some(MossWord::UnitFrameTrailer) => Some(FrameState::TrailerSeen),
                _ => None,
            },
            FrameState::RegionSeen(r) => between_hits_step(r, word),
            FrameState::Data2Done(r) => between_hits_step(r, word),
            FrameState::Idle(r) => between_hits_step(r, word),
            FrameState::Data0Pending(r) => match word {
                Some(MossWord::Data1) => Some(FrameState::Data1Pending(r)),
                _ => None,
            },
            FrameState::Data1Pending(r) => match word {
                Some(MossWord::Data2) => Some(FrameState::Data2Done(r)),
                _ => None,
            },
            FrameState::TrailerSeen => None,
        }
    }

    /// What the grammar expects in this state.
    pub fn expected_description(self) -> (r: &'static str)
        ensures
            r@ == expected_text(self),
    {
        match self {
            FrameState::AwaitRegion0 => "Expected REGION_HEADER_0/IDLE/UNIT_FRAME_TRAILER",
            FrameState::Data0Pending(_) => "Expected DATA_1",
            FrameState::Data1Pending(_) => "Expected DATA_2",
            FrameState::TrailerSeen => "Expected nothing after UNIT_FRAME_TRAILER",
            FrameState::RegionSeen(r) => between_hits_description(r),
            FrameState::Data2Done(r) => between_hits_description(r),
            FrameState::Idle(r) => between_hits_description(r),
        }
    }
}

fn between_hits_description(region: u8) -> (r: &'static str)
    ensures
        r@ == between_hits_text(region),
{
    if region == 0 {
        "Expected REGION_HEADER_1/DATA_0/IDLE/UNIT_FRAME_TRAILER"
    } else if region == 1 {
        "Expected REGION_HEADER_2/DATA_0/IDLE/UNIT_FRAME_TRAILER"
    } else if region == 2 {
        "Expected REGION_HEADER_3/DATA_0/IDLE/UNIT_FRAME_TRAILER"
    } else {
        "Expected DATA_0/IDLE/UNIT_FRAME_TRAILER"
    }
}

/// Decodes the hits of the frame whose header is at `header_idx`, consuming
/// bytes up to and including its trailer. Returns the hits and the index of
/// the trailer; an error gives the index of the offending byte counted from
/// the header.
pub fn extract_hits(bytes: &[u8], header_idx: usize) -> (r: Result<(Vec<MossHit>, usize), ParseError>)
    requires
        header_idx < bytes@.len(),
    ensures
        match r {
            Ok((hits, trailer)) => frame_result(bytes@, header_idx as int) == Ok::<(Seq<MossHit>, int), ParseErrorView>((hits@, trailer as int)),
            Err(e) => frame_result(bytes@, header_idx as int) == Err::<(Seq<MossHit>, int), ParseErrorView>(e@),
        },
        r matches Ok((hits, _)) ==> hits_in_range(hits@),
{
    let ghost s = bytes@;
    let n = bytes.len();
    let mut hits: Vec<MossHit> = Vec::new();
    let mut state = FrameState::AwaitRegion0;
    let mut i: usize = header_idx + 1;
    while i < n
        invariant
            header_idx < i <= n == s.len(),
            s == bytes@,
            state != FrameState::TrailerSeen,
            (state is Data0Pending || state is Data1Pending) ==> hits@.len() > 0,
            region_in_range(state),
            hits_in_range(hits@),
            run_frame(s, header_idx as int + 1, FrameState::AwaitRegion0, Seq::<MossHit>::empty()) == run_frame(s, i as int, state, hits@),
        decreases s.len() - i,
    {
        let b = bytes[i];
        let word = match MossWord::from_byte(b) {
            Ok(w) => Some(w),
            Err(_) => None,
        };
        proof {
            assert(word == word_of(b));
            lemma_step_in_range(hits@, state, b);
        }
        match state.transition(word) {
            None => {
                return Err(
                    ParseError::new(
                        ParseErrorKind::ProtocolError,
                        state.expected_description(),
                        i - header_idx,
                    ),
                );
            },
            Some(FrameState::TrailerSeen) => {
                return Ok((hits, i));
            },
            Some(next) => {
                match next {
                    FrameState::Data0Pending(region) => add_data0(&mut hits, b, region),
                    FrameState::Data1Pending(_) => add_data1(&mut hits, b),
                    FrameState::Data2Done(_) => add_data2(&mut hits, b),
                    _ => {},
                }
                state = next;
                i = i + 1;
            },
        }
    }
    Err(
        ParseError::new(
            ParseErrorKind::EndOfBufferNoTrailer,
            "Reached the end of the buffer before a UNIT_FRAME_TRAILER",
            n - header_idx,
        ),
    )
}

} // verus!
