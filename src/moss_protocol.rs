//! The words of the MOSS readout protocol and the decoded packet type.
use vstd::prelude::*;

pub mod moss_hit;

pub use moss_hit::MossHit;

verus! {

/// Filler between words and frames.
pub const IDLE: u8 = 0xFF;

/// The byte that closes a unit frame.
pub const UNIT_FRAME_TRAILER: u8 = 0xE0;

/// Filler written between frames by the readout firmware.
pub const DELIMITER: u8 = 0xFA;

/// The kind of a protocol word, with the bits that it carries.
#[derive(Debug, Clone, Copy, PartialEq, Eq, Structural)]
pub enum MossWord {
    /// `1111_1111`
    Idle,
    /// `1101_uuuu`, carrying the unit id.
    UnitFrameHeader(u8),
    /// `1110_0000`
    UnitFrameTrailer,
    /// `1100_00rr`, carrying the region id.
    RegionHeader(u8),
    /// `00_xxxxxx`: row bits 8..3.
    Data0,
    /// `01_xxxxxx`: row bits 2..0 and column bits 8..6.
    Data1,
    /// `10_xxxxxx`: column bits 5..0.
    Data2,
    /// `1111_1010`
    Delimiter,
}

/// Whether `b` opens a unit frame (`1101_xxxx`).
pub open spec fn is_header_byte(b: u8) -> bool {
    b & 0xF0 == 0xD0
}

/// The word that a byte stands for, exact patterns first, then masked ranges;
/// `None` for a byte that no pattern matches.
pub open spec fn word_of(b: u8) -> Option<MossWord> {
    if b == IDLE {
        Some(MossWord::Idle)
    } else if b == UNIT_FRAME_TRAILER {
        Some(MossWord::UnitFrameTrailer)
    } else if b == DELIMITER {
        Some(MossWord::Delimiter)
    } else if b & 0xFC == 0xC0 {
        Some(MossWord::RegionHeader(b & 0x03))
    } else if is_header_byte(b) {
        Some(MossWord::UnitFrameHeader(b & 0x0F))
    } else if b & 0xC0 == 0x00 {
        Some(MossWord::Data0)
    } else if b & 0xC0 == 0x40 {
        Some(MossWord::Data1)
    } else if b & 0xC0 == 0x80 {
        Some(MossWord::Data2)
    } else {
        None
    }
}

/// A byte whose two top bits are `00`, `01` or `10` is a data word.
pub proof fn lemma_data_word(b: u8)
    ensures
        b & 0xC0 == 0x00 ==> word_of(b) == Some(MossWord::Data0),
        b & 0xC0 == 0x40 ==> word_of(b) == Some(MossWord::Data1),
        b & 0xC0 == 0x80 ==> word_of(b) == Some(MossWord::Data2),
{
    assert(b & 0xC0 != 0xC0 ==> b != 0xFF && b != 0xE0 && b != 0xFA && b & 0xFC != 0xC0 && b & 0xF0 != 0xD0)
        by (bit_vector);
}

impl MossWord {
    /// Classifies a byte; `Err` for a byte that matches no pattern of the protocol.
    pub fn from_byte(b: u8) -> (r: Result<MossWord, ()>)
        ensures
            match word_of(b) {
                Some(w) => r == Ok::<MossWord, ()>(w),
                None => r is Err,
            },
    {
        if b == IDLE {
            Ok(MossWord::Idle)
        } else if b == UNIT_FRAME_TRAILER {
            Ok(MossWord::UnitFrameTrailer)
        } else if b == DELIMITER {
            Ok(MossWord::Delimiter)
        } else if b & 0xFC == 0xC0 {
            Ok(MossWord::RegionHeader(b & 0x03))
        } else if b & 0xF0 == 0xD0 {
            Ok(MossWord::UnitFrameHeader(b & 0x0F))
        } else if b & 0xC0 == 0x00 {
            Ok(MossWord::Data0)
        } else if b & 0xC0 == 0x40 {
            Ok(MossWord::Data1)
        } else if b & 0xC0 == 0x80 {
            Ok(MossWord::Data2)
        } else {
            Err(())
        }
    }
}

/// One decoded unit frame: the unit id and its hits in arrival order.
#[derive(Debug, Default, Clone, PartialEq)]
pub struct MossPacket {
    /// The unit id from the frame header (0 to 15).
    pub unit_id: u8,
    /// The hits of the frame, in the order they arrived.
    pub hits: Vec<MossHit>,
}

/// What a packet holds, as plain values.
pub struct PacketModel {
    pub unit_id: u8,
    pub hits: Seq<MossHit>,
}

impl View for MossPacket {
    type V = PacketModel;

    open spec fn view(&self) -> PacketModel {
        PacketModel { unit_id: self.unit_id, hits: self.hits@ }
    }
}

/// The models of a list of packets.
pub open spec fn packet_models(ps: Seq<MossPacket>) -> Seq<PacketModel> {
    ps.map_values(|p: MossPacket| p@)
}

} // verus!
