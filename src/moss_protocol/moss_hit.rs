//! A single hit from a MOSS region, and the three steps that assemble it
//! from the `Data0`, `Data1` and `Data2` words of a frame.
use vstd::prelude::*;

use crate::moss_protocol::{lemma_data_word, word_of, MossWord};
use vstd::string::StringExecFns;

use crate::text::{append_decimal, decimal};

verus! {

/// A single hit from a MOSS region.
#[derive(Debug, Default, Clone, Copy, PartialEq, Eq, Structural)]
pub struct MossHit {
    /// The region ID of the hit.
    pub region: u8,
    /// The row of the hit.
    pub row: u16,
    /// The column of the hit.
    pub column: u16,
}

/// The hit that a `Data0` word opens: row bits 8..3, column still zero.
pub open spec fn begin_hit(region: u8, data0: u8) -> MossHit {
    MossHit { region, row: ((data0 & 0x3F) as u16) << 3u16, column: 0 }
}

/// A `Data1` word adds row bits 2..0 and sets column bits 8..6.
pub open spec fn with_data1(hit: MossHit, data1: u8) -> MossHit {
    MossHit {
        row: hit.row | (((data1 & 0x38) >> 3u8) as u16),
        column: ((data1 & 0x07) as u16) << 6u16,
        ..hit
    }
}

/// A `Data2` word adds column bits 5..0.
pub open spec fn with_data2(hit: MossHit, data2: u8) -> MossHit {
    MossHit { column: hit.column | ((data2 & 0x3F) as u16), ..hit }
}

/// A hit whose region has two bits and whose row and column have nine.
pub open spec fn hit_in_range(hit: MossHit) -> bool {
    hit.region <= 3 && hit.row <= 511 && hit.column <= 511
}

/// The three assembly steps keep the row and the column within nine bits.
pub proof fn lemma_steps_in_range(hit: MossHit, region: u8, b: u8)
    ensures
        region <= 3 ==> hit_in_range(begin_hit(region, b)),
        hit_in_range(hit) ==> hit_in_range(with_data1(hit, b)),
        hit_in_range(hit) ==> hit_in_range(with_data2(hit, b)),
{
    let row = hit.row;
    let column = hit.column;
    assert(((b & 0x3F) as u16) << 3u16 <= 511) by (bit_vector);
    assert(row <= 511 ==> row | (((b & 0x38) >> 3u8) as u16) <= 511) by (bit_vector);
    assert(((b & 0x07) as u16) << 6u16 <= 511) by (bit_vector);
    assert(column <= 511 ==> column | ((b & 0x3F) as u16) <= 511) by (bit_vector);
}

/// The `Data0` word of a hit: `00` and row bits 8..3.
pub open spec fn encode_data0(row: u16) -> u8 {
    ((row >> 3u16) & 0x3F) as u8
}

/// The `Data1` word of a hit: `01`, row bits 2..0, column bits 8..6.
pub open spec fn encode_data1(row: u16, column: u16) -> u8 {
    (0x40u16 | ((row & 0x07) << 3u16) | ((column >> 6u16) & 0x07)) as u8
}

/// The `Data2` word of a hit: `10` and column bits 5..0.
pub open spec fn encode_data2(column: u16) -> u8 {
    (0x80u16 | (column & 0x3F)) as u8
}

/// Any row and column of nine bits, written as `Data0`, `Data1`, `Data2`
/// words and read back by the three assembly steps, come back unchanged.
pub proof fn lemma_hit_round_trip(region: u8, row: u16, column: u16)
    requires
        row <= 511,
        column <= 511,
    ensures
        word_of(encode_data0(row)) == Some(MossWord::Data0),
        word_of(encode_data1(row, column)) == Some(MossWord::Data1),
        word_of(encode_data2(column)) == Some(MossWord::Data2),
        with_data2(
            with_data1(begin_hit(region, encode_data0(row)), encode_data1(row, column)),
            encode_data2(column),
        ) == (MossHit { region, row, column }),
{
    let d0 = encode_data0(row);
    let d1 = encode_data1(row, column);
    let d2 = encode_data2(column);
    let hi = (row & 0x07) << 3u16;
    let lo = (column >> 6u16) & 0x07;
    assert(d1 & 0x38 == hi as u8 && d1 & 0x07 == lo as u8) by (bit_vector)
        requires
            d1 == (0x40u16 | hi | lo) as u8,
            hi == (row & 0x07) << 3u16,
            lo == (column >> 6u16) & 0x07,
    ;
    lemma_row_bits(row, d0, d1);
    lemma_column_bits(column, d1, d2);
    assert(d0 & 0xC0 == 0x00) by (bit_vector)
        requires
            d0 == ((row >> 3u16) & 0x3F) as u8,
    ;
    assert(d1 & 0xC0 == 0x40) by (bit_vector)
        requires
            d1 == (0x40u16 | hi | lo) as u8,
            hi == (row & 0x07) << 3u16,
            lo == (column >> 6u16) & 0x07,
    ;
    assert(d2 & 0xC0 == 0x80) by (bit_vector)
        requires
            d2 == (0x80u16 | (column & 0x3F)) as u8,
    ;
    lemma_data_word(d0);
    lemma_data_word(d1);
    lemma_data_word(d2);
}

proof fn lemma_row_bits(row: u16, d0: u8, d1: u8)
    requires
        row <= 511,
        d0 == encode_data0(row),
        d1 & 0x38 == (((row & 0x07) << 3u16) as u8),
    ensures
        (((d0 & 0x3F) as u16) << 3u16) | (((d1 & 0x38) >> 3u8) as u16) == row,
{
    assert((((d0 & 0x3F) as u16) << 3u16) | (((d1 & 0x38) >> 3u8) as u16) == row) by (bit_vector)
        requires
            row <= 511,
            d0 == ((row >> 3u16) & 0x3F) as u8,
            d1 & 0x38 == ((row & 0x07) << 3u16) as u8,
    ;
}

proof fn lemma_column_bits(column: u16, d1: u8, d2: u8)
    requires
        column <= 511,
        d1 & 0x07 == (((column >> 6u16) & 0x07) as u8),
        d2 == encode_data2(column),
    ensures
        ((((d1 & 0x07) as u16) << 6u16) | ((d2 & 0x3F) as u16)) == column,
{
    assert(((((d1 & 0x07) as u16) << 6u16) | ((d2 & 0x3F) as u16)) == column) by (bit_vector)
        requires
            column <= 511,
            d1 & 0x07 == ((column >> 6u16) & 0x07) as u8,
            d2 == (0x80u16 | (column & 0x3F)) as u8,
    ;
}

impl MossHit {
    /// A hit with the given region, row and column.
    pub fn new(region: u8, row: u16, column: u16) -> (r: Self)
        ensures
            r == (MossHit { region, row, column }),
    {
        Self { region, row, column }
    }

    /// The hit as text: `reg: <region> row: <row> col: <column>`.
    pub fn to_text(&self) -> (r: String)
        ensures
            r@ == "reg: "@ + decimal(self.region as nat) + " row: "@ + decimal(self.row as nat) + " col: "@
                + decimal(self.column as nat),
    {
        let mut out = String::new();
        out.append("reg: ");
        append_decimal(&mut out, self.region as u16);
        out.append(" row: ");
        append_decimal(&mut out, self.row);
        out.append(" col: ");
        append_decimal(&mut out, self.column);
        assert(out@ =~= "reg: "@ + decimal(self.region as nat) + " row: "@ + decimal(self.row as nat) + " col: "@
            + decimal(self.column as nat));
        out
    }
}

/// Pushes the hit that a `Data0` word opens in `region`.
pub fn add_data0(moss_hits: &mut Vec<MossHit>, data0: u8, region: u8)
    ensures
        final(moss_hits)@ == old(moss_hits)@.push(begin_hit(region, data0)),
{
    moss_hits.push(
        MossHit {
            region,
            row: ((data0 & 0x3F) as u16) << 3u16,
            column: 0,
        },
    );
}

/// Completes the row and starts the column of the last hit with a `Data1` word.
pub fn add_data1(moss_hits: &mut Vec<MossHit>, data1: u8)
    requires
        old(moss_hits)@.len() > 0,
    ensures
        final(moss_hits)@ == old(moss_hits)@.update(
            old(moss_hits)@.len() - 1,
            with_data1(old(moss_hits)@.last(), data1),
        ),
{
    let last = moss_hits.len() - 1;
    let hit = moss_hits[last];
    let updated = MossHit {
        row: hit.row | (((data1 & 0x38) >> 3u8) as u16),
        column: ((data1 & 0x07) as u16) << 6u16,
        ..hit
    };
    moss_hits.set(last, updated);
}

/// Completes the column of the last hit with a `Data2` word.
pub fn add_data2(moss_hits: &mut Vec<MossHit>, data2: u8)
    requires
        old(moss_hits)@.len() > 0,
    ensures
        final(moss_hits)@ == old(moss_hits)@.update(
            old(moss_hits)@.len() - 1,
            with_data2(old(moss_hits)@.last(), data2),
        ),
{
    let last = moss_hits.len() - 1;
    let hit = moss_hits[last];
    let updated = MossHit { column: hit.column | ((data2 & 0x3F) as u16), ..hit };
    moss_hits.set(last, updated);
}

} // verus!
