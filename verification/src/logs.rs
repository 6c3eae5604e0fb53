//! The rows of the log files. Every row opens with the time in nanoseconds
//! since the Unix epoch and ends with a line feed.

use vstd::prelude::*;
use vstd::string::StringSliceAdditionalSpecFns;
use crate::clock::Timestamp;
use crate::json::{boolean, decimal, push_boolean, push_bytes, push_decimal};

verus! {

/// A row that records a piece of text, such as a command or a message sent:
/// the time, a comma, the text as it is, a line feed.
pub open spec fn text_row(now: Timestamp, text: Seq<u8>) -> Seq<u8> {
    decimal(now.nanos as nat) + seq![0x2cu8] + text + seq![0x0au8]
}

/// A row that records one raw reading of a sensor: the time, a comma, the
/// reading in decimal, a line feed.
pub open spec fn reading_row(now: Timestamp, raw: u16) -> Seq<u8> {
    decimal(now.nanos as nat) + seq![0x2cu8] + decimal(raw as nat) + seq![0x0au8]
}

/// The levels of a row of driver levels: a comma and `true` or `false` for
/// each.
pub open spec fn level_cells(levels: Seq<bool>) -> Seq<u8>
    decreases levels.len(),
{
    if levels.len() == 0 {
        Seq::empty()
    } else {
        level_cells(levels.drop_last()) + seq![0x2cu8] + boolean(levels.last())
    }
}

/// A row that records the level of every driver: the time, then a comma and
/// the level for each driver in order, then a line feed.
pub open spec fn levels_row(now: Timestamp, levels: Seq<bool>) -> Seq<u8> {
    decimal(now.nanos as nat) + level_cells(levels) + seq![0x0au8]
}

/// Builds the row that records `text` at `now`.
pub fn make_text_row(now: Timestamp, text: &[u8]) -> (row: Vec<u8>)
    ensures
        row@ == text_row(now, text@),
{
    let mut row: Vec<u8> = Vec::new();
    push_decimal(&mut row, now.nanos);
    assert(row@ =~= decimal(now.nanos as nat));
    row.push(0x2c);
    push_bytes(&mut row, text);
    row.push(0x0a);
    assert(row@ =~= text_row(now, text@));
    row
}

/// Builds the row that records the reading `raw` taken at `now`.
pub fn make_reading_row(now: Timestamp, raw: u16) -> (row: Vec<u8>)
    ensures
        row@ == reading_row(now, raw),
{
    let mut row: Vec<u8> = Vec::new();
    push_decimal(&mut row, now.nanos);
    assert(row@ =~= decimal(now.nanos as nat));
    row.push(0x2c);
    push_decimal(&mut row, raw as u128);
    row.push(0x0a);
    assert(row@ =~= reading_row(now, raw));
    row
}

/// Builds the row that records the driver levels `levels` seen at `now`.
pub fn make_levels_row(now: Timestamp, levels: &[bool]) -> (row: Vec<u8>)
    ensures
        row@ == levels_row(now, levels@),
{
    let mut row: Vec<u8> = Vec::new();
    push_decimal(&mut row, now.nanos);
    assert(row@ =~= decimal(now.nanos as nat));
    let mut i: usize = 0;
    while i < levels.len()
        invariant
            i <= levels.len(),
            row@ == decimal(now.nanos as nat) + level_cells(levels@.take(i as int)),
        decreases levels.len() - i,
    {
        row.push(0x2c);
        push_boolean(&mut row, levels[i]);
        proof {
            let next = levels@.take(i as int + 1);
            assert(next.drop_last() =~= levels@.take(i as int));
            assert(row@ =~= decimal(now.nanos as nat) + level_cells(next));
        }
        i += 1;
    }
    row.push(0x0a);
    proof {
        assert(levels@.take(i as int) =~= levels@);
    }
    row
}

} // verus!
