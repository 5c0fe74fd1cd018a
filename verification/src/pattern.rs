//! Pattern data: packed cells, rows, channels and patterns.

use vstd::prelude::*;
use vstd::slice::slice_subrange;

use crate::effect::{effect_of, get_effect, EffectType};
use crate::error::DecodeError;
use crate::song::{pattern_count, pattern_count_of};
use crate::stream::ByteStream;

verus! {

/// Size of one packed cell in bytes.
pub const CELL_LEN: usize = 4;

/// Number of channels in a pattern.
pub const CHANNEL_COUNT: usize = 4;

/// Number of rows in a channel.
pub const ROW_COUNT: usize = 64;

/// Size of one pattern in bytes: 64 rows of 4 cells of 4 bytes.
pub const PATTERN_LEN: usize = 1024;

/// The fields of a packed cell before the effect is classified.
#[derive(Clone, Copy, Debug, PartialEq, Eq, Structural)]
pub struct Cell {
    pub instrument_number: u8,
    /// A 12-bit period; 0 means no note.
    pub pitch: u16,
    pub effect_number: u8,
    pub effect_x_value: u8,
    pub effect_y_value: u8,
}

/// One channel's event at one row.
#[derive(Clone, Copy, Debug, PartialEq, Eq, Structural)]
pub struct Row {
    pub instrument_number: u8,
    /// A 12-bit period; 0 means no note.
    pub pitch: u16,
    pub effect: EffectType,
    pub effect_x_value: u8,
    pub effect_y_value: u8,
}

impl Row {
    /// The pitch has 12 bits and each effect argument has 4.
    pub open spec fn well_formed(self) -> bool {
        self.pitch < 4096 && self.effect_x_value < 16 && self.effect_y_value < 16
    }
}

/// One of the four tracks of a pattern.
#[derive(Debug, PartialEq, Eq)]
pub struct Channel {
    pub rows: Vec<Row>,
}

/// A block of 64 rows on 4 channels.
#[derive(Debug, PartialEq, Eq)]
pub struct Pattern {
    pub channels: Vec<Channel>,
}

impl View for Channel {
    type V = Seq<Row>;

    open spec fn view(&self) -> Seq<Row> {
        self.rows@
    }
}

impl View for Pattern {
    type V = Seq<Seq<Row>>;

    /// The rows of the pattern, by channel and then by row.
    open spec fn view(&self) -> Seq<Seq<Row>> {
        self.channels@.map_values(|channel: Channel| channel@)
    }
}

/// The contents of a sequence of patterns.
pub open spec fn pattern_views(patterns: Seq<Pattern>) -> Seq<Seq<Seq<Row>>> {
    patterns.map_values(|pattern: Pattern| pattern@)
}

/// The fields packed into the four bytes of a cell. The low nibble of byte 0 is the high
/// half of the instrument number and also the top four bits of the pitch.
pub open spec fn cell_of(bytes: Seq<u8>) -> Cell {
    Cell {
        instrument_number: ((bytes[0] % 16) * 16 + bytes[2] / 16) as u8,
        pitch: ((bytes[0] % 16) * 256 + bytes[1]) as u16,
        effect_number: bytes[2] % 16,
        effect_x_value: bytes[3] / 16,
        effect_y_value: bytes[3] % 16,
    }
}

/// The row that a cell stands for: its fields with the effect classified.
pub open spec fn row_of_cell(cell: Cell) -> Row {
    Row {
        instrument_number: cell.instrument_number,
        pitch: cell.pitch,
        effect: effect_of(cell.effect_number, cell.effect_x_value, cell.effect_y_value),
        effect_x_value: cell.effect_x_value,
        effect_y_value: cell.effect_y_value,
    }
}

/// The row packed into the four bytes of a cell.
pub open spec fn row_of(bytes: Seq<u8>) -> Row {
    row_of_cell(cell_of(bytes))
}

/// Where the cell of a channel and row starts within its pattern: cells are stored row by
/// row, and within a row channel by channel.
pub open spec fn cell_offset(channel: int, row: int) -> int {
    (row * CHANNEL_COUNT + channel) * CELL_LEN
}

/// The row that `channel` plays at `row` in the pattern stored in `block`.
pub open spec fn pattern_row(block: Seq<u8>, channel: int, row: int) -> Row {
    row_of(block.subrange(cell_offset(channel, row), cell_offset(channel, row) + CELL_LEN))
}

/// The pattern stored in the 1024 bytes of `block`.
pub open spec fn pattern_of(block: Seq<u8>) -> Seq<Seq<Row>> {
    Seq::new(
        CHANNEL_COUNT as nat,
        |channel: int| Seq::new(ROW_COUNT as nat, |row: int| pattern_row(block, channel, row)),
    )
}

/// The `count` patterns stored one after the other at the start of `input`.
pub open spec fn patterns_of(input: Seq<u8>, count: int) -> Seq<Seq<Seq<Row>>> {
    Seq::new(
        count as nat,
        |pattern: int|
            pattern_of(
                input.subrange(PATTERN_LEN * pattern, PATTERN_LEN * pattern + PATTERN_LEN),
            ),
    )
}

/// Extracts the fields of a packed cell.
pub fn unpack_cell(bytes: [u8; 4]) -> (cell: Cell)
    ensures
        cell == cell_of(bytes@),
{
    let b0 = bytes[0];
    let b1 = bytes[1];
    let b2 = bytes[2];
    let b3 = bytes[3];
    let instrument_number = ((b0 & 0b1111) << 4) | (b2 >> 4);
    let pitch = ((b0 & 0b1111) as u16) << 8 | b1 as u16;
    let effect_number = b2 & 0b1111;
    let effect_x_value = b3 >> 4;
    let effect_y_value = b3 & 0b1111;
    assert(instrument_number == (b0 % 16) * 16 + b2 / 16) by (bit_vector)
        requires
            instrument_number == ((b0 & 0b1111) << 4) | (b2 >> 4),
    ;
    assert(pitch == (b0 % 16) * 256 + b1) by (bit_vector)
        requires
            pitch == ((b0 & 0b1111) as u16) << 8 | b1 as u16,
    ;
    assert(effect_number == b2 % 16) by (bit_vector)
        requires
            effect_number == b2 & 0b1111,
    ;
    assert(effect_x_value == b3 / 16) by (bit_vector)
        requires
            effect_x_value == b3 >> 4,
    ;
    assert(effect_y_value == b3 % 16) by (bit_vector)
        requires
            effect_y_value == b3 & 0b1111,
    ;
    Cell { instrument_number, pitch, effect_number, effect_x_value, effect_y_value }
}

/// Turns the fields of a cell into a row by classifying its effect.
pub fn classify_cell(cell: Cell) -> (row: Row)
    ensures
        row == row_of_cell(cell),
{
    Row {
        instrument_number: cell.instrument_number,
        pitch: cell.pitch,
        effect: get_effect(cell.effect_number, cell.effect_x_value, cell.effect_y_value),
        effect_x_value: cell.effect_x_value,
        effect_y_value: cell.effect_y_value,
    }
}

/// Decodes the four bytes of a cell into a row.
pub fn decode_row(bytes: [u8; 4]) -> (row: Row)
    ensures
        row == row_of(bytes@),
{
    classify_cell(unpack_cell(bytes))
}

/// Decodes the 256 cells of one pattern in the order in which they are stored.
fn parse_pattern(block: &[u8]) -> (pattern: Pattern)
    requires
        block@.len() == PATTERN_LEN,
    ensures
        pattern@ == pattern_of(block@),
{
    let mut channels: Vec<Channel> = Vec::new();
    let mut channel: usize = 0;
    while channel < CHANNEL_COUNT
        invariant
            channel <= CHANNEL_COUNT,
            channels@.len() == channel,
            forall|c: int| 0 <= c < channel ==> (#[trigger] channels@[c]).rows@.len() == 0,
        decreases CHANNEL_COUNT - channel,
    {
        channels.push(Channel { rows: Vec::new() });
        channel = channel + 1;
    }
    let mut pattern = Pattern { channels };
    let mut row: usize = 0;
    while row < ROW_COUNT
        invariant
            row <= ROW_COUNT,
            block@.len() == PATTERN_LEN,
            pattern.channels@.len() == CHANNEL_COUNT,
            forall|c: int|
                0 <= c < CHANNEL_COUNT ==> (#[trigger] pattern.channels@[c]).rows@.len() == row,
            forall|c: int, r: int|
                0 <= c < CHANNEL_COUNT && 0 <= r < row ==> (
                #[trigger] pattern.channels@[c].rows@[r]) == pattern_row(block@, c, r),
        decreases ROW_COUNT - row,
    {
        channel = 0;
        while channel < CHANNEL_COUNT
            invariant
                channel <= CHANNEL_COUNT,
                row < ROW_COUNT,
                block@.len() == PATTERN_LEN,
                pattern.channels@.len() == CHANNEL_COUNT,
                forall|c: int|
                    0 <= c < channel ==> (#[trigger] pattern.channels@[c]).rows@.len() == row + 1,
                forall|c: int|
                    channel <= c < CHANNEL_COUNT ==> (#[trigger] pattern.channels@[c]).rows@.len()
                        == row,
                forall|c: int, r: int|
                    0 <= c < CHANNEL_COUNT && 0 <= r < pattern.channels@[c].rows@.len() ==> (
                    #[trigger] pattern.channels@[c].rows@[r]) == pattern_row(block@, c, r),
            decreases CHANNEL_COUNT - channel,
        {
            let start = (row * CHANNEL_COUNT + channel) * CELL_LEN;
            let cell = [block[start], block[start + 1], block[start + 2], block[start + 3]];
            assert(cell@ == block@.subrange(start as int, start + CELL_LEN));
            pattern.channels[channel].rows.push(decode_row(cell));
            channel = channel + 1;
        }
        row = row + 1;
    }
    assert(pattern@ == pattern_of(block@)) by {
        assert forall|c: int| 0 <= c < CHANNEL_COUNT implies #[trigger] pattern@[c] == pattern_of(
            block@,
        )[c] by {
            assert(pattern@[c] == pattern.channels@[c].rows@);
            assert(pattern.channels@[c].rows@ =~= pattern_of(block@)[c]);
        }
    }
    pattern
}

/// Reads one pattern: 64 rows of 4 cells.
pub fn read_pattern(stream: &mut ByteStream) -> (result: Result<Pattern, DecodeError>)
    ensures
        match result {
            Ok(pattern) => {
                &&& PATTERN_LEN <= old(stream).remaining().len()
                &&& pattern@ == pattern_of(old(stream).remaining().take(PATTERN_LEN as int))
                &&& final(stream).remaining() == old(stream).remaining().skip(PATTERN_LEN as int)
            },
            Err(error) => {
                &&& error == DecodeError::TruncatedInput
                &&& PATTERN_LEN > old(stream).remaining().len()
                &&& *final(stream) == *old(stream)
            },
        },
{
    let block = stream.read_bytes(PATTERN_LEN)?;
    Ok(parse_pattern(block))
}

/// Reads the patterns of a module: as many as its order list calls for. When the stream
/// ends before the last of them is complete, nothing is read.
pub fn read_patterns(stream: &mut ByteStream, order_list: &[u8]) -> (result: Result<
    Vec<Pattern>,
    DecodeError,
>)
    requires
        order_list@.len() > 0,
    ensures
        match result {
            Ok(patterns) => {
                &&& PATTERN_LEN * pattern_count_of(order_list@) <= old(stream).remaining().len()
                &&& pattern_views(patterns@) == patterns_of(
                    old(stream).remaining(),
                    pattern_count_of(order_list@),
                )
                &&& final(stream).remaining() == old(stream).remaining().skip(
                    PATTERN_LEN * pattern_count_of(order_list@),
                )
            },
            Err(error) => {
                &&& error == DecodeError::TruncatedInput
                &&& PATTERN_LEN * pattern_count_of(order_list@) > old(stream).remaining().len()
                &&& *final(stream) == *old(stream)
            },
        },
{
    let count = pattern_count(order_list);
    let blocks = stream.read_bytes(count * PATTERN_LEN)?;
    let mut patterns: Vec<Pattern> = Vec::new();
    let mut index: usize = 0;
    while index < count
        invariant
            index <= count,
            count == pattern_count_of(order_list@),
            count <= 256,
            blocks@ == old(stream).remaining().take(count * PATTERN_LEN),
            count * PATTERN_LEN <= old(stream).remaining().len(),
            patterns@.len() == index,
            forall|p: int|
                0 <= p < index ==> (#[trigger] patterns@[p])@ == patterns_of(
                    old(stream).remaining(),
                    count as int,
                )[p],
        decreases count - index,
    {
        let start = index * PATTERN_LEN;
        let block = slice_subrange(blocks, start, start + PATTERN_LEN);
        assert(block@ == old(stream).remaining().subrange(
            PATTERN_LEN * index,
            PATTERN_LEN * index + PATTERN_LEN,
        ));
        patterns.push(parse_pattern(block));
        index = index + 1;
    }
    assert(pattern_views(patterns@) == patterns_of(old(stream).remaining(), count as int));
    Ok(patterns)
}

} // verus!
