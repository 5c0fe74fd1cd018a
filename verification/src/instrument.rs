//! Instrument descriptors and their sample payloads.

use vstd::prelude::*;
use vstd::slice::{slice_subrange, slice_to_vec};

use crate::error::DecodeError;
use crate::stream::ByteStream;
use crate::text::{decode_field, field_text};

verus! {

/// Number of instrument slots in a module.
pub const INSTRUMENT_COUNT: usize = 31;

/// Width of an instrument's name field in bytes.
pub const INSTRUMENT_NAME_LEN: usize = 22;

/// Size of one instrument descriptor in bytes.
pub const INSTRUMENT_RECORD_LEN: usize = 30;

/// Size of the whole instrument table in bytes.
pub const INSTRUMENT_TABLE_LEN: usize = 930;

/// One sample slot: its descriptor and its raw audio bytes.
#[derive(Debug, PartialEq, Eq)]
pub struct Instrument {
    pub name: String,
    /// Sample length in 16-bit words.
    pub length: u16,
    pub fine_tune: i8,
    pub volume: u8,
    /// Loop start in words.
    pub repeat_offset: u16,
    /// Loop length in words.
    pub repeat_length: u16,
    pub audio_data: Vec<u8>,
}

/// The mathematical content of an [`Instrument`].
pub struct InstrumentView {
    pub name: Seq<char>,
    pub length: u16,
    pub fine_tune: i8,
    pub volume: u8,
    pub repeat_offset: u16,
    pub repeat_length: u16,
    pub audio_data: Seq<u8>,
}

impl View for Instrument {
    type V = InstrumentView;

    open spec fn view(&self) -> InstrumentView {
        InstrumentView {
            name: self.name@,
            length: self.length,
            fine_tune: self.fine_tune,
            volume: self.volume,
            repeat_offset: self.repeat_offset,
            repeat_length: self.repeat_length,
            audio_data: self.audio_data@,
        }
    }
}

impl InstrumentView {
    /// The fine-tune is a signed nibble and the payload has two bytes per word of length.
    pub open spec fn well_formed(self) -> bool {
        &&& -8 <= self.fine_tune <= 7
        &&& self.audio_data.len() == 2 * self.length
    }
}

/// The contents of a sequence of instruments.
pub open spec fn instrument_views(instruments: Seq<Instrument>) -> Seq<InstrumentView> {
    instruments.map_values(|instrument: Instrument| instrument@)
}

/// The signed value of a 4-bit two's-complement nibble.
pub open spec fn nibble_value(nibble: int) -> int {
    if nibble >= 8 {
        nibble - 16
    } else {
        nibble
    }
}

/// The 16-bit number whose most significant byte is `high`.
pub open spec fn big_endian_u16(high: u8, low: u8) -> u16 {
    (high * 256 + low) as u16
}

/// The descriptor that a 30-byte record holds: a 22-byte name, the length, one byte whose
/// low nibble is the fine-tune, the volume, the loop offset and the loop length. The three
/// 16-bit fields are big-endian. The payload is not part of the record.
pub open spec fn instrument_header(record: Seq<u8>) -> InstrumentView {
    InstrumentView {
        name: field_text(record.take(INSTRUMENT_NAME_LEN as int)),
        length: big_endian_u16(record[22], record[23]),
        fine_tune: nibble_value(record[24] as int % 16) as i8,
        volume: record[25],
        repeat_offset: big_endian_u16(record[26], record[27]),
        repeat_length: big_endian_u16(record[28], record[29]),
        audio_data: Seq::empty(),
    }
}

/// The descriptors held by the 31 consecutive records at the start of `input`.
pub open spec fn instrument_table(input: Seq<u8>) -> Seq<InstrumentView> {
    Seq::new(
        INSTRUMENT_COUNT as nat,
        |i: int|
            instrument_header(
                input.subrange(
                    INSTRUMENT_RECORD_LEN * i,
                    INSTRUMENT_RECORD_LEN * i + INSTRUMENT_RECORD_LEN,
                ),
            ),
    )
}

/// The lengths, in words, of a sequence of instruments.
pub open spec fn sample_lengths(instruments: Seq<InstrumentView>) -> Seq<u16> {
    instruments.map_values(|instrument: InstrumentView| instrument.length)
}

/// The number of payload bytes that belong to the first `count` of the given lengths:
/// two bytes for every word.
pub open spec fn payload_offset(lengths: Seq<u16>, count: int) -> int
    decreases count,
{
    if count <= 0 {
        0
    } else {
        payload_offset(lengths, count - 1) + 2 * lengths[count - 1]
    }
}

/// The number of payload bytes that the given instruments have together.
pub open spec fn payload_total(instruments: Seq<InstrumentView>) -> int {
    payload_offset(sample_lengths(instruments), instruments.len() as int)
}

/// The instruments with their payloads taken from `input`, one after the other in
/// table order.
pub open spec fn with_payloads(instruments: Seq<InstrumentView>, input: Seq<u8>) -> Seq<
    InstrumentView,
> {
    Seq::new(
        instruments.len(),
        |i: int|
            InstrumentView {
                audio_data: input.subrange(
                    payload_offset(sample_lengths(instruments), i),
                    payload_offset(sample_lengths(instruments), i + 1),
                ),
                ..instruments[i]
            },
    )
}

/// Interprets the low four bits of `data` as a signed 4-bit number.
pub fn signed_nibble(data: i8) -> (value: i8)
    ensures
        value == nibble_value(data as int % 16),
        -8 <= value <= 7,
{
    let nibble = data & 15;
    assert(0 <= nibble <= 15 && nibble == data % 16) by (bit_vector)
        requires
            nibble == data & 15,
    ;
    assert(nibble & 8 == 8 <==> nibble >= 8) by (bit_vector)
        requires
            0 <= nibble <= 15,
    ;
    if nibble & 8 == 8 {
        nibble - 16
    } else {
        nibble
    }
}

/// Joins the two bytes of a big-endian 16-bit field.
fn u16_from_be(high: u8, low: u8) -> (value: u16)
    ensures
        value == big_endian_u16(high, low),
{
    (high as u16) * 256 + (low as u16)
}

/// Decodes the descriptor held by one 30-byte record.
fn parse_instrument(record: &[u8]) -> (instrument: Instrument)
    requires
        record@.len() == INSTRUMENT_RECORD_LEN,
    ensures
        instrument@ == instrument_header(record@),
{
    let name = decode_field(slice_subrange(record, 0, INSTRUMENT_NAME_LEN));
    let fine_tune_byte = record[24];
    let raw_fine_tune = fine_tune_byte & 0x0F;
    assert(raw_fine_tune == fine_tune_byte % 16) by (bit_vector)
        requires
            raw_fine_tune == fine_tune_byte & 0x0F,
    ;
    Instrument {
        name,
        length: u16_from_be(record[22], record[23]),
        fine_tune: signed_nibble(raw_fine_tune as i8),
        volume: record[25],
        repeat_offset: u16_from_be(record[26], record[27]),
        repeat_length: u16_from_be(record[28], record[29]),
        audio_data: Vec::new(),
    }
}

/// Reads one instrument descriptor.
pub fn read_instrument(stream: &mut ByteStream) -> (result: Result<Instrument, DecodeError>)
    ensures
        match result {
            Ok(instrument) => {
                &&& INSTRUMENT_RECORD_LEN <= old(stream).remaining().len()
                &&& instrument@ == instrument_header(
                    old(stream).remaining().take(INSTRUMENT_RECORD_LEN as int),
                )
                &&& final(stream).remaining() == old(stream).remaining().skip(
                    INSTRUMENT_RECORD_LEN as int,
                )
            },
            Err(error) => {
                &&& error == DecodeError::TruncatedInput
                &&& INSTRUMENT_RECORD_LEN > old(stream).remaining().len()
                &&& *final(stream) == *old(stream)
            },
        },
{
    let record = stream.read_bytes(INSTRUMENT_RECORD_LEN)?;
    Ok(parse_instrument(record))
}

/// Reads the table of 31 instrument descriptors. The payloads stay empty until
/// [`read_sample_payloads`] fills them in.
pub fn read_instrument_table(stream: &mut ByteStream) -> (result: Result<
    Vec<Instrument>,
    DecodeError,
>)
    ensures
        match result {
            Ok(instruments) => {
                &&& INSTRUMENT_TABLE_LEN <= old(stream).remaining().len()
                &&& instrument_views(instruments@) == instrument_table(old(stream).remaining())
                &&& final(stream).remaining() == old(stream).remaining().skip(
                    INSTRUMENT_TABLE_LEN as int,
                )
            },
            Err(error) => {
                &&& error == DecodeError::TruncatedInput
                &&& INSTRUMENT_TABLE_LEN > old(stream).remaining().len()
                &&& *final(stream) == *old(stream)
            },
        },
{
    let table = stream.read_bytes(INSTRUMENT_TABLE_LEN)?;
    let mut instruments: Vec<Instrument> = Vec::with_capacity(INSTRUMENT_COUNT);
    let mut slot: usize = 0;
    while slot < INSTRUMENT_COUNT
        invariant
            slot <= INSTRUMENT_COUNT,
            table@ == old(stream).remaining().take(INSTRUMENT_TABLE_LEN as int),
            INSTRUMENT_TABLE_LEN <= old(stream).remaining().len(),
            instruments@.len() == slot,
            forall|i: int|
                0 <= i < slot ==> (#[trigger] instruments@[i])@ == instrument_table(
                    old(stream).remaining(),
                )[i],
        decreases INSTRUMENT_COUNT - slot,
    {
        let start = slot * INSTRUMENT_RECORD_LEN;
        let record = slice_subrange(table, start, start + INSTRUMENT_RECORD_LEN);
        assert(record@ == old(stream).remaining().subrange(
            INSTRUMENT_RECORD_LEN * slot,
            INSTRUMENT_RECORD_LEN * slot + INSTRUMENT_RECORD_LEN,
        ));
        instruments.push(parse_instrument(record));
        slot = slot + 1;
    }
    assert(instrument_views(instruments@) == instrument_table(old(stream).remaining()));
    Ok(instruments)
}

/// Every nibble has a value from -8 to 7: the nibbles 0 to 7 stand for themselves and
/// the nibbles 8 to 15 for -8 to -1.
pub proof fn lemma_nibble_value(nibble: int)
    requires
        0 <= nibble <= 15,
    ensures
        -8 <= nibble_value(nibble) <= 7,
        nibble <= 7 ==> nibble_value(nibble) == nibble,
        nibble >= 8 ==> nibble_value(nibble) == nibble - 16,
{
}

/// The payload offsets never decrease from one instrument to the next.
pub proof fn lemma_payload_offset_monotonic(lengths: Seq<u16>, i: int, j: int)
    requires
        i <= j,
    ensures
        payload_offset(lengths, i) <= payload_offset(lengths, j),
        0 <= payload_offset(lengths, i),
    decreases j - i,
{
    if i < j {
        lemma_payload_offset_monotonic(lengths, i, j - 1);
    } else {
        lemma_payload_offset_nonnegative(lengths, i);
    }
}

/// No payload starts before the payload data does.
proof fn lemma_payload_offset_nonnegative(lengths: Seq<u16>, count: int)
    ensures
        0 <= payload_offset(lengths, count),
    decreases count,
{
    if count > 0 {
        lemma_payload_offset_nonnegative(lengths, count - 1);
    }
}

/// Reads the sample payload of every instrument, in table order, and stores it in the
/// instrument. Each payload has twice as many bytes as the instrument's length says.
/// When the stream holds too few bytes for all of them, nothing is read or changed.
pub fn read_sample_payloads(stream: &mut ByteStream, instruments: &mut Vec<Instrument>) -> (result:
    Result<(), DecodeError>)
    ensures
        match result {
            Ok(_) => {
                &&& payload_total(instrument_views(old(instruments)@)) <= old(
                    stream,
                ).remaining().len()
                &&& instrument_views(final(instruments)@) == with_payloads(
                    instrument_views(old(instruments)@),
                    old(stream).remaining(),
                )
                &&& final(stream).remaining() == old(stream).remaining().skip(
                    payload_total(instrument_views(old(instruments)@)),
                )
            },
            Err(error) => {
                &&& error == DecodeError::TruncatedInput
                &&& payload_total(instrument_views(old(instruments)@)) > old(
                    stream,
                ).remaining().len()
                &&& *final(stream) == *old(stream)
                &&& *final(instruments) == *old(instruments)
            },
        },
{
    let ghost headers = instrument_views(instruments@);
    let ghost lengths = sample_lengths(headers);
    let ghost input = stream.remaining();
    let count = instruments.len();
    let available = stream.available();
    let mut total: usize = 0;
    let mut slot: usize = 0;
    while slot < count
        invariant
            slot <= count,
            count == instruments@.len(),
            *instruments == *old(instruments),
            *stream == *old(stream),
            available == stream.remaining().len(),
            headers == instrument_views(instruments@),
            lengths == sample_lengths(headers),
            total == payload_offset(lengths, slot as int),
            total <= available,
        decreases count - slot,
    {
        let size = 2 * (instruments[slot].length as usize);
        assert(size == 2 * lengths[slot as int]);
        if size > available - total {
            proof {
                lemma_payload_offset_monotonic(lengths, slot + 1, count as int);
            }
            return Err(DecodeError::TruncatedInput);
        }
        total = total + size;
        slot = slot + 1;
    }
    let payloads = stream.read_bytes(total)?;
    let mut start: usize = 0;
    slot = 0;
    while slot < count
        invariant
            slot <= count,
            count == instruments@.len(),
            headers.len() == count,
            lengths == sample_lengths(headers),
            sample_lengths(instrument_views(instruments@)) == lengths,
            payloads@ == input.take(total as int),
            total <= input.len(),
            total == payload_offset(lengths, count as int),
            start == payload_offset(lengths, slot as int),
            forall|i: int|
                0 <= i < slot ==> (#[trigger] instruments@[i])@ == with_payloads(headers, input)[i],
            forall|i: int| slot <= i < count ==> (#[trigger] instruments@[i])@ == headers[i],
        decreases count - slot,
    {
        let size = 2 * (instruments[slot].length as usize);
        proof {
            assert(size == 2 * lengths[slot as int]);
            lemma_payload_offset_monotonic(lengths, slot + 1, count as int);
        }
        let payload = slice_subrange(payloads, start, start + size);
        assert(payload@ == input.subrange(start as int, start + size));
        instruments[slot].audio_data = slice_to_vec(payload);
        start = start + size;
        slot = slot + 1;
    }
    assert(instrument_views(instruments@) == with_payloads(headers, input));
    Ok(())
}

} // verus!
