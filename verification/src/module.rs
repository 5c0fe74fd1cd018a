//! The whole module: its layout in the file and the decoder that reads it.

use vstd::prelude::*;

use crate::error::DecodeError;
use crate::instrument::{
    instrument_table, instrument_views, lemma_payload_offset_monotonic, payload_total,
    read_instrument_table, read_sample_payloads, sample_lengths, with_payloads, Instrument,
    InstrumentView, INSTRUMENT_COUNT,
};
use crate::pattern::{
    pattern_views, patterns_of, read_patterns, Pattern, Row, CHANNEL_COUNT, PATTERN_LEN, ROW_COUNT,
};
use crate::song::{
    lemma_highest_pattern, pattern_count_of, read_signature, read_song_structure, ORDER_LIST_LEN,
    SIGNATURE_LEN,
};
use crate::stream::ByteStream;
use crate::text::{field_text, lossy_text, read_string};

verus! {

/// Width of the title field in bytes.
pub const TITLE_LEN: usize = 20;

/// Where the instrument table starts.
pub const INSTRUMENT_TABLE_OFFSET: usize = 20;

/// Where the song structure starts.
pub const SONG_STRUCTURE_OFFSET: usize = 950;

/// Where the order list starts.
pub const ORDER_LIST_OFFSET: usize = 952;

/// Where the format signature starts.
pub const SIGNATURE_OFFSET: usize = 1080;

/// Where the pattern data starts; everything before it has a fixed size.
pub const PATTERN_DATA_OFFSET: usize = 1084;

/// One decoded module file.
#[derive(Debug, PartialEq, Eq)]
pub struct ProTrackerModule {
    pub title: String,
    pub instruments: Vec<Instrument>,
    /// How many slots of the order list are played.
    pub total_song_positions: u8,
    pub noise_tracker_restart: u8,
    /// One pattern index per song position; all 128 slots, also the unused ones.
    pub order_list: Vec<u8>,
    /// The four-character format tag, kept for reporting only.
    pub signature: String,
    pub patterns: Vec<Pattern>,
}

/// The mathematical content of a [`ProTrackerModule`].
#[verifier::ext_equal]
pub struct ModuleView {
    pub title: Seq<char>,
    pub instruments: Seq<InstrumentView>,
    pub total_song_positions: u8,
    pub noise_tracker_restart: u8,
    pub order_list: Seq<u8>,
    pub signature: Seq<char>,
    /// The rows, by pattern, channel and row.
    pub patterns: Seq<Seq<Seq<Row>>>,
}

impl View for ProTrackerModule {
    type V = ModuleView;

    open spec fn view(&self) -> ModuleView {
        ModuleView {
            title: self.title@,
            instruments: instrument_views(self.instruments@),
            total_song_positions: self.total_song_positions,
            noise_tracker_restart: self.noise_tracker_restart,
            order_list: self.order_list@,
            signature: self.signature@,
            patterns: pattern_views(self.patterns@),
        }
    }
}

impl ProTrackerModule {
    /// The module has 31 instruments and 128 order-list slots, every one of its patterns
    /// has 4 channels, and every channel has 64 rows.
    pub open spec fn has_fixed_shape(&self) -> bool {
        &&& self.instruments@.len() == INSTRUMENT_COUNT
        &&& self.order_list@.len() == ORDER_LIST_LEN
        &&& forall|p: int|
            0 <= p < self.patterns@.len() ==> (#[trigger] self.patterns@[p]).channels@.len()
                == CHANNEL_COUNT
        &&& forall|p: int, c: int|
            0 <= p < self.patterns@.len() && 0 <= c < CHANNEL_COUNT ==> (
            #[trigger] self.patterns@[p].channels@[c]).rows@.len() == ROW_COUNT
    }
}

impl ModuleView {
    /// The shape that the format fixes: 31 instruments whose payloads match their
    /// lengths, 128 order-list slots, one pattern more than the highest index in the
    /// order list, and in every pattern 4 channels of 64 rows.
    pub open spec fn well_formed(self) -> bool {
        &&& self.instruments.len() == INSTRUMENT_COUNT
        &&& forall|i: int|
            0 <= i < self.instruments.len() ==> (#[trigger] self.instruments[i]).well_formed()
        &&& self.order_list.len() == ORDER_LIST_LEN
        &&& self.patterns.len() == pattern_count_of(self.order_list)
        &&& forall|i: int|
            0 <= i < self.order_list.len() ==> (#[trigger] self.order_list[i]) < self.patterns.len()
        &&& forall|p: int|
            0 <= p < self.patterns.len() ==> (#[trigger] self.patterns[p]).len() == CHANNEL_COUNT
        &&& forall|p: int, c: int|
            0 <= p < self.patterns.len() && 0 <= c < CHANNEL_COUNT ==> (
            #[trigger] self.patterns[p][c]).len() == ROW_COUNT
        &&& forall|p: int, c: int, r: int|
            0 <= p < self.patterns.len() && 0 <= c < CHANNEL_COUNT && 0 <= r < ROW_COUNT ==> (
            #[trigger] self.patterns[p][c][r]).well_formed()
    }
}

/// The order list of the module stored in `bytes`.
pub open spec fn order_list_of(bytes: Seq<u8>) -> Seq<u8> {
    bytes.subrange(ORDER_LIST_OFFSET as int, SIGNATURE_OFFSET as int)
}

/// The instrument descriptors of the module stored in `bytes`, without their payloads.
pub open spec fn headers_of(bytes: Seq<u8>) -> Seq<InstrumentView> {
    instrument_table(bytes.skip(INSTRUMENT_TABLE_OFFSET as int))
}

/// Where the sample payloads start: after the last pattern.
pub open spec fn sample_data_offset(bytes: Seq<u8>) -> int {
    PATTERN_DATA_OFFSET + PATTERN_LEN * pattern_count_of(order_list_of(bytes))
}

/// The number of bytes that the module stored at the start of `bytes` takes.
pub open spec fn module_len(bytes: Seq<u8>) -> int {
    sample_data_offset(bytes) + payload_total(headers_of(bytes))
}

/// Whether `bytes` holds a whole module: the fixed-size part, every pattern that the
/// order list calls for, and every sample payload that the instrument table calls for.
pub open spec fn is_complete(bytes: Seq<u8>) -> bool {
    PATTERN_DATA_OFFSET <= bytes.len() && module_len(bytes) <= bytes.len()
}

/// The module stored at the start of `bytes`.
pub open spec fn module_of(bytes: Seq<u8>) -> ModuleView {
    ModuleView {
        title: field_text(bytes.take(TITLE_LEN as int)),
        instruments: with_payloads(headers_of(bytes), bytes.skip(sample_data_offset(bytes))),
        total_song_positions: bytes[SONG_STRUCTURE_OFFSET as int],
        noise_tracker_restart: bytes[SONG_STRUCTURE_OFFSET + 1],
        order_list: order_list_of(bytes),
        signature: lossy_text(bytes.subrange(SIGNATURE_OFFSET as int, PATTERN_DATA_OFFSET as int)),
        patterns: patterns_of(
            bytes.skip(PATTERN_DATA_OFFSET as int),
            pattern_count_of(order_list_of(bytes)),
        ),
    }
}

/// What decoding `bytes` gives: the module they hold, or `TruncatedInput` exactly when
/// they end before the module does.
pub open spec fn decodes_to(bytes: Seq<u8>, result: Result<ProTrackerModule, DecodeError>) -> bool {
    match result {
        Ok(module) => is_complete(bytes) && module@ == module_of(bytes),
        Err(error) => !is_complete(bytes) && error == DecodeError::TruncatedInput,
    }
}

/// Reads the sections of a module one after the other. A failure leaves the stream at
/// the start of the section that was cut short.
fn read_sections(stream: &mut ByteStream) -> (result: Result<ProTrackerModule, DecodeError>)
    ensures
        decodes_to(old(stream).remaining(), result),
        result is Ok ==> final(stream).remaining() == old(stream).remaining().skip(
            module_len(old(stream).remaining()),
        ),
{
    let ghost bytes = stream.remaining();
    let ghost headers = headers_of(bytes);
    proof {
        lemma_payload_offset_monotonic(sample_lengths(headers), 0, headers.len() as int);
    }
    let title = read_string(TITLE_LEN, stream)?;
    assert(stream.remaining() == bytes.skip(INSTRUMENT_TABLE_OFFSET as int));
    let mut instruments = read_instrument_table(stream)?;
    assert(stream.remaining() == bytes.skip(SONG_STRUCTURE_OFFSET as int));
    let song = read_song_structure(stream)?;
    assert(stream.remaining() == bytes.skip(SIGNATURE_OFFSET as int));
    assert(song.order_list@ == order_list_of(bytes));
    let signature = read_signature(stream)?;
    assert(stream.remaining() == bytes.skip(PATTERN_DATA_OFFSET as int));
    assert(bytes.skip(SIGNATURE_OFFSET as int).take(SIGNATURE_LEN as int) == bytes.subrange(
        SIGNATURE_OFFSET as int,
        PATTERN_DATA_OFFSET as int,
    ));
    let patterns = read_patterns(stream, song.order_list.as_slice())?;
    assert(stream.remaining() == bytes.skip(sample_data_offset(bytes)));
    read_sample_payloads(stream, &mut instruments)?;
    assert(stream.remaining() == bytes.skip(module_len(bytes)));
    let module = ProTrackerModule {
        title,
        instruments,
        total_song_positions: song.total_song_positions,
        noise_tracker_restart: song.noise_tracker_restart,
        order_list: song.order_list,
        signature,
        patterns,
    };
    assert(module@ =~~= module_of(bytes));
    Ok(module)
}

impl ProTrackerModule {
    /// Reads one module from the stream: title, instrument table, song structure,
    /// signature, patterns and sample payloads, in this order. When the stream ends
    /// before the module does, the stream is left where it was.
    pub fn read(stream: &mut ByteStream) -> (result: Result<ProTrackerModule, DecodeError>)
        ensures
            decodes_to(old(stream).remaining(), result),
            match result {
                Ok(module) => {
                    &&& module@.well_formed()
                    &&& module.has_fixed_shape()
                    &&& final(stream).remaining() == old(stream).remaining().skip(
                        module_len(old(stream).remaining()),
                    )
                },
                Err(_) => *final(stream) == *old(stream),
            },
    {
        let start = *stream;
        let result = read_sections(stream);
        if result.is_err() {
            *stream = start;
        }
        proof {
            if result is Ok {
                lemma_module_well_formed(old(stream).remaining());
                lemma_fixed_shape(result->Ok_0);
            }
        }
        result
    }

    /// Decodes the module at the start of `bytes`. Bytes after its end are ignored.
    pub fn decode(bytes: &[u8]) -> (result: Result<ProTrackerModule, DecodeError>)
        ensures
            decodes_to(bytes@, result),
            result matches Ok(module) ==> module@.well_formed() && module.has_fixed_shape(),
    {
        let mut stream = ByteStream::new(bytes);
        ProTrackerModule::read(&mut stream)
    }
}

/// Every module that a complete input holds has the shape that the format fixes: in
/// particular each of its patterns has 4 channels and each channel has 64 rows.
pub proof fn lemma_module_well_formed(bytes: Seq<u8>)
    requires
        is_complete(bytes),
    ensures
        module_of(bytes).well_formed(),
{
    let module = module_of(bytes);
    let headers = headers_of(bytes);
    let lengths = sample_lengths(headers);
    lemma_highest_pattern(order_list_of(bytes));
    assert forall|i: int| 0 <= i < module.instruments.len() implies (
    #[trigger] module.instruments[i]).well_formed() by {
        lemma_payload_offset_monotonic(lengths, 0, i);
        lemma_payload_offset_monotonic(lengths, i + 1, headers.len() as int);
    }
}

/// A module whose content is well formed has the fixed shape in its patterns and
/// channels themselves.
pub proof fn lemma_fixed_shape(module: ProTrackerModule)
    requires
        module@.well_formed(),
    ensures
        module.has_fixed_shape(),
{
    assert forall|p: int| 0 <= p < module.patterns@.len() implies (
    #[trigger] module.patterns@[p]).channels@.len() == CHANNEL_COUNT by {
        assert(module@.patterns[p] == module.patterns@[p]@);
    }
    assert forall|p: int, c: int|
        0 <= p < module.patterns@.len() && 0 <= c < CHANNEL_COUNT implies (
    #[trigger] module.patterns@[p].channels@[c]).rows@.len() == ROW_COUNT by {
        assert(module@.patterns[p] == module.patterns@[p]@);
        assert(module@.patterns[p][c] == module.patterns@[p].channels@[c]@);
    }
}

/// An input that ends before its pattern data does holds no module, wherever in a
/// pattern it ends.
pub proof fn lemma_cut_in_patterns_is_incomplete(bytes: Seq<u8>)
    requires
        bytes.len() < sample_data_offset(bytes),
    ensures
        !is_complete(bytes),
{
    let headers = headers_of(bytes);
    lemma_payload_offset_monotonic(sample_lengths(headers), 0, headers.len() as int);
}

/// Decoding is a function of the input: two results for the same bytes succeed or fail
/// together, and when they succeed they agree in every field.
pub proof fn lemma_decode_deterministic(
    bytes: Seq<u8>,
    first: Result<ProTrackerModule, DecodeError>,
    second: Result<ProTrackerModule, DecodeError>,
)
    requires
        decodes_to(bytes, first),
        decodes_to(bytes, second),
    ensures
        first is Ok <==> second is Ok,
        first is Ok ==> first->Ok_0@ == second->Ok_0@,
        first is Err ==> first == second,
{
}

} // verus!
