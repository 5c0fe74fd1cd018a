//! The song structure: playable length, restart marker, order list and format signature.

use vstd::prelude::*;
use vstd::slice::{slice_subrange, slice_to_vec};

use crate::error::DecodeError;
use crate::stream::ByteStream;
use crate::text::{lossy_text, utf8_lossy};

verus! {

/// Number of slots in the order list, used or not.
pub const ORDER_LIST_LEN: usize = 128;

/// Size of the song structure in bytes: two single bytes and the order list.
pub const SONG_STRUCTURE_LEN: usize = 130;

/// Size of the format signature in bytes.
pub const SIGNATURE_LEN: usize = 4;

/// The part of a module that says in which order its patterns are played.
#[derive(Debug, PartialEq, Eq)]
pub struct SongStructure {
    /// How many slots of the order list are played.
    pub total_song_positions: u8,
    pub noise_tracker_restart: u8,
    /// One pattern index per song position; all 128 slots, also the unused ones.
    pub order_list: Vec<u8>,
}

/// The mathematical content of a [`SongStructure`].
pub struct SongStructureView {
    pub total_song_positions: u8,
    pub noise_tracker_restart: u8,
    pub order_list: Seq<u8>,
}

impl View for SongStructure {
    type V = SongStructureView;

    open spec fn view(&self) -> SongStructureView {
        SongStructureView {
            total_song_positions: self.total_song_positions,
            noise_tracker_restart: self.noise_tracker_restart,
            order_list: self.order_list@,
        }
    }
}

/// The song structure held by the 130 bytes at the start of `input`.
pub open spec fn song_structure(input: Seq<u8>) -> SongStructureView {
    SongStructureView {
        total_song_positions: input[0],
        noise_tracker_restart: input[1],
        order_list: input.subrange(2, SONG_STRUCTURE_LEN as int),
    }
}

/// The largest pattern index in an order list.
pub open spec fn highest_pattern(order_list: Seq<u8>) -> u8
    decreases order_list.len(),
{
    if order_list.len() == 0 {
        0
    } else if order_list.last() > highest_pattern(order_list.drop_last()) {
        order_list.last()
    } else {
        highest_pattern(order_list.drop_last())
    }
}

/// The number of patterns a module stores: one more than the largest index that its
/// order list mentions, in a used slot or not.
pub open spec fn pattern_count_of(order_list: Seq<u8>) -> int {
    highest_pattern(order_list) + 1
}

/// Reads the song-position count, the restart marker and the 128-entry order list.
pub fn read_song_structure(stream: &mut ByteStream) -> (result: Result<SongStructure, DecodeError>)
    ensures
        match result {
            Ok(song) => {
                &&& SONG_STRUCTURE_LEN <= old(stream).remaining().len()
                &&& song@ == song_structure(old(stream).remaining())
                &&& final(stream).remaining() == old(stream).remaining().skip(
                    SONG_STRUCTURE_LEN as int,
                )
            },
            Err(error) => {
                &&& error == DecodeError::TruncatedInput
                &&& SONG_STRUCTURE_LEN > old(stream).remaining().len()
                &&& *final(stream) == *old(stream)
            },
        },
{
    let bytes = stream.read_bytes(SONG_STRUCTURE_LEN)?;
    let order_list = slice_to_vec(slice_subrange(bytes, 2, SONG_STRUCTURE_LEN));
    assert(order_list@ == old(stream).remaining().subrange(2, SONG_STRUCTURE_LEN as int));
    Ok(
        SongStructure {
            total_song_positions: bytes[0],
            noise_tracker_restart: bytes[1],
            order_list,
        },
    )
}

/// Reads the four-byte format signature as text. Nothing is trimmed and no tag is
/// rejected.
pub fn read_signature(stream: &mut ByteStream) -> (result: Result<String, DecodeError>)
    ensures
        match result {
            Ok(signature) => {
                &&& SIGNATURE_LEN <= old(stream).remaining().len()
                &&& signature@ == lossy_text(old(stream).remaining().take(SIGNATURE_LEN as int))
                &&& final(stream).remaining() == old(stream).remaining().skip(SIGNATURE_LEN as int)
            },
            Err(error) => {
                &&& error == DecodeError::TruncatedInput
                &&& SIGNATURE_LEN > old(stream).remaining().len()
                &&& *final(stream) == *old(stream)
            },
        },
{
    let bytes = stream.read_bytes(SIGNATURE_LEN)?;
    Ok(utf8_lossy(bytes))
}

/// The number of patterns to decode for an order list.
pub fn pattern_count(order_list: &[u8]) -> (count: usize)
    requires
        order_list@.len() > 0,
    ensures
        count == pattern_count_of(order_list@),
{
    let mut highest: u8 = 0;
    let mut slot: usize = 0;
    while slot < order_list.len()
        invariant
            slot <= order_list@.len(),
            highest == highest_pattern(order_list@.take(slot as int)),
        decreases order_list@.len() - slot,
    {
        assert(order_list@.take(slot + 1).drop_last() == order_list@.take(slot as int));
        if order_list[slot] > highest {
            highest = order_list[slot];
        }
        slot = slot + 1;
    }
    assert(order_list@.take(slot as int) == order_list@);
    highest as usize + 1
}

/// The largest pattern index is an entry of the order list and no entry exceeds it, so
/// every entry refers to one of the `pattern_count_of` patterns.
pub proof fn lemma_highest_pattern(order_list: Seq<u8>)
    requires
        order_list.len() > 0,
    ensures
        exists|i: int| 0 <= i < order_list.len() && order_list[i] == highest_pattern(order_list),
        forall|i: int| 0 <= i < order_list.len() ==> order_list[i] < pattern_count_of(order_list),
    decreases order_list.len(),
{
    let front = order_list.drop_last();
    let last = order_list.len() - 1;
    if front.len() == 0 {
        assert(highest_pattern(front) == 0);
        assert(order_list[last] == highest_pattern(order_list));
    } else {
        lemma_highest_pattern(front);
        let at = choose|i: int| 0 <= i < front.len() && front[i] == highest_pattern(front);
        assert(front[at] == order_list[at]);
        if order_list.last() > highest_pattern(front) {
            assert(order_list[last] == highest_pattern(order_list));
        } else {
            assert(order_list[at] == highest_pattern(order_list));
        }
        assert forall|i: int| 0 <= i < order_list.len() implies order_list[i] < pattern_count_of(
            order_list,
        ) by {
            if i < last {
                assert(front[i] == order_list[i]);
            }
        }
    }
}

} // verus!
