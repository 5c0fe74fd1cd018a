use protracker::effect::EffectType;
use protracker::error::DecodeError;
use protracker::pattern::{
    classify_cell, decode_row, read_pattern, read_patterns, unpack_cell, Cell, Row,
};
use protracker::song::{pattern_count, read_signature, read_song_structure};
use protracker::stream::ByteStream;

fn pattern_block(seed: u8) -> Vec<u8> {
    let mut block = Vec::with_capacity(1024);
    for cell in 0..256u32 {
        block.push(seed & 0x0F);
        block.push(cell as u8);
        block.push(0xC0 | (cell % 16) as u8);
        block.push((cell / 4) as u8);
    }
    block
}

#[test]
fn cell_bit_packing() {
    let cell = unpack_cell([0x13, 0x45, 0x67, 0x89]);
    assert_eq!(cell.instrument_number, 0x36);
    assert_eq!(cell.pitch, 0x345);
    assert_eq!(cell.effect_number, 0x7);
    assert_eq!(cell.effect_x_value, 0x8);
    assert_eq!(cell.effect_y_value, 0x9);
}

#[test]
fn cell_bit_packing_as_a_row() {
    assert_eq!(
        decode_row([0x13, 0x45, 0x67, 0x89]),
        Row {
            instrument_number: 0x36,
            pitch: 0x345,
            effect: EffectType::UnknownEffect,
            effect_x_value: 8,
            effect_y_value: 9,
        }
    );
}

#[test]
fn the_high_nibble_of_the_first_byte_is_not_used() {
    assert_eq!(unpack_cell([0xF0, 0, 0, 0]), unpack_cell([0, 0, 0, 0]));
    assert_eq!(unpack_cell([0xA5, 1, 2, 3]), unpack_cell([0x05, 1, 2, 3]));
}

#[test]
fn a_cell_of_ones() {
    let cell = unpack_cell([0xFF, 0xFF, 0xFF, 0xFF]);
    assert_eq!(
        cell,
        Cell {
            instrument_number: 0xFF,
            pitch: 0xFFF,
            effect_number: 15,
            effect_x_value: 15,
            effect_y_value: 15,
        }
    );
    assert_eq!(classify_cell(cell).effect, EffectType::ChangeSpeed);
}

#[test]
fn a_zeroed_cell_is_an_empty_row() {
    assert_eq!(
        decode_row([0, 0, 0, 0]),
        Row {
            instrument_number: 0,
            pitch: 0,
            effect: EffectType::NoEffect,
            effect_x_value: 0,
            effect_y_value: 0,
        }
    );
}

#[test]
fn classification_keeps_the_raw_arguments() {
    let row = classify_cell(Cell {
        instrument_number: 3,
        pitch: 428,
        effect_number: 14,
        effect_x_value: 10,
        effect_y_value: 4,
    });
    assert_eq!(
        row,
        Row {
            instrument_number: 3,
            pitch: 428,
            effect: EffectType::FineVolumeSlideUp,
            effect_x_value: 10,
            effect_y_value: 4,
        }
    );
}

#[test]
fn a_pattern_has_four_channels_of_sixty_four_rows() {
    let block = pattern_block(0);
    let mut stream = ByteStream::new(&block);
    let pattern = read_pattern(&mut stream).unwrap();
    assert_eq!(pattern.channels.len(), 4);
    for channel in &pattern.channels {
        assert_eq!(channel.rows.len(), 64);
    }
    assert_eq!(stream.available(), 0);
}

#[test]
fn cells_are_stored_row_by_row_and_channel_by_channel() {
    let block = pattern_block(0);
    let mut stream = ByteStream::new(&block);
    let pattern = read_pattern(&mut stream).unwrap();
    for channel in 0..4usize {
        for row in 0..64usize {
            let cell = row * 4 + channel;
            let start = cell * 4;
            let bytes = [block[start], block[start + 1], block[start + 2], block[start + 3]];
            assert_eq!(pattern.channels[channel].rows[row], decode_row(bytes));
            assert_eq!(pattern.channels[channel].rows[row].pitch, cell as u16);
            assert_eq!(pattern.channels[channel].rows[row].effect_x_value, (row / 16) as u8);
        }
    }
}

#[test]
fn a_pattern_cut_short_is_truncated_input() {
    let block = vec![0u8; 1023];
    let mut stream = ByteStream::new(&block);
    assert_eq!(read_pattern(&mut stream), Err(DecodeError::TruncatedInput));
    assert_eq!(stream.available(), 1023);
}

#[test]
fn pattern_count_is_one_more_than_the_highest_index() {
    assert_eq!(pattern_count(&[0u8; 128]), 1);
    let mut order_list = [0u8; 128];
    order_list[3] = 5;
    order_list[9] = 2;
    assert_eq!(pattern_count(&order_list), 6);
    assert_eq!(pattern_count(&[255u8]), 256);
}

#[test]
fn pattern_count_looks_at_unused_slots_too() {
    let mut order_list = [1u8; 128];
    order_list[127] = 9;
    assert_eq!(pattern_count(&order_list), 10);
}

#[test]
fn patterns_are_read_in_index_order() {
    let mut data = Vec::new();
    for seed in 1..=3u8 {
        data.extend(pattern_block(seed));
    }
    data.push(0xEE);
    let mut order_list = [0u8; 128];
    order_list[1] = 2;
    let mut stream = ByteStream::new(&data);
    let patterns = read_patterns(&mut stream, &order_list).unwrap();
    assert_eq!(patterns.len(), 3);
    assert_eq!(stream.available(), 1);
    for (index, pattern) in patterns.iter().enumerate() {
        assert_eq!(pattern.channels.len(), 4);
        for channel in &pattern.channels {
            assert_eq!(channel.rows.len(), 64);
            for row in &channel.rows {
                assert_eq!(row.instrument_number, ((index as u8 + 1) << 4) | 0x0C);
            }
        }
    }
}

#[test]
fn a_stream_that_ends_inside_the_last_pattern_is_truncated_input() {
    let data = vec![0u8; 1024 + 512];
    let mut order_list = [0u8; 128];
    order_list[0] = 1;
    let mut stream = ByteStream::new(&data);
    assert_eq!(read_patterns(&mut stream, &order_list), Err(DecodeError::TruncatedInput));
    assert_eq!(stream.available(), 1536);
}

#[test]
fn song_structure_fields() {
    let mut data = vec![0u8; 131];
    data[0] = 17;
    data[1] = 127;
    for slot in 0..128usize {
        data[2 + slot] = slot as u8;
    }
    data[130] = 0xEE;
    let mut stream = ByteStream::new(&data);
    let song = read_song_structure(&mut stream).unwrap();
    assert_eq!(song.total_song_positions, 17);
    assert_eq!(song.noise_tracker_restart, 127);
    assert_eq!(song.order_list.len(), 128);
    for slot in 0..128usize {
        assert_eq!(song.order_list[slot], slot as u8);
    }
    assert_eq!(stream.available(), 1);
}

#[test]
fn a_song_structure_cut_short_is_truncated_input() {
    let data = vec![0u8; 129];
    let mut stream = ByteStream::new(&data);
    assert_eq!(read_song_structure(&mut stream), Err(DecodeError::TruncatedInput));
    assert_eq!(stream.available(), 129);
}

#[test]
fn the_signature_is_four_bytes_of_text() {
    let data = b"M.K.rest";
    let mut stream = ByteStream::new(data);
    assert_eq!(read_signature(&mut stream), Ok(String::from("M.K.")));
    assert_eq!(stream.available(), 4);
}

#[test]
fn the_signature_is_not_trimmed() {
    let data = b"FL \0";
    let mut stream = ByteStream::new(data);
    assert_eq!(read_signature(&mut stream), Ok(String::from("FL \0")));
}

#[test]
fn a_malformed_signature_is_decoded_with_replacements() {
    let data = [b'M', 0xFF, b'K', b'.'];
    let mut stream = ByteStream::new(&data);
    assert_eq!(read_signature(&mut stream), Ok(String::from("M\u{fffd}K.")));
}

#[test]
fn a_signature_cut_short_is_truncated_input() {
    let data = b"M.K";
    let mut stream = ByteStream::new(data);
    assert_eq!(read_signature(&mut stream), Err(DecodeError::TruncatedInput));
    assert_eq!(stream.available(), 3);
}
