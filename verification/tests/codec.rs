use launchpad::codec::{
    assert_color, assert_column, assert_position, assert_row, encode_column, encode_columns,
    encode_flash, encode_flood, encode_fuzzy_rgb, encode_led, encode_leds, encode_pulse,
    encode_row, encode_rows, encode_scroll_text, ColorColumn, ColorLed, ColorRow, EncodeError,
    SCROLL_FAST, SCROLL_FASTER, SCROLL_FASTEST, SCROLL_NORMAL, SCROLL_SLOW, SCROLL_SLOWER,
    SCROLL_SLOWEST,
};
use launchpad::color::RGBColor;

const PREFIX: [u8; 6] = [0xF0, 0x00, 0x20, 0x29, 0x02, 0x18];

fn sysex(opcode: u8, data: &[u8]) -> Vec<u8> {
    let mut v = PREFIX.to_vec();
    v.push(opcode);
    v.extend_from_slice(data);
    v.push(0xF7);
    v
}

#[test]
fn led_frame_is_byte_exact() {
    // encode_led(11, 5) -> F0 00 20 29 02 18 0A 0B 05 F7 (0x0B = 11 decimal)
    let frame = encode_led(11, 5).unwrap();
    assert_eq!(
        frame,
        vec![0xF0, 0x00, 0x20, 0x29, 0x02, 0x18, 0x0A, 0x0B, 0x05, 0xF7]
    );
}

#[test]
fn every_position_in_the_nine_decades_is_accepted() {
    for decade in 1..=8u8 {
        for unit in 1..=9u8 {
            let pos = decade * 10 + unit;
            assert_eq!(encode_led(pos, 0).unwrap(), sysex(0x0A, &[pos, 0]));
        }
    }
    for pos in 104..=111u8 {
        assert_eq!(encode_led(pos, 0).unwrap(), sysex(0x0A, &[pos, 0]));
    }
}

#[test]
fn positions_outside_the_decades_are_rejected() {
    for pos in [10u8, 20, 90, 100, 112, 0] {
        assert_eq!(encode_led(pos, 0), Err(EncodeError::InvalidPosition));
    }
    assert_eq!(assert_position(103), Err(EncodeError::InvalidPosition));
    assert!(assert_position(104).is_ok());
}

#[test]
fn colors_above_127_are_rejected() {
    assert_eq!(encode_led(11, 127).unwrap(), sysex(0x0A, &[11, 127]));
    assert_eq!(encode_led(11, 128), Err(EncodeError::InvalidColor));
    assert_eq!(encode_led(11, 255), Err(EncodeError::InvalidColor));
    assert!(assert_color(127).is_ok());
    assert_eq!(assert_color(128), Err(EncodeError::InvalidColor));
}

#[test]
fn flood_frame_is_byte_exact() {
    assert_eq!(encode_flood(40).unwrap(), sysex(0x0E, &[40]));
}

#[test]
fn flood_rejects_invalid_color_before_any_byte() {
    assert_eq!(encode_flood(200), Err(EncodeError::InvalidColor));
}

#[test]
fn flash_and_pulse_are_three_byte_channel_messages() {
    let led = ColorLed { position: 11, color: 5 };
    assert_eq!(encode_flash(&led).unwrap(), vec![0x91, 0x0B, 0x05]);
    assert_eq!(encode_pulse(&led).unwrap(), vec![0x92, 0x0B, 0x05]);
}

#[test]
fn flash_and_pulse_validate_their_fields() {
    assert_eq!(
        encode_flash(&ColorLed { position: 10, color: 5 }),
        Err(EncodeError::InvalidPosition)
    );
    assert_eq!(
        encode_pulse(&ColorLed { position: 11, color: 140 }),
        Err(EncodeError::InvalidColor)
    );
}

#[test]
fn batch_of_80_leds_yields_80_frames_in_order() {
    let mut leds = Vec::new();
    for i in 0..80u8 {
        leds.push(ColorLed { position: 11 + (i % 9), color: i % 128 });
    }
    let frames = encode_leds(&leds).unwrap();
    assert_eq!(frames.len(), 80);
    for (i, frame) in frames.iter().enumerate() {
        assert_eq!(*frame, sysex(0x0A, &[leds[i].position, leds[i].color]));
    }
}

#[test]
fn batch_of_81_leds_is_rejected_whole() {
    let mut leds = Vec::new();
    for i in 0..81u8 {
        leds.push(ColorLed { position: 11 + (i % 9), color: 3 });
    }
    assert_eq!(encode_leds(&leds), Err(EncodeError::BatchTooLarge));
}

#[test]
fn led_batch_fails_with_the_first_invalid_element() {
    let leds = vec![
        ColorLed { position: 11, color: 5 },
        ColorLed { position: 12, color: 240 }, // invalid color comes first
        ColorLed { position: 99, color: 5 },   // invalid position comes later
    ];
    assert_eq!(encode_leds(&leds), Err(EncodeError::InvalidColor));
}

#[test]
fn nine_columns_succeed_and_ten_fail() {
    let mut cols = Vec::new();
    for c in 0..9u8 {
        cols.push(ColorColumn { column: c, color: c });
    }
    let frames = encode_columns(&cols).unwrap();
    assert_eq!(frames.len(), 9);
    for (i, frame) in frames.iter().enumerate() {
        assert_eq!(*frame, sysex(0x0C, &[cols[i].column, cols[i].color]));
    }
    cols.push(ColorColumn { column: 0, color: 0 });
    assert_eq!(encode_columns(&cols), Err(EncodeError::BatchTooLarge));
}

#[test]
fn nine_rows_succeed_and_ten_fail() {
    let mut rows = Vec::new();
    for r in 0..9u8 {
        rows.push(ColorRow { row: r, color: r });
    }
    let frames = encode_rows(&rows).unwrap();
    assert_eq!(frames.len(), 9);
    for (i, frame) in frames.iter().enumerate() {
        assert_eq!(*frame, sysex(0x0D, &[rows[i].row, rows[i].color]));
    }
    rows.push(ColorRow { row: 0, color: 0 });
    assert_eq!(encode_rows(&rows), Err(EncodeError::BatchTooLarge));
}

#[test]
fn single_column_and_row_frames_are_byte_exact() {
    assert_eq!(
        encode_column(&ColorColumn { column: 8, color: 17 }).unwrap(),
        sysex(0x0C, &[8, 17])
    );
    assert_eq!(encode_row(&ColorRow { row: 0, color: 72 }).unwrap(), sysex(0x0D, &[0, 72]));
}

#[test]
fn columns_and_rows_above_8_are_rejected() {
    assert_eq!(
        encode_column(&ColorColumn { column: 9, color: 0 }),
        Err(EncodeError::InvalidColumn)
    );
    assert_eq!(encode_row(&ColorRow { row: 9, color: 0 }), Err(EncodeError::InvalidRow));
    assert_eq!(assert_column(9), Err(EncodeError::InvalidColumn));
    assert_eq!(assert_row(9), Err(EncodeError::InvalidRow));
    assert!(assert_column(8).is_ok());
    assert!(assert_row(8).is_ok());
}

#[test]
fn empty_scroll_text_encodes_the_cancel_frame() {
    let frame = encode_scroll_text(5, true, &Vec::new()).unwrap();
    assert_eq!(frame, sysex(0x14, &[5, 0x01]));
}

#[test]
fn scroll_text_carries_its_bytes_through_unchanged() {
    let text = vec![SCROLL_SLOW, b'H', b'i', b' ', b'~'];
    let frame = encode_scroll_text(9, false, &text).unwrap();
    assert_eq!(frame, sysex(0x14, &[9, 0x00, 0x03, b'H', b'i', b' ', b'~']));
}

#[test]
fn scroll_text_rejects_a_non_printable_byte() {
    let text = vec![b'o', b'k', 0x08];
    assert_eq!(encode_scroll_text(5, false, &text), Err(EncodeError::InvalidScrollText));
}

#[test]
fn scroll_text_checks_the_color_first() {
    let text = vec![0x08];
    assert_eq!(encode_scroll_text(130, true, &text), Err(EncodeError::InvalidColor));
}

#[test]
fn scroll_speed_bytes_cover_one_through_seven() {
    assert_eq!(
        [
            SCROLL_SLOWEST,
            SCROLL_SLOWER,
            SCROLL_SLOW,
            SCROLL_NORMAL,
            SCROLL_FAST,
            SCROLL_FASTER,
            SCROLL_FASTEST
        ],
        [1, 2, 3, 4, 5, 6, 7]
    );
}

#[test]
fn fuzzy_rgb_light_uses_the_nearest_palette_entry() {
    let palette = vec![
        RGBColor { red: 0, green: 0, blue: 0 },
        RGBColor { red: 250, green: 10, blue: 10 },
        RGBColor { red: 10, green: 250, blue: 10 },
    ];
    let frame = encode_fuzzy_rgb(55, RGBColor { red: 255, green: 0, blue: 0 }, &palette).unwrap();
    assert_eq!(frame, sysex(0x0A, &[55, 1]));
    assert_eq!(
        encode_fuzzy_rgb(100, RGBColor { red: 255, green: 0, blue: 0 }, &palette),
        Err(EncodeError::InvalidPosition)
    );
}
