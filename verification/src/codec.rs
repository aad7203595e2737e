//! Message framing and validation for the LED controller protocol.
//!
//! Every operation validates all of its fields before producing any byte:
//! a call returns either a complete, well-formed frame (or list of frames)
//! or an [`EncodeError`], never a partial message.

use crate::color::RGBColor;
use crate::color::nearest_index;
use crate::color::nearest_palette;
use vstd::prelude::*;

verus! {

/// A single button/led.
#[derive(Clone, Copy, Debug, PartialEq, Eq, Structural)]
pub struct ColorLed {
    pub color: u8,
    pub position: u8,
}

/// A single column (0...8).
#[derive(Clone, Copy, Debug, PartialEq, Eq, Structural)]
pub struct ColorColumn {
    pub color: u8,
    pub column: u8,
}

/// A single row (0...8).
#[derive(Clone, Copy, Debug, PartialEq, Eq, Structural)]
pub struct ColorRow {
    pub color: u8,
    pub row: u8,
}

/// Slowest reserved scroll-speed control byte.
pub const SCROLL_SLOWEST: u8 = 0x01;

/// Second-slowest reserved scroll-speed control byte.
pub const SCROLL_SLOWER: u8 = 0x02;

/// Slow reserved scroll-speed control byte.
pub const SCROLL_SLOW: u8 = 0x03;

/// Normal-speed reserved scroll-speed control byte.
pub const SCROLL_NORMAL: u8 = 0x04;

/// Fast reserved scroll-speed control byte.
pub const SCROLL_FAST: u8 = 0x05;

/// Second-fastest reserved scroll-speed control byte.
pub const SCROLL_FASTER: u8 = 0x06;

/// Fastest reserved scroll-speed control byte.
pub const SCROLL_FASTEST: u8 = 0x07;

/// Why an encoding request was rejected.
#[derive(Clone, Copy, Debug, PartialEq, Eq, Structural)]
pub enum EncodeError {
    /// The position is not in one of the nine valid decade ranges.
    InvalidPosition,
    /// The palette color index is greater than 127.
    InvalidColor,
    /// The column is greater than 8.
    InvalidColumn,
    /// The row is greater than 8.
    InvalidRow,
    /// More than 80 LEDs, or more than 9 columns or rows, in one batch.
    BatchTooLarge,
    /// The scroll text holds a byte that is neither printable ASCII nor a
    /// reserved speed-control byte (1 through 7).
    InvalidScrollText,
}

/// A button position is valid iff it lies in one of the nine decade ranges
/// of the physical grid: eight rows of 11-19 up to 81-89, plus the extended
/// top row 104-111. The gaps (10, 20, ..., 90-103, 112...) have no button.
pub open spec fn valid_position(pos: u8) -> bool {
    ||| 11 <= pos <= 19
    ||| 21 <= pos <= 29
    ||| 31 <= pos <= 39
    ||| 41 <= pos <= 49
    ||| 51 <= pos <= 59
    ||| 61 <= pos <= 69
    ||| 71 <= pos <= 79
    ||| 81 <= pos <= 89
    ||| 104 <= pos <= 111
}

/// A palette color index is valid iff it is at most 127.
pub open spec fn valid_color(color: u8) -> bool {
    color <= 127
}

/// A column index is valid iff it is at most 8.
pub open spec fn valid_column(col: u8) -> bool {
    col <= 8
}

/// A row index is valid iff it is at most 8.
pub open spec fn valid_row(row: u8) -> bool {
    row <= 8
}

/// The seven-byte header that opens every sysex frame for this device
/// family; `opcode` selects the operation.
pub open spec fn sysex_prefix(opcode: u8) -> Seq<u8> {
    seq![0xF0u8, 0x00u8, 0x20u8, 0x29u8, 0x02u8, 0x18u8, opcode]
}

/// The sysex frame that sets every LED to one palette color: 9 bytes.
pub open spec fn flood_frame(color: u8) -> Seq<u8> {
    sysex_prefix(0x0E) + seq![color, 0xF7u8]
}

/// The sysex frame that sets one LED to a palette color: 10 bytes.
pub open spec fn led_frame(pos: u8, color: u8) -> Seq<u8> {
    sysex_prefix(0x0A) + seq![pos, color, 0xF7u8]
}

/// The sysex frame that sets one column of LEDs to a palette color: 9 bytes.
pub open spec fn column_frame(col: u8, color: u8) -> Seq<u8> {
    sysex_prefix(0x0C) + seq![col, color, 0xF7u8]
}

/// The sysex frame that sets one row of LEDs to a palette color: 9 bytes.
pub open spec fn row_frame(row: u8, color: u8) -> Seq<u8> {
    sysex_prefix(0x0D) + seq![row, color, 0xF7u8]
}

/// The channel message that sets one LED to flash: 3 bytes.
pub open spec fn flash_message(pos: u8, color: u8) -> Seq<u8> {
    seq![0x91u8, pos, color]
}

/// The channel message that sets one LED to pulse: 3 bytes.
pub open spec fn pulse_message(pos: u8, color: u8) -> Seq<u8> {
    seq![0x92u8, pos, color]
}

/// Make sure the position is valid.
pub fn assert_position(pos: u8) -> (r: Result<(), EncodeError>)
    ensures
        r is Ok <==> valid_position(pos),
        r is Err ==> r->Err_0 == EncodeError::InvalidPosition,
{
    let ok = (11 <= pos && pos <= 19) || (21 <= pos && pos <= 29) || (31 <= pos && pos <= 39)
        || (41 <= pos && pos <= 49) || (51 <= pos && pos <= 59) || (61 <= pos && pos <= 69)
        || (71 <= pos && pos <= 79) || (81 <= pos && pos <= 89) || (104 <= pos && pos <= 111);
    if ok {
        Ok(())
    } else {
        Err(EncodeError::InvalidPosition)
    }
}

/// Make sure the palette color is valid.
pub fn assert_color(color: u8) -> (r: Result<(), EncodeError>)
    ensures
        r is Ok <==> valid_color(color),
        r is Err ==> r->Err_0 == EncodeError::InvalidColor,
{
    if color <= 127 {
        Ok(())
    } else {
        Err(EncodeError::InvalidColor)
    }
}

/// Make sure the column is valid.
pub fn assert_column(col: u8) -> (r: Result<(), EncodeError>)
    ensures
        r is Ok <==> valid_column(col),
        r is Err ==> r->Err_0 == EncodeError::InvalidColumn,
{
    if col <= 8 {
        Ok(())
    } else {
        Err(EncodeError::InvalidColumn)
    }
}

/// Make sure the row is valid.
pub fn assert_row(row: u8) -> (r: Result<(), EncodeError>)
    ensures
        r is Ok <==> valid_row(row),
        r is Err ==> r->Err_0 == EncodeError::InvalidRow,
{
    if row <= 8 {
        Ok(())
    } else {
        Err(EncodeError::InvalidRow)
    }
}

/// Build the 10-byte sysex body shared by the LED, column and row frames:
/// prefix, two data bytes, terminator.
fn build_sysex2(opcode: u8, a: u8, b: u8) -> (v: Vec<u8>)
    ensures
        v@ == sysex_prefix(opcode) + seq![a, b, 0xF7u8],
{
    let mut v: Vec<u8> = Vec::new();
    v.push(0xF0);
    v.push(0x00);
    v.push(0x20);
    v.push(0x29);
    v.push(0x02);
    v.push(0x18);
    v.push(opcode);
    v.push(a);
    v.push(b);
    v.push(0xF7);
    proof {
        assert(v@ =~= sysex_prefix(opcode) + seq![a, b, 0xF7u8]);
    }
    v
}

/// Encode the flood-fill operation: set every LED to `color`.
///
/// Succeeds iff `color` is a valid palette index, and then yields exactly
/// the 9-byte flood frame.
pub fn encode_flood(color: u8) -> (r: Result<Vec<u8>, EncodeError>)
    ensures
        r is Ok <==> valid_color(color),
        r is Ok ==> r->Ok_0@ == flood_frame(color),
        r is Err ==> r->Err_0 == EncodeError::InvalidColor,
{
    if let Err(e) = assert_color(color) {
        return Err(e);
    }
    let mut v: Vec<u8> = Vec::new();
    v.push(0xF0);
    v.push(0x00);
    v.push(0x20);
    v.push(0x29);
    v.push(0x02);
    v.push(0x18);
    v.push(0x0E);
    v.push(color);
    v.push(0xF7);
    proof {
        assert(v@ =~= flood_frame(color));
    }
    Ok(v)
}

/// Encode a single-LED light by palette index: the 10-byte LED sysex frame.
///
/// Succeeds iff `pos` is a valid position and `color` a valid palette
/// index; the position is checked first.
pub fn encode_led(pos: u8, color: u8) -> (r: Result<Vec<u8>, EncodeError>)
    ensures
        r is Ok <==> valid_position(pos) && valid_color(color),
        r is Ok ==> r->Ok_0@ == led_frame(pos, color),
        !valid_position(pos) ==> r == Err::<Vec<u8>, EncodeError>(EncodeError::InvalidPosition),
        valid_position(pos) && !valid_color(color) ==> r == Err::<Vec<u8>, EncodeError>(
            EncodeError::InvalidColor,
        ),
{
    if let Err(e) = assert_position(pos) {
        return Err(e);
    }
    if let Err(e) = assert_color(color) {
        return Err(e);
    }
    Ok(build_sysex2(0x0A, pos, color))
}

/// An LED command is valid iff both its position and its color are.
pub open spec fn valid_led(led: ColorLed) -> bool {
    valid_position(led.position) && valid_color(led.color)
}

/// The error an invalid LED command is rejected with: the position is
/// checked before the color.
pub open spec fn led_error(led: ColorLed) -> EncodeError {
    if !valid_position(led.position) {
        EncodeError::InvalidPosition
    } else {
        EncodeError::InvalidColor
    }
}

/// A column command is valid iff both its column and its color are.
pub open spec fn valid_column_cmd(cmd: ColorColumn) -> bool {
    valid_column(cmd.column) && valid_color(cmd.color)
}

/// The error an invalid column command is rejected with: the column is
/// checked before the color.
pub open spec fn column_error(cmd: ColorColumn) -> EncodeError {
    if !valid_column(cmd.column) {
        EncodeError::InvalidColumn
    } else {
        EncodeError::InvalidColor
    }
}

/// A row command is valid iff both its row and its color are.
pub open spec fn valid_row_cmd(cmd: ColorRow) -> bool {
    valid_row(cmd.row) && valid_color(cmd.color)
}

/// The error an invalid row command is rejected with: the row is checked
/// before the color.
pub open spec fn row_error(cmd: ColorRow) -> EncodeError {
    if !valid_row(cmd.row) {
        EncodeError::InvalidRow
    } else {
        EncodeError::InvalidColor
    }
}

/// Encode the momentary-flash channel message for a single LED.
pub fn encode_flash(led: &ColorLed) -> (r: Result<Vec<u8>, EncodeError>)
    ensures
        r is Ok <==> valid_led(*led),
        r is Ok ==> r->Ok_0@ == flash_message(led.position, led.color),
        r is Err ==> r->Err_0 == led_error(*led),
{
    if let Err(e) = assert_position(led.position) {
        return Err(e);
    }
    if let Err(e) = assert_color(led.color) {
        return Err(e);
    }
    let mut v: Vec<u8> = Vec::new();
    v.push(0x91);
    v.push(led.position);
    v.push(led.color);
    proof {
        assert(v@ =~= flash_message(led.position, led.color));
    }
    Ok(v)
}

/// Encode the pulse channel message for a single LED; same shape as the
/// flash message with a distinct status byte.
pub fn encode_pulse(led: &ColorLed) -> (r: Result<Vec<u8>, EncodeError>)
    ensures
        r is Ok <==> valid_led(*led),
        r is Ok ==> r->Ok_0@ == pulse_message(led.position, led.color),
        r is Err ==> r->Err_0 == led_error(*led),
{
    if let Err(e) = assert_position(led.position) {
        return Err(e);
    }
    if let Err(e) = assert_color(led.color) {
        return Err(e);
    }
    let mut v: Vec<u8> = Vec::new();
    v.push(0x92);
    v.push(led.position);
    v.push(led.color);
    proof {
        assert(v@ =~= pulse_message(led.position, led.color));
    }
    Ok(v)
}

/// Encode a batch of LED commands, at most 80, into one 10-byte sysex frame
/// per command, in input order. The whole batch is validated before any
/// frame is built: an oversized batch is rejected as a whole, and an invalid
/// element rejects the batch with the error of the first invalid element.
pub fn encode_leds(leds: &Vec<ColorLed>) -> (r: Result<Vec<Vec<u8>>, EncodeError>)
    ensures
        r is Ok <==> leds@.len() <= 80 && (forall|i: int|
            0 <= i < leds@.len() ==> valid_led(#[trigger] leds@[i])),
        r is Ok ==> r->Ok_0@.len() == leds@.len(),
        r is Ok ==> forall|i: int|
            0 <= i < leds@.len() ==> (#[trigger] r->Ok_0@[i])@ == led_frame(
                leds@[i].position,
                leds@[i].color,
            ),
        leds@.len() > 80 ==> r == Err::<Vec<Vec<u8>>, EncodeError>(EncodeError::BatchTooLarge),
        r is Err && leds@.len() <= 80 ==> exists|i: int|
            0 <= i < leds@.len() && !valid_led(#[trigger] leds@[i]) && (forall|j: int|
                0 <= j < i ==> valid_led(#[trigger] leds@[j])) && r->Err_0 == led_error(leds@[i]),
{
    if leds.len() > 80 {
        return Err(EncodeError::BatchTooLarge);
    }
    let mut k: usize = 0;
    while k < leds.len()
        invariant
            k <= leds@.len() <= 80,
            forall|j: int| 0 <= j < k ==> valid_led(#[trigger] leds@[j]),
        decreases leds@.len() - k,
    {
        let led = leds[k];
        if let Err(e) = assert_position(led.position) {
            assert(!valid_led(leds@[k as int]));
            return Err(e);
        }
        if let Err(e) = assert_color(led.color) {
            assert(!valid_led(leds@[k as int]));
            return Err(e);
        }
        k = k + 1;
    }
    let mut frames: Vec<Vec<u8>> = Vec::new();
    let mut k: usize = 0;
    while k < leds.len()
        invariant
            k <= leds@.len(),
            frames@.len() == k,
            forall|j: int|
                0 <= j < k ==> (#[trigger] frames@[j])@ == led_frame(
                    leds@[j].position,
                    leds@[j].color,
                ),
        decreases leds@.len() - k,
    {
        let led = leds[k];
        frames.push(build_sysex2(0x0A, led.position, led.color));
        k = k + 1;
    }
    Ok(frames)
}

/// Encode a single-column light: one 9-byte column sysex frame.
pub fn encode_column(cmd: &ColorColumn) -> (r: Result<Vec<u8>, EncodeError>)
    ensures
        r is Ok <==> valid_column_cmd(*cmd),
        r is Ok ==> r->Ok_0@ == column_frame(cmd.column, cmd.color),
        r is Err ==> r->Err_0 == column_error(*cmd),
{
    if let Err(e) = assert_column(cmd.column) {
        return Err(e);
    }
    if let Err(e) = assert_color(cmd.color) {
        return Err(e);
    }
    Ok(build_sysex2(0x0C, cmd.column, cmd.color))
}

/// Encode a batch of column commands, at most 9, into one 9-byte sysex
/// frame per command, in input order; all-or-nothing as for LED batches.
pub fn encode_columns(cols: &Vec<ColorColumn>) -> (r: Result<Vec<Vec<u8>>, EncodeError>)
    ensures
        r is Ok <==> cols@.len() <= 9 && (forall|i: int|
            0 <= i < cols@.len() ==> valid_column_cmd(#[trigger] cols@[i])),
        r is Ok ==> r->Ok_0@.len() == cols@.len(),
        r is Ok ==> forall|i: int|
            0 <= i < cols@.len() ==> (#[trigger] r->Ok_0@[i])@ == column_frame(
                cols@[i].column,
                cols@[i].color,
            ),
        cols@.len() > 9 ==> r == Err::<Vec<Vec<u8>>, EncodeError>(EncodeError::BatchTooLarge),
        r is Err && cols@.len() <= 9 ==> exists|i: int|
            0 <= i < cols@.len() && !valid_column_cmd(#[trigger] cols@[i]) && (forall|j: int|
                0 <= j < i ==> valid_column_cmd(#[trigger] cols@[j])) && r->Err_0 == column_error(
                cols@[i],
            ),
{
    if cols.len() > 9 {
        return Err(EncodeError::BatchTooLarge);
    }
    let mut k: usize = 0;
    while k < cols.len()
        invariant
            k <= cols@.len() <= 9,
            forall|j: int| 0 <= j < k ==> valid_column_cmd(#[trigger] cols@[j]),
        decreases cols@.len() - k,
    {
        let cmd = cols[k];
        if let Err(e) = assert_column(cmd.column) {
            assert(!valid_column_cmd(cols@[k as int]));
            return Err(e);
        }
        if let Err(e) = assert_color(cmd.color) {
            assert(!valid_column_cmd(cols@[k as int]));
            return Err(e);
        }
        k = k + 1;
    }
    let mut frames: Vec<Vec<u8>> = Vec::new();
    let mut k: usize = 0;
    while k < cols.len()
        invariant
            k <= cols@.len(),
            frames@.len() == k,
            forall|j: int|
                0 <= j < k ==> (#[trigger] frames@[j])@ == column_frame(
                    cols@[j].column,
                    cols@[j].color,
                ),
        decreases cols@.len() - k,
    {
        let cmd = cols[k];
        frames.push(build_sysex2(0x0C, cmd.column, cmd.color));
        k = k + 1;
    }
    Ok(frames)
}

/// Encode a single-row light: one 9-byte row sysex frame.
pub fn encode_row(cmd: &ColorRow) -> (r: Result<Vec<u8>, EncodeError>)
    ensures
        r is Ok <==> valid_row_cmd(*cmd),
        r is Ok ==> r->Ok_0@ == row_frame(cmd.row, cmd.color),
        r is Err ==> r->Err_0 == row_error(*cmd),
{
    if let Err(e) = assert_row(cmd.row) {
        return Err(e);
    }
    if let Err(e) = assert_color(cmd.color) {
        return Err(e);
    }
    Ok(build_sysex2(0x0D, cmd.row, cmd.color))
}

/// Encode a batch of row commands, at most 9, into one 9-byte sysex frame
/// per command, in input order; all-or-nothing as for LED batches.
pub fn encode_rows(rows: &Vec<ColorRow>) -> (r: Result<Vec<Vec<u8>>, EncodeError>)
    ensures
        r is Ok <==> rows@.len() <= 9 && (forall|i: int|
            0 <= i < rows@.len() ==> valid_row_cmd(#[trigger] rows@[i])),
        r is Ok ==> r->Ok_0@.len() == rows@.len(),
        r is Ok ==> forall|i: int|
            0 <= i < rows@.len() ==> (#[trigger] r->Ok_0@[i])@ == row_frame(
                rows@[i].row,
                rows@[i].color,
            ),
        rows@.len() > 9 ==> r == Err::<Vec<Vec<u8>>, EncodeError>(EncodeError::BatchTooLarge),
        r is Err && rows@.len() <= 9 ==> exists|i: int|
            0 <= i < rows@.len() && !valid_row_cmd(#[trigger] rows@[i]) && (forall|j: int|
                0 <= j < i ==> valid_row_cmd(#[trigger] rows@[j])) && r->Err_0 == row_error(
                rows@[i],
            ),
{
    if rows.len() > 9 {
        return Err(EncodeError::BatchTooLarge);
    }
    let mut k: usize = 0;
    while k < rows.len()
        invariant
            k <= rows@.len() <= 9,
            forall|j: int| 0 <= j < k ==> valid_row_cmd(#[trigger] rows@[j]),
        decreases rows@.len() - k,
    {
        let cmd = rows[k];
        if let Err(e) = assert_row(cmd.row) {
            assert(!valid_row_cmd(rows@[k as int]));
            return Err(e);
        }
        if let Err(e) = assert_color(cmd.color) {
            assert(!valid_row_cmd(rows@[k as int]));
            return Err(e);
        }
        k = k + 1;
    }
    let mut frames: Vec<Vec<u8>> = Vec::new();
    let mut k: usize = 0;
    while k < rows.len()
        invariant
            k <= rows@.len(),
            frames@.len() == k,
            forall|j: int|
                0 <= j < k ==> (#[trigger] frames@[j])@ == row_frame(
                    rows@[j].row,
                    rows@[j].color,
                ),
        decreases rows@.len() - k,
    {
        let cmd = rows[k];
        frames.push(build_sysex2(0x0D, cmd.row, cmd.color));
        k = k + 1;
    }
    Ok(frames)
}

/// A byte may appear in a scroll text iff it is printable ASCII or one of
/// the seven reserved speed-control bytes (1 through 7).
pub open spec fn valid_scroll_byte(b: u8) -> bool {
    1 <= b <= 7 || 0x20 <= b <= 0x7E
}

/// The variable-length scroll-text sysex frame: prefix, color, loop flag,
/// the raw text bytes, terminator.
pub open spec fn scroll_frame(color: u8, doloop: bool, text: Seq<u8>) -> Seq<u8> {
    sysex_prefix(0x14) + seq![color, (if doloop { 0x01u8 } else { 0x00u8 })] + text + seq![0xF7u8]
}

/// Encode a scroll-text request. The text must hold only printable ASCII
/// and reserved speed-control bytes; the color is checked first. An empty
/// text is valid: by protocol convention it cancels the current scroll, and
/// it passes through as a frame with zero text bytes.
pub fn encode_scroll_text(color: u8, doloop: bool, text: &Vec<u8>) -> (r: Result<
    Vec<u8>,
    EncodeError,
>)
    ensures
        r is Ok <==> valid_color(color) && (forall|i: int|
            0 <= i < text@.len() ==> valid_scroll_byte(#[trigger] text@[i])),
        r is Ok ==> r->Ok_0@ == scroll_frame(color, doloop, text@),
        !valid_color(color) ==> r == Err::<Vec<u8>, EncodeError>(EncodeError::InvalidColor),
        valid_color(color) && r is Err ==> r->Err_0 == EncodeError::InvalidScrollText,
{
    if let Err(e) = assert_color(color) {
        return Err(e);
    }
    let mut k: usize = 0;
    while k < text.len()
        invariant
            k <= text@.len(),
            valid_color(color),
            forall|j: int| 0 <= j < k ==> valid_scroll_byte(#[trigger] text@[j]),
        decreases text@.len() - k,
    {
        let b = text[k];
        if !((1 <= b && b <= 7) || (0x20 <= b && b <= 0x7E)) {
            assert(!valid_scroll_byte(text@[k as int]));
            return Err(EncodeError::InvalidScrollText);
        }
        k = k + 1;
    }
    let mut v: Vec<u8> = Vec::new();
    v.push(0xF0);
    v.push(0x00);
    v.push(0x20);
    v.push(0x29);
    v.push(0x02);
    v.push(0x18);
    v.push(0x14);
    v.push(color);
    v.push(if doloop {
        0x01
    } else {
        0x00
    });
    let ghost head: Seq<u8> = v@;
    let mut k: usize = 0;
    while k < text.len()
        invariant
            k <= text@.len(),
            v@ == head + text@.subrange(0, k as int),
        decreases text@.len() - k,
    {
        v.push(text[k]);
        proof {
            assert(v@ =~= head + text@.subrange(0, k + 1 as int));
        }
        k = k + 1;
    }
    v.push(0xF7);
    proof {
        assert(text@.subrange(0, text@.len() as int) =~= text@);
        assert(v@ =~= scroll_frame(color, doloop, text@));
    }
    Ok(v)
}

/// Encode a single-LED light from an arbitrary RGB color: the color is
/// first resolved to the nearest palette entry, which is always a valid
/// palette index, so the request succeeds iff the position is valid.
pub fn encode_fuzzy_rgb(pos: u8, rgb: RGBColor, palette: &Vec<RGBColor>) -> (r: Result<
    Vec<u8>,
    EncodeError,
>)
    requires
        1 <= palette@.len() <= 128,
    ensures
        r is Ok <==> valid_position(pos),
        r is Ok ==> r->Ok_0@ == led_frame(pos, nearest_index(palette@, rgb) as u8),
        r is Err ==> r->Err_0 == EncodeError::InvalidPosition,
{
    let color = nearest_palette(rgb, palette);
    encode_led(pos, color)
}

} // verus!
