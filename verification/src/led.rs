use vstd::prelude::*;

use crate::text::{
    chars_of, decimal, is_digit, is_white_space, lemma_decimal_digits, lemma_decimal_parses_back,
    parse_u8, parse_u8_seq, push_char, push_decimal, trim_end_seq, trim_range, trim_seq,
    trim_start_seq,
};
use crate::types::Color;

verus! {

/// How much one brightness command changes the LED brightness (about 10 % of 255).
pub const BRIGHTNESS_STEP: u8 = 26;

/// The line written to the LED's `multi_intensity` file for a color: the three
/// channels in decimal, separated by spaces, ending with a newline.
pub open spec fn intensity_text(c: Color) -> Seq<char> {
    decimal(c.r as nat) + seq![' '] + decimal(c.g as nat) + seq![' '] + decimal(c.b as nat) + seq!['\n']
}

/// Formats the `multi_intensity` line of a color.
pub fn intensity_line(c: &Color) -> (line: String)
    ensures
        line@ == intensity_text(*c),
{
    let mut line = String::new();
    push_decimal(&mut line, c.r);
    push_char(&mut line, ' ');
    push_decimal(&mut line, c.g);
    push_char(&mut line, ' ');
    push_decimal(&mut line, c.b);
    push_char(&mut line, '\n');
    assert(line@ =~= intensity_text(*c));
    line
}

/// The brightness after one step up or down, clamped to `0..=255`.
pub open spec fn stepped_brightness(level: u8, up: bool) -> u8 {
    if up {
        if level + BRIGHTNESS_STEP > 255 { 255 } else { (level + BRIGHTNESS_STEP) as u8 }
    } else {
        if level < BRIGHTNESS_STEP { 0 } else { (level - BRIGHTNESS_STEP) as u8 }
    }
}

/// Raises (`up`) or lowers the brightness by one step, clamped to `0..=255`.
pub fn adjust_brightness(level: u8, up: bool) -> (res: u8)
    ensures
        res == stepped_brightness(level, up),
{
    if up {
        if level > 255 - BRIGHTNESS_STEP {
            255
        } else {
            level + BRIGHTNESS_STEP
        }
    } else {
        if level < BRIGHTNESS_STEP {
            0
        } else {
            level - BRIGHTNESS_STEP
        }
    }
}

/// What a brightness command writes, given the current contents of the LED's
/// `brightness` file: the stepped level in decimal and a newline, or nothing when
/// the contents (without surrounding white space) are not a number in `0..=255`.
pub fn brightness_update(current: &str, up: bool) -> (res: Option<String>)
    ensures
        match parse_u8_seq(trim_seq(current@)) {
            Some(level) => res matches Some(line) && line@ == decimal(
                stepped_brightness(level, up) as nat,
            ) + seq!['\n'],
            None => res is None,
        },
{
    let v = chars_of(current);
    let (a, b) = trim_range(&v, 0, v.len());
    assert(v@.subrange(0, v@.len() as int) =~= current@);
    match parse_u8(&v, a, b) {
        Some(level) => {
            let next = adjust_brightness(level, up);
            let mut line = String::new();
            push_decimal(&mut line, next);
            push_char(&mut line, '\n');
            Some(line)
        },
        None => None,
    }
}

/// One step up never lowers the brightness and one step down never raises it; a step
/// down undoes a step up, and a step up undoes a step down, unless the level was
/// clamped at an end of the range.
pub proof fn lemma_brightness_steps(level: u8)
    ensures
        stepped_brightness(level, true) >= level,
        stepped_brightness(level, false) <= level,
        level + BRIGHTNESS_STEP <= 255 ==> stepped_brightness(
            stepped_brightness(level, true),
            false,
        ) == level,
        level >= BRIGHTNESS_STEP ==> stepped_brightness(stepped_brightness(level, false), true)
            == level,
{
}

/// The brightness line that [`brightness_update`] writes reads back, through the same
/// parsing, as the level it holds.
pub proof fn lemma_brightness_line_reads_back(level: u8)
    ensures
        parse_u8_seq(trim_seq(decimal(level as nat) + seq!['\n'])) == Some(level),
{
    let d = decimal(level as nat);
    let line = d + seq!['\n'];
    lemma_decimal_digits(level as nat);
    lemma_decimal_parses_back(level);
    assert(is_digit(line[0]));
    assert(!is_white_space(line[0]));
    assert(trim_start_seq(line) == line);
    assert(line.drop_last() =~= d);
    assert(is_white_space(line.last()));
    assert(is_digit(d.last()));
    assert(trim_end_seq(d) == d);
    assert(trim_end_seq(line) == d);
}

} // verus!
