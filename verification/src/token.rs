//! Which move tokens can go to the engine's parser.
//!
//! The parser takes a token apart at white space. Where that leaves one word
//! of four bytes, it cuts the word in the middle, which must not fall inside
//! a character. The words of a token are looked at here as the engine will
//! see them: over the characters that are white space to it and the number
//! of bytes that a character takes in UTF-8.

use vstd::prelude::*;
use crate::text::chars_of;

verus! {

/// Whether a character is white space: one of the 25 characters to which
/// Unicode gives the property `White_Space`.
pub open spec fn is_space(c: char) -> bool {
    let u = c as u32;
    ||| 0x09 <= u <= 0x0D
    ||| u == 0x20
    ||| u == 0x85
    ||| u == 0xA0
    ||| u == 0x1680
    ||| 0x2000 <= u <= 0x200A
    ||| u == 0x2028
    ||| u == 0x2029
    ||| u == 0x202F
    ||| u == 0x205F
    ||| u == 0x3000
}

/// How many bytes a character takes in UTF-8.
pub open spec fn utf8_width(c: char) -> int {
    let u = c as u32;
    if u < 0x80 {
        1
    } else if u < 0x800 {
        2
    } else if u < 0x10000 {
        3
    } else {
        4
    }
}

/// How many bytes a character adds to the words of a token: none where it
/// is white space.
pub open spec fn word_width(c: char) -> int {
    if is_space(c) {
        0
    } else {
        utf8_width(c)
    }
}

/// How many bytes the words of a token have together.
pub open spec fn word_bytes(s: Seq<char>) -> int
    decreases s.len(),
{
    if s.len() == 0 {
        0
    } else {
        word_bytes(s.drop_last()) + word_width(s.last())
    }
}

/// Whether the words of a token have exactly `n` bytes up to the end of one
/// of its characters.
pub open spec fn reaches(s: Seq<char>, n: int) -> bool
    decreases s.len(),
{
    if s.len() == 0 {
        false
    } else {
        reaches(s.drop_last(), n) || word_bytes(s) == n
    }
}

/// Whether the words of a token have four bytes together of which the
/// second and the third belong to one character. A token of one such word
/// is what the engine's parser cannot take; a token of several such words
/// is no move to it either.
pub open spec fn splits_a_character(s: Seq<char>) -> bool {
    word_bytes(s) == 4 && !reaches(s, 2)
}

/// Whether a character is white space.
pub fn is_white_space(c: char) -> (r: bool)
    ensures
        r == is_space(c),
{
    let u = c as u32;
    (0x09 <= u && u <= 0x0D) || u == 0x20 || u == 0x85 || u == 0xA0 || u == 0x1680 || (0x2000
        <= u && u <= 0x200A) || u == 0x2028 || u == 0x2029 || u == 0x202F || u == 0x205F || u
        == 0x3000
}

/// How many bytes a character takes in UTF-8.
pub fn width_in_utf8(c: char) -> (w: u8)
    ensures
        w == utf8_width(c),
        1 <= w <= 4,
{
    let u = c as u32;
    if u < 0x80 {
        1
    } else if u < 0x800 {
        2
    } else if u < 0x10000 {
        3
    } else {
        4
    }
}

/// Whether the words of a token have four bytes together of which the
/// second and the third belong to one character.
pub fn splits_character(token: &str) -> (r: bool)
    ensures
        r == splits_a_character(token@),
{
    let chars = chars_of(token);
    let mut sum: u8 = 0;
    let mut hit = false;
    let mut i: usize = 0;
    while i < chars.len()
        invariant
            i <= chars@.len(),
            chars@ == token@,
            sum <= 5,
            sum == (if word_bytes(chars@.take(i as int)) >= 5 {
                5
            } else {
                word_bytes(chars@.take(i as int))
            }),
            hit == reaches(chars@.take(i as int), 2),
        decreases chars@.len() - i,
    {
        let c = chars[i];
        proof {
            assert(chars@.take(i + 1).drop_last() =~= chars@.take(i as int));
            assert(chars@.take(i + 1).last() == c);
        }
        let w: u8 = if is_white_space(c) {
            0
        } else {
            width_in_utf8(c)
        };
        sum = if sum + w > 5 {
            5
        } else {
            sum + w
        };
        if sum == 2 {
            hit = true;
        }
        i = i + 1;
    }
    assert(chars@.take(chars@.len() as int) =~= chars@);
    sum == 4 && !hit
}

} // verus!
