//! What an installation customizes in the user interface, and the names of its keys.

use crate::text::push_char;
use vstd::prelude::*;

verus! {

/// The customization of the user interface.
#[derive(Debug)]
pub struct UiCustomizationData {
    pub html_title: String,
    pub app_title: String,
    pub synoptics: Synoptics,
    pub machines: Vec<Machine>,
}

/// The synoptic view of the floor.
#[derive(Debug)]
pub struct Synoptics {
    pub viewbox: Dimensions,
}

/// A width and a height.
#[derive(Clone, Copy, Debug)]
pub struct Dimensions {
    pub width: u32,
    pub height: u32,
}

/// A machine of the floor, and the charts that it takes part in.
#[derive(Debug)]
pub struct Machine {
    pub name: String,
    pub path: String,
    pub tag_pos: Coordinates,
    pub card_pos: Coordinates,
    pub campaign: bool,
    pub production: bool,
    pub state_chart: bool,
}

/// A position in the synoptic view.
#[derive(Clone, Copy, Debug)]
pub struct Coordinates {
    pub x: i32,
    pub y: i32,
}

/// The customization, with the JSON text that the user interface is sent.
#[derive(Debug)]
pub struct UiCustomization {
    pub config: UiCustomizationData,
    pub json: String,
}

/// Whether `c` separates two words of a key.
pub open spec fn is_separator(c: char) -> bool {
    c == ' ' || c == '_'
}

/// The capital of an ASCII small letter; any other character itself.
pub open spec fn ascii_upper(c: char) -> char {
    if 'a' <= c <= 'z' {
        ((c as u8) - 32) as u8 as char
    } else {
        c
    }
}

/// The small letter of an ASCII capital; any other character itself.
pub open spec fn ascii_lower(c: char) -> char {
    if 'A' <= c <= 'Z' {
        ((c as u8) + 32) as u8 as char
    } else {
        c
    }
}

/// What becomes of the character at `i` of `text`, which is no separator: a capital
/// where it follows a separator, itself otherwise.
pub open spec fn word_char(text: Seq<char>, i: int) -> char {
    if i > 0 && is_separator(text[i - 1]) {
        ascii_upper(text[i])
    } else {
        text[i]
    }
}

/// The first `n` characters of `text` without their separators, each word after a
/// separator starting with a capital.
pub open spec fn joined_words(text: Seq<char>, n: int) -> Seq<char>
    decreases n,
{
    if n <= 0 {
        Seq::empty()
    } else if is_separator(text[n - 1]) {
        joined_words(text, n - 1)
    } else {
        joined_words(text, n - 1).push(word_char(text, n - 1))
    }
}

/// `text` with its first character as a small letter.
pub open spec fn lower_first(text: Seq<char>) -> Seq<char> {
    if text.len() == 0 {
        text
    } else {
        text.update(0, ascii_lower(text[0]))
    }
}

/// `text` in camel case: spaces and underscores are removed, each character after one
/// of them becomes a capital, and the first character of the result a small letter.
pub open spec fn camel_cased(text: Seq<char>) -> Seq<char> {
    lower_first(joined_words(text, text.len() as int))
}

fn to_ascii_upper(c: char) -> (r: char)
    ensures
        r == ascii_upper(c),
{
    if 'a' <= c && c <= 'z' {
        ((c as u8) - 32) as char
    } else {
        c
    }
}

fn to_ascii_lower(c: char) -> (r: char)
    ensures
        r == ascii_lower(c),
{
    if 'A' <= c && c <= 'Z' {
        ((c as u8) + 32) as char
    } else {
        c
    }
}

/// Writes a key in camel case.
pub fn camel_case(source: &str) -> (dest: String)
    ensures
        dest@ == camel_cased(source@),
{
    let mut dest = String::new();
    let mut capitalize = false;
    let mut first = true;
    for ch in it: source.chars()
        invariant
            it.seq() == source@,
            capitalize == (it.index() > 0 && is_separator(source@[it.index() - 1])),
            first == (joined_words(source@, it.index() as int).len() == 0),
            dest@ == lower_first(joined_words(source@, it.index() as int)),
    {
        if ch == ' ' || ch == '_' {
            capitalize = true;
        } else {
            let cased = if capitalize {
                to_ascii_upper(ch)
            } else {
                ch
            };
            let ghost words = joined_words(source@, it.index() as int);
            if first {
                push_char(&mut dest, to_ascii_lower(cased));
                first = false;
                assert(dest@ =~= lower_first(words.push(cased)));
            } else {
                push_char(&mut dest, cased);
                assert(dest@ =~= lower_first(words.push(cased)));
            }
            capitalize = false;
        }
    }
    dest
}

} // verus!
