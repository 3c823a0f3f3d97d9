//! Text as the library reads and writes it: decimal digits, and secrets as they are typed.
use vstd::prelude::*;

verus! {

/// `String::push` appends one character.
pub assume_specification[ String::push ](text: &mut String, ch: char)
    ensures
        final(text)@ == old(text)@.push(ch),
;

/// The upper-case form of a text, as `str::to_uppercase` gives it.
pub uninterp spec fn uppercase_of(text: Seq<char>) -> Seq<char>;

/// `str::to_uppercase` maps a text to its upper-case form, which depends on the text alone.
pub assume_specification[ str::to_uppercase ](text: &str) -> (upper: String)
    ensures
        upper@ == uppercase_of(text@),
;

/// The character that writes the decimal digit `digit`.
pub open spec fn digit_char(digit: int) -> char {
    (digit + 48) as u8 as char
}

/// The character that writes the decimal digit `digit`.
pub fn digit_to_char(digit: u8) -> (ch: char)
    requires
        digit < 10,
    ensures
        ch == digit_char(digit as int),
        '0' <= ch <= '9',
{
    (digit + 48) as char
}

/// A text without its spaces.
pub open spec fn without_spaces(text: Seq<char>) -> Seq<char> {
    text.filter(|ch: char| ch != ' ')
}

/// A secret as it is read: its spaces taken out, then its letters made upper case.
pub open spec fn normalized(text: Seq<char>) -> Seq<char> {
    uppercase_of(without_spaces(text))
}

/// Takes the spaces out of a text.
pub fn strip_spaces(text: &str) -> (stripped: String)
    ensures
        stripped@ == without_spaces(text@),
{
    let mut stripped = String::new();
    for ch in it: text.chars()
        invariant
            it.seq() == text@,
            stripped@ == without_spaces(text@.take(it.index())),
    {
        proof {
            reveal(Seq::filter);
            assert(text@.take(it.index() + 1).drop_last() == text@.take(it.index()));
        }
        if ch != ' ' {
            stripped.push(ch);
        }
    }
    assert(text@.take(text@.len() as int) == text@);
    stripped
}

/// Reads a secret as it was typed: takes its spaces out and makes its letters upper case.
pub fn normalize(text: &str) -> (clean: String)
    ensures
        clean@ == normalized(text@),
{
    strip_spaces(text).as_str().to_uppercase()
}

} // verus!
