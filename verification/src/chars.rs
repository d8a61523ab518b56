//! Characters: the classes that the grammar is made of, and the passage
//! between text and sequences of characters.

use vstd::prelude::*;

verus! {

/// An ASCII letter.
pub open spec fn is_alpha(c: char) -> bool {
    ('a' <= c && c <= 'z') || ('A' <= c && c <= 'Z')
}

/// An ASCII decimal digit.
pub open spec fn is_digit(c: char) -> bool {
    '0' <= c && c <= '9'
}

/// An ASCII hexadecimal digit, in either case.
pub open spec fn is_hex_digit(c: char) -> bool {
    is_digit(c) || ('a' <= c && c <= 'f') || ('A' <= c && c <= 'F')
}

/// `nom::AsChar::is_alpha` on a `char`: true of the ASCII letters and of
/// nothing else.
#[verifier::external_body]
fn nom_is_alpha(c: char) -> (res: bool)
    ensures
        res == is_alpha(c),
{
    nom::AsChar::is_alpha(c)
}

/// `nom::AsChar::is_alphanum` on a `char`: true of the ASCII letters and
/// decimal digits and of nothing else.
#[verifier::external_body]
fn nom_is_alphanum(c: char) -> (res: bool)
    ensures
        res == (is_alpha(c) || is_digit(c)),
{
    nom::AsChar::is_alphanum(c)
}

/// `nom::AsChar::is_dec_digit` on a `char`: true of `0` to `9` and of
/// nothing else.
#[verifier::external_body]
fn nom_is_dec_digit(c: char) -> (res: bool)
    ensures
        res == is_digit(c),
{
    nom::AsChar::is_dec_digit(c)
}

/// `nom::AsChar::is_hex_digit` on a `char`: true of `0` to `9`, `a` to `f`
/// and `A` to `F`, and of nothing else.
#[verifier::external_body]
fn nom_is_hex_digit(c: char) -> (res: bool)
    ensures
        res == is_hex_digit(c),
{
    nom::AsChar::is_hex_digit(c)
}

/// A set of characters that the grammar takes runs of.
#[derive(Clone, Copy, Debug, PartialEq, Eq, Structural)]
pub enum CharClass {
    /// Space and tab.
    Blank,
    /// Space, tab, carriage return and line feed.
    Space,
    Digit,
    HexDigit,
    /// A letter or `_`: what a name starts with.
    NameStart,
    /// A letter, a digit or `_`: what a name goes on with.
    NamePart,
    /// Anything but a line feed.
    NotNewline,
    /// The sign `=`.
    EqualsSign,
}

impl CharClass {
    pub open spec fn has(self, c: char) -> bool {
        match self {
            CharClass::Blank => c == ' ' || c == '\t',
            CharClass::Space => c == ' ' || c == '\t' || c == '\r' || c == '\n',
            CharClass::Digit => is_digit(c),
            CharClass::HexDigit => is_hex_digit(c),
            CharClass::NameStart => is_alpha(c) || c == '_',
            CharClass::NamePart => is_alpha(c) || is_digit(c) || c == '_',
            CharClass::NotNewline => c != '\n',
            CharClass::EqualsSign => c == '=',
        }
    }

    pub fn contains(&self, c: char) -> (res: bool)
        ensures
            res == self.has(c),
    {
        match self {
            CharClass::Blank => c == ' ' || c == '\t',
            CharClass::Space => c == ' ' || c == '\t' || c == '\r' || c == '\n',
            CharClass::Digit => nom_is_dec_digit(c),
            CharClass::HexDigit => nom_is_hex_digit(c),
            CharClass::NameStart => nom_is_alpha(c) || c == '_',
            CharClass::NamePart => nom_is_alphanum(c) || c == '_',
            CharClass::NotNewline => c != '\n',
            CharClass::EqualsSign => c == '=',
        }
    }
}

/// `String::push`: the character is appended to the end of the string.
pub assume_specification[ std::string::String::push ](s: &mut std::string::String, ch: char)
    ensures
        final(s)@ == old(s)@.push(ch),
;

/// The characters of `chars` from `from` up to `to`, as a string.
pub fn text_of(chars: &[char], from: usize, to: usize) -> (text: String)
    requires
        from <= to <= chars@.len(),
    ensures
        text@ == chars@.subrange(from as int, to as int),
{
    let mut text = String::new();
    let mut i: usize = from;
    while i < to
        invariant
            from <= i <= to <= chars@.len(),
            text@ == chars@.subrange(from as int, i as int),
        decreases to - i,
    {
        text.push(chars[i]);
        i += 1;
        assert(text@ =~= chars@.subrange(from as int, i as int));
    }
    text
}

/// The characters of a text, in order.
pub fn chars_of(text: &str) -> (chars: Vec<char>)
    ensures
        chars@ == text@,
{
    let mut chars: Vec<char> = Vec::new();
    for c in it: text.chars()
        invariant
            chars@ == it.seq().take(it.index()),
            it.seq() == text@,
    {
        chars.push(c);
    }
    chars
}

} // verus!
