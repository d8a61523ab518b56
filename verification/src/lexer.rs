//! The lexer: scanners for each kind of token, the token at a position,
//! and the tokens of a whole text.
//!
//! A scanner takes the text as a slice of characters and a position in it,
//! and returns what the grammar says stands there. Positions past the end
//! are accepted and match nothing. The scanners that others build on also
//! state that the length of the text fits in `usize`, which the sums of
//! positions rest on.

use vstd::prelude::*;
use crate::chars::{chars_of, text_of, CharClass};
use crate::grammar::{
    char_at, comment_at, decimal_at, digits_end, escape_end, exponent_end, find, goto_label_at,
    has_at, hex_escape_end, hexnum_at, ident_at, keyword_at, keyword_words, lex, lexemes,
    long_close, matched, matched_end, multiline_comment_at, multiline_string_at, name_end,
    normalized, number_end, operator_at, operator_words, operators, run_end, simple_escape_end,
    string_at, string_body_end, string_delim_end, stands_at, symbol_at, symbol_words, token_at,
    unicode_escape_end, word_at, z_escape_end, Lexed, Lexeme,
};
use crate::lexer_laws::{contiguous, lemma_round_trip, lemma_symbol_nonempty, span_text};
use crate::operator::Operator;
use crate::token::{token_views, Token, TokenView};

verus! {

/// The end of the longest run of characters of `class` from `pos` on.
pub fn scan_run(input: &[char], pos: usize, class: CharClass) -> (end: usize)
    ensures
        end == run_end(input@, pos as int, class),
        pos <= end,
        pos <= input@.len() ==> end <= input@.len(),
        input@.len() <= usize::MAX,
{
    let mut end: usize = pos;
    while end < input.len() && class.contains(input[end])
        invariant
            pos <= end,
            pos <= input@.len() ==> end <= input@.len(),
            run_end(input@, pos as int, class) == run_end(input@, end as int, class),
        decreases input@.len() - end,
    {
        end += 1;
    }
    end
}

/// Whether the characters of `word` stand at `pos`.
pub fn starts_with(input: &[char], pos: usize, word: &[char]) -> (res: bool)
    ensures
        res == has_at(input@, pos as int, word@),
{
    if pos > input.len() || word.len() > input.len() - pos {
        return false;
    }
    let mut i: usize = 0;
    while i < word.len()
        invariant
            i <= word@.len(),
            pos + word@.len() <= input@.len() <= usize::MAX,
            forall|j: int| 0 <= j < i ==> input@[pos + j] == word@[j],
        decreases word@.len() - i,
    {
        if input[pos + i] != word[i] {
            assert(input@.subrange(pos as int, pos + word@.len())[i as int] != word@[i as int]);
            return false;
        }
        i += 1;
    }
    assert(input@.subrange(pos as int, pos + word@.len()) =~= word@);
    true
}

/// The position after `word`, where it stands at `pos`.
pub fn lex_tag(input: &[char], pos: usize, word: &str) -> (end: Option<usize>)
    ensures
        end is Some == has_at(input@, pos as int, word@),
        end matches Some(e) ==> e == pos + word@.len(),
        input@.len() <= usize::MAX,
{
    let word = chars_of(word);
    let len = input.len();
    if starts_with(input, pos, word.as_slice()) {
        assert(pos + word@.len() <= len);
        Some(pos + word.len())
    } else {
        None
    }
}

/// The position after the fixed spelling `word`, where it stands at `pos`
/// as a whole: a spelling made like a name does not stand where a letter,
/// a digit or `_` follows it.
pub fn lex_word(input: &[char], pos: usize, word: &str) -> (end: Option<usize>)
    ensures
        end is Some == stands_at(input@, pos as int, word@),
        end matches Some(e) ==> e == pos + word@.len() && e <= input@.len(),
        input@.len() <= usize::MAX,
{
    let word = chars_of(word);
    let len = input.len();
    if !starts_with(input, pos, word.as_slice()) {
        return None;
    }
    let end = pos + word.len();
    if word.len() > 0 && CharClass::NameStart.contains(word[0]) && end < len
        && CharClass::NamePart.contains(input[end]) {
        None
    } else {
        Some(end)
    }
}

/// The first position from `pos` on at which `word` stands.
pub fn scan_until(input: &[char], pos: usize, word: &[char]) -> (res: Option<usize>)
    ensures
        end_view(res) == find(input@, pos as int, word@),
        res matches Some(at) ==> pos <= at && at + word@.len() <= input@.len(),
        input@.len() <= usize::MAX,
{
    if pos > input.len() || word.len() > input.len() - pos {
        return None;
    }
    let last = input.len() - word.len();
    let mut at: usize = pos;
    loop
        invariant
            pos <= at <= last,
            last == input@.len() - word@.len(),
            input@.len() <= usize::MAX,
            find(input@, pos as int, word@) == find(input@, at as int, word@),
        decreases last - at,
    {
        if starts_with(input, at, word) {
            return Some(at);
        }
        if at == last {
            assert(find(input@, at + 1, word@) is None);
            return None;
        }
        at += 1;
    }
}

/// The model of what a scanner of tokens returns.
pub open spec fn lexed_view(res: Option<(Token, usize)>) -> Lexed {
    match res {
        Some((token, end)) => Some((token@, end as int)),
        None => None,
    }
}

/// The model of what a scanner of positions returns.
pub open spec fn end_view(res: Option<usize>) -> Option<int> {
    match res {
        Some(end) => Some(end as int),
        None => None,
    }
}

/// Whether `c` stands at `pos`.
pub fn is_char_at(input: &[char], pos: usize, c: char) -> (res: bool)
    ensures
        res == char_at(input@, pos as int, c),
        input@.len() <= usize::MAX,
{
    pos < input.len() && input[pos] == c
}

/// A comment between `--[[` and the first `]]` after it.
pub fn lex_multiline_comment(input: &[char], pos: usize) -> (res: Option<(Token, usize)>)
    ensures
        lexed_view(res) == multiline_comment_at(input@, pos as int),
        res matches Some((_, end)) ==> pos < end <= input@.len(),
{
    proof {
        reveal_strlit("--[[");
        reveal_strlit("]]");
    }
    match lex_tag(input, pos, "--[[") {
        Some(open) => {
            let closing = chars_of("]]");
            match scan_until(input, open, closing.as_slice()) {
                Some(close) => Some((Token::Comment(text_of(input, open, close)), close + 2)),
                None => None,
            }
        },
        None => None,
    }
}

/// A long string: `[`, a level of `=` signs, `[`, and the text up to the
/// first closing bracket of the same level.
pub fn lex_multiline_string(input: &[char], pos: usize) -> (res: Option<(Token, usize)>)
    ensures
        lexed_view(res) == multiline_string_at(input@, pos as int),
        res matches Some((_, end)) ==> pos < end <= input@.len(),
{
    if !is_char_at(input, pos, '[') {
        return None;
    }
    let level_end = scan_run(input, pos + 1, CharClass::EqualsSign);
    if !is_char_at(input, level_end, '[') {
        return None;
    }
    let open = if is_char_at(input, level_end + 1, '\n') {
        level_end + 2
    } else {
        level_end + 1
    };
    let mut closing: Vec<char> = Vec::new();
    closing.push(']');
    let mut i: usize = pos + 1;
    while i < level_end
        invariant
            pos + 1 <= i <= level_end < input@.len(),
            closing@ == seq![']'] + input@.subrange(pos + 1, i as int),
        decreases level_end - i,
    {
        closing.push(input[i]);
        i += 1;
        assert(closing@ =~= seq![']'] + input@.subrange(pos + 1, i as int));
    }
    closing.push(']');
    assert(closing@ =~= long_close(input@.subrange(pos + 1, level_end as int)));
    match scan_until(input, open, closing.as_slice()) {
        Some(close) => Some((Token::String(text_of(input, open, close)), close + closing.len())),
        None => None,
    }
}

/// The end of the name that starts at `pos`.
pub fn name(input: &[char], pos: usize) -> (res: Option<usize>)
    ensures
        end_view(res) == name_end(input@, pos as int),
        res matches Some(end) ==> pos < end <= input@.len(),
{
    if pos < input.len() && CharClass::NameStart.contains(input[pos]) {
        Some(scan_run(input, pos + 1, CharClass::NamePart))
    } else {
        None
    }
}

/// An identifier: a name, whatever it spells.
pub fn lex_ident(input: &[char], pos: usize) -> (res: Option<(Token, usize)>)
    ensures
        lexed_view(res) == ident_at(input@, pos as int),
        res matches Some((_, end)) ==> pos < end <= input@.len(),
{
    match name(input, pos) {
        Some(end) => Some((Token::Ident(text_of(input, pos, end)), end)),
        None => None,
    }
}

/// A label: a name between `::` and `::`.
pub fn lex_goto_label(input: &[char], pos: usize) -> (res: Option<(Token, usize)>)
    ensures
        lexed_view(res) == goto_label_at(input@, pos as int),
        res matches Some((_, end)) ==> pos < end <= input@.len(),
{
    proof {
        reveal_strlit("::");
    }
    match lex_tag(input, pos, "::") {
        Some(start) => match name(input, start) {
            Some(end) => match lex_tag(input, end, "::") {
                Some(after) => Some((Token::GotoLabel(text_of(input, start, end)), after)),
                None => None,
            },
            None => None,
        },
        None => None,
    }
}

/// A comment from `--` to the end of the line. Its text may be empty; the
/// line feed is left.
pub fn lex_comment(input: &[char], pos: usize) -> (res: Option<(Token, usize)>)
    ensures
        lexed_view(res) == comment_at(input@, pos as int),
        res matches Some((_, end)) ==> pos < end <= input@.len(),
{
    proof {
        reveal_strlit("--");
    }
    match lex_tag(input, pos, "--") {
        Some(start) => {
            let end = scan_run(input, start, CharClass::NotNewline);
            Some((Token::Comment(text_of(input, start, end)), end))
        },
        None => None,
    }
}

/// Whether `c` is one of the characters of `set`.
pub fn is_one_of(set: &[char], c: char) -> (res: bool)
    ensures
        res == set@.contains(c),
{
    let mut i: usize = 0;
    while i < set.len()
        invariant
            i <= set@.len(),
            forall|j: int| 0 <= j < i ==> set@[j] != c,
        decreases set@.len() - i,
    {
        if set[i] == c {
            return true;
        }
        i += 1;
    }
    false
}

/// The digits of a number, in the class `digit`: digits, with a point and
/// more digits where both are there, or a point and digits.
pub fn lex_digits(input: &[char], pos: usize, digit: CharClass) -> (res: Option<usize>)
    ensures
        end_view(res) == digits_end(input@, pos as int, digit),
        res matches Some(end) ==> pos < end <= input@.len(),
{
    let whole = scan_run(input, pos, digit);
    let mut end = whole;
    if is_char_at(input, whole, '.') {
        let fraction = scan_run(input, whole + 1, digit);
        if fraction > whole + 1 {
            end = fraction;
        }
    }
    if end > pos {
        assert(pos <= input@.len()) by {
            if pos > input@.len() {
                assert(run_end(input@, pos as int, digit) == pos);
            }
        }
        Some(end)
    } else {
        None
    }
}

/// An exponent: one of `letters`, an optional sign, decimal digits.
pub fn lex_exponent(input: &[char], pos: usize, letters: &str) -> (res: Option<usize>)
    ensures
        end_view(res) == exponent_end(input@, pos as int, letters@),
        res matches Some(end) ==> pos < end <= input@.len(),
{
    let letters = chars_of(letters);
    if pos < input.len() && is_one_of(letters.as_slice(), input[pos]) {
        let digits = if is_char_at(input, pos + 1, '+') || is_char_at(input, pos + 1, '-') {
            pos + 2
        } else {
            pos + 1
        };
        let end = scan_run(input, digits, CharClass::Digit);
        if end > digits {
            Some(end)
        } else {
            None
        }
    } else {
        None
    }
}

/// Digits, and an exponent where one follows.
pub fn lex_number(input: &[char], pos: usize, digit: CharClass, letters: &str) -> (res: Option<
    usize,
>)
    ensures
        end_view(res) == number_end(input@, pos as int, digit, letters@),
        res matches Some(end) ==> pos < end <= input@.len(),
{
    match lex_digits(input, pos, digit) {
        Some(end) => match lex_exponent(input, end, letters) {
            Some(exponent) => Some(exponent),
            None => Some(end),
        },
        None => None,
    }
}

/// A hexadecimal number, as it is spelled.
pub fn lex_hexnum(input: &[char], pos: usize) -> (res: Option<(Token, usize)>)
    ensures
        lexed_view(res) == hexnum_at(input@, pos as int),
        res matches Some((_, end)) ==> pos < end <= input@.len(),
{
    proof {
        reveal_strlit("0x");
    }
    match lex_tag(input, pos, "0x") {
        Some(digits) => match lex_number(input, digits, CharClass::HexDigit, "pP") {
            Some(end) => Some((Token::Number(text_of(input, pos, end)), end)),
            None => None,
        },
        None => None,
    }
}

/// A decimal number, as it is spelled.
pub fn lex_decimal(input: &[char], pos: usize) -> (res: Option<(Token, usize)>)
    ensures
        lexed_view(res) == decimal_at(input@, pos as int),
        res matches Some((_, end)) ==> pos < end <= input@.len(),
{
    match lex_number(input, pos, CharClass::Digit, "eEpP") {
        Some(end) => Some((Token::Number(text_of(input, pos, end)), end)),
        None => None,
    }
}

/// The escape `\x` with its two hexadecimal digits.
pub fn lex_hex_string_escape(input: &[char], pos: usize) -> (res: Option<usize>)
    ensures
        end_view(res) == hex_escape_end(input@, pos as int),
        res matches Some(end) ==> pos < end <= input@.len(),
{
    proof {
        reveal_strlit("\\x");
    }
    match lex_tag(input, pos, "\\x") {
        Some(digits) => {
            if digits < input.len() && CharClass::HexDigit.contains(input[digits]) && digits + 1
                < input.len() && CharClass::HexDigit.contains(input[digits + 1]) {
                Some(digits + 2)
            } else {
                None
            }
        },
        None => None,
    }
}

/// The escape `\u{..}` with one or more hexadecimal digits in the braces.
pub fn lex_unicode_string_escape(input: &[char], pos: usize) -> (res: Option<usize>)
    ensures
        end_view(res) == unicode_escape_end(input@, pos as int),
        res matches Some(end) ==> pos < end <= input@.len(),
{
    proof {
        reveal_strlit("\\u{");
    }
    match lex_tag(input, pos, "\\u{") {
        Some(start) => {
            let digits = scan_run(input, start, CharClass::HexDigit);
            if digits > start && is_char_at(input, digits, '}') {
                Some(digits + 1)
            } else {
                None
            }
        },
        None => None,
    }
}

/// A backslash and one of `a b f n r t v ' " \`.
pub fn lex_string_escape(input: &[char], pos: usize) -> (res: Option<usize>)
    ensures
        end_view(res) == simple_escape_end(input@, pos as int),
        res matches Some(end) ==> pos < end <= input@.len(),
{
    if is_char_at(input, pos, '\\') && pos + 1 < input.len() {
        let c = input[pos + 1];
        if c == 'a' || c == 'b' || c == 'f' || c == 'n' || c == 'r' || c == 't' || c == 'v' || c
            == '\'' || c == '"' || c == '\\' {
            Some(pos + 2)
        } else {
            None
        }
    } else {
        None
    }
}

/// The escape `\z` with the spaces, tabs and line ends after it.
pub fn lex_z_escape(input: &[char], pos: usize) -> (res: Option<usize>)
    ensures
        end_view(res) == z_escape_end(input@, pos as int),
        res matches Some(end) ==> pos < end <= input@.len(),
{
    proof {
        reveal_strlit("\\z");
    }
    match lex_tag(input, pos, "\\z") {
        Some(start) => Some(scan_run(input, start, CharClass::Space)),
        None => None,
    }
}

/// Any escape.
pub fn lex_escape(input: &[char], pos: usize) -> (res: Option<usize>)
    ensures
        end_view(res) == escape_end(input@, pos as int),
        res matches Some(end) ==> pos < end <= input@.len(),
{
    if let Some(end) = lex_hex_string_escape(input, pos) {
        return Some(end);
    }
    if let Some(end) = lex_unicode_string_escape(input, pos) {
        return Some(end);
    }
    if let Some(end) = lex_string_escape(input, pos) {
        return Some(end);
    }
    lex_z_escape(input, pos)
}

/// A string between two `quote` characters; the position after the
/// closing one.
pub fn lex_string_delim(input: &[char], pos: usize, quote: char) -> (res: Option<usize>)
    ensures
        end_view(res) == string_delim_end(input@, pos as int, quote),
        res matches Some(end) ==> pos + 1 < end <= input@.len(),
{
    if !is_char_at(input, pos, quote) {
        return None;
    }
    let mut at: usize = pos + 1;
    let mut open = true;
    while open
        invariant
            pos < at <= input@.len() <= usize::MAX,
            string_body_end(input@, pos + 1, quote) == string_body_end(input@, at as int, quote),
            !open ==> string_body_end(input@, at as int, quote) == at,
        decreases input@.len() - at, open as int,
    {
        if at < input.len() && input[at] != quote && input[at] != '\\' && input[at] != '\n' {
            at += 1;
        } else {
            match lex_escape(input, at) {
                Some(end) => {
                    at = end;
                },
                None => {
                    open = false;
                },
            }
        }
    }
    if is_char_at(input, at, quote) {
        Some(at + 1)
    } else {
        None
    }
}

/// A string in double or in single quotes, with the text between the
/// quotes as it is spelled.
pub fn lex_string(input: &[char], pos: usize) -> (res: Option<(Token, usize)>)
    ensures
        lexed_view(res) == string_at(input@, pos as int),
        res matches Some((_, end)) ==> pos < end <= input@.len(),
{
    let end = match lex_string_delim(input, pos, '"') {
        Some(end) => Some(end),
        None => lex_string_delim(input, pos, '\''),
    };
    match end {
        Some(end) => Some((Token::String(text_of(input, pos + 1, end - 1)), end)),
        None => None,
    }
}

/// The operator with number `i` in the order in which they are tried.
fn operator_entry(i: usize) -> (op: Operator)
    requires
        i < 17,
    ensures
        operators().len() == 17,
        op == operators()[i as int],
        op.spec_symbol().len() > 0,
{
    let op = match i {
        0 => Operator::Or,
        1 => Operator::And,
        2 => Operator::Eq,
        3 => Operator::Neq,
        4 => Operator::Le,
        5 => Operator::Ge,
        6 => Operator::Lt,
        7 => Operator::Gt,
        8 => Operator::Concat,
        9 => Operator::Add,
        10 => Operator::Sub,
        11 => Operator::Mul,
        12 => Operator::Div,
        13 => Operator::Mod,
        14 => Operator::Not,
        15 => Operator::Len,
        _ => Operator::Pow,
    };
    proof {
        lemma_symbol_nonempty(op);
    }
    op
}

/// The punctuation sign with number `i` in the order in which they are
/// tried, and its spelling.
fn symbol_entry(i: usize) -> (entry: (Token, &'static str))
    requires
        i < 11,
    ensures
        symbol_words().len() == 11,
        (entry.0@, entry.1@) == symbol_words()[i as int],
        entry.1@.len() > 0,
{
    proof {
        reveal_strlit("(");
        reveal_strlit(")");
        reveal_strlit("{");
        reveal_strlit("}");
        reveal_strlit("[");
        reveal_strlit("]");
        reveal_strlit("=");
        reveal_strlit(":");
        reveal_strlit(",");
        reveal_strlit(".");
        reveal_strlit("...");
    }
    match i {
        0 => (Token::LParen, "("),
        1 => (Token::RParen, ")"),
        2 => (Token::LCurly, "{"),
        3 => (Token::RCurly, "}"),
        4 => (Token::LSquare, "["),
        5 => (Token::RSquare, "]"),
        6 => (Token::Equals, "="),
        7 => (Token::Colon, ":"),
        8 => (Token::Comma, ","),
        9 => (Token::DotDotDot, "..."),
        _ => (Token::Dot, "."),
    }
}

/// The keyword with number `i` in the order in which they are tried, and
/// its spelling.
fn keyword_entry(i: usize) -> (entry: (Token, &'static str))
    requires
        i < 19,
    ensures
        keyword_words().len() == 19,
        (entry.0@, entry.1@) == keyword_words()[i as int],
        entry.1@.len() > 0,
{
    proof {
        reveal_strlit("break");
        reveal_strlit("do");
        reveal_strlit("else");
        reveal_strlit("elseif");
        reveal_strlit("end");
        reveal_strlit("for");
        reveal_strlit("function");
        reveal_strlit("goto");
        reveal_strlit("if");
        reveal_strlit("in");
        reveal_strlit("local");
        reveal_strlit("nil");
        reveal_strlit("repeat");
        reveal_strlit("return");
        reveal_strlit("then");
        reveal_strlit("until");
        reveal_strlit("while");
        reveal_strlit("true");
        reveal_strlit("false");
    }
    match i {
        0 => (Token::Break, "break"),
        1 => (Token::Do, "do"),
        2 => (Token::Else, "else"),
        3 => (Token::ElseIf, "elseif"),
        4 => (Token::End, "end"),
        5 => (Token::For, "for"),
        6 => (Token::Function, "function"),
        7 => (Token::Goto, "goto"),
        8 => (Token::If, "if"),
        9 => (Token::In, "in"),
        10 => (Token::Local, "local"),
        11 => (Token::Nil, "nil"),
        12 => (Token::Repeat, "repeat"),
        13 => (Token::Return, "return"),
        14 => (Token::Then, "then"),
        15 => (Token::Until, "until"),
        16 => (Token::While, "while"),
        17 => (Token::Bool(true), "true"),
        _ => (Token::Bool(false), "false"),
    }
}

/// The first operator, in the order of [`operators`], whose spelling
/// stands at `pos`; `or`, `and` and `not` only as whole words.
pub fn lex_operator(input: &[char], pos: usize) -> (res: Option<(Token, usize)>)
    ensures
        lexed_view(res) == operator_at(input@, pos as int),
        res matches Some((_, end)) ==> pos < end <= input@.len(),
{
    let mut i: usize = 0;
    while i < 17
        invariant
            i <= 17,
            operators().len() == 17,
            operator_at(input@, pos as int) == word_at(
                input@,
                pos as int,
                operator_words(),
                i as int,
            ),
        decreases 17 - i,
    {
        let op = operator_entry(i);
        if let Some(end) = lex_word(input, pos, op.to_symbol()) {
            return Some((Token::Operator(op), end));
        }
        i += 1;
    }
    None
}

/// The first punctuation sign, in the order of [`symbol_words`], that
/// stands at `pos`.
pub fn lex_symbol(input: &[char], pos: usize) -> (res: Option<(Token, usize)>)
    ensures
        lexed_view(res) == symbol_at(input@, pos as int),
        res matches Some((_, end)) ==> pos < end <= input@.len(),
{
    let mut i: usize = 0;
    while i < 11
        invariant
            i <= 11,
            symbol_words().len() == 11,
            symbol_at(input@, pos as int) == word_at(input@, pos as int, symbol_words(), i as int),
        decreases 11 - i,
    {
        let (token, word) = symbol_entry(i);
        if let Some(end) = lex_word(input, pos, word) {
            return Some((token, end));
        }
        i += 1;
    }
    None
}

/// The first keyword, in the order of [`keyword_words`], that stands at
/// `pos` as a whole word.
pub fn lex_keyword(input: &[char], pos: usize) -> (res: Option<(Token, usize)>)
    ensures
        lexed_view(res) == keyword_at(input@, pos as int),
        res matches Some((_, end)) ==> pos < end <= input@.len(),
{
    let mut i: usize = 0;
    while i < 19
        invariant
            i <= 19,
            keyword_words().len() == 19,
            keyword_at(input@, pos as int) == word_at(
                input@,
                pos as int,
                keyword_words(),
                i as int,
            ),
        decreases 19 - i,
    {
        let (token, word) = keyword_entry(i);
        if let Some(end) = lex_word(input, pos, word) {
            return Some((token, end));
        }
        i += 1;
    }
    None
}

/// The token that stands at `pos`, and the position after it: the first
/// kind that matches there, tried in the order of [`token_at`].
pub fn lex_token(input: &[char], pos: usize) -> (res: Option<(Token, usize)>)
    ensures
        lexed_view(res) == token_at(input@, pos as int),
        res matches Some((_, end)) ==> pos < end <= input@.len(),
{
    if is_char_at(input, pos, '\n') {
        return Some((Token::LineBreak, pos + 1));
    }
    if let Some(found) = lex_multiline_comment(input, pos) {
        return Some(found);
    }
    if let Some(found) = lex_multiline_string(input, pos) {
        return Some(found);
    }
    if let Some(found) = lex_goto_label(input, pos) {
        return Some(found);
    }
    if let Some(found) = lex_comment(input, pos) {
        return Some(found);
    }
    if let Some(found) = lex_hexnum(input, pos) {
        return Some(found);
    }
    if let Some(found) = lex_decimal(input, pos) {
        return Some(found);
    }
    if let Some(found) = lex_string(input, pos) {
        return Some(found);
    }
    if let Some(found) = lex_operator(input, pos) {
        return Some(found);
    }
    if let Some(found) = lex_symbol(input, pos) {
        return Some(found);
    }
    if let Some(found) = lex_keyword(input, pos) {
        return Some(found);
    }
    lex_ident(input, pos)
}

/// The stretch of the text that a token was made from, blanks around it
/// included.
#[derive(Clone, Copy, Debug, PartialEq, Eq, Structural)]
pub struct Span {
    pub start: usize,
    pub end: usize,
}

/// Tokens and their spans, side by side, as lexemes.
pub open spec fn lexeme_views(tokens: Seq<Token>, spans: Seq<Span>) -> Seq<Lexeme> {
    Seq::new(
        tokens.len(),
        |i: int| Lexeme { token: tokens[i]@, start: spans[i].start as int, end: spans[i].end as int },
    )
}

/// The tokens that stand one after another from the start of `input`, each
/// with its span, and the position at which they stop matching.
pub fn lex_clean(input: &[char]) -> (res: (usize, Vec<Token>, Vec<Span>))
    ensures
        res.0 == matched_end(input@, 0),
        res.0 <= input@.len(),
        res.1@.len() == res.2@.len(),
        lexeme_views(res.1@, res.2@) == matched(input@, 0),
{
    let mut tokens: Vec<Token> = Vec::new();
    let mut spans: Vec<Span> = Vec::new();
    let mut pos: usize = 0;
    let mut open = true;
    while open
        invariant
            pos <= input@.len(),
            tokens@.len() == spans@.len(),
            matched(input@, 0) == lexeme_views(tokens@, spans@) + matched(input@, pos as int),
            matched_end(input@, 0) == matched_end(input@, pos as int),
            !open ==> matched(input@, pos as int) == Seq::<Lexeme>::empty() && matched_end(
                input@,
                pos as int,
            ) == pos,
        decreases input@.len() - pos, open as int,
    {
        let start = scan_run(input, pos, CharClass::Blank);
        match lex_token(input, start) {
            Some((token, end)) => {
                let next = scan_run(input, end, CharClass::Blank);
                let ghost before = lexeme_views(tokens@, spans@);
                let ghost lexeme = Lexeme { token: token@, start: pos as int, end: next as int };
                tokens.push(token);
                spans.push(Span { start: pos, end: next });
                assert(lexeme_views(tokens@, spans@) =~= before.push(lexeme));
                assert(before + (seq![lexeme] + matched(input@, next as int)) =~= before.push(
                    lexeme,
                ) + matched(input@, next as int));
                pos = next;
            },
            None => {
                open = false;
            },
        }
    }
    assert(lexeme_views(tokens@, spans@) + Seq::<Lexeme>::empty() =~= lexeme_views(
        tokens@,
        spans@,
    ));
    (pos, tokens, spans)
}

/// The text with every line end as one line feed.
pub fn normalize_line_endings(input: &[char]) -> (clean: Vec<char>)
    ensures
        clean@ == normalized(input@),
{
    let mut clean: Vec<char> = Vec::new();
    let mut i: usize = 0;
    let len = input.len();
    assert(input@.subrange(0, len as int) =~= input@);
    while i < len
        invariant
            i <= len == input@.len(),
            normalized(input@) == clean@ + normalized(input@.subrange(i as int, len as int)),
        decreases len - i,
    {
        let ghost rest = input@.subrange(i as int, len as int);
        let ghost before = clean@;
        if input[i] == '\r' {
            clean.push('\n');
            if i + 1 < len && input[i + 1] == '\n' {
                assert(rest.subrange(2, rest.len() as int) =~= input@.subrange(i + 2, len as int));
                i += 2;
            } else {
                assert(rest.subrange(1, rest.len() as int) =~= input@.subrange(i + 1, len as int));
                i += 1;
            }
            assert(before + (seq!['\n'] + normalized(input@.subrange(i as int, len as int)))
                =~= clean@ + normalized(input@.subrange(i as int, len as int)));
        } else {
            clean.push(input[i]);
            assert(rest.subrange(1, rest.len() as int) =~= input@.subrange(i + 1, len as int));
            i += 1;
            assert(before + (seq![rest[0]] + normalized(input@.subrange(i as int, len as int)))
                =~= clean@ + normalized(input@.subrange(i as int, len as int)));
        }
    }
    assert(clean@ + Seq::<char>::empty() =~= clean@);
    clean
}

/// The tokens of a text, each with its span in the text after its line
/// ends were made line feeds. The spans follow one another from the start
/// of that text to its end. Where no token matches at some place, one last
/// `Unknown` token carries all that is left from there.
pub fn lex_with_spans(input: &str) -> (res: (Vec<Token>, Vec<Span>))
    ensures
        res.0@.len() == res.1@.len(),
        lexeme_views(res.0@, res.1@) == lexemes(normalized(input@)),
        contiguous(lexeme_views(res.0@, res.1@), 0, normalized(input@).len() as int),
        span_text(normalized(input@), lexeme_views(res.0@, res.1@)) == normalized(input@),
{
    proof {
        lemma_round_trip(normalized(input@));
    }
    let chars = chars_of(input);
    let clean = normalize_line_endings(chars.as_slice());
    let (stop, tokens, spans) = lex_clean(clean.as_slice());
    let mut tokens = tokens;
    let mut spans = spans;
    if stop < clean.len() {
        let ghost before = lexeme_views(tokens@, spans@);
        tokens.push(Token::Unknown(text_of(clean.as_slice(), stop, clean.len())));
        spans.push(Span { start: stop, end: clean.len() });
        assert(lexeme_views(tokens@, spans@) =~= before.push(
            Lexeme {
                token: TokenView::Unknown(clean@.subrange(stop as int, clean@.len() as int)),
                start: stop as int,
                end: clean@.len() as int,
            },
        ));
    }
    (tokens, spans)
}

/// The tokens of a text. It never fails: where no token matches at some
/// place, the tokens before it are kept and one last `Unknown` token
/// carries all that is left from there.
pub fn lex_tokens(input: &str) -> (tokens: Vec<Token>)
    ensures
        token_views(tokens@) == lex(normalized(input@)),
{
    let (tokens, spans) = lex_with_spans(input);
    assert(token_views(tokens@) =~= lex(normalized(input@)));
    tokens
}

} // verus!
