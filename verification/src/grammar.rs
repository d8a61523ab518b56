//! The lexical grammar, as functions of a sequence of characters and a
//! position in it. A function named `.._at` gives the token that stands at
//! the position together with the position after it, or `None`; one named
//! `.._end` gives only the position after what it matches.

use vstd::prelude::*;
use crate::chars::CharClass;
use crate::operator::Operator;
use crate::token::TokenView;

verus! {

/// A token and the position after it.
pub type Lexed = Option<(TokenView, int)>;

/// The first of two results that is one.
pub open spec fn or_else<T>(first: Option<T>, second: Option<T>) -> Option<T> {
    if first is Some {
        first
    } else {
        second
    }
}

/// Whether the character `c` stands at position `p`.
pub open spec fn char_at(s: Seq<char>, p: int, c: char) -> bool {
    0 <= p < s.len() && s[p] == c
}

/// Whether a character of the class stands at position `p`.
pub open spec fn class_at(s: Seq<char>, p: int, class: CharClass) -> bool {
    0 <= p < s.len() && class.has(s[p])
}

/// Whether `word` stands at position `p`.
pub open spec fn has_at(s: Seq<char>, p: int, word: Seq<char>) -> bool {
    0 <= p && p + word.len() <= s.len() && s.subrange(p, p + word.len()) == word
}

/// The end of the longest run of characters of the class that starts at
/// `p`; `p` itself where there is none.
pub open spec fn run_end(s: Seq<char>, p: int, class: CharClass) -> int
    decreases s.len() - p,
{
    if class_at(s, p, class) {
        run_end(s, p + 1, class)
    } else {
        p
    }
}

/// The first position from `p` on at which `word` stands.
pub open spec fn find(s: Seq<char>, p: int, word: Seq<char>) -> Option<int>
    decreases s.len() - p,
{
    if p < 0 || p + word.len() > s.len() {
        None
    } else if has_at(s, p, word) {
        Some(p)
    } else if p < s.len() {
        find(s, p + 1, word)
    } else {
        None
    }
}

/// A line feed.
pub open spec fn line_break_at(s: Seq<char>, p: int) -> Lexed {
    if char_at(s, p, '\n') {
        Some((TokenView::LineBreak, p + 1))
    } else {
        None
    }
}

/// `--[[`, then anything up to the first `]]`. The token carries the text
/// between the two.
pub open spec fn multiline_comment_at(s: Seq<char>, p: int) -> Lexed {
    if has_at(s, p, "--[["@) {
        match find(s, p + 4, "]]"@) {
            Some(close) => Some((TokenView::Comment(s.subrange(p + 4, close)), close + 2)),
            None => None,
        }
    } else {
        None
    }
}

/// The closing bracket of a long string that was opened with `level`.
pub open spec fn long_close(level: Seq<char>) -> Seq<char> {
    seq![']'] + level + seq![']']
}

/// `[`, any number of `=`, `[`; then anything up to the first `]`, as many
/// `=`, `]`. A line feed right after the opening bracket is no part of the
/// text that the token carries.
pub open spec fn multiline_string_at(s: Seq<char>, p: int) -> Lexed {
    let level_end = run_end(s, p + 1, CharClass::EqualsSign);
    if char_at(s, p, '[') && char_at(s, level_end, '[') {
        let open = if char_at(s, level_end + 1, '\n') {
            level_end + 2
        } else {
            level_end + 1
        };
        let closing = long_close(s.subrange(p + 1, level_end));
        match find(s, open, closing) {
            Some(close) => Some(
                (TokenView::String(s.subrange(open, close)), close + closing.len()),
            ),
            None => None,
        }
    } else {
        None
    }
}

/// A name: a letter or `_`, then letters, digits and `_` as far as they go.
pub open spec fn name_end(s: Seq<char>, p: int) -> Option<int> {
    if class_at(s, p, CharClass::NameStart) {
        Some(run_end(s, p + 1, CharClass::NamePart))
    } else {
        None
    }
}

/// Whether the whole of `s` is one name.
pub open spec fn is_name(s: Seq<char>) -> bool {
    name_end(s, 0) == Some(s.len() as int)
}

/// A name between `::` and `::`.
pub open spec fn goto_label_at(s: Seq<char>, p: int) -> Lexed {
    if has_at(s, p, "::"@) {
        match name_end(s, p + 2) {
            Some(end) => if has_at(s, end, "::"@) {
                Some((TokenView::GotoLabel(s.subrange(p + 2, end)), end + 2))
            } else {
                None
            },
            None => None,
        }
    } else {
        None
    }
}

/// `--`, then everything up to the end of the line. The token carries what
/// follows the dashes, which may be nothing; the line feed is left.
pub open spec fn comment_at(s: Seq<char>, p: int) -> Lexed {
    let end = run_end(s, p + 2, CharClass::NotNewline);
    if has_at(s, p, "--"@) {
        Some((TokenView::Comment(s.subrange(p + 2, end)), end))
    } else {
        None
    }
}

/// The digits of a number: digits, with a point and more digits after them
/// where both are there, or a point followed by digits. A point belongs to
/// the number only where a digit follows it: in `1.` and in `1..2` the
/// number is `1`.
pub open spec fn digits_end(s: Seq<char>, p: int, digit: CharClass) -> Option<int> {
    let whole = run_end(s, p, digit);
    let fraction = run_end(s, whole + 1, digit);
    let end = if char_at(s, whole, '.') && fraction > whole + 1 {
        fraction
    } else {
        whole
    };
    if end > p {
        Some(end)
    } else {
        None
    }
}

/// An exponent: one of `letters`, an optional sign, decimal digits.
pub open spec fn exponent_end(s: Seq<char>, p: int, letters: Seq<char>) -> Option<int> {
    let digits = if char_at(s, p + 1, '+') || char_at(s, p + 1, '-') {
        p + 2
    } else {
        p + 1
    };
    let end = run_end(s, digits, CharClass::Digit);
    if 0 <= p < s.len() && letters.contains(s[p]) && end > digits {
        Some(end)
    } else {
        None
    }
}

/// Digits and, where one follows, an exponent.
pub open spec fn number_end(s: Seq<char>, p: int, digit: CharClass, letters: Seq<char>) -> Option<
    int,
> {
    match digits_end(s, p, digit) {
        Some(end) => Some(
            match exponent_end(s, end, letters) {
                Some(exponent) => exponent,
                None => end,
            },
        ),
        None => None,
    }
}

/// `0x`, hexadecimal digits and an optional exponent after `p` or `P`. The
/// token carries the literal as it is spelled.
pub open spec fn hexnum_at(s: Seq<char>, p: int) -> Lexed {
    if has_at(s, p, "0x"@) {
        match number_end(s, p + 2, CharClass::HexDigit, "pP"@) {
            Some(end) => Some((TokenView::Number(s.subrange(p, end)), end)),
            None => None,
        }
    } else {
        None
    }
}

/// Decimal digits and an optional exponent after `e`, `E`, `p` or `P`. The
/// token carries the literal as it is spelled.
pub open spec fn decimal_at(s: Seq<char>, p: int) -> Lexed {
    match number_end(s, p, CharClass::Digit, "eEpP"@) {
        Some(end) => if 0 <= p {
            Some((TokenView::Number(s.subrange(p, end)), end))
        } else {
            None
        },
        None => None,
    }
}

/// `\x` and two hexadecimal digits.
pub open spec fn hex_escape_end(s: Seq<char>, p: int) -> Option<int> {
    if has_at(s, p, "\\x"@) && class_at(s, p + 2, CharClass::HexDigit) && class_at(
        s,
        p + 3,
        CharClass::HexDigit,
    ) {
        Some(p + 4)
    } else {
        None
    }
}

/// `\u{`, one or more hexadecimal digits, `}`.
pub open spec fn unicode_escape_end(s: Seq<char>, p: int) -> Option<int> {
    let digits = run_end(s, p + 3, CharClass::HexDigit);
    if has_at(s, p, "\\u{"@) && digits > p + 3 && char_at(s, digits, '}') {
        Some(digits + 1)
    } else {
        None
    }
}

/// The characters that may follow a backslash by themselves.
pub open spec fn is_simple_escape(c: char) -> bool {
    c == 'a' || c == 'b' || c == 'f' || c == 'n' || c == 'r' || c == 't' || c == 'v' || c == '\''
        || c == '"' || c == '\\'
}

/// A backslash and one of `a b f n r t v ' " \`.
pub open spec fn simple_escape_end(s: Seq<char>, p: int) -> Option<int> {
    if char_at(s, p, '\\') && 0 <= p + 1 < s.len() && is_simple_escape(s[p + 1]) {
        Some(p + 2)
    } else {
        None
    }
}

/// `\z` and the spaces, tabs and line ends that follow it.
pub open spec fn z_escape_end(s: Seq<char>, p: int) -> Option<int> {
    if has_at(s, p, "\\z"@) {
        Some(run_end(s, p + 2, CharClass::Space))
    } else {
        None
    }
}

/// Any of the escapes.
pub open spec fn escape_end(s: Seq<char>, p: int) -> Option<int> {
    or_else(
        hex_escape_end(s, p),
        or_else(unicode_escape_end(s, p), or_else(simple_escape_end(s, p), z_escape_end(s, p))),
    )
}

/// Whether the character may stand in a string by itself: any but the
/// quote, the backslash and the line feed.
pub open spec fn is_plain(c: char, quote: char) -> bool {
    c != quote && c != '\\' && c != '\n'
}

/// The end of the contents of a string: plain characters and escapes as
/// far as they go. An escape always ends after its start and within the
/// text; the test on `end` lets the recursion be seen to end.
pub open spec fn string_body_end(s: Seq<char>, p: int, quote: char) -> int
    decreases s.len() - p,
{
    if 0 <= p < s.len() && is_plain(s[p], quote) {
        string_body_end(s, p + 1, quote)
    } else {
        match escape_end(s, p) {
            Some(end) => if p < end <= s.len() {
                string_body_end(s, end, quote)
            } else {
                p
            },
            None => p,
        }
    }
}

/// A quote, the contents, and the same quote; the position after it.
pub open spec fn string_delim_end(s: Seq<char>, p: int, quote: char) -> Option<int> {
    let close = string_body_end(s, p + 1, quote);
    if char_at(s, p, quote) && char_at(s, close, quote) {
        Some(close + 1)
    } else {
        None
    }
}

/// A string in double or in single quotes. The token carries the text
/// between the quotes as it is spelled, escapes included.
pub open spec fn string_at(s: Seq<char>, p: int) -> Lexed {
    match or_else(string_delim_end(s, p, '"'), string_delim_end(s, p, '\'')) {
        Some(end) => Some((TokenView::String(s.subrange(p + 1, end - 1)), end)),
        None => None,
    }
}

/// A table of fixed spellings, each with its token, in the order in which
/// they are tried.
pub type Words = Seq<(TokenView, Seq<char>)>;

/// Whether the spelling is made like a name: it starts with a letter or
/// `_`. The keywords and the operators `or`, `and` and `not` are.
pub open spec fn is_wordy(word: Seq<char>) -> bool {
    word.len() > 0 && CharClass::NameStart.has(word[0])
}

/// Whether the fixed spelling `word` stands at `p` as a whole: its
/// characters stand there and, where it is made like a name, no letter,
/// digit or `_` follows it. So `for` stands in `for x` and not in `format`.
pub open spec fn stands_at(s: Seq<char>, p: int, word: Seq<char>) -> bool {
    has_at(s, p, word) && (is_wordy(word) ==> !class_at(s, p + word.len(), CharClass::NamePart))
}

/// The first entry of the table, from entry `from` on, whose spelling
/// stands at `p` as a whole.
pub open spec fn word_at(s: Seq<char>, p: int, words: Words, from: int) -> Lexed
    decreases words.len() - from,
{
    if from < 0 || from >= words.len() {
        None
    } else if stands_at(s, p, words[from].1) {
        Some((words[from].0, p + words[from].1.len()))
    } else {
        word_at(s, p, words, from + 1)
    }
}

/// The operators that have a spelling of their own, in the order in which
/// they are tried. The prefix minus is not among them: a `-` is `Sub`.
pub open spec fn operators() -> Seq<Operator> {
    seq![
        Operator::Or,
        Operator::And,
        Operator::Eq,
        Operator::Neq,
        Operator::Le,
        Operator::Ge,
        Operator::Lt,
        Operator::Gt,
        Operator::Concat,
        Operator::Add,
        Operator::Sub,
        Operator::Mul,
        Operator::Div,
        Operator::Mod,
        Operator::Not,
        Operator::Len,
        Operator::Pow,
    ]
}

/// The operators with their spellings, in the order in which they are
/// tried.
pub open spec fn operator_words() -> Words {
    Seq::new(
        operators().len(),
        |i: int| (TokenView::Operator(operators()[i]), operators()[i].spec_symbol()),
    )
}

/// The punctuation signs with their spellings, in the order in which they
/// are tried: the three points before the one.
pub open spec fn symbol_words() -> Words {
    seq![
        (TokenView::LParen, "("@),
        (TokenView::RParen, ")"@),
        (TokenView::LCurly, "{"@),
        (TokenView::RCurly, "}"@),
        (TokenView::LSquare, "["@),
        (TokenView::RSquare, "]"@),
        (TokenView::Equals, "="@),
        (TokenView::Colon, ":"@),
        (TokenView::Comma, ","@),
        (TokenView::DotDotDot, "..."@),
        (TokenView::Dot, "."@),
    ]
}

/// The keywords and the two truth values with their spellings, in the
/// order in which they are tried.
pub open spec fn keyword_words() -> Words {
    seq![
        (TokenView::Break, "break"@),
        (TokenView::Do, "do"@),
        (TokenView::Else, "else"@),
        (TokenView::ElseIf, "elseif"@),
        (TokenView::End, "end"@),
        (TokenView::For, "for"@),
        (TokenView::Function, "function"@),
        (TokenView::Goto, "goto"@),
        (TokenView::If, "if"@),
        (TokenView::In, "in"@),
        (TokenView::Local, "local"@),
        (TokenView::Nil, "nil"@),
        (TokenView::Repeat, "repeat"@),
        (TokenView::Return, "return"@),
        (TokenView::Then, "then"@),
        (TokenView::Until, "until"@),
        (TokenView::While, "while"@),
        (TokenView::Bool(true), "true"@),
        (TokenView::Bool(false), "false"@),
    ]
}

/// The first operator whose spelling stands at `p`; one spelled with
/// letters only as a whole.
pub open spec fn operator_at(s: Seq<char>, p: int) -> Lexed {
    word_at(s, p, operator_words(), 0)
}

/// The first punctuation sign that stands at `p`.
pub open spec fn symbol_at(s: Seq<char>, p: int) -> Lexed {
    word_at(s, p, symbol_words(), 0)
}

/// The first keyword whose spelling stands at `p` as a whole.
pub open spec fn keyword_at(s: Seq<char>, p: int) -> Lexed {
    word_at(s, p, keyword_words(), 0)
}

/// Whether `s` is the spelling of an entry of the table.
pub open spec fn spelled_in(words: Words, s: Seq<char>) -> bool {
    exists|i: int| 0 <= i < words.len() && (#[trigger] words[i]).1 == s
}

/// Whether `s` is a reserved word: a name that is the spelling of a
/// keyword, of a truth value or of one of `or`, `and` and `not`.
pub open spec fn is_reserved(s: Seq<char>) -> bool {
    is_name(s) && (spelled_in(operator_words(), s) || spelled_in(keyword_words(), s))
}

/// A name, as an identifier.
pub open spec fn ident_at(s: Seq<char>, p: int) -> Lexed {
    match name_end(s, p) {
        Some(end) => Some((TokenView::Ident(s.subrange(p, end)), end)),
        None => None,
    }
}

/// The token that stands at `p`: the first of the kinds, in this order,
/// that matches there.
pub open spec fn token_at(s: Seq<char>, p: int) -> Lexed {
    or_else(
        line_break_at(s, p),
        or_else(
            multiline_comment_at(s, p),
            or_else(
                multiline_string_at(s, p),
                or_else(
                    goto_label_at(s, p),
                    or_else(
                        comment_at(s, p),
                        or_else(
                            hexnum_at(s, p),
                            or_else(
                                decimal_at(s, p),
                                or_else(
                                    string_at(s, p),
                                    or_else(
                                        operator_at(s, p),
                                        or_else(
                                            symbol_at(s, p),
                                            or_else(keyword_at(s, p), ident_at(s, p)),
                                        ),
                                    ),
                                ),
                            ),
                        ),
                    ),
                ),
            ),
        ),
    )
}

/// A token with the stretch of the text that it was made from, blanks
/// around it included.
pub struct Lexeme {
    pub token: TokenView,
    pub start: int,
    pub end: int,
}

/// The tokens that stand one after another from `p` on, each with the
/// blanks before and after it, as far as tokens match. A token always ends
/// after its start and within the text; the test on `next` lets the
/// recursion be seen to end.
pub open spec fn matched(s: Seq<char>, p: int) -> Seq<Lexeme>
    decreases s.len() - p,
{
    let start = run_end(s, p, CharClass::Blank);
    match token_at(s, start) {
        Some((token, end)) => {
            let next = run_end(s, end, CharClass::Blank);
            if p < next <= s.len() {
                seq![Lexeme { token, start: p, end: next }] + matched(s, next)
            } else {
                Seq::empty()
            }
        },
        None => Seq::empty(),
    }
}

/// The position at which the tokens from `p` on stop matching.
pub open spec fn matched_end(s: Seq<char>, p: int) -> int
    decreases s.len() - p,
{
    let start = run_end(s, p, CharClass::Blank);
    match token_at(s, start) {
        Some((token, end)) => {
            let next = run_end(s, end, CharClass::Blank);
            if p < next <= s.len() {
                matched_end(s, next)
            } else {
                p
            }
        },
        None => p,
    }
}

/// All the lexemes of a text: the tokens that match from its start on and,
/// where they stop short of its end, one `Unknown` that carries the rest.
pub open spec fn lexemes(s: Seq<char>) -> Seq<Lexeme> {
    let stop = matched_end(s, 0);
    if stop < s.len() {
        matched(s, 0).push(
            Lexeme {
                token: TokenView::Unknown(s.subrange(stop, s.len() as int)),
                start: stop,
                end: s.len() as int,
            },
        )
    } else {
        matched(s, 0)
    }
}

/// The tokens of a text.
pub open spec fn lex(s: Seq<char>) -> Seq<TokenView> {
    Seq::new(lexemes(s).len(), |i: int| lexemes(s)[i].token)
}

/// The text with every line end as a single line feed: a carriage return
/// and the line feed after it, or a carriage return alone, become one line
/// feed.
pub open spec fn normalized(s: Seq<char>) -> Seq<char>
    decreases s.len(),
{
    if s.len() == 0 {
        s
    } else if s[0] == '\r' && s.len() > 1 && s[1] == '\n' {
        seq!['\n'] + normalized(s.subrange(2, s.len() as int))
    } else if s[0] == '\r' {
        seq!['\n'] + normalized(s.subrange(1, s.len() as int))
    } else {
        seq![s[0]] + normalized(s.subrange(1, s.len() as int))
    }
}

} // verus!
