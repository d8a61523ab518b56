//! What holds of the lexer on every text.

use vstd::prelude::*;
use crate::chars::CharClass;
use crate::grammar::{
    class_at, comment_at, decimal_at, digits_end, escape_end, exponent_end, find, goto_label_at,
    has_at, hexnum_at, ident_at, is_name, is_plain, is_reserved, keyword_at, keyword_words, lex,
    lexemes, stands_at,
    line_break_at, long_close, matched, matched_end, multiline_comment_at, multiline_string_at,
    name_end, normalized, number_end, operator_at, operator_words, operators, run_end, string_at,
    string_body_end, symbol_at, symbol_words, token_at, word_at, Lexeme, Words,
};
use crate::operator::Operator;
use crate::token::TokenView;

verus! {

/// The stretches of `s` that the lexemes were made from, one after
/// another.
pub open spec fn span_text(s: Seq<char>, parts: Seq<Lexeme>) -> Seq<char>
    decreases parts.len(),
{
    if parts.len() == 0 {
        Seq::empty()
    } else {
        s.subrange(parts.first().start, parts.first().end) + span_text(s, parts.drop_first())
    }
}

/// Whether the lexemes follow one another without a gap from `from` to
/// `to`.
pub open spec fn contiguous(parts: Seq<Lexeme>, from: int, to: int) -> bool
    decreases parts.len(),
{
    if parts.len() == 0 {
        from == to
    } else {
        parts.first().start == from && from <= parts.first().end && contiguous(
            parts.drop_first(),
            parts.first().end,
            to,
        )
    }
}

/// A run of a class ends at or after its start, and within the text where
/// it starts within the text.
pub proof fn lemma_run_end_bounds(s: Seq<char>, p: int, class: CharClass)
    ensures
        p <= run_end(s, p, class),
        p <= s.len() ==> run_end(s, p, class) <= s.len(),
    decreases s.len() - p,
{
    if 0 <= p < s.len() && class.has(s[p]) {
        lemma_run_end_bounds(s, p + 1, class);
    }
}

/// Adding one more lexeme at the end adds its stretch at the end.
pub proof fn lemma_span_text_push(s: Seq<char>, parts: Seq<Lexeme>, last: Lexeme)
    requires
        0 <= last.start <= last.end <= s.len(),
    ensures
        span_text(s, parts.push(last)) == span_text(s, parts) + s.subrange(last.start, last.end),
    decreases parts.len(),
{
    let longer = parts.push(last);
    let stretch = s.subrange(last.start, last.end);
    if parts.len() == 0 {
        assert(longer.first() == last);
        assert(longer.drop_first() =~= parts);
        assert(span_text(s, longer) == stretch + span_text(s, parts));
        assert(stretch + span_text(s, parts) =~= span_text(s, parts) + stretch);
    } else {
        assert(longer.first() == parts.first());
        assert(longer.drop_first() =~= parts.drop_first().push(last));
        lemma_span_text_push(s, parts.drop_first(), last);
        let head = s.subrange(parts.first().start, parts.first().end);
        assert(span_text(s, longer) == head + span_text(s, longer.drop_first()));
        assert(head + (span_text(s, parts.drop_first()) + stretch) =~= (head + span_text(
            s,
            parts.drop_first(),
        )) + stretch);
    }
}

/// One more lexeme that starts where the others end keeps them contiguous.
pub proof fn lemma_contiguous_push(parts: Seq<Lexeme>, from: int, to: int, last: Lexeme)
    requires
        contiguous(parts, from, to),
        last.start == to,
        to <= last.end,
    ensures
        contiguous(parts.push(last), from, last.end),
    decreases parts.len(),
{
    let longer = parts.push(last);
    if parts.len() == 0 {
        assert(longer.first() == last);
        assert(longer.drop_first() =~= parts);
        assert(contiguous(longer.drop_first(), last.end, last.end));
    } else {
        assert(longer.first() == parts.first());
        assert(longer.drop_first() =~= parts.drop_first().push(last));
        lemma_contiguous_push(parts.drop_first(), parts.first().end, to, last);
    }
}

/// The tokens that match from `p` on cover the text from `p` to the place
/// where they stop, without a gap.
pub proof fn lemma_matched_covers(s: Seq<char>, p: int)
    requires
        0 <= p <= s.len(),
    ensures
        p <= matched_end(s, p) <= s.len(),
        contiguous(matched(s, p), p, matched_end(s, p)),
        span_text(s, matched(s, p)) == s.subrange(p, matched_end(s, p)),
    decreases s.len() - p,
{
    let start = run_end(s, p, CharClass::Blank);
    let parts = matched(s, p);
    match token_at(s, start) {
        Some((token, end)) => {
            let next = run_end(s, end, CharClass::Blank);
            if p < next <= s.len() {
                lemma_matched_covers(s, next);
                let first = Lexeme { token, start: p, end: next };
                assert(parts.first() == first);
                assert(parts.drop_first() =~= matched(s, next));
                assert(s.subrange(p, next) + s.subrange(next, matched_end(s, next)) =~= s.subrange(
                    p,
                    matched_end(s, p),
                ));
            } else {
                assert(span_text(s, parts) =~= s.subrange(p, p));
            }
        },
        None => {
            assert(span_text(s, parts) =~= s.subrange(p, p));
        },
    }
}

/// The lexemes of a text follow one another from its start to its end, and
/// the stretches they were made from, put together, are the text: nothing
/// of it is lost and nothing is added, whatever it holds.
pub proof fn lemma_round_trip(s: Seq<char>)
    ensures
        contiguous(lexemes(s), 0, s.len() as int),
        span_text(s, lexemes(s)) == s,
{
    lemma_matched_covers(s, 0);
    let stop = matched_end(s, 0);
    if stop < s.len() {
        let rest = Lexeme {
            token: TokenView::Unknown(s.subrange(stop, s.len() as int)),
            start: stop,
            end: s.len() as int,
        };
        lemma_span_text_push(s, matched(s, 0), rest);
        lemma_contiguous_push(matched(s, 0), 0, stop, rest);
        assert(s.subrange(0, stop) + s.subrange(stop, s.len() as int) =~= s);
    } else {
        assert(s.subrange(0, stop) =~= s);
    }
}

/// Every character of a run is of its class.
pub proof fn lemma_run_end_inside(s: Seq<char>, p: int, class: CharClass, i: int)
    requires
        0 <= p <= i < run_end(s, p, class),
    ensures
        i < s.len(),
        class.has(s[i]),
    decreases s.len() - p,
{
    if class_at(s, p, class) {
        if i > p {
            lemma_run_end_inside(s, p + 1, class, i);
        }
    }
}

/// Where every character from `p` on is of the class, the run goes to the
/// end of the text.
pub proof fn lemma_run_to_the_end(s: Seq<char>, p: int, class: CharClass)
    requires
        0 <= p <= s.len(),
        forall|i: int| p <= i < s.len() ==> class.has(#[trigger] s[i]),
    ensures
        run_end(s, p, class) == s.len(),
    decreases s.len() - p,
{
    if p < s.len() {
        lemma_run_to_the_end(s, p + 1, class);
    }
}

/// A text without a carriage return is its own normal form.
pub proof fn lemma_normalized_without_cr(s: Seq<char>)
    requires
        forall|i: int| 0 <= i < s.len() ==> #[trigger] s[i] != '\r',
    ensures
        normalized(s) == s,
    decreases s.len(),
{
    if s.len() > 0 {
        let rest = s.subrange(1, s.len() as int);
        assert forall|i: int| 0 <= i < rest.len() implies #[trigger] rest[i] != '\r' by {
            assert(rest[i] == s[i + 1]);
        }
        lemma_normalized_without_cr(rest);
        assert(seq![s[0]] + rest =~= s);
    }
}

/// No carriage return is left in a normalized text.
pub proof fn lemma_normalized_has_no_cr(s: Seq<char>, i: int)
    requires
        0 <= i < normalized(s).len(),
    ensures
        normalized(s)[i] != '\r',
    decreases s.len(),
{
    if s.len() > 0 {
        let rest = if s[0] == '\r' && s.len() > 1 && s[1] == '\n' {
            s.subrange(2, s.len() as int)
        } else {
            s.subrange(1, s.len() as int)
        };
        if i > 0 {
            lemma_normalized_has_no_cr(rest, i - 1);
        }
    }
}

/// Normalizing a text that is normalized changes nothing.
pub proof fn lemma_normalized_twice(s: Seq<char>)
    ensures
        normalized(normalized(s)) == normalized(s),
{
    let clean = normalized(s);
    assert forall|i: int| 0 <= i < clean.len() implies #[trigger] clean[i] != '\r' by {
        lemma_normalized_has_no_cr(s, i);
    }
    lemma_normalized_without_cr(clean);
}

/// A word that stands at `p` has its first character there.
pub proof fn lemma_has_at_first(s: Seq<char>, p: int, word: Seq<char>)
    requires
        has_at(s, p, word),
        word.len() > 0,
    ensures
        p < s.len(),
        s[p] == word[0],
{
    assert(s.subrange(p, p + word.len())[0] == s[p]);
}

/// No punctuation sign stands where a name starts.
pub proof fn lemma_no_symbol_at_name(s: Seq<char>, p: int)
    requires
        class_at(s, p, CharClass::NameStart),
    ensures
        symbol_at(s, p) is None,
{
    reveal_strlit("(");
    reveal_strlit(")");
    reveal_strlit("{");
    reveal_strlit("}");
    reveal_strlit("[");
    reveal_strlit("]");
    reveal_strlit("=");
    reveal_strlit(":");
    reveal_strlit(",");
    reveal_strlit(".");
    reveal_strlit("...");
    reveal_with_fuel(word_at, 12);
    let words = symbol_words();
    assert forall|i: int| 0 <= i < words.len() implies !has_at(s, p, #[trigger] words[i].1) by {
        if has_at(s, p, words[i].1) {
            lemma_has_at_first(s, p, words[i].1);
        }
    }
    assert(!has_at(s, p, words[0].1));
    assert(!has_at(s, p, words[1].1));
    assert(!has_at(s, p, words[2].1));
    assert(!has_at(s, p, words[3].1));
    assert(!has_at(s, p, words[4].1));
    assert(!has_at(s, p, words[5].1));
    assert(!has_at(s, p, words[6].1));
    assert(!has_at(s, p, words[7].1));
    assert(!has_at(s, p, words[8].1));
    assert(!has_at(s, p, words[9].1));
    assert(!has_at(s, p, words[10].1));
}

/// Where a name starts and neither an operator nor a keyword is spelled,
/// the token is the identifier that the name spells.
pub proof fn lemma_token_at_name(s: Seq<char>, p: int)
    requires
        class_at(s, p, CharClass::NameStart),
        operator_at(s, p) is None,
        keyword_at(s, p) is None,
    ensures
        token_at(s, p) == ident_at(s, p),
        ident_at(s, p) is Some,
{
    reveal_strlit("--[[");
    reveal_strlit("::");
    reveal_strlit("--");
    reveal_strlit("0x");
    if has_at(s, p, "--[["@) {
        lemma_has_at_first(s, p, "--[["@);
    }
    if has_at(s, p, "::"@) {
        lemma_has_at_first(s, p, "::"@);
    }
    if has_at(s, p, "--"@) {
        lemma_has_at_first(s, p, "--"@);
    }
    if has_at(s, p, "0x"@) {
        lemma_has_at_first(s, p, "0x"@);
    }
    assert(line_break_at(s, p) is None);
    assert(multiline_comment_at(s, p) is None);
    assert(multiline_string_at(s, p) is None);
    assert(goto_label_at(s, p) is None);
    assert(comment_at(s, p) is None);
    assert(hexnum_at(s, p) is None);
    assert(decimal_at(s, p) is None);
    assert(string_at(s, p) is None);
    lemma_no_symbol_at_name(s, p);
}

/// A table without identifiers yields none.
pub proof fn lemma_word_at_no_ident(s: Seq<char>, p: int, words: Words, from: int)
    requires
        forall|i: int| 0 <= i < words.len() ==> !((#[trigger] words[i]).0 is Ident),
    ensures
        word_at(s, p, words, from) matches Some((token, _)) ==> !(token is Ident),
    decreases words.len() - from,
{
    if 0 <= from < words.len() && !stands_at(s, p, words[from].1) {
        lemma_word_at_no_ident(s, p, words, from + 1);
    }
}

/// An identifier comes from the rule for identifiers and from no other:
/// where the token is one, neither an operator nor a keyword is spelled
/// there.
pub proof fn lemma_ident_is_a_name(s: Seq<char>, p: int)
    requires
        token_at(s, p) matches Some((token, _)) && token is Ident,
    ensures
        token_at(s, p) == ident_at(s, p),
        operator_at(s, p) is None,
        keyword_at(s, p) is None,
{
    lemma_word_at_no_ident(s, p, operator_words(), 0);
    lemma_word_at_no_ident(s, p, symbol_words(), 0);
    lemma_word_at_no_ident(s, p, keyword_words(), 0);
}

/// The stretch of a text that a name covers is, taken alone, a name.
pub proof fn lemma_name_alone(s: Seq<char>, p: int)
    requires
        0 <= p,
        name_end(s, p) is Some,
    ensures
        p < name_end(s, p)->0 <= s.len(),
        is_name(s.subrange(p, name_end(s, p)->0)),
{
    let end = name_end(s, p)->0;
    lemma_run_end_bounds(s, p + 1, CharClass::NamePart);
    let alone = s.subrange(p, end);
    assert(alone[0] == s[p]);
    assert forall|i: int| 1 <= i < alone.len() implies CharClass::NamePart.has(
        #[trigger] alone[i],
    ) by {
        lemma_run_end_inside(s, p + 1, CharClass::NamePart, p + i);
        assert(alone[i] == s[p + i]);
    }
    lemma_run_to_the_end(alone, 1, CharClass::NamePart);
}

/// A text is a name that spells neither an operator nor a keyword at its
/// start exactly if its tokens are the one identifier that carries all of
/// it.
pub proof fn lemma_name_tokens(s: Seq<char>)
    ensures
        (is_name(s) && operator_at(s, 0) is None && keyword_at(s, 0) is None) <==> lex(
            normalized(s),
        ) == seq![TokenView::Ident(s)],
{
    let clean = normalized(s);
    let len = s.len() as int;
    if is_name(s) && operator_at(s, 0) is None && keyword_at(s, 0) is None {
        lemma_run_end_bounds(s, 1, CharClass::NamePart);
        assert forall|i: int| 0 <= i < s.len() implies #[trigger] s[i] != '\r' by {
            if i > 0 {
                lemma_run_end_inside(s, 1, CharClass::NamePart, i);
            }
        }
        lemma_normalized_without_cr(s);
        lemma_token_at_name(s, 0);
        assert(s.subrange(0, len) =~= s);
        lemma_run_end_bounds(s, len, CharClass::Blank);
        assert(run_end(s, 0, CharClass::Blank) == 0);
        assert(run_end(s, len, CharClass::Blank) == len);
        assert(matched(s, len) =~= Seq::<Lexeme>::empty());
        assert(matched_end(s, len) == len);
        let only = Lexeme { token: TokenView::Ident(s), start: 0, end: len };
        assert(matched(s, 0) =~= seq![only]);
        assert(matched_end(s, 0) == len);
        assert(lex(s) =~= seq![TokenView::Ident(s)]);
    }
    if lex(clean) == seq![TokenView::Ident(s)] {
        lemma_matched_covers(clean, 0);
        let parts = lexemes(clean);
        assert(seq![TokenView::Ident(s)].len() == 1);
        assert(lex(clean).len() == parts.len());
        assert(parts.len() == 1);
        assert(parts[0].token == lex(clean)[0]);
        let start = run_end(clean, 0, CharClass::Blank);
        lemma_run_end_bounds(clean, 0, CharClass::Blank);
        assert(matched_end(clean, 0) == clean.len());
        assert(matched(clean, 0).len() == 1);
        assert(token_at(clean, start) is Some);
        assert(matched(clean, 0)[0].token == TokenView::Ident(s));
        lemma_ident_is_a_name(clean, start);
        lemma_name_alone(clean, start);
        let end = name_end(clean, start)->0;
        assert(s == clean.subrange(start, end));
        lemma_run_end_bounds(s, 1, CharClass::NamePart);
        assert forall|i: int| 0 <= i < s.len() implies #[trigger] s[i] != '\r' by {
            if i > 0 {
                lemma_run_end_inside(s, 1, CharClass::NamePart, i);
            }
        }
        lemma_normalized_without_cr(s);
        assert(start == 0 && end == len);
    }
}

/// On a name, a fixed spelling stands at the start as a whole exactly if
/// it is the name.
pub proof fn lemma_stands_at_name(s: Seq<char>, word: Seq<char>)
    requires
        is_name(s),
        word.len() > 0,
    ensures
        stands_at(s, 0, word) <==> word == s,
{
    lemma_run_end_bounds(s, 1, CharClass::NamePart);
    if stands_at(s, 0, word) {
        lemma_has_at_first(s, 0, word);
        if word.len() < s.len() {
            lemma_run_end_inside(s, 1, CharClass::NamePart, word.len() as int);
        }
        assert(s.subrange(0, s.len() as int) =~= s);
    }
    if word == s {
        assert(s.subrange(0, s.len() as int) =~= s);
    }
}

/// On a name, a table of spellings has an entry that stands at the start
/// exactly if one of its entries spells the name.
pub proof fn lemma_word_at_name(s: Seq<char>, words: Words, from: int)
    requires
        is_name(s),
        0 <= from,
        forall|i: int| 0 <= i < words.len() ==> (#[trigger] words[i]).1.len() > 0,
    ensures
        word_at(s, 0, words, from) is Some <==> exists|i: int|
            from <= i < words.len() && (#[trigger] words[i]).1 == s,
    decreases words.len() - from,
{
    if from < words.len() {
        lemma_stands_at_name(s, words[from].1);
        lemma_word_at_name(s, words, from + 1);
        if !stands_at(s, 0, words[from].1) && exists|i: int|
            from <= i < words.len() && (#[trigger] words[i]).1 == s {
            let i = choose|i: int| from <= i < words.len() && (#[trigger] words[i]).1 == s;
            assert(from + 1 <= i);
        }
    }
}

/// A name is a reserved word exactly if an operator or a keyword stands at
/// its start.
pub proof fn lemma_reserved_name(s: Seq<char>)
    requires
        is_name(s),
    ensures
        is_reserved(s) <==> (operator_at(s, 0) is Some || keyword_at(s, 0) is Some),
{
    lemma_words_not_empty();
    lemma_word_at_name(s, operator_words(), 0);
    lemma_word_at_name(s, keyword_words(), 0);
}

/// The tokens of a text are the one identifier that carries all of it
/// exactly if the text is a name and no reserved word.
pub proof fn lemma_one_ident(s: Seq<char>)
    ensures
        lex(normalized(s)) == seq![TokenView::Ident(s)] <==> is_name(s) && !is_reserved(s),
{
    lemma_name_tokens(s);
    if is_name(s) {
        lemma_reserved_name(s);
    }
}

/// A text is a name exactly if its tokens are the one identifier that
/// carries all of it, unless it is a reserved word: `do` is a name, and
/// its one token is the keyword. A name that only starts with a reserved
/// word, such as `done`, is one identifier.
pub proof fn lemma_is_name_iff_one_ident(s: Seq<char>)
    requires
        !is_reserved(s),
    ensures
        is_name(s) <==> lex(normalized(s)) == seq![TokenView::Ident(s)],
{
    lemma_one_ident(s);
}

/// Where a word is found, it stands there, at or after the place where
/// the search began.
pub proof fn lemma_find_bounds(s: Seq<char>, p: int, word: Seq<char>)
    ensures
        find(s, p, word) matches Some(at) ==> p <= at && has_at(s, at, word),
    decreases s.len() - p,
{
    if !(p < 0 || p + word.len() > s.len()) && !has_at(s, p, word) && p < s.len() {
        lemma_find_bounds(s, p + 1, word);
    }
}

/// The digits of a number are at least one character and end within the
/// text.
pub proof fn lemma_digits_end_bounds(s: Seq<char>, p: int, digit: CharClass)
    requires
        0 <= p,
    ensures
        digits_end(s, p, digit) matches Some(end) ==> p < end <= s.len(),
{
    lemma_run_end_bounds(s, p, digit);
    lemma_run_end_bounds(s, p + 1, digit);
    let whole = run_end(s, p, digit);
    lemma_run_end_bounds(s, whole + 1, digit);
    if whole > p && p > s.len() {
        assert(run_end(s, p, digit) == p);
    }
}

/// An exponent is at least one character and ends within the text.
pub proof fn lemma_exponent_end_bounds(s: Seq<char>, p: int, letters: Seq<char>)
    requires
        0 <= p,
    ensures
        exponent_end(s, p, letters) matches Some(end) ==> p < end <= s.len(),
{
    lemma_run_end_bounds(s, p + 1, CharClass::Digit);
    lemma_run_end_bounds(s, p + 2, CharClass::Digit);
}

/// A number is at least one character and ends within the text.
pub proof fn lemma_number_end_bounds(s: Seq<char>, p: int, digit: CharClass, letters: Seq<char>)
    requires
        0 <= p,
    ensures
        number_end(s, p, digit, letters) matches Some(end) ==> p < end <= s.len(),
{
    lemma_digits_end_bounds(s, p, digit);
    if digits_end(s, p, digit) is Some {
        lemma_exponent_end_bounds(s, digits_end(s, p, digit)->0, letters);
    }
}

/// An escape is at least two characters and ends within the text.
pub proof fn lemma_escape_end_bounds(s: Seq<char>, p: int)
    requires
        0 <= p,
    ensures
        escape_end(s, p) matches Some(end) ==> p + 2 <= end <= s.len(),
{
    reveal_strlit("\\x");
    reveal_strlit("\\u{");
    reveal_strlit("\\z");
    lemma_run_end_bounds(s, p + 3, CharClass::HexDigit);
    lemma_run_end_bounds(s, p + 2, CharClass::Space);
}

/// The contents of a string end at or after their start, within the text.
pub proof fn lemma_string_body_end_bounds(s: Seq<char>, p: int, quote: char)
    requires
        0 <= p <= s.len(),
    ensures
        p <= string_body_end(s, p, quote) <= s.len(),
    decreases s.len() - p,
{
    if 0 <= p < s.len() && is_plain(s[p], quote) {
        lemma_string_body_end_bounds(s, p + 1, quote);
    } else {
        match escape_end(s, p) {
            Some(end) => {
                if p < end <= s.len() {
                    lemma_string_body_end_bounds(s, end, quote);
                }
            },
            None => {},
        }
    }
}

/// A word of a table of words that are not empty is at least one character
/// and ends within the text.
pub proof fn lemma_word_at_bounds(s: Seq<char>, p: int, words: Words, from: int)
    requires
        forall|i: int| 0 <= i < words.len() ==> (#[trigger] words[i]).1.len() > 0,
    ensures
        word_at(s, p, words, from) matches Some((_, end)) ==> p < end <= s.len(),
    decreases words.len() - from,
{
    if 0 <= from < words.len() && !stands_at(s, p, words[from].1) {
        lemma_word_at_bounds(s, p, words, from + 1);
    }
}

/// No operator is spelled with nothing.
pub proof fn lemma_symbol_nonempty(op: Operator)
    ensures
        op.spec_symbol().len() > 0,
{
    reveal_strlit("or");
    reveal_strlit("and");
    reveal_strlit("==");
    reveal_strlit("~=");
    reveal_strlit("<=");
    reveal_strlit(">=");
    reveal_strlit("<");
    reveal_strlit(">");
    reveal_strlit("..");
    reveal_strlit("+");
    reveal_strlit("-");
    reveal_strlit("*");
    reveal_strlit("/");
    reveal_strlit("%");
    reveal_strlit("not");
    reveal_strlit("#");
    reveal_strlit("^");
}

/// No word of the three tables is empty.
pub proof fn lemma_words_not_empty()
    ensures
        forall|i: int| 0 <= i < operator_words().len() ==> (#[trigger] operator_words()[i]).1.len() > 0,
        forall|i: int| 0 <= i < symbol_words().len() ==> (#[trigger] symbol_words()[i]).1.len() > 0,
        forall|i: int| 0 <= i < keyword_words().len() ==> (#[trigger] keyword_words()[i]).1.len() > 0,
{
    assert forall|i: int| 0 <= i < operator_words().len() implies (#[trigger] operator_words()[i]).1.len() > 0 by {
        lemma_symbol_nonempty(operators()[i]);
    }
    reveal_strlit("(");
    reveal_strlit(")");
    reveal_strlit("{");
    reveal_strlit("}");
    reveal_strlit("[");
    reveal_strlit("]");
    reveal_strlit("=");
    reveal_strlit(":");
    reveal_strlit(",");
    reveal_strlit(".");
    reveal_strlit("...");
    reveal_strlit("break");
    reveal_strlit("do");
    reveal_strlit("else");
    reveal_strlit("elseif");
    reveal_strlit("end");
    reveal_strlit("for");
    reveal_strlit("function");
    reveal_strlit("goto");
    reveal_strlit("if");
    reveal_strlit("in");
    reveal_strlit("local");
    reveal_strlit("nil");
    reveal_strlit("repeat");
    reveal_strlit("return");
    reveal_strlit("then");
    reveal_strlit("until");
    reveal_strlit("while");
    reveal_strlit("true");
    reveal_strlit("false");
}

/// Every token is made from at least one character and ends within the
/// text.
pub proof fn lemma_token_at_advances(s: Seq<char>, p: int)
    requires
        0 <= p,
    ensures
        token_at(s, p) matches Some((_, end)) ==> p < end <= s.len(),
{
    reveal_strlit("--[[");
    reveal_strlit("]]");
    reveal_strlit("::");
    reveal_strlit("--");
    reveal_strlit("0x");
    assert(multiline_comment_at(s, p) matches Some((_, end)) ==> p < end <= s.len()) by {
        lemma_find_bounds(s, p + 4, "]]"@);
    }
    assert(multiline_string_at(s, p) matches Some((_, end)) ==> p < end <= s.len()) by {
        lemma_run_end_bounds(s, p + 1, CharClass::EqualsSign);
        let level_end = run_end(s, p + 1, CharClass::EqualsSign);
        let closing = long_close(s.subrange(p + 1, level_end));
        lemma_find_bounds(s, level_end + 1, closing);
        lemma_find_bounds(s, level_end + 2, closing);
    }
    assert(goto_label_at(s, p) matches Some((_, end)) ==> p < end <= s.len()) by {
        lemma_run_end_bounds(s, p + 3, CharClass::NamePart);
    }
    assert(comment_at(s, p) matches Some((_, end)) ==> p < end <= s.len()) by {
        lemma_run_end_bounds(s, p + 2, CharClass::NotNewline);
    }
    assert(hexnum_at(s, p) matches Some((_, end)) ==> p < end <= s.len()) by {
        lemma_number_end_bounds(s, p + 2, CharClass::HexDigit, "pP"@);
    }
    assert(decimal_at(s, p) matches Some((_, end)) ==> p < end <= s.len()) by {
        lemma_number_end_bounds(s, p, CharClass::Digit, "eEpP"@);
    }
    assert(string_at(s, p) matches Some((_, end)) ==> p < end <= s.len()) by {
        if p < s.len() {
            lemma_string_body_end_bounds(s, p + 1, '"');
            lemma_string_body_end_bounds(s, p + 1, '\'');
        }
    }
    lemma_words_not_empty();
    lemma_word_at_bounds(s, p, operator_words(), 0);
    lemma_word_at_bounds(s, p, symbol_words(), 0);
    lemma_word_at_bounds(s, p, keyword_words(), 0);
    assert(ident_at(s, p) matches Some((_, end)) ==> p < end <= s.len()) by {
        lemma_run_end_bounds(s, p + 1, CharClass::NamePart);
    }
}

/// Matching stops only where, after the blanks, no token stands: the
/// `Unknown` token of a text begins at such a place.
pub proof fn lemma_stop_has_no_token(s: Seq<char>, p: int)
    requires
        0 <= p <= s.len(),
    ensures
        token_at(s, run_end(s, matched_end(s, p), CharClass::Blank)) is None,
    decreases s.len() - p,
{
    let start = run_end(s, p, CharClass::Blank);
    lemma_run_end_bounds(s, p, CharClass::Blank);
    lemma_token_at_advances(s, start);
    match token_at(s, start) {
        Some((token, end)) => {
            let next = run_end(s, end, CharClass::Blank);
            lemma_run_end_bounds(s, end, CharClass::Blank);
            lemma_stop_has_no_token(s, next);
        },
        None => {},
    }
}

/// No rule of the grammar makes an `Unknown` token.
pub proof fn lemma_token_at_known(s: Seq<char>, p: int)
    ensures
        token_at(s, p) matches Some((token, _)) ==> !(token is Unknown),
{
    lemma_word_at_known(s, p, operator_words(), 0);
    lemma_word_at_known(s, p, symbol_words(), 0);
    lemma_word_at_known(s, p, keyword_words(), 0);
}

/// A table without `Unknown` yields none.
pub proof fn lemma_word_at_known(s: Seq<char>, p: int, words: Words, from: int)
    requires
        forall|i: int| 0 <= i < words.len() ==> !((#[trigger] words[i]).0 is Unknown),
    ensures
        word_at(s, p, words, from) matches Some((token, _)) ==> !(token is Unknown),
    decreases words.len() - from,
{
    if 0 <= from < words.len() && !stands_at(s, p, words[from].1) {
        lemma_word_at_known(s, p, words, from + 1);
    }
}

/// None of the tokens that match one after another is `Unknown`.
pub proof fn lemma_matched_known(s: Seq<char>, p: int, i: int)
    requires
        0 <= i < matched(s, p).len(),
    ensures
        !(matched(s, p)[i].token is Unknown),
    decreases s.len() - p,
{
    let start = run_end(s, p, CharClass::Blank);
    lemma_token_at_known(s, start);
    match token_at(s, start) {
        Some((token, end)) => {
            let next = run_end(s, end, CharClass::Blank);
            if p < next <= s.len() {
                if i > 0 {
                    lemma_matched_known(s, next, i - 1);
                    assert(matched(s, p)[i] == matched(s, next)[i - 1]);
                }
            }
        },
        None => {},
    }
}

/// A text has at most one `Unknown` token, and it is the last: it is
/// there exactly if the tokens before it stop short of the end of the
/// text, and it carries the text from that place on.
pub proof fn lemma_unknown_is_last(s: Seq<char>, i: int)
    requires
        0 <= i < lex(s).len(),
    ensures
        lex(s)[i] is Unknown <==> i == lex(s).len() - 1 && matched_end(s, 0) < s.len(),
        lex(s)[i] is Unknown ==> lex(s)[i] == TokenView::Unknown(
            s.subrange(matched_end(s, 0), s.len() as int),
        ),
{
    if i < matched(s, 0).len() {
        lemma_matched_known(s, 0, i);
    }
}

} // verus!
