use libkon::chars::{chars_of, text_of, CharClass};
use libkon::lexer::{
    is_char_at, is_one_of, lex_comment, lex_decimal, lex_digits, lex_escape, lex_exponent,
    lex_goto_label, lex_hex_string_escape, lex_hexnum, lex_keyword, lex_multiline_comment,
    lex_multiline_string, lex_number, lex_operator, lex_string, lex_string_delim,
    lex_string_escape, lex_symbol, lex_tag, lex_unicode_string_escape, lex_word, lex_z_escape,
    scan_run,
    scan_until, starts_with,
};
use libkon::{Operator, Token};

fn chars(text: &str) -> Vec<char> {
    text.chars().collect()
}

#[test]
fn characters_of_a_text() {
    assert_eq!(chars_of("aé\n"), vec!['a', 'é', '\n']);
    assert_eq!(chars_of(""), Vec::<char>::new());
}

#[test]
fn text_of_a_stretch() {
    let input = chars("héllo");
    assert_eq!(text_of(&input, 1, 4), "éll");
    assert_eq!(text_of(&input, 2, 2), "");
    assert_eq!(text_of(&input, 0, 5), "héllo");
}

#[test]
fn classes_of_characters() {
    let members = |class: CharClass| -> String {
        (0u8..128).map(|b| b as char).filter(|c| class.contains(*c)).collect()
    };
    assert_eq!(members(CharClass::Blank), "\t ");
    assert_eq!(members(CharClass::Space), "\t\n\r ");
    assert_eq!(members(CharClass::Digit), "0123456789");
    assert_eq!(members(CharClass::HexDigit), "0123456789ABCDEFabcdef");
    assert_eq!(
        members(CharClass::NameStart),
        "ABCDEFGHIJKLMNOPQRSTUVWXYZ_abcdefghijklmnopqrstuvwxyz"
    );
    assert_eq!(
        members(CharClass::NamePart),
        "0123456789ABCDEFGHIJKLMNOPQRSTUVWXYZ_abcdefghijklmnopqrstuvwxyz"
    );
    assert_eq!(members(CharClass::EqualsSign), "=");
    assert_eq!(members(CharClass::NotNewline).len(), 127);
    assert!(!CharClass::NotNewline.contains('\n'));
    for c in ['é', 'λ', '٣', 'Ａ'] {
        assert!(!CharClass::NameStart.contains(c));
        assert!(!CharClass::NamePart.contains(c));
        assert!(!CharClass::Digit.contains(c));
        assert!(!CharClass::HexDigit.contains(c));
    }
}

#[test]
fn run_of_a_class() {
    let input = chars("  \tab12 ");
    assert_eq!(scan_run(&input, 0, CharClass::Blank), 3);
    assert_eq!(scan_run(&input, 3, CharClass::Blank), 3);
    assert_eq!(scan_run(&input, 3, CharClass::NamePart), 7);
    assert_eq!(scan_run(&input, 5, CharClass::Digit), 7);
    assert_eq!(scan_run(&input, 7, CharClass::Blank), 8);
    assert_eq!(scan_run(&input, 8, CharClass::Blank), 8);
    assert_eq!(scan_run(&input, 20, CharClass::Blank), 20);
}

#[test]
fn word_at_a_position() {
    let input = chars("abcabd");
    assert!(starts_with(&input, 0, &chars("abc")));
    assert!(starts_with(&input, 3, &chars("abd")));
    assert!(!starts_with(&input, 3, &chars("abc")));
    assert!(!starts_with(&input, 4, &chars("bdx")));
    assert!(starts_with(&input, 6, &chars("")));
    assert!(!starts_with(&input, 7, &chars("")));
    assert_eq!(lex_tag(&input, 3, "ab"), Some(5));
    assert_eq!(lex_tag(&input, 2, "ab"), None);
    assert_eq!(lex_tag(&input, 5, "de"), None);
    assert!(is_char_at(&input, 5, 'd'));
    assert!(!is_char_at(&input, 6, 'd'));
    assert!(is_one_of(&chars("pP"), 'P'));
    assert!(!is_one_of(&chars("pP"), 'e'));
    assert!(!is_one_of(&chars(""), 'e'));
}

#[test]
fn first_place_of_a_word() {
    let input = chars("a]b]]c]]");
    assert_eq!(scan_until(&input, 0, &chars("]]")), Some(3));
    assert_eq!(scan_until(&input, 3, &chars("]]")), Some(3));
    assert_eq!(scan_until(&input, 4, &chars("]]")), Some(6));
    assert_eq!(scan_until(&input, 7, &chars("]]")), None);
    assert_eq!(scan_until(&input, 9, &chars("]]")), None);
    assert_eq!(scan_until(&input, 0, &chars("x")), None);
}

#[test]
fn digits_of_a_number() {
    assert_eq!(lex_digits(&chars("12.5x"), 0, CharClass::Digit), Some(4));
    assert_eq!(lex_digits(&chars("12."), 0, CharClass::Digit), Some(2));
    assert_eq!(lex_digits(&chars("12..5"), 0, CharClass::Digit), Some(2));
    assert_eq!(lex_digits(&chars("12.a"), 0, CharClass::Digit), Some(2));
    assert_eq!(lex_digits(&chars("12.a"), 0, CharClass::HexDigit), Some(4));
    assert_eq!(lex_digits(&chars(".5"), 0, CharClass::Digit), Some(2));
    assert_eq!(lex_digits(&chars("."), 0, CharClass::Digit), None);
    assert_eq!(lex_digits(&chars("x"), 0, CharClass::Digit), None);
    assert_eq!(lex_digits(&chars("ff.a"), 0, CharClass::HexDigit), Some(4));
    assert_eq!(lex_digits(&chars("1"), 1, CharClass::Digit), None);
    assert_eq!(lex_digits(&chars("1"), 5, CharClass::Digit), None);
}

#[test]
fn exponent_of_a_number() {
    assert_eq!(lex_exponent(&chars("e10"), 0, "eEpP"), Some(3));
    assert_eq!(lex_exponent(&chars("P-3x"), 0, "pP"), Some(3));
    assert_eq!(lex_exponent(&chars("e+1"), 0, "eEpP"), Some(3));
    assert_eq!(lex_exponent(&chars("e10"), 0, "pP"), None);
    assert_eq!(lex_exponent(&chars("e"), 0, "eEpP"), None);
    assert_eq!(lex_exponent(&chars("e-"), 0, "eEpP"), None);
    assert_eq!(lex_exponent(&chars("e+-1"), 0, "eEpP"), None);
    assert_eq!(lex_number(&chars("1.5e3+"), 0, CharClass::Digit, "eEpP"), Some(5));
    assert_eq!(lex_number(&chars("1.5e"), 0, CharClass::Digit, "eEpP"), Some(3));
    assert_eq!(lex_number(&chars("e3"), 0, CharClass::Digit, "eEpP"), None);
}

#[test]
fn numbers_at_a_position() {
    assert_eq!(lex_decimal(&chars("x 1.5"), 2), Some((Token::Number("1.5".to_string()), 5)));
    assert_eq!(lex_decimal(&chars("x"), 0), None);
    assert_eq!(lex_hexnum(&chars("0xFFp2;"), 0), Some((Token::Number("0xFFp2".to_string()), 6)));
    assert_eq!(lex_hexnum(&chars("0xg"), 0), None);
    assert_eq!(lex_hexnum(&chars("12"), 0), None);
}

#[test]
fn escapes_at_a_position() {
    assert_eq!(lex_hex_string_escape(&chars("\\x4f"), 0), Some(4));
    assert_eq!(lex_hex_string_escape(&chars("\\x4"), 0), None);
    assert_eq!(lex_hex_string_escape(&chars("\\x4g"), 0), None);
    assert_eq!(lex_unicode_string_escape(&chars("\\u{10FFFF}x"), 0), Some(10));
    assert_eq!(lex_unicode_string_escape(&chars("\\u{}"), 0), None);
    assert_eq!(lex_unicode_string_escape(&chars("\\u{1"), 0), None);
    assert_eq!(lex_unicode_string_escape(&chars("\\u12"), 0), None);
    for c in "abfnrtv'\"\\".chars() {
        assert_eq!(lex_string_escape(&['\\', c], 0), Some(2));
        assert_eq!(lex_escape(&['\\', c], 0), Some(2));
    }
    for c in "cdxuz0 ".chars() {
        assert_eq!(lex_string_escape(&['\\', c], 0), None);
    }
    assert_eq!(lex_string_escape(&chars("\\"), 0), None);
    assert_eq!(lex_z_escape(&chars("\\z \n\r\t x"), 0), Some(7));
    assert_eq!(lex_z_escape(&chars("\\z"), 0), Some(2));
    assert_eq!(lex_z_escape(&chars("\\n"), 0), None);
    assert_eq!(lex_escape(&chars("\\x41"), 0), Some(4));
    assert_eq!(lex_escape(&chars("\\u{41}"), 0), Some(6));
    assert_eq!(lex_escape(&chars("\\z  "), 0), Some(4));
    assert_eq!(lex_escape(&chars("\\q"), 0), None);
    assert_eq!(lex_escape(&chars("n"), 0), None);
}

#[test]
fn strings_at_a_position() {
    assert_eq!(lex_string_delim(&chars("'ab' c"), 0, '\''), Some(4));
    assert_eq!(lex_string_delim(&chars("'ab' c"), 0, '"'), None);
    assert_eq!(lex_string_delim(&chars("'a\\'b'"), 0, '\''), Some(6));
    assert_eq!(lex_string_delim(&chars("'ab"), 0, '\''), None);
    assert_eq!(lex_string_delim(&chars("'a\nb'"), 0, '\''), None);
    assert_eq!(lex_string(&chars("x\"a\\tb\""), 1), Some((Token::String("a\\tb".to_string()), 7)));
    assert_eq!(lex_string(&chars("x"), 0), None);
}

#[test]
fn comments_and_labels_at_a_position() {
    assert_eq!(lex_comment(&chars("--a\nb"), 0), Some((Token::Comment("a".to_string()), 3)));
    assert_eq!(lex_comment(&chars("--"), 0), Some((Token::Comment("".to_string()), 2)));
    assert_eq!(lex_comment(&chars("--\nx"), 0), Some((Token::Comment("".to_string()), 2)));
    assert_eq!(lex_comment(&chars("x--"), 1), Some((Token::Comment("".to_string()), 3)));
    assert_eq!(lex_comment(&chars("-a"), 0), None);
    assert_eq!(lex_comment(&chars("-"), 0), None);
    assert_eq!(
        lex_multiline_comment(&chars("--[[a]]b"), 0),
        Some((Token::Comment("a".to_string()), 7))
    );
    assert_eq!(lex_multiline_comment(&chars("--[[a]"), 0), None);
    assert_eq!(lex_multiline_comment(&chars("--[a]]"), 0), None);
    assert_eq!(
        lex_multiline_string(&chars("[=[a]]b]=]c"), 0),
        Some((Token::String("a]]b".to_string()), 10))
    );
    assert_eq!(lex_multiline_string(&chars("[=a]=]"), 0), None);
    assert_eq!(lex_multiline_string(&chars("[==[a]=]"), 0), None);
    assert_eq!(lex_multiline_string(&chars("[[\n\nx]]"), 0), Some((Token::String("\nx".to_string()), 7)));
    assert_eq!(
        lex_goto_label(&chars("::a1::"), 0),
        Some((Token::GotoLabel("a1".to_string()), 6))
    );
    assert_eq!(lex_goto_label(&chars("::1a::"), 0), None);
    assert_eq!(lex_goto_label(&chars("::a:"), 0), None);
    assert_eq!(lex_goto_label(&chars(":::a::"), 0), None);
}

#[test]
fn whole_word_at_a_position() {
    let input = chars("for format +x fo");
    assert_eq!(lex_word(&input, 0, "for"), Some(3));
    assert_eq!(lex_word(&input, 4, "for"), None);
    assert_eq!(lex_tag(&input, 4, "for"), Some(7));
    assert_eq!(lex_word(&input, 11, "+"), Some(12));
    assert_eq!(lex_word(&input, 14, "fo"), Some(16));
    assert_eq!(lex_word(&input, 14, "for"), None);
    assert_eq!(lex_word(&input, 20, "for"), None);
    assert_eq!(lex_word(&chars("_a"), 0, "_"), None);
    assert_eq!(lex_word(&chars("_+"), 0, "_"), Some(1));
    assert_eq!(lex_word(&chars("do9"), 0, "do"), None);
    assert_eq!(lex_word(&chars("do-"), 0, "do"), Some(2));
}

#[test]
fn words_at_a_position() {
    assert_eq!(lex_operator(&chars("<=1"), 0), Some((Token::Operator(Operator::Le), 2)));
    assert_eq!(lex_operator(&chars("<1"), 0), Some((Token::Operator(Operator::Lt), 1)));
    assert_eq!(lex_operator(&chars("~1"), 0), None);
    assert_eq!(lex_operator(&chars("."), 0), None);
    assert_eq!(lex_operator(&chars("nota"), 0), None);
    assert_eq!(lex_operator(&chars("not a"), 0), Some((Token::Operator(Operator::Not), 3)));
    assert_eq!(lex_operator(&chars("not"), 0), Some((Token::Operator(Operator::Not), 3)));
    assert_eq!(lex_operator(&chars("order"), 0), None);
    assert_eq!(lex_operator(&chars("or("), 0), Some((Token::Operator(Operator::Or), 2)));
    assert_eq!(lex_operator(&chars("and1"), 0), None);
    assert_eq!(lex_operator(&chars("+a"), 0), Some((Token::Operator(Operator::Add), 1)));
    assert_eq!(lex_symbol(&chars("..."), 0), Some((Token::DotDotDot, 3)));
    assert_eq!(lex_symbol(&chars("...."), 0), Some((Token::DotDotDot, 3)));
    assert_eq!(lex_symbol(&chars(".."), 0), Some((Token::Dot, 1)));
    assert_eq!(lex_symbol(&chars(".a"), 0), Some((Token::Dot, 1)));
    assert_eq!(lex_symbol(&chars("=="), 0), Some((Token::Equals, 1)));
    assert_eq!(lex_symbol(&chars("(a"), 0), Some((Token::LParen, 1)));
    assert_eq!(lex_symbol(&chars("a"), 0), None);
    assert_eq!(lex_keyword(&chars("elseif"), 0), Some((Token::ElseIf, 6)));
    assert_eq!(lex_keyword(&chars("else if"), 0), Some((Token::Else, 4)));
    assert_eq!(lex_keyword(&chars("format"), 0), None);
    assert_eq!(lex_keyword(&chars("for mat"), 0), Some((Token::For, 3)));
    assert_eq!(lex_keyword(&chars("input"), 0), None);
    assert_eq!(lex_keyword(&chars("in put"), 0), Some((Token::In, 2)));
    assert_eq!(lex_keyword(&chars("truex"), 0), None);
    assert_eq!(lex_keyword(&chars("true)"), 0), Some((Token::Bool(true), 4)));
    assert_eq!(lex_keyword(&chars("false"), 0), Some((Token::Bool(false), 5)));
    assert_eq!(lex_keyword(&chars("Do"), 0), None);
    assert_eq!(lex_keyword(&chars("x do"), 2), Some((Token::Do, 4)));
    assert_eq!(lex_keyword(&chars("xdo"), 1), Some((Token::Do, 3)));
}
