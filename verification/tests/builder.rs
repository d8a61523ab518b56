use libkon::{block_from_tokens, string_to_tree, Block, Expression, Operator, Statement, Token};

fn num(text: &str) -> Expression {
    Expression::Number(text.to_string())
}

fn ident(text: &str) -> Expression {
    Expression::Ident(text.to_string())
}

fn node(op: Operator, args: Vec<Expression>) -> Expression {
    Expression::Operator { op, args }
}

fn printed(block: Block) -> Expression {
    let mut body = block.body;
    assert_eq!(body.len(), 1);
    match body.pop().unwrap() {
        Statement::Call { mut args } => {
            assert_eq!(args.len(), 2);
            let expr = args.pop().unwrap();
            assert_eq!(args.pop().unwrap(), ident("print"));
            expr
        }
        other => panic!("not a call: {:?}", other),
    }
}

fn tree(text: &str) -> Expression {
    printed(string_to_tree(text))
}

fn built(tokens: Vec<Token>) -> Expression {
    printed(block_from_tokens(&tokens))
}

#[test]
fn multiplication_binds_tighter_than_addition() {
    assert_eq!(
        tree("1 + 2 * 3"),
        node(Operator::Add, vec![num("1"), node(Operator::Mul, vec![num("2"), num("3")])])
    );
    assert_ne!(
        tree("1 + 2 * 3"),
        node(Operator::Mul, vec![node(Operator::Add, vec![num("1"), num("2")]), num("3")])
    );
}

#[test]
fn same_operator_chain_is_one_node() {
    assert_eq!(tree("1 + 2 + 3"), node(Operator::Add, vec![num("1"), num("2"), num("3")]));
}

#[test]
fn power_chain_is_one_node() {
    assert_eq!(tree("2 ^ 3 ^ 4"), node(Operator::Pow, vec![num("2"), num("3"), num("4")]));
}

#[test]
fn power_takes_the_last_operand() {
    assert_eq!(
        tree("1 * 2 ^ 3"),
        node(Operator::Mul, vec![num("1"), node(Operator::Pow, vec![num("2"), num("3")])])
    );
    assert_eq!(
        tree("1 + 2 * 3 ^ 4"),
        node(
            Operator::Add,
            vec![
                num("1"),
                node(Operator::Mul, vec![num("2"), node(Operator::Pow, vec![num("3"), num("4")])]),
            ]
        )
    );
}

#[test]
fn minus_is_prefix_on_an_open_slot() {
    assert_eq!(tree("-1"), node(Operator::Neg, vec![num("1")]));
}

#[test]
fn minus_is_binary_after_a_value() {
    assert_eq!(tree("5 - 1"), node(Operator::Sub, vec![num("5"), num("1")]));
}

#[test]
fn minus_after_minus_is_prefix() {
    assert_eq!(
        tree("5 - -1"),
        node(Operator::Sub, vec![num("5"), node(Operator::Neg, vec![num("1")])])
    );
}

#[test]
fn unknown_token_between_values_is_skipped() {
    let tokens = vec![
        Token::Number("1".to_string()),
        Token::Operator(Operator::Add),
        Token::Unknown("@".to_string()),
        Token::Number("2".to_string()),
    ];
    assert_eq!(built(tokens), node(Operator::Add, vec![num("1"), num("2")]));
}

#[test]
fn text_after_an_unknown_character_is_lost() {
    assert_eq!(tree("1 + @ 2"), node(Operator::Add, vec![num("1"), Expression::Placeholder]));
}

#[test]
fn nothing_builds_an_open_slot() {
    assert_eq!(tree(""), Expression::Placeholder);
    assert_eq!(built(vec![]), Expression::Placeholder);
}

#[test]
fn single_values() {
    assert_eq!(tree("42"), num("42"));
    assert_eq!(tree("x"), ident("x"));
    assert_eq!(tree("true"), Expression::Bool(true));
    assert_eq!(tree("false"), Expression::Bool(false));
    assert_eq!(tree("'hi'"), Expression::String("hi".to_string()));
    assert_eq!(built(vec![Token::DotDotDot]), Expression::DotDotDot);
}

#[test]
fn numbers_keep_their_spelling_in_the_tree() {
    assert_eq!(
        tree("0x10 + 1.50"),
        node(Operator::Add, vec![num("0x10"), num("1.50")])
    );
}

#[test]
fn value_after_value_is_dropped() {
    assert_eq!(tree("1 2"), num("1"));
    assert_eq!(tree("1 + 2 3"), node(Operator::Add, vec![num("1"), num("2")]));
    assert_eq!(tree("x not"), ident("x"));
}

#[test]
fn looser_operator_takes_the_whole_tree() {
    assert_eq!(
        tree("1 * 2 + 3"),
        node(Operator::Add, vec![node(Operator::Mul, vec![num("1"), num("2")]), num("3")])
    );
    assert_eq!(
        tree("1 + 2 - 3"),
        node(Operator::Sub, vec![node(Operator::Add, vec![num("1"), num("2")]), num("3")])
    );
}

#[test]
fn chain_goes_on_after_a_tighter_operand() {
    assert_eq!(
        tree("1 + 2 * 3 + 4"),
        node(
            Operator::Add,
            vec![num("1"), node(Operator::Mul, vec![num("2"), num("3")]), num("4")]
        )
    );
}

#[test]
fn tighter_operator_after_a_looser_one_takes_the_last_operand() {
    assert_eq!(
        tree("1 * 2 + 3 * 4"),
        node(
            Operator::Add,
            vec![
                node(Operator::Mul, vec![num("1"), num("2")]),
                node(Operator::Mul, vec![num("3"), num("4")]),
            ]
        )
    );
}

#[test]
fn graft_goes_into_the_last_operator_argument() {
    assert_eq!(
        tree("1 + 2 * 3 - 4"),
        node(
            Operator::Add,
            vec![
                num("1"),
                node(Operator::Sub, vec![node(Operator::Mul, vec![num("2"), num("3")]), num("4")]),
            ]
        )
    );
}

#[test]
fn logic_operators_nest_by_level() {
    assert_eq!(
        tree("a or b and c"),
        node(Operator::Or, vec![ident("a"), node(Operator::And, vec![ident("b"), ident("c")])])
    );
    assert_eq!(
        tree("a == b and c"),
        node(Operator::And, vec![node(Operator::Eq, vec![ident("a"), ident("b")]), ident("c")])
    );
    assert_eq!(
        tree("a .. b + 1"),
        node(Operator::Concat, vec![ident("a"), node(Operator::Add, vec![ident("b"), num("1")])])
    );
}

#[test]
fn prefix_operators_take_one_operand() {
    assert_eq!(tree("not x"), node(Operator::Not, vec![ident("x")]));
    assert_eq!(tree("#t"), node(Operator::Len, vec![ident("t")]));
    assert_eq!(tree("not not x"), node(Operator::Not, vec![node(Operator::Not, vec![ident("x")])]));
    assert_eq!(tree("- - 1"), node(Operator::Neg, vec![node(Operator::Neg, vec![num("1")])]));
    assert_eq!(
        tree("1 + #t"),
        node(Operator::Add, vec![num("1"), node(Operator::Len, vec![ident("t")])])
    );
    assert_eq!(
        built(vec![Token::Operator(Operator::Neg), Token::Number("1".to_string())]),
        node(Operator::Neg, vec![num("1")])
    );
}

#[test]
fn binary_operator_after_a_prefix_operand() {
    assert_eq!(
        tree("-1 + 2"),
        node(Operator::Add, vec![node(Operator::Neg, vec![num("1")]), num("2")])
    );
    assert_eq!(
        tree("not a ^ b"),
        node(Operator::Not, vec![node(Operator::Pow, vec![ident("a"), ident("b")])])
    );
}

#[test]
fn operator_without_operands_keeps_its_open_slots() {
    assert_eq!(
        tree("+"),
        node(Operator::Add, vec![Expression::Placeholder, Expression::Placeholder])
    );
    assert_eq!(tree("1 +"), node(Operator::Add, vec![num("1"), Expression::Placeholder]));
    assert_eq!(tree("-"), node(Operator::Neg, vec![Expression::Placeholder]));
    assert_eq!(
        tree("1 + +"),
        node(Operator::Add, vec![num("1"), Expression::Placeholder, Expression::Placeholder])
    );
}

#[test]
fn tokens_without_a_rule_are_skipped() {
    assert_eq!(tree("nil"), Expression::Placeholder);
    assert_eq!(tree("( 1 )"), num("1"));
    assert_eq!(
        tree("local x = 1 + 2 -- sum\n"),
        node(Operator::Add, vec![ident("x"), num("2")])
    );
    assert_eq!(
        tree("..."),
        node(Operator::Concat, vec![Expression::Placeholder, Expression::Placeholder])
    );
}

#[test]
fn names_that_hold_a_keyword_are_values() {
    assert_eq!(
        tree("order + format"),
        node(Operator::Add, vec![ident("order"), ident("format")])
    );
    assert_eq!(tree("nothing"), ident("nothing"));
    assert_eq!(tree("not hing"), node(Operator::Not, vec![ident("hing")]));
}

#[test]
fn two_points_between_numbers_join_them() {
    assert_eq!(tree("1..2"), node(Operator::Concat, vec![num("1"), num("2")]));
}

#[test]
fn empty_comment_is_skipped() {
    assert_eq!(tree("1 --\n+ 2"), node(Operator::Add, vec![num("1"), num("2")]));
    assert_eq!(tree("1 --"), num("1"));
}

#[test]
fn tokens_without_a_rule_leave_no_trace() {
    let noise = || {
        vec![
            Token::Unknown("?".to_string()),
            Token::LParen,
            Token::Comment("c".to_string()),
            Token::LineBreak,
            Token::Nil,
            Token::GotoLabel("l".to_string()),
            Token::While,
            Token::Comma,
        ]
    };
    let plain = vec![
        Token::Ident("a".to_string()),
        Token::Operator(Operator::Mul),
        Token::Operator(Operator::Sub),
        Token::Number("2".to_string()),
        Token::Operator(Operator::Add),
        Token::Bool(true),
    ];
    let mut noisy = noise();
    for token in &plain {
        noisy.push(token.clone());
        noisy.extend(noise());
    }
    assert_eq!(built(noisy), built(plain));
}

fn arity_holds(expr: &Expression) -> bool {
    match expr {
        Expression::Operator { op, args } => {
            let count = if op.is_unary() { args.len() == 1 } else { args.len() >= 2 };
            count && args.iter().all(arity_holds)
        }
        _ => true,
    }
}

#[test]
fn every_node_has_the_operands_its_operator_takes() {
    for source in [
        "1 + 2 * 3 - 4 ^ 5 ^ 6 .. x",
        "- - not # a + + + b",
        "* / % ^ ..",
        "not and or not",
        "1 - - - 2 * - 3",
        "a < b <= c == d ~= e >= f > g",
    ] {
        assert!(arity_holds(&tree(source)), "{}", source);
    }
}
