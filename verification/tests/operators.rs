use libkon::{get_precedence, operator_to_string, Associativity, Operator};

const ALL: [Operator; 18] = [
    Operator::Or,
    Operator::And,
    Operator::Eq,
    Operator::Neq,
    Operator::Le,
    Operator::Ge,
    Operator::Lt,
    Operator::Gt,
    Operator::Concat,
    Operator::Add,
    Operator::Sub,
    Operator::Mul,
    Operator::Div,
    Operator::Mod,
    Operator::Not,
    Operator::Len,
    Operator::Neg,
    Operator::Pow,
];

#[test]
fn every_operator_has_its_spelling() {
    let spelled: Vec<String> = ALL.iter().map(|op| operator_to_string(*op)).collect();
    assert_eq!(
        spelled,
        vec![
            "or", "and", "==", "~=", "<=", ">=", "<", ">", "..", "+", "-", "*", "/", "%", "not",
            "#", "-", "^"
        ]
    );
    for op in ALL {
        assert_eq!(op.to_symbol(), operator_to_string(op));
    }
}

#[test]
fn every_operator_has_its_level() {
    let levels: Vec<u8> = ALL.iter().map(|op| get_precedence(*op)).collect();
    assert_eq!(levels, vec![1, 2, 3, 3, 3, 3, 3, 3, 4, 5, 5, 6, 6, 6, 7, 7, 7, 8]);
    for op in ALL {
        assert_eq!(op.precedence(), get_precedence(op));
        assert_eq!(op.precedence_class().level, get_precedence(op));
    }
}

#[test]
fn tighter_operators_have_higher_levels() {
    assert!(get_precedence(Operator::Pow) > get_precedence(Operator::Mul));
    assert!(get_precedence(Operator::Neg) > get_precedence(Operator::Mul));
    assert!(get_precedence(Operator::Not) > get_precedence(Operator::Div));
    assert!(get_precedence(Operator::Len) > get_precedence(Operator::Mod));
    assert!(get_precedence(Operator::Mul) > get_precedence(Operator::Add));
    assert!(get_precedence(Operator::Mul) > get_precedence(Operator::Concat));
    assert!(get_precedence(Operator::Sub) > get_precedence(Operator::Lt));
    assert!(get_precedence(Operator::Concat) > get_precedence(Operator::Eq));
    assert!(get_precedence(Operator::Eq) > get_precedence(Operator::And));
    assert!(get_precedence(Operator::And) > get_precedence(Operator::Or));
}

#[test]
fn three_operators_are_unary() {
    let unary: Vec<Operator> = ALL.iter().copied().filter(|op| op.is_unary()).collect();
    assert_eq!(unary, vec![Operator::Not, Operator::Len, Operator::Neg]);
}

#[test]
fn two_operators_group_to_the_right() {
    let right: Vec<Operator> =
        ALL.iter().copied().filter(|op| op.associativity() == Associativity::Right).collect();
    assert_eq!(right, vec![Operator::Concat, Operator::Pow]);
    assert_eq!(Operator::Pow.precedence_class().assoc, Associativity::Right);
    assert_eq!(Operator::Add.precedence_class().assoc, Associativity::Left);
}
