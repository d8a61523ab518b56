//! What holds of the expression builder on every tree and every sequence
//! of tokens.

use vstd::prelude::*;
use crate::operator::Operator;
use crate::parser::{build, fold_tokens, step};
use crate::token::TokenView;
use crate::tree::ExprView;

verus! {

/// Offering a value whose own spine ends in a leaf keeps that true of the
/// tree.
pub proof fn lemma_append_value_spine(tree: ExprView, value: ExprView)
    requires
        tree.spine_ok(),
        value.spine_ok(),
    ensures
        tree.append_value(value).spine_ok(),
    decreases tree,
{
    match tree {
        ExprView::Operator { op, args } => {
            lemma_append_value_spine(args.last(), value);
        },
        _ => {},
    }
}

/// Grafting a binary operator keeps the spine ending in a leaf.
pub proof fn lemma_append_binary_op_spine(tree: ExprView, new_op: Operator)
    requires
        tree.spine_ok(),
    ensures
        tree.append_binary_op(new_op).spine_ok(),
    decreases tree,
{
    reveal_with_fuel(ExprView::spine_ok, 3);
    match tree {
        ExprView::Operator { op, args } => {
            if op != new_op && args.last() is Operator {
                lemma_append_binary_op_spine(args.last(), new_op);
            }
        },
        _ => {},
    }
}

/// No token breaks the spine.
pub proof fn lemma_step_spine(tree: ExprView, token: TokenView)
    requires
        tree.spine_ok(),
    ensures
        step(tree, token).spine_ok(),
{
    reveal_with_fuel(ExprView::spine_ok, 2);
    match token {
        TokenView::Number(text) => lemma_append_value_spine(tree, ExprView::Number(text)),
        TokenView::Bool(b) => lemma_append_value_spine(tree, ExprView::Bool(b)),
        TokenView::String(text) => lemma_append_value_spine(tree, ExprView::String(text)),
        TokenView::Ident(text) => lemma_append_value_spine(tree, ExprView::Ident(text)),
        TokenView::DotDotDot => lemma_append_value_spine(tree, ExprView::DotDotDot),
        TokenView::Operator(op) => {
            lemma_append_value_spine(tree, ExprView::prefix_op(Operator::Neg));
            lemma_append_value_spine(tree, ExprView::prefix_op(op));
            lemma_append_binary_op_spine(tree, op);
        },
        _ => {},
    }
}

/// A tree whose operator nodes all have the arguments they take has a
/// spine that ends in a leaf.
pub proof fn lemma_arity_implies_spine(tree: ExprView)
    requires
        tree.arity_ok(),
    ensures
        tree.spine_ok(),
    decreases tree,
{
    match tree {
        ExprView::Operator { op, args } => {
            assert(args[args.len() - 1].arity_ok());
            lemma_arity_implies_spine(args.last());
        },
        _ => {},
    }
}

/// Offering a value keeps every operator node at its arity.
pub proof fn lemma_append_value_arity(tree: ExprView, value: ExprView)
    requires
        tree.arity_ok(),
        value.arity_ok(),
    ensures
        tree.append_value(value).arity_ok(),
    decreases tree,
{
    match tree {
        ExprView::Operator { op, args } => {
            assert(args[args.len() - 1].arity_ok());
            lemma_append_value_arity(args.last(), value);
            let grown = args.drop_last().push(args.last().append_value(value));
            assert forall|i: int| 0 <= i < grown.len() implies (#[trigger] grown[i]).arity_ok() by {
                if i < args.len() - 1 {
                    assert(grown[i] == args[i]);
                }
            }
        },
        _ => {},
    }
}

/// Grafting a binary operator keeps every operator node at its arity.
pub proof fn lemma_append_binary_op_arity(tree: ExprView, new_op: Operator)
    requires
        tree.arity_ok(),
        !new_op.spec_is_unary(),
    ensures
        tree.append_binary_op(new_op).arity_ok(),
    decreases tree,
{
    let wrapped = seq![tree, ExprView::Placeholder];
    assert forall|i: int| 0 <= i < wrapped.len() implies (#[trigger] wrapped[i]).arity_ok() by {}
    match tree {
        ExprView::Operator { op, args } => {
            assert(args[args.len() - 1].arity_ok());
            if op == new_op {
                let grown = args.push(ExprView::Placeholder);
                assert forall|i: int| 0 <= i < grown.len() implies (#[trigger] grown[i]).arity_ok() by {
                    if i < args.len() {
                        assert(grown[i] == args[i]);
                    }
                }
            } else {
                let last = if args.last() is Operator {
                    args.last().append_binary_op(new_op)
                } else {
                    args.last().wrapped_in_op(new_op)
                };
                if args.last() is Operator {
                    lemma_append_binary_op_arity(args.last(), new_op);
                } else {
                    let inner = seq![args.last(), ExprView::Placeholder];
                    assert forall|i: int| 0 <= i < inner.len() implies (#[trigger] inner[i]).arity_ok() by {}
                }
                let grown = args.drop_last().push(last);
                assert forall|i: int| 0 <= i < grown.len() implies (#[trigger] grown[i]).arity_ok() by {
                    if i < args.len() - 1 {
                        assert(grown[i] == args[i]);
                    }
                }
            }
        },
        _ => {},
    }
}

/// No token takes an operator node off its arity.
pub proof fn lemma_step_arity(tree: ExprView, token: TokenView)
    requires
        tree.arity_ok(),
    ensures
        step(tree, token).arity_ok(),
{
    match token {
        TokenView::Number(text) => lemma_append_value_arity(tree, ExprView::Number(text)),
        TokenView::Bool(b) => lemma_append_value_arity(tree, ExprView::Bool(b)),
        TokenView::String(text) => lemma_append_value_arity(tree, ExprView::String(text)),
        TokenView::Ident(text) => lemma_append_value_arity(tree, ExprView::Ident(text)),
        TokenView::DotDotDot => lemma_append_value_arity(tree, ExprView::DotDotDot),
        TokenView::Operator(op) => {
            let slot = seq![ExprView::Placeholder];
            assert forall|i: int| 0 <= i < slot.len() implies (#[trigger] slot[i]).arity_ok() by {}
            if op == Operator::Sub {
                lemma_append_value_arity(tree, ExprView::prefix_op(Operator::Neg));
                lemma_append_binary_op_arity(tree, Operator::Sub);
            } else if op.spec_is_unary() {
                lemma_append_value_arity(tree, ExprView::prefix_op(op));
            } else {
                lemma_append_binary_op_arity(tree, op);
            }
        },
        _ => {},
    }
}

/// Whatever the tokens, every operator node of the tree has the arguments
/// its operator takes.
pub proof fn lemma_fold_arity(tree: ExprView, tokens: Seq<TokenView>)
    requires
        tree.arity_ok(),
    ensures
        fold_tokens(tree, tokens).arity_ok(),
    decreases tokens.len(),
{
    if tokens.len() > 0 {
        lemma_step_arity(tree, tokens.first());
        lemma_fold_arity(step(tree, tokens.first()), tokens.drop_first());
    }
}

/// The expression built from any sequence of tokens has, at every operator
/// node, exactly one argument under a unary operator and two or more under
/// a binary one.
pub proof fn lemma_build_arity(tokens: Seq<TokenView>)
    ensures
        build(tokens).arity_ok(),
{
    lemma_fold_arity(ExprView::Placeholder, tokens);
}

/// Whether the builder has a rule for the token.
pub open spec fn has_rule(token: TokenView) -> bool {
    token is Number || token is Bool || token is String || token is Ident || token is DotDotDot
        || token is Operator
}

/// The tokens that the builder has a rule for, in order.
pub open spec fn with_rule(tokens: Seq<TokenView>) -> Seq<TokenView>
    decreases tokens.len(),
{
    if tokens.len() == 0 {
        tokens
    } else if has_rule(tokens.first()) {
        seq![tokens.first()] + with_rule(tokens.drop_first())
    } else {
        with_rule(tokens.drop_first())
    }
}

/// Tokens without a rule leave no trace: the tree after a sequence of
/// tokens is the tree after those of them that have a rule.
pub proof fn lemma_fold_skips(tree: ExprView, tokens: Seq<TokenView>)
    ensures
        fold_tokens(tree, tokens) == fold_tokens(tree, with_rule(tokens)),
    decreases tokens.len(),
{
    if tokens.len() > 0 {
        let first = tokens.first();
        let rest = tokens.drop_first();
        lemma_fold_skips(step(tree, first), rest);
        if has_rule(first) {
            let kept = seq![first] + with_rule(rest);
            assert(kept.first() == first);
            assert(kept.drop_first() =~= with_rule(rest));
        }
    }
}

/// Building from a sequence of tokens, and building from it with every
/// token dropped that has no rule, give the same expression.
pub proof fn lemma_build_skips(tokens: Seq<TokenView>)
    ensures
        build(tokens) == build(with_rule(tokens)),
{
    lemma_fold_skips(ExprView::Placeholder, tokens);
}

/// A value offered to a tree whose rightmost node is already filled is
/// dropped: the tree stays as it is.
pub proof fn lemma_append_value_filled(tree: ExprView, value: ExprView)
    requires
        tree.spine_ok(),
        !(tree.rightmost() is Placeholder),
    ensures
        tree.append_value(value) == tree,
    decreases tree,
{
    match tree {
        ExprView::Operator { op, args } => {
            lemma_append_value_filled(args.last(), value);
            assert(args.drop_last().push(args.last()) =~= args);
        },
        _ => {},
    }
}

/// A value offered to a tree whose rightmost node is an open slot takes
/// that slot: the rightmost node of the new tree is that of the value.
pub proof fn lemma_append_value_open(tree: ExprView, value: ExprView)
    requires
        tree.spine_ok(),
        tree.rightmost() is Placeholder,
    ensures
        tree.append_value(value).rightmost() == value.rightmost(),
    decreases tree,
{
    match tree {
        ExprView::Operator { op, args } => {
            lemma_append_value_open(args.last(), value);
        },
        _ => {},
    }
}

} // verus!
