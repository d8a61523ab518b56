//! The expression builder: one evolving tree, one token at a time.

use vstd::prelude::*;
use vstd::slice::slice_subrange;
use crate::operator::Operator;
use crate::parser_laws::lemma_step_spine;
use crate::token::{token_views, Token, TokenView};
use crate::tree::{
    arg_views, lemma_arg_views_replace_last, statement_views, Block, BlockView, Expression,
    ExprView, Statement, StatementView,
};

verus! {

/// Applies `func` to the last element of `args` and leaves the others as
/// they are.
pub fn replace_last<T, F: FnOnce(T) -> T>(args: Vec<T>, func: F) -> (res: Vec<T>)
    requires
        args@.len() > 0,
        func.requires((args@.last(),)),
    ensures
        res@.len() == args@.len(),
        res@.drop_last() == args@.drop_last(),
        func.ensures((args@.last(),), res@.last()),
{
    let mut args = args;
    let ghost before = args@;
    let last = args.pop().unwrap();
    args.push(func(last));
    assert(args@.drop_last() =~= before.drop_last());
    args
}

/// What one token does to the tree: the new tree where the token is placed,
/// `None` where the builder has no rule for it.
///
/// A literal, a name or `...` is offered as a value. A minus is the prefix
/// operator where the rightmost node is an open slot, and the binary one
/// elsewhere. Any other unary operator is offered as a node with one open
/// slot, and any other binary operator is grafted.
pub open spec fn append_token(tree: ExprView, token: TokenView) -> Option<ExprView> {
    match token {
        TokenView::Number(text) => Some(tree.append_value(ExprView::Number(text))),
        TokenView::Bool(b) => Some(tree.append_value(ExprView::Bool(b))),
        TokenView::String(text) => Some(tree.append_value(ExprView::String(text))),
        TokenView::Ident(text) => Some(tree.append_value(ExprView::Ident(text))),
        TokenView::DotDotDot => Some(tree.append_value(ExprView::DotDotDot)),
        TokenView::Operator(op) => Some(
            if op == Operator::Sub {
                if tree.rightmost() is Placeholder {
                    tree.append_value(ExprView::prefix_op(Operator::Neg))
                } else {
                    tree.append_binary_op(Operator::Sub)
                }
            } else if op.spec_is_unary() {
                tree.append_value(ExprView::prefix_op(op))
            } else {
                tree.append_binary_op(op)
            },
        ),
        _ => None,
    }
}

/// The tree after one token: a token without a rule leaves it as it is.
pub open spec fn step(tree: ExprView, token: TokenView) -> ExprView {
    match append_token(tree, token) {
        Some(next) => next,
        None => tree,
    }
}

/// The tree after a sequence of tokens, taken from left to right.
pub open spec fn fold_tokens(tree: ExprView, tokens: Seq<TokenView>) -> ExprView
    decreases tokens.len(),
{
    if tokens.len() == 0 {
        tree
    } else {
        fold_tokens(step(tree, tokens.first()), tokens.drop_first())
    }
}

/// The expression that a sequence of tokens builds from an open slot.
pub open spec fn build(tokens: Seq<TokenView>) -> ExprView {
    fold_tokens(ExprView::Placeholder, tokens)
}

/// The block whose one statement calls `print` on the expression `expr`.
pub open spec fn print_call(expr: ExprView) -> BlockView {
    BlockView {
        body: seq![StatementView::Call { args: seq![ExprView::Ident("print"@), expr] }],
    }
}

/// Builds the expression of `tokens` and wraps it in a call of `print`.
/// Tokens that the builder has no rule for are skipped.
pub fn block_from_tokens(tokens: &[Token]) -> (block: Block)
    ensures
        block@ == print_call(build(token_views(tokens@))),
{
    let mut expr = Expression::Placeholder;
    let mut rest = tokens;
    while rest.len() > 0
        invariant
            expr@.spine_ok(),
            fold_tokens(expr@, token_views(rest@)) == build(token_views(tokens@)),
        decreases rest@.len(),
    {
        let ghost before = expr@;
        let ghost views = token_views(rest@);
        proof {
            lemma_step_spine(before, views.first());
        }
        match expr.append_tokens(rest) {
            Ok((after, tree)) => {
                assert(token_views(after@) =~= views.drop_first());
                rest = after;
                expr = tree;
            },
            Err(tree) => {
                let after = slice_subrange(rest, 1, rest.len());
                assert(token_views(after@) =~= views.drop_first());
                rest = after;
                expr = tree;
            },
        }
    }
    let ghost built = expr@;
    let mut args: Vec<Expression> = Vec::new();
    args.push(Expression::Ident("print".to_owned()));
    args.push(expr);
    assert(arg_views(args@) =~= seq![ExprView::Ident("print"@), built]);
    let mut body: Vec<Statement> = Vec::new();
    body.push(Statement::Call { args });
    assert(statement_views(body@) =~= print_call(built).body);
    Block { body }
}

impl Expression {
    /// `op` applied to one open slot.
    pub fn prefix_op(op: Operator) -> (res: Expression)
        ensures
            res@ == ExprView::prefix_op(op),
    {
        let mut args: Vec<Expression> = Vec::new();
        args.push(Expression::Placeholder);
        assert(arg_views(args@) =~= seq![ExprView::Placeholder]);
        Expression::Operator { op, args }
    }

    /// Tries to place the first of `tokens` on the tree. Where the builder
    /// has a rule for it, the result is the new tree and the tokens after
    /// it. Where it has none, or no token is left, the tree comes back as
    /// it was.
    pub fn append_tokens<'a>(self, tokens: &'a [Token]) -> (res: Result<
        (&'a [Token], Expression),
        Expression,
    >)
        requires
            self@.spine_ok(),
        ensures
            match res {
                Ok((rest, tree)) => {
                    &&& tokens@.len() > 0
                    &&& append_token(self@, tokens@[0]@) == Some(tree@)
                    &&& rest@ == tokens@.drop_first()
                },
                Err(tree) => {
                    &&& tree == self
                    &&& tokens@.len() > 0 ==> append_token(self@, tokens@[0]@) is None
                },
            },
    {
        if tokens.len() == 0 {
            return Err(self);
        }
        let rest = slice_subrange(tokens, 1, tokens.len());
        assert(rest@ =~= tokens@.drop_first());
        match &tokens[0] {
            Token::Number(text) => Ok((rest, self.append_value(Expression::Number(text.clone())))),
            Token::Bool(b) => Ok((rest, self.append_value(Expression::Bool(*b)))),
            Token::String(text) => Ok((rest, self.append_value(Expression::String(text.clone())))),
            Token::Ident(text) => Ok((rest, self.append_value(Expression::Ident(text.clone())))),
            Token::DotDotDot => Ok((rest, self.append_value(Expression::DotDotDot))),
            Token::Operator(op) => {
                let op = *op;
                if op == Operator::Sub {
                    let is_open = |node: &Expression| -> (open: bool)
                        ensures
                            open == (node@ is Placeholder),
                    {
                        node.is_placeholder()
                    };
                    proof {
                        self.lemma_rightmost_node_view();
                    }
                    if self.test_rightmost(is_open) {
                        Ok((rest, self.append_value(Expression::prefix_op(Operator::Neg))))
                    } else {
                        Ok((rest, self.append_binary_op(Operator::Sub)))
                    }
                } else if op.is_unary() {
                    Ok((rest, self.append_value(Expression::prefix_op(op))))
                } else {
                    Ok((rest, self.append_binary_op(op)))
                }
            },
            _ => Err(self),
        }
    }

    /// Whether the node is an open slot.
    pub fn is_placeholder(&self) -> (res: bool)
        ensures
            res == (self@ is Placeholder),
    {
        match self {
            Expression::Placeholder => true,
            _ => false,
        }
    }

    /// Offers a value to the tree: it fills the rightmost node where that is
    /// an open slot, and is dropped where that node already holds something.
    pub fn append_value(self, value: Expression) -> (res: Expression)
        requires
            self@.spine_ok(),
        ensures
            res@ == self@.append_value(value@),
        decreases self,
    {
        match self {
            Expression::Placeholder => value,
            Expression::Operator { op, args } => {
                let ghost before = args@;
                let ghost value_view = value@;
                let grow = |last: Expression| -> (grown: Expression)
                    requires
                        last == before.last(),
                    ensures
                        grown@ == before.last()@.append_value(value_view),
                {
                    last.append_value(value)
                };
                proof {
                    lemma_arg_views_replace_last(before, before);
                }
                let args = replace_last(args, grow);
                proof {
                    lemma_arg_views_replace_last(before, args@);
                }
                Expression::Operator { op, args }
            },
            other => other,
        }
    }

    /// The tree as the left operand of `op`, with an open slot to its right.
    pub fn wrapped_in_op(self, op: Operator) -> (res: Expression)
        ensures
            res@ == self@.wrapped_in_op(op),
    {
        let ghost before = self@;
        let mut args: Vec<Expression> = Vec::new();
        args.push(self);
        args.push(Expression::Placeholder);
        assert(arg_views(args@) =~= seq![before, ExprView::Placeholder]);
        Expression::Operator { op, args }
    }

    /// Grafts a binary operator onto the tree, by the rules of
    /// [`ExprView::append_binary_op`].
    pub fn append_binary_op(self, new_op: Operator) -> (res: Expression)
        requires
            self@.spine_ok(),
        ensures
            res@ == self@.append_binary_op(new_op),
        decreases self,
    {
        match self {
            Expression::Operator { op, args } => {
                let ghost before = args@;
                proof {
                    lemma_arg_views_replace_last(before, before);
                }
                if op == new_op {
                    let mut args = args;
                    args.push(Expression::Placeholder);
                    assert(arg_views(args@) =~= arg_views(before).push(ExprView::Placeholder));
                    Expression::Operator { op, args }
                } else if args[args.len() - 1].is_operator() {
                    let graft = |last: Expression| -> (grown: Expression)
                        requires
                            last == before.last(),
                        ensures
                            grown@ == before.last()@.append_binary_op(new_op),
                    {
                        last.append_binary_op(new_op)
                    };
                    let args = replace_last(args, graft);
                    proof {
                        lemma_arg_views_replace_last(before, args@);
                    }
                    Expression::Operator { op, args }
                } else if new_op.precedence() > op.precedence() {
                    let splice = |last: Expression| -> (grown: Expression)
                        ensures
                            grown@ == last@.wrapped_in_op(new_op),
                    {
                        last.wrapped_in_op(new_op)
                    };
                    let args = replace_last(args, splice);
                    proof {
                        lemma_arg_views_replace_last(before, args@);
                    }
                    Expression::Operator { op, args }
                } else {
                    Expression::Operator { op, args }.wrapped_in_op(new_op)
                }
            },
            other => other.wrapped_in_op(new_op),
        }
    }

    /// Whether the node is an operator node.
    pub fn is_operator(&self) -> (res: bool)
        ensures
            res == (self@ is Operator),
    {
        match self {
            Expression::Operator { .. } => true,
            _ => false,
        }
    }

    /// Applies `test` to the node at the end of the rightmost spine.
    pub fn test_rightmost<F: FnOnce(&Expression) -> bool>(&self, test: F) -> (res: bool)
        requires
            self@.spine_ok(),
            test.requires((&self.rightmost_node(),)),
        ensures
            test.ensures((&self.rightmost_node(),), res),
        decreases self,
    {
        match self {
            Expression::Operator { op, args } => {
                proof {
                    lemma_arg_views_replace_last(args@, args@);
                }
                args[args.len() - 1].test_rightmost(test)
            },
            _ => test(self),
        }
    }
}

} // verus!
