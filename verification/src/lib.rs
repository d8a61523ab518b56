//! A front end for a Lua-family scripting language: a lexer that never fails
//! and an expression builder that folds tokens into an operator tree one
//! token at a time, skipping what it cannot place.

use vstd::prelude::*;

pub mod chars;
pub mod copy;
pub mod grammar;
pub mod lexer;
pub mod lexer_laws;
pub mod operator;
pub mod parser;
pub mod parser_laws;
pub mod token;
pub mod tree;

pub use lexer::{lex_ident, lex_token, lex_tokens, lex_with_spans, name, Span};
pub use operator::{Associativity, Operator, Precedence};
pub use parser::{block_from_tokens, replace_last};
pub use token::Token;
pub use tree::{Block, Expression, Field, FunDef, Statement};

verus! {

/// Whether the whole of `input` is one name: a letter or `_`, then letters,
/// digits and `_` to the end.
pub fn is_ident(input: &str) -> (res: bool)
    ensures
        res == grammar::is_name(input@),
{
    let chars = chars::chars_of(input);
    match lexer::name(chars.as_slice(), 0) {
        Some(end) => end == chars.len(),
        None => false,
    }
}

/// The spelling of the operator in source text.
pub fn operator_to_string(op: Operator) -> (symbol: String)
    ensures
        symbol@ == op.spec_symbol(),
{
    op.to_symbol().to_owned()
}

/// The level of the operator: a higher level binds tighter.
pub fn get_precedence(op: Operator) -> (level: u8)
    ensures
        level == op.spec_precedence(),
{
    op.precedence()
}

/// The tree of a text: its tokens, built into one expression and wrapped
/// in a call of `print`.
pub fn string_to_tree(input: &str) -> (block: Block)
    ensures
        block@ == parser::print_call(parser::build(grammar::lex(grammar::normalized(input@)))),
{
    let tokens = lex_tokens(input);
    block_from_tokens(tokens.as_slice())
}

} // verus!
