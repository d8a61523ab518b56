//! The tokens that the lexer produces and the builder consumes.

use vstd::prelude::*;
use crate::operator::Operator;

verus! {

/// A lexeme of the source. Literal tokens own a copy of their text.
#[derive(Debug, PartialEq, Eq)]
pub enum Token {
    /// What is left of the input from the place where no token matches.
    Unknown(String),
    Number(String),
    Bool(bool),
    String(String),
    Ident(String),
    Operator(Operator),
    GotoLabel(String),
    Nil,
    LineBreak,
    Comment(String),
    Break,
    Do,
    Else,
    ElseIf,
    End,
    For,
    Function,
    Goto,
    If,
    In,
    Local,
    Repeat,
    Return,
    Then,
    Until,
    While,
    LParen,
    RParen,
    LCurly,
    RCurly,
    LSquare,
    RSquare,
    Equals,
    Colon,
    Comma,
    Dot,
    DotDotDot,
}

/// The model of a token: the same variants, with text as sequences of
/// characters.
pub enum TokenView {
    Unknown(Seq<char>),
    Number(Seq<char>),
    Bool(bool),
    String(Seq<char>),
    Ident(Seq<char>),
    Operator(Operator),
    GotoLabel(Seq<char>),
    Nil,
    LineBreak,
    Comment(Seq<char>),
    Break,
    Do,
    Else,
    ElseIf,
    End,
    For,
    Function,
    Goto,
    If,
    In,
    Local,
    Repeat,
    Return,
    Then,
    Until,
    While,
    LParen,
    RParen,
    LCurly,
    RCurly,
    LSquare,
    RSquare,
    Equals,
    Colon,
    Comma,
    Dot,
    DotDotDot,
}

impl View for Token {
    type V = TokenView;

    open spec fn view(&self) -> TokenView {
        match self {
            Token::Unknown(s) => TokenView::Unknown(s@),
            Token::Number(s) => TokenView::Number(s@),
            Token::Bool(b) => TokenView::Bool(*b),
            Token::String(s) => TokenView::String(s@),
            Token::Ident(s) => TokenView::Ident(s@),
            Token::Operator(op) => TokenView::Operator(*op),
            Token::GotoLabel(s) => TokenView::GotoLabel(s@),
            Token::Nil => TokenView::Nil,
            Token::LineBreak => TokenView::LineBreak,
            Token::Comment(s) => TokenView::Comment(s@),
            Token::Break => TokenView::Break,
            Token::Do => TokenView::Do,
            Token::Else => TokenView::Else,
            Token::ElseIf => TokenView::ElseIf,
            Token::End => TokenView::End,
            Token::For => TokenView::For,
            Token::Function => TokenView::Function,
            Token::Goto => TokenView::Goto,
            Token::If => TokenView::If,
            Token::In => TokenView::In,
            Token::Local => TokenView::Local,
            Token::Repeat => TokenView::Repeat,
            Token::Return => TokenView::Return,
            Token::Then => TokenView::Then,
            Token::Until => TokenView::Until,
            Token::While => TokenView::While,
            Token::LParen => TokenView::LParen,
            Token::RParen => TokenView::RParen,
            Token::LCurly => TokenView::LCurly,
            Token::RCurly => TokenView::RCurly,
            Token::LSquare => TokenView::LSquare,
            Token::RSquare => TokenView::RSquare,
            Token::Equals => TokenView::Equals,
            Token::Colon => TokenView::Colon,
            Token::Comma => TokenView::Comma,
            Token::Dot => TokenView::Dot,
            Token::DotDotDot => TokenView::DotDotDot,
        }
    }
}

impl Clone for Token {
    fn clone(&self) -> (res: Self)
        ensures
            res@ == self@,
    {
        match self {
            Token::Unknown(text) => Token::Unknown(text.clone()),
            Token::Number(text) => Token::Number(text.clone()),
            Token::String(text) => Token::String(text.clone()),
            Token::Ident(text) => Token::Ident(text.clone()),
            Token::GotoLabel(text) => Token::GotoLabel(text.clone()),
            Token::Comment(text) => Token::Comment(text.clone()),
            Token::Bool(b) => Token::Bool(*b),
            Token::Operator(op) => Token::Operator(*op),
            Token::Nil => Token::Nil,
            Token::LineBreak => Token::LineBreak,
            Token::Break => Token::Break,
            Token::Do => Token::Do,
            Token::Else => Token::Else,
            Token::ElseIf => Token::ElseIf,
            Token::End => Token::End,
            Token::For => Token::For,
            Token::Function => Token::Function,
            Token::Goto => Token::Goto,
            Token::If => Token::If,
            Token::In => Token::In,
            Token::Local => Token::Local,
            Token::Repeat => Token::Repeat,
            Token::Return => Token::Return,
            Token::Then => Token::Then,
            Token::Until => Token::Until,
            Token::While => Token::While,
            Token::LParen => Token::LParen,
            Token::RParen => Token::RParen,
            Token::LCurly => Token::LCurly,
            Token::RCurly => Token::RCurly,
            Token::LSquare => Token::LSquare,
            Token::RSquare => Token::RSquare,
            Token::Equals => Token::Equals,
            Token::Colon => Token::Colon,
            Token::Comma => Token::Comma,
            Token::Dot => Token::Dot,
            Token::DotDotDot => Token::DotDotDot,
        }
    }
}

/// The views of a sequence of tokens, in order.
pub open spec fn token_views(tokens: Seq<Token>) -> Seq<TokenView> {
    Seq::new(tokens.len(), |i: int| tokens[i]@)
}

} // verus!
