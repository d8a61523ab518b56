//! Copies of trees: `Clone` for the tree types, with the copy equal to the
//! tree it was made from.

use vstd::prelude::*;
use crate::tree::{
    arg_views, block_view, branch_views, field_view, field_views, fundef_view, named_views,
    pair_views, statement_view, statement_views, text_views, Block, Expression, Field, FunDef,
    Statement,
};

verus! {

/// A copy of each text.
fn copy_texts(texts: &Vec<String>) -> (res: Vec<String>)
    ensures
        text_views(res@) == text_views(texts@),
{
    let mut res: Vec<String> = Vec::new();
    let mut i: usize = 0;
    while i < texts.len()
        invariant
            i <= texts@.len(),
            res@.len() == i,
            forall|j: int| 0 <= j < i ==> res@[j]@ == texts@[j]@,
        decreases texts@.len() - i,
    {
        res.push(texts[i].clone());
        i += 1;
    }
    assert(text_views(res@) =~= text_views(texts@));
    res
}

/// A copy of each expression.
#[verifier::loop_isolation(false)]
fn copy_exprs(exprs: &Vec<Expression>) -> (res: Vec<Expression>)
    ensures
        arg_views(res@) == arg_views(exprs@),
    decreases exprs,
{
    let mut res: Vec<Expression> = Vec::new();
    let mut i: usize = 0;
    while i < exprs.len()
        invariant
            i <= exprs@.len(),
            res@.len() == i,
            forall|j: int| 0 <= j < i ==> res@[j]@ == exprs@[j]@,
        decreases exprs@.len() - i,
    {
        res.push(copy_expr(&exprs[i]));
        i += 1;
    }
    assert(arg_views(res@) =~= arg_views(exprs@));
    res
}

/// A copy of the expression, node by node.
fn copy_expr(expr: &Expression) -> (res: Expression)
    ensures
        res@ == expr@,
    decreases expr,
{
    match expr {
        Expression::Placeholder => Expression::Placeholder,
        Expression::Nil => Expression::Nil,
        Expression::Bool(b) => Expression::Bool(*b),
        Expression::Number(text) => Expression::Number(text.clone()),
        Expression::String(text) => Expression::String(text.clone()),
        Expression::Ident(text) => Expression::Ident(text.clone()),
        Expression::DotDotDot => Expression::DotDotDot,
        Expression::FunDef(def) => Expression::FunDef(copy_fundef(def)),
        Expression::Table(fields) => Expression::Table(copy_fields(fields)),
        Expression::Operator { op, args } => Expression::Operator { op: *op, args: copy_exprs(args) },
    }
}

/// A copy of the entry.
fn copy_field(field: &Field) -> (res: Field)
    ensures
        field_view(res) == field_view(*field),
    decreases field,
{
    Field { key: copy_expr(&field.key), value: copy_expr(&field.value) }
}

/// A copy of each entry.
#[verifier::loop_isolation(false)]
fn copy_fields(fields: &Vec<Field>) -> (res: Vec<Field>)
    ensures
        field_views(res@) == field_views(fields@),
    decreases fields,
{
    let mut res: Vec<Field> = Vec::new();
    let mut i: usize = 0;
    while i < fields.len()
        invariant
            i <= fields@.len(),
            res@.len() == i,
            forall|j: int| 0 <= j < i ==> field_view(res@[j]) == field_view(fields@[j]),
        decreases fields@.len() - i,
    {
        res.push(copy_field(&fields[i]));
        i += 1;
    }
    assert(field_views(res@) =~= field_views(fields@));
    res
}

/// A copy of the function literal.
fn copy_fundef(def: &FunDef) -> (res: FunDef)
    ensures
        fundef_view(res) == fundef_view(*def),
    decreases def,
{
    FunDef { args: copy_texts(&def.args), vararg: def.vararg, body: copy_block(&def.body) }
}

/// A copy of the block.
fn copy_block(block: &Block) -> (res: Block)
    ensures
        block_view(res) == block_view(*block),
    decreases block,
{
    Block { body: copy_statements(&block.body) }
}

/// A copy of each statement.
#[verifier::loop_isolation(false)]
fn copy_statements(statements: &Vec<Statement>) -> (res: Vec<Statement>)
    ensures
        statement_views(res@) == statement_views(statements@),
    decreases statements,
{
    let mut res: Vec<Statement> = Vec::new();
    let mut i: usize = 0;
    while i < statements.len()
        invariant
            i <= statements@.len(),
            res@.len() == i,
            forall|j: int| 0 <= j < i ==> statement_view(res@[j]) == statement_view(statements@[j]),
        decreases statements@.len() - i,
    {
        res.push(copy_statement(&statements[i]));
        i += 1;
    }
    assert(statement_views(res@) =~= statement_views(statements@));
    res
}

/// A copy of each name and its expression.
#[verifier::loop_isolation(false)]
fn copy_named(list: &Vec<(String, Expression)>) -> (res: Vec<(String, Expression)>)
    ensures
        named_views(res@) == named_views(list@),
    decreases list,
{
    let mut res: Vec<(String, Expression)> = Vec::new();
    let mut i: usize = 0;
    while i < list.len()
        invariant
            i <= list@.len(),
            res@.len() == i,
            forall|j: int| 0 <= j < i ==> res@[j].0@ == list@[j].0@ && res@[j].1@ == list@[j].1@,
        decreases list@.len() - i,
    {
        res.push((list[i].0.clone(), copy_expr(&list[i].1)));
        i += 1;
    }
    assert(named_views(res@) =~= named_views(list@));
    res
}

/// A copy of each pair of expressions.
#[verifier::loop_isolation(false)]
fn copy_pairs(list: &Vec<(Expression, Expression)>) -> (res: Vec<(Expression, Expression)>)
    ensures
        pair_views(res@) == pair_views(list@),
    decreases list,
{
    let mut res: Vec<(Expression, Expression)> = Vec::new();
    let mut i: usize = 0;
    while i < list.len()
        invariant
            i <= list@.len(),
            res@.len() == i,
            forall|j: int| 0 <= j < i ==> res@[j].0@ == list@[j].0@ && res@[j].1@ == list@[j].1@,
        decreases list@.len() - i,
    {
        res.push((copy_expr(&list[i].0), copy_expr(&list[i].1)));
        i += 1;
    }
    assert(pair_views(res@) =~= pair_views(list@));
    res
}

/// A copy of each condition and its block.
#[verifier::loop_isolation(false)]
fn copy_branches(list: &Vec<(Expression, Block)>) -> (res: Vec<(Expression, Block)>)
    ensures
        branch_views(res@) == branch_views(list@),
    decreases list,
{
    let mut res: Vec<(Expression, Block)> = Vec::new();
    let mut i: usize = 0;
    while i < list.len()
        invariant
            i <= list@.len(),
            res@.len() == i,
            forall|j: int|
                0 <= j < i ==> res@[j].0@ == list@[j].0@ && block_view(res@[j].1) == block_view(
                    list@[j].1,
                ),
        decreases list@.len() - i,
    {
        res.push((copy_expr(&list[i].0), copy_block(&list[i].1)));
        i += 1;
    }
    assert(branch_views(res@) =~= branch_views(list@));
    res
}

/// A copy of the statement.
fn copy_statement(statement: &Statement) -> (res: Statement)
    ensures
        statement_view(res) == statement_view(*statement),
    decreases statement,
{
    match statement {
        Statement::Declare { list } => Statement::Declare { list: copy_named(list) },
        Statement::Assign { list } => Statement::Assign { list: copy_pairs(list) },
        Statement::Break => Statement::Break,
        Statement::DoBlock(block) => Statement::DoBlock(copy_block(block)),
        Statement::WhileBlock { exp, block, repeat_until } => Statement::WhileBlock {
            exp: copy_expr(exp),
            block: copy_block(block),
            repeat_until: *repeat_until,
        },
        Statement::ForRangeBlock { var, lower, upper, step, block } => Statement::ForRangeBlock {
            var: var.clone(),
            lower: copy_expr(lower),
            upper: copy_expr(upper),
            step: match step {
                Some(step) => Some(copy_expr(step)),
                None => None,
            },
            block: copy_block(block),
        },
        Statement::ForIterBlock { namelist, explist, block } => Statement::ForIterBlock {
            namelist: copy_texts(namelist),
            explist: copy_exprs(explist),
            block: copy_block(block),
        },
        Statement::IfBlock { branches, elsebranch } => Statement::IfBlock {
            branches: copy_branches(branches),
            elsebranch: match elsebranch {
                Some(block) => Some(Box::new(copy_block(block))),
                None => None,
            },
        },
        Statement::RetList { list } => Statement::RetList { list: copy_exprs(list) },
        Statement::Call { args } => Statement::Call { args: copy_exprs(args) },
        Statement::Goto(label) => Statement::Goto(label.clone()),
        Statement::GotoLabel(label) => Statement::GotoLabel(label.clone()),
    }
}

impl Clone for Expression {
    fn clone(&self) -> (res: Self)
        ensures
            res@ == self@,
    {
        copy_expr(self)
    }
}

impl Clone for Field {
    fn clone(&self) -> (res: Self)
        ensures
            res@ == self@,
    {
        copy_field(self)
    }
}

impl Clone for FunDef {
    fn clone(&self) -> (res: Self)
        ensures
            res@ == self@,
    {
        copy_fundef(self)
    }
}

impl Clone for Block {
    fn clone(&self) -> (res: Self)
        ensures
            res@ == self@,
    {
        copy_block(self)
    }
}

impl Clone for Statement {
    fn clone(&self) -> (res: Self)
        ensures
            res@ == self@,
    {
        copy_statement(self)
    }
}

} // verus!
