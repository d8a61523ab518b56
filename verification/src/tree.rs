//! The syntax tree: blocks, statements and expressions, and for each of
//! them the mathematical model that the contracts speak of.

use vstd::prelude::*;
use crate::operator::Operator;

verus! {

/// A sequence of statements.
#[derive(Debug, PartialEq, Eq)]
pub struct Block {
    pub body: Vec<Statement>,
}

#[allow(inconsistent_fields)]
#[derive(Debug, PartialEq, Eq)]
pub enum Statement {
    Declare { list: Vec<(String, Expression)> },
    Assign { list: Vec<(Expression, Expression)> },
    Break,
    DoBlock(Block),
    WhileBlock { exp: Expression, block: Block, repeat_until: bool },
    ForRangeBlock {
        var: String,
        lower: Expression,
        upper: Expression,
        step: Option<Expression>,
        block: Block,
    },
    ForIterBlock { namelist: Vec<String>, explist: Vec<Expression>, block: Block },
    IfBlock { branches: Vec<(Expression, Block)>, elsebranch: Option<Box<Block>> },
    RetList { list: Vec<Expression> },
    Call { args: Vec<Expression> },
    Goto(String),
    GotoLabel(String),
}

/// A function literal.
#[derive(Debug, PartialEq, Eq)]
pub struct FunDef {
    pub args: Vec<String>,
    pub vararg: bool,
    pub body: Block,
}

/// One entry of a table constructor.
#[derive(Debug, PartialEq, Eq)]
pub struct Field {
    pub key: Expression,
    pub value: Expression,
}

/// A node of the syntax tree. Numbers and strings keep their source
/// spelling. `Placeholder` is an open slot that the next value fills.
#[derive(Debug, PartialEq, Eq)]
pub enum Expression {
    Placeholder,
    Nil,
    Bool(bool),
    Number(String),
    String(String),
    Ident(String),
    DotDotDot,
    FunDef(FunDef),
    Table(Vec<Field>),
    Operator { op: Operator, args: Vec<Expression> },
}

/// The model of an expression: the same tree, with text as sequences of
/// characters and vectors as sequences.
pub enum ExprView {
    Placeholder,
    Nil,
    Bool(bool),
    Number(Seq<char>),
    String(Seq<char>),
    Ident(Seq<char>),
    DotDotDot,
    FunDef(FunDefView),
    Table(Seq<FieldView>),
    Operator { op: Operator, args: Seq<ExprView> },
}

/// The model of a block.
pub struct BlockView {
    pub body: Seq<StatementView>,
}

/// The model of a statement.
#[allow(inconsistent_fields)]
pub enum StatementView {
    Declare { list: Seq<(Seq<char>, ExprView)> },
    Assign { list: Seq<(ExprView, ExprView)> },
    Break,
    DoBlock(BlockView),
    WhileBlock { exp: ExprView, block: BlockView, repeat_until: bool },
    ForRangeBlock {
        var: Seq<char>,
        lower: ExprView,
        upper: ExprView,
        step: Option<ExprView>,
        block: BlockView,
    },
    ForIterBlock { namelist: Seq<Seq<char>>, explist: Seq<ExprView>, block: BlockView },
    IfBlock { branches: Seq<(ExprView, BlockView)>, elsebranch: Option<BlockView> },
    RetList { list: Seq<ExprView> },
    Call { args: Seq<ExprView> },
    Goto(Seq<char>),
    GotoLabel(Seq<char>),
}

/// The model of a function literal.
pub struct FunDefView {
    pub args: Seq<Seq<char>>,
    pub vararg: bool,
    pub body: BlockView,
}

/// The model of an entry of a table constructor.
pub struct FieldView {
    pub key: ExprView,
    pub value: ExprView,
}

impl View for Expression {
    type V = ExprView;

    open spec fn view(&self) -> ExprView
        decreases self,
    {
        match self {
            Expression::Placeholder => ExprView::Placeholder,
            Expression::Nil => ExprView::Nil,
            Expression::Bool(b) => ExprView::Bool(*b),
            Expression::Number(s) => ExprView::Number(s@),
            Expression::String(s) => ExprView::String(s@),
            Expression::Ident(s) => ExprView::Ident(s@),
            Expression::DotDotDot => ExprView::DotDotDot,
            Expression::FunDef(f) => ExprView::FunDef(fundef_view(*f)),
            Expression::Table(t) => ExprView::Table(field_views(t@)),
            Expression::Operator { op, args } => ExprView::Operator {
                op: *op,
                args: arg_views(args@),
            },
        }
    }
}

/// The views of a sequence of expressions, in order.
pub open spec fn arg_views(args: Seq<Expression>) -> Seq<ExprView>
    decreases args,
{
    Seq::new(
        args.len(),
        |i: int|
            if 0 <= i < args.len() {
                args[i].view()
            } else {
                ExprView::Placeholder
            },
    )
}

/// The views of a sequence of texts, in order.
pub open spec fn text_views(texts: Seq<String>) -> Seq<Seq<char>> {
    Seq::new(texts.len(), |i: int| texts[i]@)
}

/// The model of an entry of a table constructor.
pub open spec fn field_view(field: Field) -> FieldView
    decreases field,
{
    FieldView { key: field.key.view(), value: field.value.view() }
}

/// The views of a sequence of entries, in order.
pub open spec fn field_views(fields: Seq<Field>) -> Seq<FieldView>
    decreases fields,
{
    Seq::new(
        fields.len(),
        |i: int|
            if 0 <= i < fields.len() {
                field_view(fields[i])
            } else {
                FieldView { key: ExprView::Placeholder, value: ExprView::Placeholder }
            },
    )
}

/// The model of a function literal.
pub open spec fn fundef_view(def: FunDef) -> FunDefView
    decreases def,
{
    FunDefView { args: text_views(def.args@), vararg: def.vararg, body: block_view(def.body) }
}

/// The model of a block.
pub open spec fn block_view(block: Block) -> BlockView
    decreases block,
{
    BlockView { body: statement_views(block.body@) }
}

/// The views of a sequence of statements, in order.
pub open spec fn statement_views(statements: Seq<Statement>) -> Seq<StatementView>
    decreases statements,
{
    Seq::new(
        statements.len(),
        |i: int|
            if 0 <= i < statements.len() {
                statement_view(statements[i])
            } else {
                StatementView::Break
            },
    )
}

/// The views of a sequence of names with their expressions, in order.
pub open spec fn named_views(list: Seq<(String, Expression)>) -> Seq<(Seq<char>, ExprView)>
    decreases list,
{
    Seq::new(
        list.len(),
        |i: int|
            if 0 <= i < list.len() {
                (list[i].0@, list[i].1.view())
            } else {
                (Seq::empty(), ExprView::Placeholder)
            },
    )
}

/// The views of a sequence of pairs of expressions, in order.
pub open spec fn pair_views(list: Seq<(Expression, Expression)>) -> Seq<(ExprView, ExprView)>
    decreases list,
{
    Seq::new(
        list.len(),
        |i: int|
            if 0 <= i < list.len() {
                (list[i].0.view(), list[i].1.view())
            } else {
                (ExprView::Placeholder, ExprView::Placeholder)
            },
    )
}

/// The views of a sequence of conditions with their blocks, in order.
pub open spec fn branch_views(list: Seq<(Expression, Block)>) -> Seq<(ExprView, BlockView)>
    decreases list,
{
    Seq::new(
        list.len(),
        |i: int|
            if 0 <= i < list.len() {
                (list[i].0.view(), block_view(list[i].1))
            } else {
                (ExprView::Placeholder, BlockView { body: Seq::empty() })
            },
    )
}

/// The model of a statement.
pub open spec fn statement_view(statement: Statement) -> StatementView
    decreases statement,
{
    match statement {
        Statement::Declare { list } => StatementView::Declare { list: named_views(list@) },
        Statement::Assign { list } => StatementView::Assign { list: pair_views(list@) },
        Statement::Break => StatementView::Break,
        Statement::DoBlock(block) => StatementView::DoBlock(block_view(block)),
        Statement::WhileBlock { exp, block, repeat_until } => StatementView::WhileBlock {
            exp: exp.view(),
            block: block_view(block),
            repeat_until,
        },
        Statement::ForRangeBlock { var, lower, upper, step, block } => StatementView::ForRangeBlock {
            var: var@,
            lower: lower.view(),
            upper: upper.view(),
            step: match step {
                Some(step) => Some(step.view()),
                None => None,
            },
            block: block_view(block),
        },
        Statement::ForIterBlock { namelist, explist, block } => StatementView::ForIterBlock {
            namelist: text_views(namelist@),
            explist: arg_views(explist@),
            block: block_view(block),
        },
        Statement::IfBlock { branches, elsebranch } => StatementView::IfBlock {
            branches: branch_views(branches@),
            elsebranch: match elsebranch {
                Some(block) => Some(block_view(*block)),
                None => None,
            },
        },
        Statement::RetList { list } => StatementView::RetList { list: arg_views(list@) },
        Statement::Call { args } => StatementView::Call { args: arg_views(args@) },
        Statement::Goto(label) => StatementView::Goto(label@),
        Statement::GotoLabel(label) => StatementView::GotoLabel(label@),
    }
}

impl View for Block {
    type V = BlockView;

    open spec fn view(&self) -> BlockView {
        block_view(*self)
    }
}

impl View for Statement {
    type V = StatementView;

    open spec fn view(&self) -> StatementView {
        statement_view(*self)
    }
}

impl View for FunDef {
    type V = FunDefView;

    open spec fn view(&self) -> FunDefView {
        fundef_view(*self)
    }
}

impl View for Field {
    type V = FieldView;

    open spec fn view(&self) -> FieldView {
        field_view(*self)
    }
}

impl Expression {
    /// The node at the end of the rightmost spine, as a node of the tree
    /// itself.
    pub open spec fn rightmost_node(self) -> Expression
        decreases self,
    {
        match self {
            Expression::Operator { op, args } => if args@.len() > 0 {
                args@.last().rightmost_node()
            } else {
                self
            },
            _ => self,
        }
    }

    /// The model of the rightmost node is the rightmost node of the model.
    pub proof fn lemma_rightmost_node_view(self)
        ensures
            self.rightmost_node()@ == self@.rightmost(),
        decreases self,
    {
        match self {
            Expression::Operator { op, args } => {
                if args@.len() > 0 {
                    args@.last().lemma_rightmost_node_view();
                }
            },
            _ => {},
        }
    }
}

/// Replacing the last element of a vector of arguments replaces the last
/// element of their views.
pub proof fn lemma_arg_views_replace_last(before: Seq<Expression>, after: Seq<Expression>)
    requires
        before.len() > 0,
        after.len() == before.len(),
        after.drop_last() == before.drop_last(),
    ensures
        arg_views(after) == arg_views(before).drop_last().push(after.last()@),
        arg_views(before).last() == before.last()@,
{
    assert forall|i: int| 0 <= i < before.len() - 1 implies after[i] == before[i] by {
        assert(after.drop_last()[i] == after[i]);
        assert(before.drop_last()[i] == before[i]);
    }
    assert(arg_views(after) =~= arg_views(before).drop_last().push(after.last()@));
}

impl ExprView {
    /// Whether every operator node on the rightmost spine has an argument,
    /// so that the walk down the last arguments ends in a leaf.
    pub open spec fn spine_ok(self) -> bool
        decreases self,
    {
        match self {
            ExprView::Operator { op, args } => args.len() > 0 && args.last().spine_ok(),
            _ => true,
        }
    }

    /// Whether every operator node of the tree has as many arguments as its
    /// operator takes: exactly one for a unary operator, two or more for a
    /// binary one, which a chain of the same operator extends.
    pub open spec fn arity_ok(self) -> bool
        decreases self,
    {
        match self {
            ExprView::Operator { op, args } => {
                &&& if op.spec_is_unary() {
                    args.len() == 1
                } else {
                    args.len() >= 2
                }
                &&& forall|i: int| 0 <= i < args.len() ==> (#[trigger] args[i]).arity_ok()
            },
            _ => true,
        }
    }

    /// The node at the end of the rightmost spine: the tree itself unless it
    /// is an operator node, else the rightmost node of its last argument.
    pub open spec fn rightmost(self) -> ExprView
        decreases self,
    {
        match self {
            ExprView::Operator { op, args } => if args.len() > 0 {
                args.last().rightmost()
            } else {
                self
            },
            _ => self,
        }
    }

    /// The tree with its last argument replaced, where it is an operator
    /// node with an argument.
    pub open spec fn with_last(self, last: ExprView) -> ExprView {
        match self {
            ExprView::Operator { op, args } => if args.len() > 0 {
                ExprView::Operator { op, args: args.drop_last().push(last) }
            } else {
                self
            },
            _ => self,
        }
    }

    /// `op` applied to this tree and an open slot.
    pub open spec fn wrapped_in_op(self, op: Operator) -> ExprView {
        ExprView::Operator { op, args: seq![self, ExprView::Placeholder] }
    }

    /// `op` applied to an open slot alone.
    pub open spec fn prefix_op(op: Operator) -> ExprView {
        ExprView::Operator { op, args: seq![ExprView::Placeholder] }
    }

    /// The tree after a value is offered to it: the value takes the place of
    /// the rightmost node where that is an open slot, and is dropped where
    /// it is anything else.
    pub open spec fn append_value(self, value: ExprView) -> ExprView
        decreases self,
    {
        match self {
            ExprView::Placeholder => value,
            ExprView::Operator { op, args } => if args.len() > 0 {
                self.with_last(args.last().append_value(value))
            } else {
                self
            },
            _ => self,
        }
    }

    /// The tree after a binary operator is grafted onto it.
    ///
    /// A tree that is no operator node becomes the left operand of the new
    /// operator. At an operator node: the same operator gains one more open
    /// slot; else, where the last argument is an operator node, the graft
    /// goes into it; else a tighter operator takes the last argument as its
    /// left operand, and any other takes the whole tree.
    pub open spec fn append_binary_op(self, new_op: Operator) -> ExprView
        decreases self,
    {
        match self {
            ExprView::Operator { op, args } => if op == new_op {
                ExprView::Operator { op, args: args.push(ExprView::Placeholder) }
            } else if args.len() > 0 && args.last() is Operator {
                self.with_last(args.last().append_binary_op(new_op))
            } else if args.len() > 0 && new_op.spec_precedence() > op.spec_precedence() {
                self.with_last(args.last().wrapped_in_op(new_op))
            } else {
                self.wrapped_in_op(new_op)
            },
            _ => self.wrapped_in_op(new_op),
        }
    }
}

} // verus!
