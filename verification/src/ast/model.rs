//! The mathematical model of the syntax tree.
//!
//! A node's model keeps what the node means and leaves out what only serves
//! diagnostics: strings become sequences of characters, vectors become
//! sequences, machine integers become integers, and source positions are
//! dropped.  The type annotation on the name of a `let` or `var` is left out
//! too, because the statement's own type repeats it.  Two trees with the same
//! model are structurally equivalent.

use crate::ast::expression::Expression;
use crate::ast::identifier::Identifier;
use crate::ast::node::Node;
use crate::ast::program::Program;
use crate::ast::statement::Statement;
use crate::ast::stmt::block_stmt::BlockStatement;
use crate::ast::types::Type;
use crate::text::{int_text, is_digit};
use vstd::prelude::*;

verus! {

/// The model of an identifier.
pub struct IdentView {
    pub value: Seq<char>,
    pub typ: Option<Type>,
}

/// The model of an expression.
#[allow(inconsistent_fields)]
pub enum ExprView {
    Identifier(IdentView),
    Int(int),
    Bool(bool),
    Str(Seq<char>),
    Array(Seq<ExprView>),
    Prefix { operator: Seq<char>, right: Option<Box<ExprView>>, typ: Option<Type> },
    Infix {
        operator: Seq<char>,
        left: Option<Box<ExprView>>,
        right: Option<Box<ExprView>>,
        typ: Option<Type>,
    },
    If {
        condition: Box<ExprView>,
        consequence: Option<Seq<StmtView>>,
        alternative: Option<Seq<StmtView>>,
        el_if: Option<Box<ExprView>>,
    },
    While { condition: Box<ExprView>, consequence: Option<Seq<StmtView>> },
    Function {
        name: IdentView,
        parameters: Seq<IdentView>,
        body: Option<Seq<StmtView>>,
        ret_typ: Type,
    },
    Call { function: Box<ExprView>, arguments: Seq<ExprView> },
    Index { left: Box<ExprView>, index: Box<ExprView> },
}

/// The model of a statement.
pub enum StmtView {
    Let { name: Seq<char>, typ: Type, value: ExprView },
    Var { name: Seq<char>, typ: Type, value: ExprView },
    Return(Option<ExprView>),
    Expression { expression: Option<ExprView>, typ: Type },
    Block(Seq<StmtView>),
}

/// The model of a program.
pub struct ProgramView {
    pub statements: Seq<StmtView>,
    pub errors: Seq<Seq<char>>,
}

/// The model of any node.
pub enum NodeView {
    Program(ProgramView),
    Statement(StmtView),
    Expression(ExprView),
}

impl View for Identifier {
    type V = IdentView;

    open spec fn view(&self) -> IdentView {
        IdentView { value: self.value@, typ: self.typ }
    }
}

/// The models of a list of identifiers.
pub open spec fn idents_view(v: Vec<Identifier>) -> Seq<IdentView> {
    Seq::new(v.len() as nat, |i: int| v[i]@)
}

/// The models of a list of strings.
pub open spec fn strings_view(v: Vec<String>) -> Seq<Seq<char>> {
    Seq::new(v.len() as nat, |i: int| v[i]@)
}

/// The model of an optional boxed expression.
pub open spec fn boxed_view(e: Option<Box<Expression>>) -> Option<Box<ExprView>>
    decreases e,
{
    match e {
        Some(b) => Some(Box::new(expr_view(*b))),
        None => None,
    }
}

/// The model of an optional block.
pub open spec fn block_opt_view(b: Option<BlockStatement>) -> Option<Seq<StmtView>>
    decreases b,
{
    match b {
        Some(b) => Some(block_view(b)),
        None => None,
    }
}

/// The models of a list of expressions.
pub open spec fn exprs_view(v: Vec<Expression>) -> Seq<ExprView>
    decreases v,
{
    Seq::new(
        v.len() as nat,
        |i: int|
            if 0 <= i < v.len() {
                expr_view(v[i])
            } else {
                ExprView::Bool(false)
            },
    )
}

/// The models of a list of statements.
pub open spec fn stmts_view(v: Vec<Statement>) -> Seq<StmtView>
    decreases v,
{
    Seq::new(
        v.len() as nat,
        |i: int|
            if 0 <= i < v.len() {
                stmt_view(v[i])
            } else {
                StmtView::Return(None)
            },
    )
}

/// The model of a block: the models of its statements.
pub open spec fn block_view(b: BlockStatement) -> Seq<StmtView>
    decreases b,
{
    stmts_view(b.statements)
}

/// The model of an expression.
pub open spec fn expr_view(e: Expression) -> ExprView
    decreases e,
{
    match e {
        Expression::Identifier(i) => ExprView::Identifier(i@),
        Expression::Int(i) => ExprView::Int(i.value as int),
        Expression::Bool(b) => ExprView::Bool(b.value),
        Expression::Str(s) => ExprView::Str(s.value@),
        Expression::Array(a) => ExprView::Array(exprs_view(a.value)),
        Expression::Prefix(p) => ExprView::Prefix {
            operator: p.operator@,
            right: boxed_view(p.right),
            typ: p.typ,
        },
        Expression::Infix(x) => ExprView::Infix {
            operator: x.operator@,
            left: boxed_view(x.left),
            right: boxed_view(x.right),
            typ: x.typ,
        },
        Expression::If(x) => ExprView::If {
            condition: Box::new(expr_view(*x.condition)),
            consequence: block_opt_view(x.consequence),
            alternative: block_opt_view(x.alternative),
            el_if: boxed_view(x.el_if),
        },
        Expression::While(w) => ExprView::While {
            condition: Box::new(expr_view(*w.condition)),
            consequence: block_opt_view(w.consequence),
        },
        Expression::Function(f) => ExprView::Function {
            name: f.name@,
            parameters: idents_view(f.parameters),
            body: block_opt_view(f.body),
            ret_typ: f.ret_typ,
        },
        Expression::Call(c) => ExprView::Call {
            function: Box::new(expr_view(*c.function)),
            arguments: exprs_view(c.arguments),
        },
        Expression::Index(x) => ExprView::Index {
            left: Box::new(expr_view(*x.left)),
            index: Box::new(expr_view(*x.index)),
        },
    }
}

/// The model of an optional expression.
pub open spec fn expr_opt_view(e: Option<Expression>) -> Option<ExprView>
    decreases e,
{
    match e {
        Some(e) => Some(expr_view(e)),
        None => None,
    }
}

/// The model of a statement.
pub open spec fn stmt_view(s: Statement) -> StmtView
    decreases s,
{
    match s {
        Statement::Let(l) => StmtView::Let {
            name: l.name.value@,
            typ: l.typ,
            value: expr_view(l.value),
        },
        Statement::Var(v) => StmtView::Var {
            name: v.name.value@,
            typ: v.typ,
            value: expr_view(v.value),
        },
        Statement::Return(r) => StmtView::Return(expr_opt_view(r.return_value)),
        Statement::Expression(x) => StmtView::Expression {
            expression: expr_opt_view(x.expression),
            typ: x.typ,
        },
        Statement::Block(b) => StmtView::Block(block_view(b)),
    }
}

impl View for Expression {
    type V = ExprView;

    open spec fn view(&self) -> ExprView {
        expr_view(*self)
    }
}

impl View for Statement {
    type V = StmtView;

    open spec fn view(&self) -> StmtView {
        stmt_view(*self)
    }
}

impl View for BlockStatement {
    type V = Seq<StmtView>;

    open spec fn view(&self) -> Seq<StmtView> {
        block_view(*self)
    }
}

impl View for Program {
    type V = ProgramView;

    open spec fn view(&self) -> ProgramView {
        ProgramView { statements: stmts_view(self.statements), errors: strings_view(self.errors) }
    }
}

impl View for Node {
    type V = NodeView;

    open spec fn view(&self) -> NodeView {
        match self {
            Node::Program(p) => NodeView::Program(p@),
            Node::Statement(s) => NodeView::Statement(s@),
            Node::Expression(e) => NodeView::Expression(e@),
        }
    }
}

/// The resolved type of an expression: that of the literal's kind, that of
/// the operator's result, or the fixed type of the node's kind.
pub open spec fn expr_type(e: ExprView) -> Type
    decreases e,
{
    match e {
        ExprView::Identifier(_) => Type::Unknown,
        ExprView::Int(_) => Type::Int,
        ExprView::Bool(_) => Type::Bool,
        ExprView::Str(_) => Type::String,
        ExprView::Array(_) => Type::Array,
        ExprView::Prefix { typ, .. } => match typ {
            Some(t) => t,
            None => Type::Unknown,
        },
        ExprView::Infix { typ, .. } => match typ {
            Some(t) => t,
            None => Type::Unknown,
        },
        ExprView::If { .. } => Type::Expression,
        ExprView::While { .. } => Type::Expression,
        ExprView::Function { .. } => Type::Function,
        ExprView::Call { function, .. } => expr_type(*function),
        ExprView::Index { .. } => Type::Index,
    }
}

/// A blank and the type's name, for a type that source text can name;
/// nothing for any other type.
pub open spec fn type_suffix(typ: Type) -> Seq<char> {
    if typ.is_declarable() {
        " "@ + typ.name()
    } else {
        Seq::empty()
    }
}

/// A parameter as source text: its name, and its type behind a blank if it
/// was declared with one that source text can name.
pub open spec fn param_text(p: IdentView) -> Seq<char> {
    match p.typ {
        Some(t) => p.value + type_suffix(t),
        None => p.value,
    }
}

/// The parameters of a function as source text, with `, ` between them.
pub open spec fn params_text(ps: Seq<IdentView>) -> Seq<char>
    decreases ps.len(),
{
    if ps.len() == 0 {
        Seq::empty()
    } else if ps.len() == 1 {
        param_text(ps[0])
    } else {
        params_text(ps.drop_last()) + ", "@ + param_text(ps.last())
    }
}

/// The declared result type of a function as source text.
pub open spec fn ret_text(typ: Type) -> Seq<char> {
    if typ == Type::Bool || typ == Type::Int || typ == Type::String {
        " "@ + typ.name()
    } else {
        Seq::empty()
    }
}

/// The blank that keeps a prefix operator apart from an operand whose text
/// starts with a digit, so that the two do not read as one literal.
pub open spec fn prefix_gap(right: Seq<char>) -> Seq<char> {
    if right.len() > 0 && is_digit(right[0]) {
        " "@
    } else {
        Seq::empty()
    }
}

/// An optional operand as source text.
pub open spec fn operand_text(e: Option<Box<ExprView>>) -> Seq<char>
    decreases e, 0nat,
{
    match e {
        Some(b) => expr_text(*b),
        None => Seq::empty(),
    }
}

/// An optional block as source text.
pub open spec fn block_opt_text(b: Option<Seq<StmtView>>) -> Seq<char>
    decreases b, 0nat,
{
    match b {
        Some(stmts) => block_text(stmts),
        None => Seq::empty(),
    }
}

/// A string literal as source text: its characters between double quotes.
pub open spec fn string_text(value: Seq<char>) -> Seq<char> {
    "\""@ + value + "\""@
}

/// An array literal as source text, given the text of its elements.
pub open spec fn array_text(items: Seq<char>) -> Seq<char> {
    "["@ + items + "]"@
}

/// A prefix operator and its operand as source text, given the operand's.
pub open spec fn prefix_text(operator: Seq<char>, right: Seq<char>) -> Seq<char> {
    "("@ + operator + prefix_gap(right) + right + ")"@
}

/// A binary operator and its operands as source text, given the operands'.
pub open spec fn infix_text(operator: Seq<char>, left: Seq<char>, right: Seq<char>) -> Seq<char> {
    "("@ + left + " "@ + operator + " "@ + right + ")"@
}

/// What follows the first block of a conditional, given the text of what
/// `else` introduces, if there is an `else`.
pub open spec fn else_text(rest: Option<Seq<char>>) -> Seq<char> {
    match rest {
        Some(text) => " else "@ + text,
        None => Seq::empty(),
    }
}

/// A conditional as source text, given the text of its parts.
pub open spec fn if_text(condition: Seq<char>, consequence: Seq<char>, rest: Option<Seq<char>>) -> Seq<
    char,
> {
    "if "@ + condition + " "@ + consequence + else_text(rest)
}

/// A loop as source text, given the text of its parts.
pub open spec fn while_text(condition: Seq<char>, consequence: Seq<char>) -> Seq<char> {
    "while "@ + condition + " "@ + consequence
}

/// A function literal as source text, given the text of its parts.
pub open spec fn function_text(
    name: Seq<char>,
    parameters: Seq<char>,
    ret_typ: Type,
    body: Seq<char>,
) -> Seq<char> {
    "fn "@ + name + "("@ + parameters + ")"@ + ret_text(ret_typ) + " "@ + body
}

/// A call as source text, given the text of its parts.
pub open spec fn call_text(function: Seq<char>, arguments: Seq<char>) -> Seq<char> {
    function + "("@ + arguments + ")"@
}

/// The blank that keeps an opening square bracket apart from an operand
/// whose text ends in a digit: a number may not be followed by that
/// bracket.
pub open spec fn index_gap(left: Seq<char>) -> Seq<char> {
    if left.len() > 0 && is_digit(left.last()) {
        " "@
    } else {
        Seq::empty()
    }
}

/// An index expression as source text, given the text of its parts.
pub open spec fn index_text(left: Seq<char>, index: Seq<char>) -> Seq<char> {
    "("@ + left + index_gap(left) + "["@ + index + "])"@
}

/// An expression as source text.  Operators come out fully bracketed, so
/// that the text shows how the expression was grouped.
pub open spec fn expr_text(e: ExprView) -> Seq<char>
    decreases e, 0nat,
{
    match e {
        ExprView::Identifier(i) => i.value,
        ExprView::Int(v) => int_text(v),
        ExprView::Bool(b) => if b {
            "true"@
        } else {
            "false"@
        },
        ExprView::Str(s) => string_text(s),
        ExprView::Array(items) => array_text(list_text(items)),
        ExprView::Prefix { operator, right, .. } => prefix_text(operator, operand_text(right)),
        ExprView::Infix { operator, left, right, .. } => infix_text(
            operator,
            operand_text(left),
            operand_text(right),
        ),
        ExprView::If { condition, consequence, alternative, el_if } => if_text(
            expr_text(*condition),
            block_opt_text(consequence),
            match el_if {
                Some(other) => Some(expr_text(*other)),
                None => match alternative {
                    Some(stmts) => Some(block_text(stmts)),
                    None => None,
                },
            },
        ),
        ExprView::While { condition, consequence } => while_text(
            expr_text(*condition),
            block_opt_text(consequence),
        ),
        ExprView::Function { name, parameters, body, ret_typ } => function_text(
            name.value,
            params_text(parameters),
            ret_typ,
            block_opt_text(body),
        ),
        ExprView::Call { function, arguments } => call_text(
            expr_text(*function),
            list_text(arguments),
        ),
        ExprView::Index { left, index } => index_text(expr_text(*left), expr_text(*index)),
    }
}

/// A list of expressions as source text, with `, ` between them.
pub open spec fn list_text(items: Seq<ExprView>) -> Seq<char>
    decreases items, 0nat,
{
    if items.len() == 0 {
        Seq::empty()
    } else if items.len() == 1 {
        expr_text(items[0])
    } else {
        list_text(items.drop_last()) + ", "@ + expr_text(items.last())
    }
}

/// An optional expression as source text.
pub open spec fn expr_opt_text(e: Option<ExprView>) -> Seq<char>
    decreases e, 0nat,
{
    match e {
        Some(e) => expr_text(e),
        None => Seq::empty(),
    }
}

/// A statement as source text.  `let`, `var` and `ret` end in a semicolon;
/// an expression statement is the text of its expression.
pub open spec fn stmt_text(s: StmtView) -> Seq<char>
    decreases s, 0nat,
{
    match s {
        StmtView::Let { name, typ, value } => "let "@ + name + type_suffix(typ) + " = "@
            + expr_text(value) + ";"@,
        StmtView::Var { name, typ, value } => "var "@ + name + type_suffix(typ) + " = "@
            + expr_text(value) + ";"@,
        StmtView::Return(value) => match value {
            Some(e) => "ret "@ + expr_text(e) + ";"@,
            None => "ret;"@,
        },
        StmtView::Expression { expression, .. } => expr_opt_text(expression),
        StmtView::Block(stmts) => block_text(stmts),
    }
}

/// What stands between a statement and the one behind it: an expression
/// statement needs a semicolon to end it, the others bring their own.
pub open spec fn separator(s: StmtView) -> Seq<char> {
    if s is Expression {
        "; "@
    } else {
        " "@
    }
}

/// A sequence of statements as source text.
pub open spec fn stmts_text(stmts: Seq<StmtView>) -> Seq<char>
    decreases stmts, 0nat,
{
    if stmts.len() == 0 {
        Seq::empty()
    } else if stmts.len() == 1 {
        stmt_text(stmts[0])
    } else {
        stmts_text(stmts.drop_last()) + separator(stmts[stmts.len() - 2]) + stmt_text(stmts.last())
    }
}

/// A block as source text: its statements between braces.
pub open spec fn block_text(stmts: Seq<StmtView>) -> Seq<char>
    decreases stmts, 1nat,
{
    if stmts.len() == 0 {
        "{ }"@
    } else {
        "{ "@ + stmts_text(stmts) + " }"@
    }
}

/// A program as source text: the text of its statements.
pub open spec fn program_text(p: ProgramView) -> Seq<char> {
    stmts_text(p.statements)
}

} // verus!
