//! The closed set of expression nodes.

use crate::ast::expr::arr_expr::ArrayExpr;
use crate::ast::expr::bool_expr::BoolExpr;
use crate::ast::expr::call_expr::CallExpr;
use crate::ast::expr::function_expr::FunctionExpr;
use crate::ast::expr::if_expr::IfExpr;
use crate::ast::expr::index_expr::IndexExpr;
use crate::ast::expr::infix_expr::InfixExpr;
use crate::ast::expr::int_expr::IntExpr;
use crate::ast::expr::prefix_expr::PrefixExpr;
use crate::ast::expr::str_expr::StrExpr;
use crate::ast::expr::while_expr::WhileExpr;
use crate::ast::identifier::Identifier;
use crate::ast::model::{
    block_opt_text, block_opt_view, boxed_view, expr_text, expr_type, exprs_view, idents_view,
    list_text, operand_text, params_text, type_suffix, ExprView, IdentView,
};
use crate::ast::stmt::block_stmt::BlockStatement;
use crate::ast::types::Type;
use crate::text::int_to_string;
use vstd::prelude::*;

verus! {

/// An expression: one of the twelve kinds of node that yield a value.
#[derive(Debug)]
pub enum Expression {
    Identifier(Identifier),
    Int(IntExpr),
    Bool(BoolExpr),
    Str(StrExpr),
    Array(ArrayExpr),
    Prefix(PrefixExpr),
    Infix(InfixExpr),
    If(IfExpr),
    While(WhileExpr),
    Function(FunctionExpr),
    Call(CallExpr),
    Index(IndexExpr),
}

/// Copies an optional boxed expression.
pub fn duplicate_boxed(e: &Option<Box<Expression>>) -> (r: Option<Box<Expression>>)
    ensures
        boxed_view(r) == boxed_view(*e),
    decreases e,
{
    match e {
        Some(b) => Some(Box::new(b.duplicate())),
        None => None,
    }
}

/// Copies an optional block.
pub fn duplicate_block(b: &Option<BlockStatement>) -> (r: Option<BlockStatement>)
    ensures
        block_opt_view(r) == block_opt_view(*b),
    decreases b,
{
    match b {
        Some(b) => Some(b.duplicate()),
        None => None,
    }
}

/// Copies a list of expressions.
#[verifier::loop_isolation(false)]
pub fn duplicate_list(items: &Vec<Expression>) -> (r: Vec<Expression>)
    ensures
        exprs_view(r) == exprs_view(*items),
    decreases items,
{
    let mut r: Vec<Expression> = Vec::new();
    let mut i: usize = 0;
    while i < items.len()
        invariant
            i <= items.len(),
            r.len() == i,
            forall|j: int| 0 <= j < i ==> r[j]@ == items[j]@,
        decreases items.len() - i,
    {
        r.push(items[i].duplicate());
        i += 1;
    }
    assert(exprs_view(r) =~= exprs_view(*items));
    r
}

/// Copies a list of identifiers.
pub fn duplicate_idents(items: &Vec<Identifier>) -> (r: Vec<Identifier>)
    ensures
        idents_view(r) == idents_view(*items),
{
    let mut r: Vec<Identifier> = Vec::new();
    let mut i: usize = 0;
    while i < items.len()
        invariant
            i <= items.len(),
            r.len() == i,
            forall|j: int| 0 <= j < i ==> r[j]@ == items[j]@,
        decreases items.len() - i,
    {
        r.push(items[i].clone());
        i += 1;
    }
    assert(idents_view(r) =~= idents_view(*items));
    r
}

/// Appends an optional operand as source text.
pub fn write_operand(e: &Option<Box<Expression>>, out: &mut String)
    ensures
        final(out)@ == old(out)@ + operand_text(boxed_view(*e)),
    decreases e,
{
    match e {
        Some(b) => b.write(out),
        None => {
            assert(old(out)@ + Seq::<char>::empty() =~= old(out)@);
        },
    }
}

/// Appends an optional block as source text.
pub fn write_block(b: &Option<BlockStatement>, out: &mut String)
    ensures
        final(out)@ == old(out)@ + block_opt_text(block_opt_view(*b)),
    decreases b,
{
    match b {
        Some(b) => b.write(out),
        None => {
            assert(old(out)@ + Seq::<char>::empty() =~= old(out)@);
        },
    }
}

/// Appends a list of expressions as source text, with `, ` between them.
#[verifier::loop_isolation(false)]
pub fn write_list(items: &Vec<Expression>, out: &mut String)
    ensures
        final(out)@ == old(out)@ + list_text(exprs_view(*items)),
    decreases items,
{
    let ghost views = exprs_view(*items);
    let mut i: usize = 0;
    assert(old(out)@ + list_text(views.take(0)) =~= old(out)@);
    while i < items.len()
        invariant
            i <= items.len(),
            out@ == old(out)@ + list_text(views.take(i as int)),
        decreases items.len() - i,
    {
        let ghost before = out@;
        if i > 0 {
            out.append(", ");
        }
        items[i].write(out);
        i += 1;
        proof {
            let now = views.take(i as int);
            assert(now.drop_last() =~= views.take(i - 1));
            assert(now.last() == items[i - 1]@);
            assert(out@ =~= old(out)@ + list_text(now));
        }
    }
    assert(views.take(items.len() as int) =~= views);
}

/// Appends a parameter list as source text, with `, ` between the names.
pub fn write_params(params: &Vec<Identifier>, out: &mut String)
    ensures
        final(out)@ == old(out)@ + params_text(idents_view(*params)),
{
    let ghost views = idents_view(*params);
    let mut i: usize = 0;
    assert(old(out)@ + params_text(views.take(0)) =~= old(out)@);
    while i < params.len()
        invariant
            i <= params.len(),
            views == idents_view(*params),
            out@ == old(out)@ + params_text(views.take(i as int)),
        decreases params.len() - i,
    {
        if i > 0 {
            out.append(", ");
        }
        let p = &params[i];
        out.append(p.value.as_str());
        match p.typ {
            Some(t) => {
                write_type_suffix(t, out);
            },
            None => {},
        }
        i += 1;
        proof {
            let now = views.take(i as int);
            assert(now.drop_last() =~= views.take(i - 1));
            assert(now.last() == params[i - 1]@);
            assert(out@ =~= old(out)@ + params_text(now));
        }
    }
    assert(views.take(params.len() as int) =~= views);
}

/// Appends a blank and the type's name, for a type that source text can name.
pub fn write_type_suffix(typ: Type, out: &mut String)
    ensures
        final(out)@ == old(out)@ + type_suffix(typ),
{
    if typ.declarable() {
        out.append(" ");
        out.append(typ.as_str());
        assert(out@ =~= old(out)@ + type_suffix(typ));
    } else {
        assert(old(out)@ + Seq::<char>::empty() =~= old(out)@);
    }
}

impl Expression {
    /// The resolved type of the expression.
    pub fn get_type(&self) -> (t: Type)
        ensures
            t == expr_type(self@),
        decreases self,
    {
        match self {
            Expression::Identifier(i) => i.get_type(),
            Expression::Int(i) => i.get_type(),
            Expression::Bool(b) => b.get_type(),
            Expression::Str(s) => s.get_type(),
            Expression::Array(a) => a.get_type(),
            Expression::Prefix(p) => p.get_type(),
            Expression::Infix(x) => x.get_type(),
            Expression::If(x) => x.get_type(),
            Expression::While(w) => w.get_type(),
            Expression::Function(f) => f.get_type(),
            Expression::Call(c) => c.function.get_type(),
            Expression::Index(x) => x.get_type(),
        }
    }

    /// Records a type on the kinds of node that keep one: identifiers and
    /// operators.  The other kinds stay as they are.
    pub fn set_type(&mut self, typ: Type)
        ensures
            match *old(self) {
                Expression::Identifier(i) => final(self)@ == ExprView::Identifier(
                    IdentView { value: i.value@, typ: Some(typ) },
                ),
                Expression::Prefix(p) => final(self)@ == (ExprView::Prefix {
                    operator: p.operator@,
                    right: boxed_view(p.right),
                    typ: Some(typ),
                }),
                Expression::Infix(x) => final(self)@ == (ExprView::Infix {
                    operator: x.operator@,
                    left: boxed_view(x.left),
                    right: boxed_view(x.right),
                    typ: Some(typ),
                }),
                _ => *final(self) == *old(self),
            },
    {
        match self {
            Expression::Identifier(i) => i.set_type(typ),
            Expression::Prefix(p) => p.set_type(typ),
            Expression::Infix(x) => x.set_type(typ),
            _ => {},
        }
    }

    /// A copy of the expression with the same model.
    pub fn duplicate(&self) -> (r: Self)
        ensures
            r@ == self@,
        decreases self,
    {
        match self {
            Expression::Identifier(i) => Expression::Identifier(i.clone()),
            Expression::Int(i) => Expression::Int(IntExpr { value: i.value }),
            Expression::Bool(b) => Expression::Bool(BoolExpr { value: b.value }),
            Expression::Str(s) => Expression::Str(StrExpr { value: s.value.clone() }),
            Expression::Array(a) => Expression::Array(ArrayExpr { value: duplicate_list(&a.value) }),
            Expression::Prefix(p) => Expression::Prefix(
                PrefixExpr {
                    operator: p.operator.clone(),
                    right: duplicate_boxed(&p.right),
                    typ: p.typ,
                },
            ),
            Expression::Infix(x) => Expression::Infix(
                InfixExpr {
                    operator: x.operator.clone(),
                    left: duplicate_boxed(&x.left),
                    right: duplicate_boxed(&x.right),
                    typ: x.typ,
                },
            ),
            Expression::If(x) => Expression::If(
                IfExpr {
                    condition: Box::new(x.condition.duplicate()),
                    consequence: duplicate_block(&x.consequence),
                    alternative: duplicate_block(&x.alternative),
                    el_if: duplicate_boxed(&x.el_if),
                },
            ),
            Expression::While(w) => Expression::While(
                WhileExpr {
                    condition: Box::new(w.condition.duplicate()),
                    consequence: duplicate_block(&w.consequence),
                },
            ),
            Expression::Function(f) => Expression::Function(
                FunctionExpr {
                    token: f.token.clone(),
                    parameters: duplicate_idents(&f.parameters),
                    name: f.name.clone(),
                    body: duplicate_block(&f.body),
                    ret_typ: f.ret_typ,
                },
            ),
            Expression::Call(c) => Expression::Call(
                CallExpr {
                    function: Box::new(c.function.duplicate()),
                    arguments: duplicate_list(&c.arguments),
                },
            ),
            Expression::Index(x) => Expression::Index(
                IndexExpr {
                    left: Box::new(x.left.duplicate()),
                    index: Box::new(x.index.duplicate()),
                },
            ),
        }
    }

    /// Appends the expression as source text.
    pub fn write(&self, out: &mut String)
        ensures
            final(out)@ == old(out)@ + expr_text(self@),
        decreases self,
    {
        match self {
            Expression::Identifier(i) => out.append(i.value.as_str()),
            Expression::Int(i) => out.append(int_to_string(i.value).as_str()),
            Expression::Bool(b) => {
                if b.value {
                    out.append("true");
                } else {
                    out.append("false");
                }
            },
            Expression::Str(s) => s.write(out),
            Expression::Array(a) => a.write(out),
            Expression::Prefix(p) => p.write(out),
            Expression::Infix(x) => x.write(out),
            Expression::If(x) => x.write(out),
            Expression::While(w) => w.write(out),
            Expression::Function(f) => f.write(out),
            Expression::Call(c) => c.write(out),
            Expression::Index(x) => x.write(out),
        }
    }

    /// The expression as source text.
    pub fn to_string(&self) -> (s: String)
        ensures
            s@ == expr_text(self@),
    {
        let mut s = String::new();
        self.write(&mut s);
        assert(Seq::<char>::empty() + expr_text(self@) =~= expr_text(self@));
        s
    }
}

impl Clone for Expression {
    fn clone(&self) -> (r: Self)
        ensures
            r@ == self@,
    {
        self.duplicate()
    }
}

} // verus!
