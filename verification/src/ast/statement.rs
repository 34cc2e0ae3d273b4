//! The closed set of statement nodes.

use crate::ast::expression::Expression;
use crate::ast::model::{expr_opt_view, stmt_text, stmts_text, stmts_view};
use crate::ast::expression::write_type_suffix;
use crate::ast::stmt::block_stmt::BlockStatement;
use crate::ast::stmt::expression_stmt::ExpressionStatement;
use crate::ast::stmt::let_stmt::Let;
use crate::ast::stmt::return_stmt::Return;
use crate::ast::stmt::var_stmt::Var;
use vstd::prelude::*;

verus! {

/// A statement: one of the five kinds of node that a block is made of.
#[derive(Debug)]
pub enum Statement {
    Let(Let),
    Var(Var),
    Return(Return),
    Expression(ExpressionStatement),
    Block(BlockStatement),
}

/// Copies a list of statements.
#[verifier::loop_isolation(false)]
pub fn duplicate_statements(items: &Vec<Statement>) -> (r: Vec<Statement>)
    ensures
        stmts_view(r) == stmts_view(*items),
    decreases items,
{
    let mut r: Vec<Statement> = Vec::new();
    let mut i: usize = 0;
    while i < items.len()
        invariant
            i <= items.len(),
            r.len() == i,
            forall|j: int| 0 <= j < i ==> r[j]@ == items[j]@,
        decreases items.len() - i,
    {
        r.push(items[i].duplicate());
        i += 1;
    }
    assert(stmts_view(r) =~= stmts_view(*items));
    r
}

/// Copies an optional expression.
pub fn duplicate_optional(e: &Option<Expression>) -> (r: Option<Expression>)
    ensures
        expr_opt_view(r) == expr_opt_view(*e),
    decreases e,
{
    match e {
        Some(e) => Some(e.duplicate()),
        None => None,
    }
}

/// Appends a sequence of statements as source text.
#[verifier::loop_isolation(false)]
pub fn write_statements(items: &Vec<Statement>, out: &mut String)
    ensures
        final(out)@ == old(out)@ + stmts_text(stmts_view(*items)),
    decreases items,
{
    let ghost views = stmts_view(*items);
    let mut i: usize = 0;
    assert(old(out)@ + stmts_text(views.take(0)) =~= old(out)@);
    while i < items.len()
        invariant
            i <= items.len(),
            out@ == old(out)@ + stmts_text(views.take(i as int)),
        decreases items.len() - i,
    {
        if i > 0 {
            match &items[i - 1] {
                Statement::Expression(_) => out.append("; "),
                _ => out.append(" "),
            }
        }
        items[i].write(out);
        i += 1;
        proof {
            let now = views.take(i as int);
            assert(now.drop_last() =~= views.take(i - 1));
            assert(now.last() == items[i - 1]@);
            if i > 1 {
                assert(now[now.len() - 2] == items[i - 2]@);
            }
            assert(out@ =~= old(out)@ + stmts_text(now));
        }
    }
    assert(views.take(items.len() as int) =~= views);
}

impl Statement {
    /// A copy of the statement with the same model.
    pub fn duplicate(&self) -> (r: Self)
        ensures
            r@ == self@,
        decreases self,
    {
        match self {
            Statement::Let(l) => Statement::Let(
                Let { typ: l.typ, name: l.name.clone(), value: l.value.duplicate() },
            ),
            Statement::Var(v) => Statement::Var(
                Var { typ: v.typ, name: v.name.clone(), value: v.value.duplicate() },
            ),
            Statement::Return(r) => Statement::Return(
                Return { return_value: duplicate_optional(&r.return_value) },
            ),
            Statement::Expression(x) => Statement::Expression(
                ExpressionStatement { expression: duplicate_optional(&x.expression), typ: x.typ },
            ),
            Statement::Block(b) => Statement::Block(b.duplicate()),
        }
    }

    /// Appends the statement as source text.
    pub fn write(&self, out: &mut String)
        ensures
            final(out)@ == old(out)@ + stmt_text(self@),
        decreases self,
    {
        match self {
            Statement::Let(l) => {
                out.append("let ");
                out.append(l.name.value.as_str());
                write_type_suffix(l.typ, out);
                out.append(" = ");
                l.value.write(out);
                out.append(";");
                assert(out@ =~= old(out)@ + stmt_text(self@));
            },
            Statement::Var(v) => {
                out.append("var ");
                out.append(v.name.value.as_str());
                write_type_suffix(v.typ, out);
                out.append(" = ");
                v.value.write(out);
                out.append(";");
                assert(out@ =~= old(out)@ + stmt_text(self@));
            },
            Statement::Return(r) => match &r.return_value {
                Some(e) => {
                    out.append("ret ");
                    e.write(out);
                    out.append(";");
                    assert(out@ =~= old(out)@ + stmt_text(self@));
                },
                None => {
                    out.append("ret;");
                },
            },
            Statement::Expression(x) => match &x.expression {
                Some(e) => {
                    e.write(out);
                },
                None => {
                    assert(old(out)@ + Seq::<char>::empty() =~= old(out)@);
                },
            },
            Statement::Block(b) => {
                b.write(out);
            },
        }
    }

    /// The statement as source text.
    pub fn to_string(&self) -> (s: String)
        ensures
            s@ == stmt_text(self@),
    {
        let mut s = String::new();
        self.write(&mut s);
        assert(Seq::<char>::empty() + stmt_text(self@) =~= stmt_text(self@));
        s
    }
}

impl Clone for Statement {
    fn clone(&self) -> (r: Self)
        ensures
            r@ == self@,
    {
        self.duplicate()
    }
}

} // verus!
