//! The walk over the tree: statements, expressions, calls.

use crate::ast::expr::call_expr::CallExpr;
use crate::ast::expr::function_expr::FunctionExpr;
use crate::ast::expr::if_expr::IfExpr;
use crate::ast::expr::index_expr::IndexExpr;
use crate::ast::expr::infix_expr::InfixExpr;
use crate::ast::expr::prefix_expr::PrefixExpr;
use crate::ast::expr::while_expr::WhileExpr;
use crate::ast::expression::{duplicate_block, duplicate_idents, Expression};
use crate::ast::identifier::Identifier;
use crate::ast::model::{
    block_opt_view, block_view, boxed_view, expr_opt_view, exprs_view, idents_view, stmts_view,
    ExprView, StmtView,
};
use crate::ast::node::Node;
use crate::ast::statement::Statement;
use crate::ast::stmt::block_stmt::BlockStatement;
use crate::ast::stmt::return_stmt::Return;
use crate::evaluator::built_in_fns;
use crate::evaluator::built_in_fns::{error, error_with};
use crate::evaluator::semantics;
use crate::evaluator::semantics::Evaluated;
use crate::evaluator::{agrees, Evaluator};
use crate::object::array::Array;
use crate::object::boolean::Boolean;
use crate::object::built_in::{BuildInFn, BuiltIn};
use crate::object::environment::{EnvView, Environment, Stream};
use crate::object::function::Function;
use crate::object::integer::Integer;
use crate::object::null::Null;
use crate::object::ret::Ret;
use crate::object::string::Str;
use crate::object::{is_error, objects_view, value_view, Object, ObjectView};
use vstd::prelude::*;

verus! {

/// Whether the values `r` and the environment `env` are what the outcome
/// `s` says.
pub open spec fn agrees_all(r: Result<Vec<Object>, Object>, env: EnvView, s: Evaluated) -> bool {
    &&& match r {
        Ok(values) => s.result == Ok::<Seq<ObjectView>, ObjectView>(objects_view(values)),
        Err(e) => s.result == Err::<Seq<ObjectView>, ObjectView>(e@),
    }
    &&& env == s.env
}

/// A loop is its first test and then the rest of the loop.
#[verifier::spinoff_prover]
pub proof fn lemma_while_expression(
    reg: Seq<semantics::EntryView>,
    condition: ExprView,
    consequence: Option<Seq<StmtView>>,
    env: EnvView,
    scope: nat,
    depth: nat,
)
    ensures
        semantics::eval_while_expression(reg, condition, consequence, env, scope, depth) == ({
            let c = semantics::descend(reg, condition, env, scope, depth);
            if semantics::failed(c) {
                c
            } else {
                semantics::eval_while_loop(
                    reg,
                    condition,
                    consequence,
                    c.value,
                    Some(ObjectView::Null),
                    c.env,
                    scope,
                    depth,
                    semantics::loop_limit(),
                )
            }
        }),
{
    reveal(semantics::eval_while_expression);
}

impl Evaluator {
    #[verifier::spinoff_prover]
    pub(crate) fn eval_node(
        &self,
        node: &Node,
        env: &mut Environment,
        scope: usize,
        depth: usize,
    ) -> (r: Option<Object>)
        requires
            old(env).wf(),
            scope < old(env)@.scopes.len(),
        ensures
            final(env).wf(),
            old(env)@.scopes.len() <= final(env)@.scopes.len(),
            agrees(
                r,
                final(env)@,
                semantics::eval_node(
                    self@,
                    node@,
                    old(env)@,
                    scope as nat,
                    depth as nat,
                ),
            ),
        decreases depth, 9nat, 0nat,
    {
        proof {
            reveal(semantics::eval_node);
        }
        match node {
            Node::Program(p) => Some(self.eval_statements(&p.statements, env, scope, depth)),
            Node::Statement(s) => self.eval_statement(s, env, scope, depth),
            Node::Expression(e) => self.eval_expression(e, env, scope, depth),
        }
    }

    #[verifier::spinoff_prover]
    pub(crate) fn eval_statements(
        &self,
        stmts: &Vec<Statement>,
        env: &mut Environment,
        scope: usize,
        depth: usize,
    ) -> (r: Object)
        requires
            old(env).wf(),
            scope < old(env)@.scopes.len(),
        ensures
            final(env).wf(),
            old(env)@.scopes.len() <= final(env)@.scopes.len(),
            agrees(
                Some(r),
                final(env)@,
                semantics::eval_statements(
                    self@,
                    stmts_view(*stmts),
                    0,
                    None,
                    old(env)@,
                    scope as nat,
                    depth as nat,
                ),
            ),
        decreases depth, 8nat, 0nat,
    {
        let mut result: Option<Object> = None;
        let mut i: usize = 0;
        let ghost views = stmts_view(*stmts);
        while i < stmts.len()
            invariant
                env.wf(),
                scope < env@.scopes.len(),
                old(env)@.scopes.len() <= env@.scopes.len(),
                i <= stmts.len(),
                views == stmts_view(*stmts),
                semantics::eval_statements(
                    self@,
                    views,
                    i as nat,
                    value_view(result),
                    env@,
                    scope as nat,
                    depth as nat,
                ) == semantics::eval_statements(
                    self@,
                    views,
                    0,
                    None,
                    old(env)@,
                    scope as nat,
                    depth as nat,
                ),
            decreases stmts.len() - i,
        {
            proof {
                reveal(semantics::eval_statements);
            }
            match self.eval_statement(&stmts[i], env, scope, depth) {
                Some(Object::Ret(ret)) => {
                    return *ret.val;
                },
                other => {
                    result = other;
                },
            }
            i += 1;
        }
        proof {
            reveal(semantics::eval_statements);
        }
        match result {
            Some(value) => value,
            None => error("no value"),
        }
    }

    #[verifier::spinoff_prover]
    pub(crate) fn eval_statement(
        &self,
        statement: &Statement,
        env: &mut Environment,
        scope: usize,
        depth: usize,
    ) -> (r: Option<Object>)
        requires
            old(env).wf(),
            scope < old(env)@.scopes.len(),
        ensures
            final(env).wf(),
            old(env)@.scopes.len() <= final(env)@.scopes.len(),
            agrees(
                r,
                final(env)@,
                semantics::eval_statement(
                    self@,
                    statement@,
                    old(env)@,
                    scope as nat,
                    depth as nat,
                ),
            ),
        decreases depth, 7nat, 0nat,
    {
        proof {
            reveal(semantics::eval_statement);
        }
        match statement {
            Statement::Let(l) => self.eval_binding(&l.name.value, &l.value, env, scope, depth),
            Statement::Var(v) => self.eval_binding(&v.name.value, &v.value, env, scope, depth),
            Statement::Return(r) => self.eval_ret_stmt(r, env, scope, depth),
            Statement::Expression(x) => match &x.expression {
                Some(e) => self.eval_expression(e, env, scope, depth),
                None => None,
            },
            Statement::Block(b) => {
                assert(block_view(*b) == stmts_view(b.statements));
                self.descend_statements(&b.statements, env, scope, depth)
            },
        }
    }

    #[verifier::spinoff_prover]
    pub(crate) fn eval_binding(
        &self,
        name: &String,
        value: &Expression,
        env: &mut Environment,
        scope: usize,
        depth: usize,
    ) -> (r: Option<Object>)
        requires
            old(env).wf(),
            scope < old(env)@.scopes.len(),
        ensures
            final(env).wf(),
            old(env)@.scopes.len() <= final(env)@.scopes.len(),
            agrees(
                r,
                final(env)@,
                semantics::eval_binding(
                    self@,
                    name@,
                    value@,
                    old(env)@,
                    scope as nat,
                    depth as nat,
                ),
            ),
        decreases depth, 6nat, 1nat,
    {
        proof {
            reveal(semantics::eval_binding);
        }
        match self.eval_expression(value, env, scope, depth) {
            Some(v) => {
                if !v.is_error() {
                    env.set_in(scope, name.clone(), v.duplicate());
                }
                Some(v)
            },
            None => None,
        }
    }

    #[verifier::spinoff_prover]
    pub(crate) fn eval_ret_stmt(
        &self,
        ret: &Return,
        env: &mut Environment,
        scope: usize,
        depth: usize,
    ) -> (r: Option<Object>)
        requires
            old(env).wf(),
            scope < old(env)@.scopes.len(),
        ensures
            final(env).wf(),
            old(env)@.scopes.len() <= final(env)@.scopes.len(),
            agrees(
                r,
                final(env)@,
                semantics::eval_ret_stmt(
                    self@,
                    expr_opt_view(ret.return_value),
                    old(env)@,
                    scope as nat,
                    depth as nat,
                ),
            ),
        decreases depth, 6nat, 1nat,
    {
        proof {
            reveal(semantics::eval_ret_stmt);
        }
        match &ret.return_value {
            Some(e) => match self.eval_expression(e, env, scope, depth) {
                Some(v) => if v.is_error() {
                    Some(v)
                } else {
                    Some(Object::Ret(Ret::new(v)))
                },
                None => None,
            },
            None => None,
        }
    }

    #[verifier::spinoff_prover]
    pub(crate) fn descend(
        &self,
        e: &Expression,
        env: &mut Environment,
        scope: usize,
        depth: usize,
    ) -> (r: Option<Object>)
        requires
            old(env).wf(),
            scope < old(env)@.scopes.len(),
        ensures
            final(env).wf(),
            old(env)@.scopes.len() <= final(env)@.scopes.len(),
            agrees(
                r,
                final(env)@,
                semantics::descend(
                    self@,
                    e@,
                    old(env)@,
                    scope as nat,
                    depth as nat,
                ),
            ),
        decreases depth, 0nat, 0nat,
    {
        proof {
            reveal(semantics::descend);
        }
        if depth == 0 {
            Some(error("maximum evaluation depth exceeded"))
        } else {
            self.eval_expression(e, env, scope, depth - 1)
        }
    }

    #[verifier::spinoff_prover]
    pub(crate) fn descend_statements(
        &self,
        stmts: &Vec<Statement>,
        env: &mut Environment,
        scope: usize,
        depth: usize,
    ) -> (r: Option<Object>)
        requires
            old(env).wf(),
            scope < old(env)@.scopes.len(),
        ensures
            final(env).wf(),
            old(env)@.scopes.len() <= final(env)@.scopes.len(),
            agrees(
                r,
                final(env)@,
                semantics::descend_block(
                    self@,
                    Some(stmts_view(*stmts)),
                    old(env)@,
                    scope as nat,
                    depth as nat,
                ),
            ),
        decreases depth, 0nat, 0nat,
    {
        proof {
            reveal(semantics::descend_block);
        }
        if depth == 0 {
            Some(error("maximum evaluation depth exceeded"))
        } else {
            Some(self.eval_statements(stmts, env, scope, depth - 1))
        }
    }

    #[verifier::spinoff_prover]
    pub(crate) fn descend_block(
        &self,
        block: &Option<BlockStatement>,
        env: &mut Environment,
        scope: usize,
        depth: usize,
    ) -> (r: Option<Object>)
        requires
            old(env).wf(),
            scope < old(env)@.scopes.len(),
        ensures
            final(env).wf(),
            old(env)@.scopes.len() <= final(env)@.scopes.len(),
            agrees(
                r,
                final(env)@,
                semantics::descend_block(
                    self@,
                    block_opt_view(*block),
                    old(env)@,
                    scope as nat,
                    depth as nat,
                ),
            ),
        decreases depth, 1nat, 0nat,
    {
        match block {
            Some(b) => {
                assert(block_view(*b) == stmts_view(b.statements));
                self.descend_statements(&b.statements, env, scope, depth)
            },
            None => {
                proof {
                    reveal(semantics::descend_block);
                }
                None
            },
        }
    }

    #[verifier::spinoff_prover]
    pub(crate) fn eval_expression(
        &self,
        e: &Expression,
        env: &mut Environment,
        scope: usize,
        depth: usize,
    ) -> (r: Option<Object>)
        requires
            old(env).wf(),
            scope < old(env)@.scopes.len(),
        ensures
            final(env).wf(),
            old(env)@.scopes.len() <= final(env)@.scopes.len(),
            agrees(
                r,
                final(env)@,
                semantics::eval_expression(
                    self@,
                    e@,
                    old(env)@,
                    scope as nat,
                    depth as nat,
                ),
            ),
        decreases depth, 6nat, 0nat,
    {
        proof {
            reveal(semantics::eval_expression);
        }
        match e {
            Expression::Identifier(i) => Some(self.eval_identifier(i, env, scope)),
            Expression::Int(i) => Some(Object::Integer(Integer::new(i.value))),
            Expression::Bool(b) => Some(Object::Boolean(Boolean::new(b.value))),
            Expression::Str(s) => Some(Object::Str(Str::new(s.value.clone()))),
            Expression::Array(a) => self.eval_array(&a.value, env, scope, depth),
            Expression::Prefix(p) => self.eval_prefix(p, env, scope, depth),
            Expression::Infix(x) => self.eval_infix(x, env, scope, depth),
            Expression::If(x) => self.eval_if_expression(x, env, scope, depth),
            Expression::While(w) => self.eval_while_expression(w, env, scope, depth),
            Expression::Function(f) => Some(self.eval_function(f, env, scope)),
            Expression::Call(c) => self.eval_call(c, env, scope, depth),
            Expression::Index(x) => self.eval_index(x, env, scope, depth),
        }
    }

    /// Looks a native function up in the registry.
    pub(crate) fn builtin(&self, name: &str) -> (f: Option<BuildInFn>)
        ensures
            f == semantics::builtin(self@, name@, 0),
    {
        let mut i: usize = 0;
        while i < self.build_in_fns.len()
            invariant
                i <= self.build_in_fns.len(),
                semantics::builtin(self@, name@, i as int) == semantics::builtin(self@, name@, 0),
            decreases self.build_in_fns.len() - i,
        {
            if self.build_in_fns[i].name.as_str().eq(name) {
                return Some(self.build_in_fns[i].function.function);
            }
            i += 1;
        }
        None
    }

    /// The value of a bare name.
    pub(crate) fn eval_identifier(&self, identifier: &Identifier, env: &Environment, scope: usize) -> (r:
        Object)
        ensures
            r@ == semantics::eval_identifier(self@, identifier.value@, env@, scope as nat),
    {
        let name = identifier.value.as_str();
        match env.get_in(scope, name) {
            Some(value) => value,
            None => match self.builtin(name) {
                Some(function) => Object::BuiltIn(BuiltIn::new(function)),
                None => {
                    let mut message = String::from_str("unknown word '");
                    message.append(name);
                    message.append("'");
                    Object::Error(crate::object::error::Error::new(message))
                },
            },
        }
    }

    /// The value of a function literal: the function with the scope at
    /// hand, which is also written under the function's name.
    #[verifier::spinoff_prover]
    pub(crate) fn eval_function(&self, f: &FunctionExpr, env: &mut Environment, scope: usize) -> (r:
        Object)
        requires
            old(env).wf(),
            scope < old(env)@.scopes.len(),
        ensures
            final(env).wf(),
            old(env)@.scopes.len() <= final(env)@.scopes.len(),
            r@ == (ObjectView::Function {
                name: f.name@,
                parameters: idents_view(f.parameters),
                body: block_opt_view(f.body),
                env: scope as nat,
            }),
            final(env)@ == old(env)@.assign(scope as nat, f.name.value@, r@),
    {
        let function = Object::Function(
            Function::new(
                duplicate_idents(&f.parameters),
                f.name.clone(),
                duplicate_block(&f.body),
                scope,
            ),
        );
        env.set_in(scope, f.name.value.clone(), function.duplicate());
        function
    }

    #[verifier::spinoff_prover]
    pub(crate) fn eval_expressions(
        &self,
        items: &Vec<Expression>,
        env: &mut Environment,
        scope: usize,
        depth: usize,
    ) -> (r: Result<Vec<Object>, Object>)
        requires
            old(env).wf(),
            scope < old(env)@.scopes.len(),
        ensures
            final(env).wf(),
            old(env)@.scopes.len() <= final(env)@.scopes.len(),
            agrees_all(
                r,
                final(env)@,
                semantics::eval_expressions(
                    self@,
                    exprs_view(*items),
                    0,
                    Seq::empty(),
                    old(env)@,
                    scope as nat,
                    depth as nat,
                ),
            ),
        decreases depth, 4nat, 0nat,
    {
        let mut values: Vec<Object> = Vec::new();
        let mut i: usize = 0;
        let ghost views = exprs_view(*items);
        assert(objects_view(values) =~= Seq::empty());
        while i < items.len()
            invariant
                env.wf(),
                scope < env@.scopes.len(),
                old(env)@.scopes.len() <= env@.scopes.len(),
                i <= items.len(),
                views == exprs_view(*items),
                semantics::eval_expressions(
                    self@,
                    views,
                    i as nat,
                    objects_view(values),
                    env@,
                    scope as nat,
                    depth as nat,
                ) == semantics::eval_expressions(
                    self@,
                    views,
                    0,
                    Seq::empty(),
                    old(env)@,
                    scope as nat,
                    depth as nat,
                ),
            decreases items.len() - i,
        {
            proof {
                reveal(semantics::eval_expressions);
            }
            let ghost before = objects_view(values);
            match self.descend(&items[i], env, scope, depth) {
                Some(value) => {
                    if value.is_error() {
                        return Err(value);
                    }
                    values.push(value);
                    assert(objects_view(values) =~= before.push(value@));
                },
                None => {
                    values.push(Object::Null(Null));
                    assert(objects_view(values) =~= before.push(ObjectView::Null));
                },
            }
            i += 1;
        }
        proof {
            reveal(semantics::eval_expressions);
        }
        Ok(values)
    }

    #[verifier::spinoff_prover]
    pub(crate) fn eval_array(
        &self,
        items: &Vec<Expression>,
        env: &mut Environment,
        scope: usize,
        depth: usize,
    ) -> (r: Option<Object>)
        requires
            old(env).wf(),
            scope < old(env)@.scopes.len(),
        ensures
            final(env).wf(),
            old(env)@.scopes.len() <= final(env)@.scopes.len(),
            agrees(
                r,
                final(env)@,
                semantics::eval_array(
                    self@,
                    exprs_view(*items),
                    old(env)@,
                    scope as nat,
                    depth as nat,
                ),
            ),
        decreases depth, 5nat, 0nat,
    {
        proof {
            reveal(semantics::eval_array);
        }
        let r = self.eval_expressions(items, env, scope, depth);
        match r {
            Ok(values) => Some(Object::Array(Array::new(values))),
            Err(e) => Some(e),
        }
    }

    #[verifier::spinoff_prover]
    pub(crate) fn eval_prefix(
        &self,
        prefix: &PrefixExpr,
        env: &mut Environment,
        scope: usize,
        depth: usize,
    ) -> (r: Option<Object>)
        requires
            old(env).wf(),
            scope < old(env)@.scopes.len(),
        ensures
            final(env).wf(),
            old(env)@.scopes.len() <= final(env)@.scopes.len(),
            agrees(
                r,
                final(env)@,
                semantics::eval_prefix(
                    self@,
                    prefix.operator@,
                    boxed_view(prefix.right),
                    old(env)@,
                    scope as nat,
                    depth as nat,
                ),
            ),
        decreases depth, 5nat, 0nat,
    {
        proof {
            reveal(semantics::eval_prefix);
        }
        match &prefix.right {
            None => None,
            Some(x) => match self.descend(x, env, scope, depth) {
                Some(v) => if v.is_error() {
                    Some(v)
                } else {
                    Some(self.eval_prefix_expr(v, prefix.operator.as_str()))
                },
                None => None,
            },
        }
    }

    #[verifier::spinoff_prover]
    pub(crate) fn eval_infix(
        &self,
        infix: &InfixExpr,
        env: &mut Environment,
        scope: usize,
        depth: usize,
    ) -> (r: Option<Object>)
        requires
            old(env).wf(),
            scope < old(env)@.scopes.len(),
        ensures
            final(env).wf(),
            old(env)@.scopes.len() <= final(env)@.scopes.len(),
            agrees(
                r,
                final(env)@,
                semantics::eval_infix(
                    self@,
                    infix.operator@,
                    boxed_view(infix.left),
                    boxed_view(infix.right),
                    old(env)@,
                    scope as nat,
                    depth as nat,
                ),
            ),
        decreases depth, 5nat, 0nat,
    {
        proof {
            reveal(semantics::eval_infix);
        }
        let (l, r) = match (&infix.left, &infix.right) {
            (Some(l), Some(r)) => (l, r),
            _ => {
                return None;
            },
        };
        let right = match self.descend(r, env, scope, depth) {
            Some(right) => right,
            None => {
                return None;
            },
        };
        if right.is_error() {
            return Some(right);
        }
        if infix.operator.as_str().eq("=") {
            match &**l {
                Expression::Identifier(i) => {
                    env.set_in(scope, i.value.clone(), right.duplicate());
                    Some(right)
                },
                other => Some(error_with("invalid assignment target ", other.to_string().as_str())),
            }
        } else {
            match self.descend(l, env, scope, depth) {
                Some(left) => if left.is_error() {
                    Some(left)
                } else {
                    Some(self.eval_infix_expr(left, right, infix.operator.as_str()))
                },
                None => None,
            }
        }
    }

    #[verifier::spinoff_prover]
    pub(crate) fn eval_if_expression(
        &self,
        if_expr: &IfExpr,
        env: &mut Environment,
        scope: usize,
        depth: usize,
    ) -> (r: Option<Object>)
        requires
            old(env).wf(),
            scope < old(env)@.scopes.len(),
        ensures
            final(env).wf(),
            old(env)@.scopes.len() <= final(env)@.scopes.len(),
            agrees(
                r,
                final(env)@,
                semantics::eval_if_expression(
                    self@,
                    if_expr.condition@,
                    block_opt_view(if_expr.consequence),
                    block_opt_view(if_expr.alternative),
                    boxed_view(if_expr.el_if),
                    old(env)@,
                    scope as nat,
                    depth as nat,
                ),
            ),
        decreases depth, 5nat, 0nat,
    {
        proof {
            reveal(semantics::eval_if_expression);
        }
        let condition = self.descend(&if_expr.condition, env, scope, depth);
        match condition {
            Some(Object::Boolean(b)) => {
                let inner = env.push_scope(scope);
                if b.val {
                    self.descend_block(&if_expr.consequence, env, inner, depth)
                } else {
                    match &if_expr.el_if {
                        Some(other) => self.descend(other, env, inner, depth),
                        None => self.descend_block(&if_expr.alternative, env, inner, depth),
                    }
                }
            },
            Some(other) => if other.is_error() {
                Some(other)
            } else {
                None
            },
            None => None,
        }
    }

    #[verifier::spinoff_prover]
    pub(crate) fn eval_while_expression(
        &self,
        while_expr: &WhileExpr,
        env: &mut Environment,
        scope: usize,
        depth: usize,
    ) -> (r: Option<Object>)
        requires
            old(env).wf(),
            scope < old(env)@.scopes.len(),
        ensures
            final(env).wf(),
            old(env)@.scopes.len() <= final(env)@.scopes.len(),
            agrees(
                r,
                final(env)@,
                semantics::eval_while_expression(
                    self@,
                    while_expr.condition@,
                    block_opt_view(while_expr.consequence),
                    old(env)@,
                    scope as nat,
                    depth as nat,
                ),
            ),
        decreases depth, 5nat, 0nat,
    {
        proof {
            lemma_while_expression(
                self@,
                while_expr.condition@,
                block_opt_view(while_expr.consequence),
                env@,
                scope as nat,
                depth as nat,
            );
        }
        let mut test = self.descend(&while_expr.condition, env, scope, depth);
        if self.is_error(&test) {
            return test;
        }
        let mut last: Option<Object> = Some(Object::Null(Null));
        let mut budget: u64 = u64::MAX;
        let ghost condition = while_expr.condition@;
        let ghost consequence = block_opt_view(while_expr.consequence);
        loop
            invariant
                env.wf(),
                scope < env@.scopes.len(),
                old(env)@.scopes.len() <= env@.scopes.len(),
                condition == while_expr.condition@,
                consequence == block_opt_view(while_expr.consequence),
                semantics::eval_while_loop(
                    self@,
                    condition,
                    consequence,
                    value_view(test),
                    value_view(last),
                    env@,
                    scope as nat,
                    depth as nat,
                    budget as nat,
                ) == semantics::eval_while_expression(
                    self@,
                    condition,
                    consequence,
                    old(env)@,
                    scope as nat,
                    depth as nat,
                ),
            decreases budget,
        {
            proof {
                reveal(semantics::eval_while_loop);
            }
            let go = match &test {
                Some(Object::Boolean(b)) => b.val,
                _ => {
                    return None;
                },
            };
            if !go {
                return last;
            }
            if budget == 0 {
                return Some(error("iteration limit exceeded"));
            }
            let inner = env.push_scope(scope);
            last = self.descend_block(&while_expr.consequence, env, inner, depth);
            test = self.descend(&while_expr.condition, env, scope, depth);
            if self.is_error(&test) {
                return test;
            }
            budget -= 1;
        }
    }

    #[verifier::spinoff_prover]
    pub(crate) fn eval_call(
        &self,
        call: &CallExpr,
        env: &mut Environment,
        scope: usize,
        depth: usize,
    ) -> (r: Option<Object>)
        requires
            old(env).wf(),
            scope < old(env)@.scopes.len(),
        ensures
            final(env).wf(),
            old(env)@.scopes.len() <= final(env)@.scopes.len(),
            agrees(
                r,
                final(env)@,
                semantics::eval_call(
                    self@,
                    call.function@,
                    exprs_view(call.arguments),
                    old(env)@,
                    scope as nat,
                    depth as nat,
                ),
            ),
        decreases depth, 5nat, 0nat,
    {
        proof {
            reveal(semantics::eval_call);
        }
        let callee = match self.descend(&call.function, env, scope, depth) {
            Some(callee) => callee,
            None => {
                return None;
            },
        };
        if callee.is_error() {
            return Some(callee);
        }
        let args = match self.eval_expressions(&call.arguments, env, scope, depth) {
            Ok(args) => args,
            Err(e) => {
                return Some(e);
            },
        };
        let grows = match &callee {
            Object::BuiltIn(b) => match b.function {
                BuildInFn::Append => true,
                _ => false,
            },
            _ => false,
        };
        let result = self.apply_function(callee, args, env, depth);
        if grows && call.arguments.len() > 0 {
            match (&call.arguments[0], &result) {
                (Expression::Identifier(i), Some(Object::Array(_))) => {
                    match &result {
                        Some(grown) => {
                            env.set_in(scope, i.value.clone(), grown.duplicate());
                        },
                        None => {},
                    }
                },
                _ => {},
            }
        }
        result
    }

    /// Makes the scope in which the body of `function` runs: a new scope
    /// whose parent is the scope in which the function was defined, with
    /// the values `args` written under the names of the parameters at the
    /// same places.  Gives the number of the new scope.
    #[verifier::spinoff_prover]
    pub(crate) fn create_function_environment(
        &self,
        function: &Function,
        args: &Vec<Object>,
        env: &mut Environment,
    ) -> (scope: usize)
        requires
            old(env).wf(),
            function.env < old(env)@.scopes.len(),
        ensures
            final(env).wf(),
            scope == old(env)@.scopes.len(),
            final(env)@.scopes.len() == old(env)@.scopes.len() + 1,
            final(env)@ == semantics::bind_parameters(
                old(env)@.with_scope(function.env as nat),
                scope as nat,
                idents_view(function.parameters),
                objects_view(*args),
                0,
            ),
    {
        let scope = env.push_scope(function.env);
        let ghost start = env@;
        let mut i: usize = 0;
        while i < args.len() && i < function.parameters.len()
            invariant
                env.wf(),
                env@.scopes.len() == start.scopes.len(),
                i <= args.len(),
                semantics::bind_parameters(
                    env@,
                    scope as nat,
                    idents_view(function.parameters),
                    objects_view(*args),
                    i as int,
                ) == semantics::bind_parameters(
                    start,
                    scope as nat,
                    idents_view(function.parameters),
                    objects_view(*args),
                    0,
                ),
            decreases args.len() - i,
        {
            env.set_in(scope, function.parameters[i].value.clone(), args[i].duplicate());
            i += 1;
        }
        scope
    }

    /// Applies a callee to the values of the arguments.
    #[verifier::spinoff_prover]
    pub(crate) fn apply_function(
        &self,
        callee: Object,
        args: Vec<Object>,
        env: &mut Environment,
        depth: usize,
    ) -> (r: Option<Object>)
        requires
            old(env).wf(),
        ensures
            final(env).wf(),
            old(env)@.scopes.len() <= final(env)@.scopes.len(),
            agrees(
                r,
                final(env)@,
                semantics::apply_function(
                    self@,
                    callee@,
                    objects_view(args),
                    old(env)@,
                    depth as nat,
                ),
            ),
        decreases depth, 3nat, 0nat,
    {
        proof {
            reveal(semantics::apply_function);
        }
        match &callee {
            Object::Function(function) => {
                if function.env >= env.scope_count() {
                    return Some(error("function scope does not exist"));
                }
                assert(idents_view(function.parameters).len() == function.parameters.len());
                assert(objects_view(args).len() == args.len());
                if args.len() > function.parameters.len() {
                    return Some(error("wrong number of arguments"));
                }
                let inner = self.create_function_environment(function, &args, env);
                let evaluated = self.descend_block(&function.body, env, inner, depth);
                if self.is_error(&evaluated) {
                    return evaluated;
                }
                self.extract_ret_val(evaluated)
            },
            Object::BuiltIn(built_in) => Some(self.call_builtin(built_in.function, &args, env)),
            _ => Some(error_with("not a function ", callee.get_type().as_str())),
        }
    }

    /// Applies a native function to the values of the arguments.
    #[verifier::spinoff_prover]
    pub(crate) fn call_builtin(&self, function: BuildInFn, args: &Vec<Object>, env: &mut Environment) -> (r:
        Object)
        requires
            old(env).wf(),
        ensures
            final(env).wf(),
            old(env)@.scopes.len() == final(env)@.scopes.len(),
            agrees(
                Some(r),
                final(env)@,
                semantics::call_builtin(function, objects_view(*args), old(env)@),
            ),
    {
        match function {
            BuildInFn::Len => built_in_fns::len(args),
            BuildInFn::ToStr => built_in_fns::to_str(args),
            BuildInFn::ToInt => built_in_fns::to_int(args),
            BuildInFn::Puts => self.print(Stream::Stdout, false, args, env),
            BuildInFn::Putsln => self.print(Stream::Stdout, true, args, env),
            BuildInFn::Eputs => self.print(Stream::Stderr, false, args, env),
            BuildInFn::Eputsln => self.print(Stream::Stderr, true, args, env),
            BuildInFn::Append => built_in_fns::append(args),
            BuildInFn::Slice => built_in_fns::slice(args),
            BuildInFn::Input => {
                if args.len() == 0 {
                    let line = env.read_line();
                    built_in_fns::input(args, line)
                } else {
                    built_in_fns::input(args, String::new())
                }
            },
            BuildInFn::IsError => built_in_fns::is_error(args),
        }
    }

    /// Prints the texts of the values to `stream`, with a line end behind
    /// them if `line` says so, and gives the texts back as a string.
    pub(crate) fn print(&self, stream: Stream, line: bool, args: &Vec<Object>, env: &mut Environment) -> (r:
        Object)
        requires
            old(env).wf(),
        ensures
            final(env).wf(),
            r@ == built_in_fns::puts_of(objects_view(*args)),
            final(env)@ == old(env)@.printed(
                stream,
                if line {
                    built_in_fns::joined(objects_view(*args)) + "\n"@
                } else {
                    built_in_fns::joined(objects_view(*args))
                },
            ),
    {
        let value = built_in_fns::puts(args);
        let mut text = match &value {
            Object::Str(s) => s.val.clone(),
            _ => String::new(),
        };
        if line {
            text.append("\n");
        }
        env.print(stream, text);
        value
    }

    #[verifier::spinoff_prover]
    pub(crate) fn eval_index(
        &self,
        index: &IndexExpr,
        env: &mut Environment,
        scope: usize,
        depth: usize,
    ) -> (r: Option<Object>)
        requires
            old(env).wf(),
            scope < old(env)@.scopes.len(),
        ensures
            final(env).wf(),
            old(env)@.scopes.len() <= final(env)@.scopes.len(),
            agrees(
                r,
                final(env)@,
                semantics::eval_index(
                    self@,
                    index.left@,
                    index.index@,
                    old(env)@,
                    scope as nat,
                    depth as nat,
                ),
            ),
        decreases depth, 5nat, 0nat,
    {
        proof {
            reveal(semantics::eval_index);
        }
        let left = match self.descend(&index.left, env, scope, depth) {
            Some(left) => left,
            None => {
                return None;
            },
        };
        if left.is_error() {
            return Some(left);
        }
        match self.descend(&index.index, env, scope, depth) {
            Some(at) => if at.is_error() {
                Some(at)
            } else {
                Some(self.eval_index_expr(left, at))
            },
            None => None,
        }
    }
}

} // verus!
