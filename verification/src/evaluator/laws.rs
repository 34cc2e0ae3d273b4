//! Laws of evaluation: what holds of every program.
//!
//! A runtime error is a value, and the one rule about it is that it wins:
//! as soon as a part of a compound expression has an error for its value,
//! that error is the value of the expression, and the environment is the
//! one in which the error arose.  The laws here state the rule for each
//! kind of compound expression.

use crate::ast::model::{ExprView, StmtView};
use crate::evaluator::semantics::{
    descend, eval_binding, eval_call, eval_expression, eval_expressions, eval_if_expression,
    eval_index, eval_infix, eval_prefix, eval_ret_stmt, eval_statement, eval_statements, failed,
    yields, EntryView, Outcome,
};
use crate::object::environment::EnvView;
use crate::object::ObjectView;
use vstd::prelude::*;

verus! {

/// An error in the operand of a prefix operator is the value of the whole.
#[verifier::spinoff_prover]
pub proof fn lemma_prefix_error(
    reg: Seq<EntryView>,
    operator: Seq<char>,
    right: ExprView,
    env: EnvView,
    scope: nat,
    depth: nat,
)
    requires
        failed(descend(reg, right, env, scope, depth)),
    ensures
        eval_prefix(reg, operator, Some(Box::new(right)), env, scope, depth) == descend(
            reg,
            right,
            env,
            scope,
            depth,
        ),
{
    reveal(eval_prefix);
}

/// An error in the right operand of a binary operator is the value of the
/// whole, and the left operand is not evaluated.
#[verifier::spinoff_prover]
pub proof fn lemma_infix_right_error(
    reg: Seq<EntryView>,
    operator: Seq<char>,
    left: ExprView,
    right: ExprView,
    env: EnvView,
    scope: nat,
    depth: nat,
)
    requires
        failed(descend(reg, right, env, scope, depth)),
    ensures
        eval_infix(
            reg,
            operator,
            Some(Box::new(left)),
            Some(Box::new(right)),
            env,
            scope,
            depth,
        ) == descend(reg, right, env, scope, depth),
{
    reveal(eval_infix);
}

/// An error in the left operand of a binary operator other than `=` is the
/// value of the whole.
#[verifier::spinoff_prover]
pub proof fn lemma_infix_left_error(
    reg: Seq<EntryView>,
    operator: Seq<char>,
    left: ExprView,
    right: ExprView,
    env: EnvView,
    scope: nat,
    depth: nat,
)
    requires
        operator != "="@,
        descend(reg, right, env, scope, depth).value is Some,
        !failed(descend(reg, right, env, scope, depth)),
        failed(descend(reg, left, descend(reg, right, env, scope, depth).env, scope, depth)),
    ensures
        eval_infix(
            reg,
            operator,
            Some(Box::new(left)),
            Some(Box::new(right)),
            env,
            scope,
            depth,
        ) == descend(reg, left, descend(reg, right, env, scope, depth).env, scope, depth),
{
    reveal(eval_infix);
}

/// An error in the condition of a conditional is the value of the whole,
/// and no branch runs.
#[verifier::spinoff_prover]
pub proof fn lemma_condition_error(
    reg: Seq<EntryView>,
    condition: ExprView,
    consequence: Option<Seq<StmtView>>,
    alternative: Option<Seq<StmtView>>,
    el_if: Option<Box<ExprView>>,
    env: EnvView,
    scope: nat,
    depth: nat,
)
    requires
        failed(descend(reg, condition, env, scope, depth)),
    ensures
        eval_if_expression(reg, condition, consequence, alternative, el_if, env, scope, depth)
            == descend(reg, condition, env, scope, depth),
{
    reveal(eval_if_expression);
}

/// An error in what is indexed is the value of the whole, and the index is
/// not evaluated.
#[verifier::spinoff_prover]
pub proof fn lemma_indexed_error(
    reg: Seq<EntryView>,
    left: ExprView,
    index: ExprView,
    env: EnvView,
    scope: nat,
    depth: nat,
)
    requires
        failed(descend(reg, left, env, scope, depth)),
    ensures
        eval_index(reg, left, index, env, scope, depth) == descend(reg, left, env, scope, depth),
{
    reveal(eval_index);
}

/// An error in the index is the value of the whole.
#[verifier::spinoff_prover]
pub proof fn lemma_index_error(
    reg: Seq<EntryView>,
    left: ExprView,
    index: ExprView,
    env: EnvView,
    scope: nat,
    depth: nat,
)
    requires
        descend(reg, left, env, scope, depth).value is Some,
        !failed(descend(reg, left, env, scope, depth)),
        failed(descend(reg, index, descend(reg, left, env, scope, depth).env, scope, depth)),
    ensures
        eval_index(reg, left, index, env, scope, depth) == descend(
            reg,
            index,
            descend(reg, left, env, scope, depth).env,
            scope,
            depth,
        ),
{
    reveal(eval_index);
}

/// An error in what is called is the value of the call, and no argument is
/// evaluated.
#[verifier::spinoff_prover]
pub proof fn lemma_callee_error(
    reg: Seq<EntryView>,
    function: ExprView,
    arguments: Seq<ExprView>,
    env: EnvView,
    scope: nat,
    depth: nat,
)
    requires
        failed(descend(reg, function, env, scope, depth)),
    ensures
        eval_call(reg, function, arguments, env, scope, depth) == descend(
            reg,
            function,
            env,
            scope,
            depth,
        ),
{
    reveal(eval_call);
}

/// An error among the arguments of a call is the value of the call, and
/// nothing is applied.
#[verifier::spinoff_prover]
pub proof fn lemma_argument_error(
    reg: Seq<EntryView>,
    function: ExprView,
    arguments: Seq<ExprView>,
    env: EnvView,
    scope: nat,
    depth: nat,
)
    requires
        descend(reg, function, env, scope, depth).value is Some,
        !failed(descend(reg, function, env, scope, depth)),
        eval_expressions(
            reg,
            arguments,
            0,
            Seq::empty(),
            descend(reg, function, env, scope, depth).env,
            scope,
            depth,
        ).result is Err,
    ensures
        ({
            let a = eval_expressions(
                reg,
                arguments,
                0,
                Seq::empty(),
                descend(reg, function, env, scope, depth).env,
                scope,
                depth,
            );
            eval_call(reg, function, arguments, env, scope, depth) == yields(
                a.result->Err_0,
                a.env,
            )
        }),
{
    reveal(eval_call);
}

/// The first error in a list of expressions ends the evaluation of the
/// list: the expressions behind it are not evaluated.
#[verifier::spinoff_prover]
pub proof fn lemma_list_error(
    reg: Seq<EntryView>,
    items: Seq<ExprView>,
    from: nat,
    acc: Seq<ObjectView>,
    env: EnvView,
    scope: nat,
    depth: nat,
)
    requires
        from < items.len(),
        failed(descend(reg, items[from as int], env, scope, depth)),
    ensures
        ({
            let r = descend(reg, items[from as int], env, scope, depth);
            let all = eval_expressions(reg, items, from, acc, env, scope, depth);
            all.result == Err::<Seq<ObjectView>, ObjectView>(r.value->Some_0) && all.env == r.env
        }),
{
    reveal(eval_expressions);
}

/// A `let` or `var` whose value is an error has that error for its value
/// and writes nothing.
#[verifier::spinoff_prover]
pub proof fn lemma_binding_error(
    reg: Seq<EntryView>,
    name: Seq<char>,
    value: ExprView,
    env: EnvView,
    scope: nat,
    depth: nat,
)
    requires
        failed(eval_expression(reg, value, env, scope, depth)),
    ensures
        eval_binding(reg, name, value, env, scope, depth) == eval_expression(
            reg,
            value,
            env,
            scope,
            depth,
        ),
{
    reveal(eval_binding);
}

/// A `ret` whose value is an error has that error for its value, not
/// wrapped.
#[verifier::spinoff_prover]
pub proof fn lemma_return_error(
    reg: Seq<EntryView>,
    value: ExprView,
    env: EnvView,
    scope: nat,
    depth: nat,
)
    requires
        failed(eval_expression(reg, value, env, scope, depth)),
    ensures
        eval_ret_stmt(reg, Some(value), env, scope, depth) == eval_expression(
            reg,
            value,
            env,
            scope,
            depth,
        ),
{
    reveal(eval_ret_stmt);
}

/// A statement whose value a `ret` wrapped ends its sequence: the sequence
/// has the inner value, and the statements behind it do not run.
#[verifier::spinoff_prover]
pub proof fn lemma_return_stops(
    reg: Seq<EntryView>,
    stmts: Seq<StmtView>,
    from: nat,
    last: Option<ObjectView>,
    env: EnvView,
    scope: nat,
    depth: nat,
)
    requires
        from < stmts.len(),
        eval_statement(reg, stmts[from as int], env, scope, depth).value matches Some(
            ObjectView::Ret(_),
        ),
    ensures
        ({
            let r = eval_statement(reg, stmts[from as int], env, scope, depth);
            eval_statements(reg, stmts, from, last, env, scope, depth) == (Outcome {
                value: Some(*(r.value->Some_0->Ret_0)),
                env: r.env,
            })
        }),
{
    reveal(eval_statements);
}

} // verus!
