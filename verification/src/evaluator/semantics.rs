//! What programs mean: the value that a node evaluates to, and what the
//! evaluation does to the environment.
//!
//! The functions here are the specification of the evaluator.  They take
//! the registry of native functions `reg`, the environment `env`, the
//! number `scope` of the scope in which the node stands, and the depth
//! `depth` to which evaluation may still descend.  Each step from an
//! expression into one of its parts, into a block or into the body of a
//! called function takes one from the depth; where none is left, the value
//! is an error.  A loop that has run 2^64 - 1 times ends in an error too.
//!
//! A runtime error is a value.  Every compound expression looks at the
//! value of each part as soon as it has it, and if that is an error, the
//! error is the value of the whole; the parts behind it are not evaluated.

use crate::ast::model::{expr_text, ExprView, IdentView, NodeView, StmtView};
use crate::ast::types::Type;
use crate::evaluator::built_in_fns::{
    append_of, input_of, is_error_of, joined, len_of, puts_of, slice_of, to_int_of, to_str_of,
};
use crate::object::built_in::BuildInFn;
use crate::object::environment::{EnvView, Stream};
use crate::object::{is_error, object_text, object_type, ObjectView};
use crate::text::int_text;
use vstd::prelude::*;

verus! {

/// The model of an entry of the registry of native functions.
pub struct EntryView {
    pub name: Seq<char>,
    pub function: BuildInFn,
}

/// The outcome of evaluating a node: the value, if the node has one, and
/// the environment afterwards.
pub struct Outcome {
    pub value: Option<ObjectView>,
    pub env: EnvView,
}

/// The outcome of evaluating a list of expressions: the values, or the
/// first error among them, and the environment afterwards.
pub struct Evaluated {
    pub result: Result<Seq<ObjectView>, ObjectView>,
    pub env: EnvView,
}

/// The outcome with the value `value`.
pub open spec fn yields(value: ObjectView, env: EnvView) -> Outcome {
    Outcome { value: Some(value), env }
}

/// Whether the outcome's value is a runtime error.
pub open spec fn failed(r: Outcome) -> bool {
    r.value matches Some(v) && is_error(v)
}

/// The error for an evaluation that would descend too deep.
pub open spec fn depth_error() -> ObjectView {
    ObjectView::Error("maximum evaluation depth exceeded"@)
}

/// The error for a loop that does not end.
pub open spec fn loop_error() -> ObjectView {
    ObjectView::Error("iteration limit exceeded"@)
}

/// The error for a sequence of statements that has no value.
pub open spec fn no_value_error() -> ObjectView {
    ObjectView::Error("no value"@)
}

/// How often a loop may run.
pub open spec fn loop_limit() -> nat {
    u64::MAX as nat
}

/// The native function registered under `name`: the first entry of that
/// name at or after `from`.
pub open spec fn builtin(reg: Seq<EntryView>, name: Seq<char>, from: int) -> Option<BuildInFn>
    decreases reg.len() - from,
{
    if 0 <= from < reg.len() {
        if reg[from].name == name {
            Some(reg[from].function)
        } else {
            builtin(reg, name, from + 1)
        }
    } else {
        None
    }
}

/// The value of a bare name: what the environment binds it to, else the
/// native function of that name, else an error.
pub open spec fn eval_identifier(
    reg: Seq<EntryView>,
    name: Seq<char>,
    env: EnvView,
    scope: nat,
) -> ObjectView {
    match env.lookup(scope, name) {
        Some(v) => v,
        None => match builtin(reg, name, 0) {
            Some(f) => ObjectView::BuiltIn(f),
            None => ObjectView::Error("unknown word '"@ + name + "'"@),
        },
    }
}

/// `!x`: the negation of a boolean.
pub open spec fn eval_bang_operator(right: ObjectView) -> ObjectView {
    match right {
        ObjectView::Boolean(b) => ObjectView::Boolean(!b),
        _ => ObjectView::Error("invalid expression '!"@ + object_text(right) + "'"@),
    }
}

/// The integer `v` as a value, if it fits 64 bits; an error if not.
pub open spec fn checked(v: int) -> ObjectView {
    if i64::MIN <= v <= i64::MAX {
        ObjectView::Integer(v)
    } else {
        ObjectView::Error("integer overflow"@)
    }
}

/// `-x`: the negative of an integer.
pub open spec fn eval_minus_prefix_operator(right: ObjectView) -> ObjectView {
    match right {
        ObjectView::Integer(i) => checked(-i),
        _ => ObjectView::Error("invalid expression '-"@ + object_text(right) + "'"@),
    }
}

/// A prefix operator applied to a value.
pub open spec fn eval_prefix_expr(right: ObjectView, operator: Seq<char>) -> ObjectView {
    if operator == "!"@ {
        eval_bang_operator(right)
    } else if operator == "-"@ {
        eval_minus_prefix_operator(right)
    } else {
        ObjectView::Error("invalid expression "@ + object_text(right))
    }
}

/// The quotient of `x` by `d`, rounded towards zero.
pub open spec fn quotient(x: int, d: int) -> int {
    if x == 0 {
        0
    } else if x > 0 && d > 0 {
        x / d
    } else if x < 0 && d < 0 {
        ((x * -1) / (d * -1))
    } else if x < 0 {
        ((x * -1) / d) * -1
    } else {
        (x / (d * -1)) * -1
    }
}

/// The error for an operator that the operands do not support.
pub open spec fn unsupported(left: Seq<char>, operator: Seq<char>, right: Seq<char>) -> ObjectView {
    ObjectView::Error("unsupported operation "@ + left + " "@ + operator + " "@ + right)
}

/// A binary operator between two integers: arithmetic that fits 64 bits,
/// and comparisons.
pub open spec fn integer_infix(left: int, right: int, operator: Seq<char>) -> ObjectView {
    if operator == "+"@ {
        checked(left + right)
    } else if operator == "-"@ {
        checked(left - right)
    } else if operator == "*"@ {
        checked(left * right)
    } else if operator == "/"@ {
        if right == 0 {
            ObjectView::Error("division by zero"@)
        } else {
            checked(quotient(left, right))
        }
    } else if operator == "!="@ {
        ObjectView::Boolean(left != right)
    } else if operator == "=="@ {
        ObjectView::Boolean(left == right)
    } else if operator == ">="@ {
        ObjectView::Boolean(left >= right)
    } else if operator == "<="@ {
        ObjectView::Boolean(left <= right)
    } else if operator == ">"@ {
        ObjectView::Boolean(left > right)
    } else if operator == "<"@ {
        ObjectView::Boolean(left < right)
    } else {
        ObjectView::Error("unknown operator "@ + operator)
    }
}

/// A boolean as text.
pub open spec fn bool_text(b: bool) -> Seq<char> {
    if b {
        "true"@
    } else {
        "false"@
    }
}

/// A binary operator between two booleans: equality, order with `false`
/// before `true`, and the two connectives.
pub open spec fn boolean_infix(left: bool, right: bool, operator: Seq<char>) -> ObjectView {
    if operator == "!="@ {
        ObjectView::Boolean(left != right)
    } else if operator == "=="@ {
        ObjectView::Boolean(left == right)
    } else if operator == ">="@ {
        ObjectView::Boolean(left || !right)
    } else if operator == "<="@ {
        ObjectView::Boolean(!left || right)
    } else if operator == ">"@ {
        ObjectView::Boolean(left && !right)
    } else if operator == "<"@ {
        ObjectView::Boolean(!left && right)
    } else if operator == "||"@ {
        ObjectView::Boolean(left || right)
    } else if operator == "&&"@ {
        ObjectView::Boolean(left && right)
    } else {
        unsupported(bool_text(left), operator, bool_text(right))
    }
}

/// A binary operator between two strings: `+` joins them.
pub open spec fn string_infix(left: Seq<char>, right: Seq<char>, operator: Seq<char>) -> ObjectView {
    if operator == "+"@ {
        ObjectView::Str(left + right)
    } else {
        unsupported(left, operator, right)
    }
}

/// A binary operator between two values.  The operands must be of the
/// same type; integers, booleans and strings have operators, other values
/// have none.
pub open spec fn eval_infix_expr(
    left: ObjectView,
    right: ObjectView,
    operator: Seq<char>,
) -> ObjectView {
    if object_type(left) != object_type(right) {
        ObjectView::Error(
            "incompatible types "@ + object_type(right).name() + " and "@ + object_type(
                left,
            ).name(),
        )
    } else {
        match left {
            ObjectView::Integer(l) => match right {
                ObjectView::Integer(r) => integer_infix(l, r, operator),
                _ => ObjectView::Error("miss right operator "@ + object_text(left)),
            },
            ObjectView::Boolean(l) => match right {
                ObjectView::Boolean(r) => boolean_infix(l, r, operator),
                _ => ObjectView::Error("miss right operator "@ + object_text(left)),
            },
            ObjectView::Str(l) => match right {
                ObjectView::Str(r) => string_infix(l, r, operator),
                _ => ObjectView::Error("miss right operator "@ + object_text(left)),
            },
            _ => unsupported(object_text(left), operator, object_text(right)),
        }
    }
}

/// The error for a value that cannot be indexed.
pub open spec fn index_error(left: ObjectView) -> ObjectView {
    ObjectView::Error("index operation not suported: "@ + object_type(left).name())
}

/// The element of an array or the character of a string at an integer
/// index; null if the index lies outside.
pub open spec fn eval_array_index_expr(left: ObjectView, index: ObjectView) -> ObjectView {
    match index {
        ObjectView::Integer(i) => match left {
            ObjectView::Array(a) => if 0 <= i < a.len() {
                a[i]
            } else {
                ObjectView::Null
            },
            ObjectView::Str(s) => if 0 <= i < s.len() {
                ObjectView::Str(seq![s[i]])
            } else {
                ObjectView::Null
            },
            _ => ObjectView::Error(
                "index operation not suported: "@ + object_type(left).name() + "["@ + int_text(i)
                    + "]"@,
            ),
        },
        _ => index_error(left),
    }
}

/// `left[index]`: arrays and strings can be indexed, by integers.
pub open spec fn eval_index_expr(left: ObjectView, index: ObjectView) -> ObjectView {
    if (object_type(left) == Type::Array || object_type(left) == Type::String) && object_type(
        index,
    ) == Type::Int {
        eval_array_index_expr(left, index)
    } else {
        index_error(left)
    }
}

/// The value without the wrapping of a `ret` statement.
pub open spec fn extract_ret_val(value: Option<ObjectView>) -> Option<ObjectView> {
    match value {
        Some(ObjectView::Ret(v)) => Some(*v),
        _ => value,
    }
}

/// A native function applied to the values `args`.  Printing adds to the
/// log of the environment, and reading takes a line from its input.
pub open spec fn call_builtin(function: BuildInFn, args: Seq<ObjectView>, env: EnvView) -> Outcome {
    match function {
        BuildInFn::Len => yields(len_of(args), env),
        BuildInFn::ToStr => yields(to_str_of(args), env),
        BuildInFn::ToInt => yields(to_int_of(args), env),
        BuildInFn::Puts => yields(puts_of(args), env.printed(Stream::Stdout, joined(args))),
        BuildInFn::Putsln => yields(
            puts_of(args),
            env.printed(Stream::Stdout, joined(args) + "\n"@),
        ),
        BuildInFn::Eputs => yields(puts_of(args), env.printed(Stream::Stderr, joined(args))),
        BuildInFn::Eputsln => yields(
            puts_of(args),
            env.printed(Stream::Stderr, joined(args) + "\n"@),
        ),
        BuildInFn::Append => yields(append_of(args), env),
        BuildInFn::Slice => yields(slice_of(args), env),
        BuildInFn::Input => if args.len() == 0 {
            yields(input_of(args, env.next_line()), env.after_line())
        } else {
            yields(input_of(args, Seq::empty()), env)
        },
        BuildInFn::IsError => yields(is_error_of(args), env),
    }
}

/// The environment after the values `args[from..]` were written, from
/// `scope`, under the names of the parameters at the same places.
pub open spec fn bind_parameters(
    env: EnvView,
    scope: nat,
    parameters: Seq<IdentView>,
    args: Seq<ObjectView>,
    from: int,
) -> EnvView
    decreases args.len() - from,
{
    if 0 <= from < args.len() && from < parameters.len() {
        bind_parameters(
            env.assign(scope, parameters[from].value, args[from]),
            scope,
            parameters,
            args,
            from + 1,
        )
    } else {
        env
    }
}

/// When `append` was called on an array that a plain name stands for, the
/// grown array is written back under that name, so that the array grows in
/// place.  Any other call leaves its outcome as it is.
pub open spec fn write_back(
    callee: ObjectView,
    arguments: Seq<ExprView>,
    r: Outcome,
    scope: nat,
) -> Outcome {
    if callee == ObjectView::BuiltIn(BuildInFn::Append) && arguments.len() > 0 {
        match (arguments[0], r.value) {
            (ExprView::Identifier(i), Some(ObjectView::Array(items))) => Outcome {
                value: r.value,
                env: r.env.assign(scope, i.value, ObjectView::Array(items)),
            },
            _ => r,
        }
    } else {
        r
    }
}

/// The value of any node.
#[verifier::opaque]
pub open spec fn eval_node(
    reg: Seq<EntryView>,
    node: NodeView,
    env: EnvView,
    scope: nat,
    depth: nat,
) -> Outcome
    decreases depth, 9nat, 0nat,
{
    match node {
        NodeView::Program(p) => eval_statements(reg, p.statements, 0, None, env, scope, depth),
        NodeView::Statement(s) => eval_statement(reg, s, env, scope, depth),
        NodeView::Expression(e) => eval_expression(reg, e, env, scope, depth),
    }
}

/// The value of the statements `stmts[from..]`, where `last` is the value
/// of the statement before them: the value of the last statement, or the
/// inner value of the first statement whose value a `ret` wrapped, at
/// which evaluation stops.  A sequence without a value is an error.
#[verifier::opaque]
pub open spec fn eval_statements(
    reg: Seq<EntryView>,
    stmts: Seq<StmtView>,
    from: nat,
    last: Option<ObjectView>,
    env: EnvView,
    scope: nat,
    depth: nat,
) -> Outcome
    decreases depth, 8nat, stmts.len() - from,
{
    if from >= stmts.len() {
        match last {
            Some(v) => yields(v, env),
            None => yields(no_value_error(), env),
        }
    } else {
        let r = eval_statement(reg, stmts[from as int], env, scope, depth);
        match r.value {
            Some(ObjectView::Ret(v)) => yields(*v, r.env),
            _ => eval_statements(reg, stmts, from + 1, r.value, r.env, scope, depth),
        }
    }
}

/// The value of a statement.  `let` and `var` write their value under
/// their name; `ret` wraps its value.
#[verifier::opaque]
pub open spec fn eval_statement(
    reg: Seq<EntryView>,
    s: StmtView,
    env: EnvView,
    scope: nat,
    depth: nat,
) -> Outcome
    decreases depth, 7nat, 0nat,
{
    match s {
        StmtView::Let { name, value, .. } => eval_binding(reg, name, value, env, scope, depth),
        StmtView::Var { name, value, .. } => eval_binding(reg, name, value, env, scope, depth),
        StmtView::Return(value) => eval_ret_stmt(reg, value, env, scope, depth),
        StmtView::Expression { expression, .. } => match expression {
            Some(e) => eval_expression(reg, e, env, scope, depth),
            None => Outcome { value: None, env },
        },
        StmtView::Block(stmts) => descend_block(reg, Some(stmts), env, scope, depth),
    }
}

/// The value of a `let` or `var`: that of its expression, which is also
/// written under the name unless it is an error.
#[verifier::opaque]
pub open spec fn eval_binding(
    reg: Seq<EntryView>,
    name: Seq<char>,
    value: ExprView,
    env: EnvView,
    scope: nat,
    depth: nat,
) -> Outcome
    decreases depth, 6nat, 1nat,
{
    let r = eval_expression(reg, value, env, scope, depth);
    match r.value {
        Some(v) if !is_error(v) => Outcome { value: Some(v), env: r.env.assign(scope, name, v) },
        _ => r,
    }
}

/// The value of a `ret`: that of its expression, wrapped unless it is an
/// error.
#[verifier::opaque]
pub open spec fn eval_ret_stmt(
    reg: Seq<EntryView>,
    value: Option<ExprView>,
    env: EnvView,
    scope: nat,
    depth: nat,
) -> Outcome
    decreases depth, 6nat, 1nat,
{
    match value {
        Some(e) => {
            let r = eval_expression(reg, e, env, scope, depth);
            match r.value {
                Some(v) if !is_error(v) => yields(ObjectView::Ret(Box::new(v)), r.env),
                _ => r,
            }
        },
        None => Outcome { value: None, env },
    }
}

/// The value of the expression `e`, one level further down.
#[verifier::opaque]
pub open spec fn descend(
    reg: Seq<EntryView>,
    e: ExprView,
    env: EnvView,
    scope: nat,
    depth: nat,
) -> Outcome
    decreases depth, 0nat, 0nat,
{
    if depth == 0 {
        yields(depth_error(), env)
    } else {
        eval_expression(reg, e, env, scope, (depth - 1) as nat)
    }
}

/// The value of the block `stmts`, one level further down; no value, if
/// there is no block.
#[verifier::opaque]
pub open spec fn descend_block(
    reg: Seq<EntryView>,
    block: Option<Seq<StmtView>>,
    env: EnvView,
    scope: nat,
    depth: nat,
) -> Outcome
    decreases depth, 0nat, 0nat,
{
    match block {
        None => Outcome { value: None, env },
        Some(stmts) => if depth == 0 {
            yields(depth_error(), env)
        } else {
            eval_statements(reg, stmts, 0, None, env, scope, (depth - 1) as nat)
        },
    }
}

/// The value of an expression.
#[verifier::opaque]
pub open spec fn eval_expression(
    reg: Seq<EntryView>,
    e: ExprView,
    env: EnvView,
    scope: nat,
    depth: nat,
) -> Outcome
    decreases depth, 6nat, 0nat,
{
    match e {
        ExprView::Identifier(i) => yields(eval_identifier(reg, i.value, env, scope), env),
        ExprView::Int(v) => yields(ObjectView::Integer(v), env),
        ExprView::Bool(b) => yields(ObjectView::Boolean(b), env),
        ExprView::Str(s) => yields(ObjectView::Str(s), env),
        ExprView::Array(items) => eval_array(reg, items, env, scope, depth),
        ExprView::Prefix { operator, right, .. } => eval_prefix(
            reg,
            operator,
            right,
            env,
            scope,
            depth,
        ),
        ExprView::Infix { operator, left, right, .. } => eval_infix(
            reg,
            operator,
            left,
            right,
            env,
            scope,
            depth,
        ),
        ExprView::If { condition, consequence, alternative, el_if } => eval_if_expression(
            reg,
            *condition,
            consequence,
            alternative,
            el_if,
            env,
            scope,
            depth,
        ),
        ExprView::While { condition, consequence } => eval_while_expression(
            reg,
            *condition,
            consequence,
            env,
            scope,
            depth,
        ),
        ExprView::Function { name, parameters, body, .. } => {
            let f = ObjectView::Function { name, parameters, body, env: scope };
            Outcome { value: Some(f), env: env.assign(scope, name.value, f) }
        },
        ExprView::Call { function, arguments } => eval_call(
            reg,
            *function,
            arguments,
            env,
            scope,
            depth,
        ),
        ExprView::Index { left, index } => eval_index(reg, *left, *index, env, scope, depth),
    }
}

/// The values of the expressions `items[from..]`, behind the values `acc`
/// of those before them.  The first error among them ends the evaluation.
/// An expression without a value counts as null.
#[verifier::opaque]
pub open spec fn eval_expressions(
    reg: Seq<EntryView>,
    items: Seq<ExprView>,
    from: nat,
    acc: Seq<ObjectView>,
    env: EnvView,
    scope: nat,
    depth: nat,
) -> Evaluated
    decreases depth, 4nat, items.len() - from,
{
    if from >= items.len() {
        Evaluated { result: Ok(acc), env }
    } else {
        let r = descend(reg, items[from as int], env, scope, depth);
        match r.value {
            Some(v) => if is_error(v) {
                Evaluated { result: Err(v), env: r.env }
            } else {
                eval_expressions(reg, items, from + 1, acc.push(v), r.env, scope, depth)
            },
            None => eval_expressions(
                reg,
                items,
                from + 1,
                acc.push(ObjectView::Null),
                r.env,
                scope,
                depth,
            ),
        }
    }
}

/// The value of an array literal: the array of the values of its
/// elements.
#[verifier::opaque]
pub open spec fn eval_array(
    reg: Seq<EntryView>,
    items: Seq<ExprView>,
    env: EnvView,
    scope: nat,
    depth: nat,
) -> Outcome
    decreases depth, 5nat, 0nat,
{
    let r = eval_expressions(reg, items, 0, Seq::empty(), env, scope, depth);
    match r.result {
        Ok(values) => yields(ObjectView::Array(values), r.env),
        Err(e) => yields(e, r.env),
    }
}

/// The value of a prefix operator with its operand.
#[verifier::opaque]
pub open spec fn eval_prefix(
    reg: Seq<EntryView>,
    operator: Seq<char>,
    right: Option<Box<ExprView>>,
    env: EnvView,
    scope: nat,
    depth: nat,
) -> Outcome
    decreases depth, 5nat, 0nat,
{
    match right {
        None => Outcome { value: None, env },
        Some(x) => {
            let r = descend(reg, *x, env, scope, depth);
            match r.value {
                Some(v) if !is_error(v) => yields(eval_prefix_expr(v, operator), r.env),
                _ => r,
            }
        },
    }
}

/// The value of a binary operator with its operands.  The right operand
/// is evaluated first.  `=` writes the value of the right operand under
/// the name on the left.
#[verifier::opaque]
pub open spec fn eval_infix(
    reg: Seq<EntryView>,
    operator: Seq<char>,
    left: Option<Box<ExprView>>,
    right: Option<Box<ExprView>>,
    env: EnvView,
    scope: nat,
    depth: nat,
) -> Outcome
    decreases depth, 5nat, 0nat,
{
    match (left, right) {
        (Some(l), Some(r)) => {
            let rv = descend(reg, *r, env, scope, depth);
            match rv.value {
                Some(right_value) if !is_error(right_value) => if operator == "="@ {
                    match *l {
                        ExprView::Identifier(i) => Outcome {
                            value: Some(right_value),
                            env: rv.env.assign(scope, i.value, right_value),
                        },
                        _ => yields(
                            ObjectView::Error("invalid assignment target "@ + expr_text(*l)),
                            rv.env,
                        ),
                    }
                } else {
                    let lv = descend(reg, *l, rv.env, scope, depth);
                    match lv.value {
                        Some(left_value) if !is_error(left_value) => yields(
                            eval_infix_expr(left_value, right_value, operator),
                            lv.env,
                        ),
                        _ => lv,
                    }
                },
                _ => rv,
            }
        },
        _ => Outcome { value: None, env },
    }
}

/// The value of a conditional.  The condition must be a boolean, else the
/// conditional has no value.  The branch that is taken runs in a scope of
/// its own.
#[verifier::opaque]
pub open spec fn eval_if_expression(
    reg: Seq<EntryView>,
    condition: ExprView,
    consequence: Option<Seq<StmtView>>,
    alternative: Option<Seq<StmtView>>,
    el_if: Option<Box<ExprView>>,
    env: EnvView,
    scope: nat,
    depth: nat,
) -> Outcome
    decreases depth, 5nat, 0nat,
{
    let c = descend(reg, condition, env, scope, depth);
    match c.value {
        Some(ObjectView::Boolean(b)) => {
            let inner = c.env.with_scope(scope);
            let id = c.env.scopes.len();
            if b {
                descend_block(reg, consequence, inner, id, depth)
            } else {
                match el_if {
                    Some(other) => descend(reg, *other, inner, id, depth),
                    None => descend_block(reg, alternative, inner, id, depth),
                }
            }
        },
        Some(v) if is_error(v) => c,
        _ => Outcome { value: None, env: c.env },
    }
}

/// The value of a loop: the value of the last run of its body, or null if
/// the body never ran.
#[verifier::opaque]
pub open spec fn eval_while_expression(
    reg: Seq<EntryView>,
    condition: ExprView,
    consequence: Option<Seq<StmtView>>,
    env: EnvView,
    scope: nat,
    depth: nat,
) -> Outcome
    decreases depth, 5nat, 0nat,
{
    let c = descend(reg, condition, env, scope, depth);
    if failed(c) {
        c
    } else {
        eval_while_loop(
            reg,
            condition,
            consequence,
            c.value,
            Some(ObjectView::Null),
            c.env,
            scope,
            depth,
            loop_limit(),
        )
    }
}

/// The rest of a loop whose condition has just had the value `test` and
/// whose body had the value `last` when it last ran.  Each run of the body
/// has a scope of its own; the condition is evaluated in the scope of the
/// loop.  A condition that is no boolean ends the loop without a value.
#[verifier::opaque]
pub open spec fn eval_while_loop(
    reg: Seq<EntryView>,
    condition: ExprView,
    consequence: Option<Seq<StmtView>>,
    test: Option<ObjectView>,
    last: Option<ObjectView>,
    env: EnvView,
    scope: nat,
    depth: nat,
    budget: nat,
) -> Outcome
    decreases depth, 4nat, budget,
{
    match test {
        Some(ObjectView::Boolean(b)) => if !b {
            Outcome { value: last, env }
        } else if budget == 0 {
            yields(loop_error(), env)
        } else {
            let body = descend_block(
                reg,
                consequence,
                env.with_scope(scope),
                env.scopes.len(),
                depth,
            );
            let c = descend(reg, condition, body.env, scope, depth);
            if failed(c) {
                c
            } else {
                eval_while_loop(
                    reg,
                    condition,
                    consequence,
                    c.value,
                    body.value,
                    c.env,
                    scope,
                    depth,
                    (budget - 1) as nat,
                )
            }
        },
        _ => Outcome { value: None, env },
    }
}

/// The value of a call: the callee applied to the values of the
/// arguments.
#[verifier::opaque]
pub open spec fn eval_call(
    reg: Seq<EntryView>,
    function: ExprView,
    arguments: Seq<ExprView>,
    env: EnvView,
    scope: nat,
    depth: nat,
) -> Outcome
    decreases depth, 5nat, 0nat,
{
    let f = descend(reg, function, env, scope, depth);
    match f.value {
        Some(callee) if !is_error(callee) => {
            let a = eval_expressions(reg, arguments, 0, Seq::empty(), f.env, scope, depth);
            match a.result {
                Err(e) => yields(e, a.env),
                Ok(args) => write_back(
                    callee,
                    arguments,
                    apply_function(reg, callee, args, a.env, depth),
                    scope,
                ),
            }
        },
        _ => f,
    }
}

/// A callee applied to the values `args`.  A function runs its body in a
/// new scope whose parent is the scope in which the function was defined,
/// with the arguments written under the names of the parameters.
#[verifier::opaque]
pub open spec fn apply_function(
    reg: Seq<EntryView>,
    callee: ObjectView,
    args: Seq<ObjectView>,
    env: EnvView,
    depth: nat,
) -> Outcome
    decreases depth, 3nat, 0nat,
{
    match callee {
        ObjectView::Function { parameters, body, env: defined, .. } => if defined
            >= env.scopes.len() {
            yields(ObjectView::Error("function scope does not exist"@), env)
        } else if args.len() > parameters.len() {
            yields(ObjectView::Error("wrong number of arguments"@), env)
        } else {
            let id = env.scopes.len();
            let bound = bind_parameters(env.with_scope(defined), id, parameters, args, 0);
            let r = descend_block(reg, body, bound, id, depth);
            if failed(r) {
                r
            } else {
                Outcome { value: extract_ret_val(r.value), env: r.env }
            }
        },
        ObjectView::BuiltIn(function) => call_builtin(function, args, env),
        _ => yields(ObjectView::Error("not a function "@ + object_type(callee).name()), env),
    }
}

/// The value of an index expression.
#[verifier::opaque]
pub open spec fn eval_index(
    reg: Seq<EntryView>,
    left: ExprView,
    index: ExprView,
    env: EnvView,
    scope: nat,
    depth: nat,
) -> Outcome
    decreases depth, 5nat, 0nat,
{
    let l = descend(reg, left, env, scope, depth);
    match l.value {
        Some(left_value) if !is_error(left_value) => {
            let i = descend(reg, index, l.env, scope, depth);
            match i.value {
                Some(index_value) if !is_error(index_value) => yields(
                    eval_index_expr(left_value, index_value),
                    i.env,
                ),
                _ => i,
            }
        },
        _ => l,
    }
}

} // verus!
