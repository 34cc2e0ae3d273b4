//! The evaluator: walks the syntax tree against an environment.
//!
//! What a node evaluates to is fixed by the functions of [`semantics`];
//! each method here computes the function of the same name.  Values are
//! copied when they are read, so that no operator can change a value that a
//! name stands for.  Integer arithmetic that leaves the 64-bit range and
//! division by zero give error values.
//!
//! Evaluation descends at most [`Evaluator::max_depth`] levels into
//! expressions, blocks and calls.  Recursion that would go deeper ends in an
//! error value; the limit must be low enough for the host's stack.

pub mod built_in_fns;
pub mod laws;
pub mod operators;
pub mod semantics;
pub mod walk;

use crate::ast::node::Node;
use crate::ast::program::Program;
use crate::evaluator::semantics::{EntryView, Outcome};
use crate::object::built_in::{BuildInFn, BuiltIn};
use crate::object::environment::{EnvView, Environment};
use crate::object::{value_view, Object};
use vstd::prelude::*;

verus! {

/// An entry of the registry of native functions.
#[derive(Debug)]
pub struct BuiltInEntry {
    pub name: String,
    pub function: BuiltIn,
}

/// The evaluator: the registry of native functions, and how deep
/// evaluation may descend.
#[derive(Debug)]
pub struct Evaluator {
    pub build_in_fns: Vec<BuiltInEntry>,
    pub max_depth: usize,
}

impl View for Evaluator {
    type V = Seq<EntryView>;

    open spec fn view(&self) -> Seq<EntryView> {
        Seq::new(
            self.build_in_fns.len() as nat,
            |i: int|
                EntryView {
                    name: self.build_in_fns[i].name@,
                    function: self.build_in_fns[i].function.function,
                },
        )
    }
}

/// The registry that a new evaluator starts with.
pub open spec fn standard_registry() -> Seq<EntryView> {
    seq![
        EntryView { name: "len"@, function: BuildInFn::Len },
        EntryView { name: "to_str"@, function: BuildInFn::ToStr },
        EntryView { name: "to_int"@, function: BuildInFn::ToInt },
        EntryView { name: "puts"@, function: BuildInFn::Puts },
        EntryView { name: "putsln"@, function: BuildInFn::Putsln },
        EntryView { name: "eputs"@, function: BuildInFn::Eputs },
        EntryView { name: "eputsln"@, function: BuildInFn::Eputsln },
        EntryView { name: "append"@, function: BuildInFn::Append },
        EntryView { name: "slice"@, function: BuildInFn::Slice },
        EntryView { name: "input"@, function: BuildInFn::Input },
        EntryView { name: "is_error"@, function: BuildInFn::IsError },
    ]
}

/// How deep a new evaluator descends.
pub const DEFAULT_MAX_DEPTH: usize = 1000;

/// Whether the value `r` and the environment `env` are what the outcome
/// `s` says.
pub open spec fn agrees(r: Option<Object>, env: EnvView, s: Outcome) -> bool {
    &&& value_view(r) == s.value
    &&& env == s.env
}

fn entry(name: &str, function: BuildInFn) -> (e: BuiltInEntry)
    ensures
        e.name@ == name@,
        e.function.function == function,
{
    BuiltInEntry { name: String::from_str(name), function: BuiltIn::new(function) }
}

impl Evaluator {
    /// An evaluator with the standard native functions.
    pub fn new() -> (evaluator: Self)
        ensures
            evaluator@ == standard_registry(),
            evaluator.max_depth == DEFAULT_MAX_DEPTH,
    {
        let mut build_in_fns: Vec<BuiltInEntry> = Vec::new();
        build_in_fns.push(entry("len", BuildInFn::Len));
        build_in_fns.push(entry("to_str", BuildInFn::ToStr));
        build_in_fns.push(entry("to_int", BuildInFn::ToInt));
        build_in_fns.push(entry("puts", BuildInFn::Puts));
        build_in_fns.push(entry("putsln", BuildInFn::Putsln));
        build_in_fns.push(entry("eputs", BuildInFn::Eputs));
        build_in_fns.push(entry("eputsln", BuildInFn::Eputsln));
        build_in_fns.push(entry("append", BuildInFn::Append));
        build_in_fns.push(entry("slice", BuildInFn::Slice));
        build_in_fns.push(entry("input", BuildInFn::Input));
        build_in_fns.push(entry("is_error", BuildInFn::IsError));
        let evaluator = Self { build_in_fns, max_depth: DEFAULT_MAX_DEPTH };
        assert(evaluator@ =~= standard_registry());
        evaluator
    }

    /// Writes `name` in the environment, from its current scope.
    pub fn set(&self, name: String, obj: Object, env: &mut Environment)
        requires
            old(env).wf(),
        ensures
            final(env).wf(),
            final(env)@ == old(env)@.assign(old(env)@.current, name@, obj@),
    {
        env.set(name, obj)
    }

    /// Reads `name` from the environment, from its current scope.
    pub fn get(&self, name: String, env: &Environment) -> (value: Option<Object>)
        ensures
            value_view(value) == env@.lookup(env@.current, name@),
    {
        env.get(name)
    }

    /// Evaluates `node` in the current scope of `env`.  Without a node
    /// there is no value, and the environment stays as it is.
    pub fn eval(&self, node: Option<&Node>, env: &mut Environment) -> (value: Option<Object>)
        requires
            old(env).wf(),
        ensures
            final(env).wf(),
            match node {
                Some(n) => agrees(
                    value,
                    final(env)@,
                    semantics::eval_node(
                        self@,
                        n@,
                        old(env)@,
                        old(env)@.current,
                        self.max_depth as nat,
                    ),
                ),
                None => value is None && final(env)@ == old(env)@,
            },
    {
        match node {
            Some(n) => {
                proof {
                    env.lemma_wf();
                }
                let scope = env.current();
                self.eval_node(n, env, scope, self.max_depth)
            },
            None => None,
        }
    }
}

impl Evaluator {
    /// Runs a program in the current scope of `env`, unless parsing left
    /// diagnostics: a program with diagnostics is not evaluated, has no
    /// value, and leaves the environment as it is.
    pub fn run(&self, program: &Program, env: &mut Environment) -> (value: Option<Object>)
        requires
            old(env).wf(),
        ensures
            final(env).wf(),
            if program@.errors.len() > 0 {
                value is None && final(env)@ == old(env)@
            } else {
                agrees(
                    value,
                    final(env)@,
                    semantics::eval_statements(
                        self@,
                        program@.statements,
                        0,
                        None,
                        old(env)@,
                        old(env)@.current,
                        self.max_depth as nat,
                    ),
                )
            },
    {
        if program.errors.len() > 0 {
            None
        } else {
            proof {
                env.lemma_wf();
            }
            let scope = env.current();
            Some(self.eval_statements(&program.statements, env, scope, self.max_depth))
        }
    }
}

impl Default for Evaluator {
    fn default() -> (evaluator: Self)
        ensures
            evaluator@ == standard_registry(),
            evaluator.max_depth == DEFAULT_MAX_DEPTH,
    {
        Self::new()
    }
}

} // verus!
