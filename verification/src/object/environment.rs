//! The environment: the chain of scopes, and the program's traffic with the
//! world outside.
//!
//! The scopes of a run live in one arena and are known by their number.
//! Each scope maps names to values and names its parent, which is always a
//! scope that was made before it.  A scope stays for as long as the
//! environment does, so that a function value can name the scope in which
//! it was defined.
//!
//! Names are written by one rule, in [`assign`]: if the name is bound in an
//! enclosing scope, that binding is changed, in the outermost scope of the
//! chain that binds it; otherwise the name is bound in the scope at hand.
//! `let`, `var`, `=` and the parameters of a call all follow this rule, so a
//! `let` that reuses the name of an outer variable changes that variable and
//! does not shadow it.  Names are read from the nearest scope that binds
//! them.
//!
//! What the program prints is kept in a log, and what it reads comes from a
//! queue of lines: the caller fills the queue before a run and empties the
//! log after it.

use crate::object::{value_view, Object, ObjectView};
use vstd::prelude::*;

verus! {

/// A name and the value bound to it.
#[derive(Debug)]
pub struct Binding {
    pub name: String,
    pub value: Object,
}

/// One scope: its bindings and the number of its parent.
#[derive(Debug)]
pub struct Scope {
    pub store: Vec<Binding>,
    pub outer: Option<usize>,
}

/// The two streams a program can print to.
#[derive(Debug, Clone, Copy, PartialEq, Eq, Structural)]
pub enum Stream {
    Stdout,
    Stderr,
}

/// A piece of text that the program printed.
#[derive(Debug)]
pub struct Output {
    pub stream: Stream,
    pub text: String,
}

/// The scopes of a run, the scope that reads and writes start from, the log
/// of what was printed, and the lines that are left to read.
#[derive(Debug)]
pub struct Environment {
    scopes: Vec<Scope>,
    current: usize,
    output: Vec<Output>,
    input: Vec<String>,
    consumed: usize,
}

/// The model of a [`Binding`].
pub struct BindingView {
    pub name: Seq<char>,
    pub value: ObjectView,
}

/// The model of a [`Scope`].
#[verifier::ext_equal]
pub struct ScopeView {
    pub store: Seq<BindingView>,
    pub outer: Option<nat>,
}

/// The model of an [`Output`].
pub struct OutputView {
    pub stream: Stream,
    pub text: Seq<char>,
}

/// The model of an [`Environment`].
#[verifier::ext_equal]
pub struct EnvView {
    pub scopes: Seq<ScopeView>,
    pub current: nat,
    pub output: Seq<OutputView>,
    /// The lines that have not been read yet.
    pub input: Seq<Seq<char>>,
}

impl View for Binding {
    type V = BindingView;

    open spec fn view(&self) -> BindingView {
        BindingView { name: self.name@, value: self.value@ }
    }
}

impl View for Scope {
    type V = ScopeView;

    open spec fn view(&self) -> ScopeView {
        ScopeView {
            store: Seq::new(self.store.len() as nat, |i: int| self.store[i]@),
            outer: match self.outer {
                Some(j) => Some(j as nat),
                None => None,
            },
        }
    }
}

impl View for Output {
    type V = OutputView;

    open spec fn view(&self) -> OutputView {
        OutputView { stream: self.stream, text: self.text@ }
    }
}

impl View for Environment {
    type V = EnvView;

    closed spec fn view(&self) -> EnvView {
        EnvView {
            scopes: Seq::new(self.scopes.len() as nat, |i: int| self.scopes[i]@),
            current: self.current as nat,
            output: Seq::new(self.output.len() as nat, |i: int| self.output[i]@),
            input: Seq::new(
                (self.input.len() - self.consumed) as nat,
                |i: int| self.input[self.consumed + i]@,
            ),
        }
    }
}

/// The index of the first binding of `name` at or after `from`; the length
/// of the store if there is none.
pub open spec fn find(store: Seq<BindingView>, name: Seq<char>, from: int) -> int
    decreases store.len() - from,
{
    if 0 <= from < store.len() && store[from].name != name {
        find(store, name, from + 1)
    } else {
        from
    }
}

impl EnvView {
    /// The invariant of an environment: there is a scope to start from, and
    /// every scope's parent was made before the scope.
    pub open spec fn wf(self) -> bool {
        &&& self.current < self.scopes.len()
        &&& forall|i: int|
            0 <= i < self.scopes.len() ==> (#[trigger] self.scopes[i].outer matches Some(j) ==> j
                < i)
    }

    /// The parent of `scope`, if it has one.
    pub open spec fn parent(self, scope: nat) -> Option<nat> {
        if scope < self.scopes.len() {
            match self.scopes[scope as int].outer {
                Some(j) if j < scope => Some(j),
                _ => None,
            }
        } else {
            None
        }
    }

    /// The value that `name` has in `scope` itself, if it is bound there.
    pub open spec fn local(self, scope: nat, name: Seq<char>) -> Option<ObjectView> {
        if scope < self.scopes.len() {
            let store = self.scopes[scope as int].store;
            let at = find(store, name, 0);
            if 0 <= at < store.len() {
                Some(store[at].value)
            } else {
                None
            }
        } else {
            None
        }
    }

    /// The value that `name` has when read from `scope`: that of the nearest
    /// scope on the chain that binds it.
    pub open spec fn lookup(self, scope: nat, name: Seq<char>) -> Option<ObjectView>
        decreases scope,
    {
        match self.local(scope, name) {
            Some(v) => Some(v),
            None => match self.parent(scope) {
                Some(j) => self.lookup(j, name),
                None => None,
            },
        }
    }

    /// Whether a scope that encloses `scope` binds `name`.
    pub open spec fn exists_in_outer(self, scope: nat, name: Seq<char>) -> bool {
        match self.parent(scope) {
            Some(j) => self.lookup(j, name) is Some,
            None => false,
        }
    }

    /// The scope in which a write of `name` from `scope` lands: the
    /// outermost scope on the chain that binds the name in an enclosing
    /// scope, or `scope` itself if no enclosing scope binds it.
    pub open spec fn home(self, scope: nat, name: Seq<char>) -> nat
        decreases scope,
    {
        match self.parent(scope) {
            Some(j) if self.lookup(j, name) is Some => self.home(j, name),
            _ => scope,
        }
    }

    /// The environment after `name` was written from `scope`.
    pub open spec fn assign(self, scope: nat, name: Seq<char>, value: ObjectView) -> EnvView {
        let home = self.home(scope, name);
        if home < self.scopes.len() {
            EnvView {
                scopes: self.scopes.update(
                    home as int,
                    ScopeView {
                        store: put(self.scopes[home as int].store, name, value),
                        outer: self.scopes[home as int].outer,
                    },
                ),
                ..self
            }
        } else {
            self
        }
    }

    /// The environment with one more scope, whose parent is `outer`.  The
    /// new scope has the number that was the count of scopes before.
    pub open spec fn with_scope(self, outer: nat) -> EnvView {
        EnvView {
            scopes: self.scopes.push(ScopeView { store: Seq::empty(), outer: Some(outer) }),
            ..self
        }
    }

    /// The environment after `text` was printed to `stream`.
    pub open spec fn printed(self, stream: Stream, text: Seq<char>) -> EnvView {
        EnvView { output: self.output.push(OutputView { stream, text }), ..self }
    }

    /// The line that is read next; the empty line if none is left.
    pub open spec fn next_line(self) -> Seq<char> {
        if self.input.len() > 0 {
            self.input[0]
        } else {
            Seq::empty()
        }
    }

    /// The environment after one line was read.
    pub open spec fn after_line(self) -> EnvView {
        if self.input.len() > 0 {
            EnvView { input: self.input.skip(1), ..self }
        } else {
            self
        }
    }
}

/// The store with `name` bound to `value`: in place of the binding it had,
/// or at the end.
pub open spec fn put(store: Seq<BindingView>, name: Seq<char>, value: ObjectView) -> Seq<
    BindingView,
> {
    let at = find(store, name, 0);
    if 0 <= at < store.len() {
        store.update(at, BindingView { name, value })
    } else {
        store.push(BindingView { name, value })
    }
}

/// A search ends within the store, on a binding of the name or at the end.
pub proof fn lemma_find(store: Seq<BindingView>, name: Seq<char>, from: int)
    requires
        0 <= from <= store.len(),
    ensures
        from <= find(store, name, from) <= store.len(),
        find(store, name, from) < store.len() ==> store[find(store, name, from)].name == name,
    decreases store.len() - from,
{
    if from < store.len() && store[from].name != name {
        lemma_find(store, name, from + 1);
    }
}

/// A write lands in a scope at or before the one it started from, and in
/// a scope before it if an enclosing scope binds the name.
pub proof fn lemma_home(env: EnvView, scope: nat, name: Seq<char>)
    requires
        scope < env.scopes.len(),
    ensures
        env.home(scope, name) <= scope,
        env.exists_in_outer(scope, name) ==> env.home(scope, name) < scope,
        !env.exists_in_outer(scope, name) ==> env.home(scope, name) == scope,
    decreases scope,
{
    match env.parent(scope) {
        Some(j) => {
            if env.lookup(j, name) is Some {
                lemma_home(env, j, name);
            }
        },
        None => {},
    }
}

/// The search ends on the first binding of the name.
pub proof fn lemma_find_first(store: Seq<BindingView>, name: Seq<char>, from: int, at: int)
    requires
        0 <= from <= at < store.len(),
        store[at].name == name,
        forall|i: int| from <= i < at ==> (#[trigger] store[i]).name != name,
    ensures
        find(store, name, from) == at,
    decreases at - from,
{
    if from < at {
        assert(store[from].name != name);
        lemma_find_first(store, name, from + 1, at);
    }
}

/// Before the binding that the search ends on, nothing binds the name.
pub proof fn lemma_find_before(store: Seq<BindingView>, name: Seq<char>, from: int)
    requires
        0 <= from <= store.len(),
    ensures
        forall|i: int| from <= i < find(store, name, from) ==> (#[trigger] store[i]).name != name,
    decreases store.len() - from,
{
    if from < store.len() && store[from].name != name {
        lemma_find_before(store, name, from + 1);
    }
}

/// A name that no enclosing scope binds is bound in the scope at hand: a
/// read from the scope finds what was written from it.
pub proof fn lemma_write_here(env: EnvView, scope: nat, name: Seq<char>, value: ObjectView)
    requires
        scope < env.scopes.len(),
        !env.exists_in_outer(scope, name),
    ensures
        env.assign(scope, name, value).lookup(scope, name) == Some(value),
{
    lemma_home(env, scope, name);
    let store = env.scopes[scope as int].store;
    lemma_find(store, name, 0);
    lemma_find_before(store, name, 0);
    let at = find(store, name, 0);
    let after = put(store, name, value);
    if at < store.len() {
        assert forall|i: int| 0 <= i < at implies (#[trigger] after[i]).name != name by {
            assert(after[i] == store[i]);
        }
        lemma_find_first(after, name, 0, at);
    } else {
        assert forall|i: int| 0 <= i < store.len() implies (#[trigger] after[i]).name != name by {
            assert(after[i] == store[i]);
        }
        lemma_find_first(after, name, 0, store.len() as int);
    }
}

/// A name that an enclosing scope binds is not shadowed: a write from the
/// scope at hand leaves the scope's own bindings as they are, and changes
/// a scope that encloses it.
pub proof fn lemma_write_outwards(env: EnvView, scope: nat, name: Seq<char>, value: ObjectView)
    requires
        scope < env.scopes.len(),
        env.exists_in_outer(scope, name),
    ensures
        env.assign(scope, name, value).scopes[scope as int] == env.scopes[scope as int],
        env.home(scope, name) < scope,
{
    lemma_home(env, scope, name);
}

impl Environment {
    /// The environment's invariant.
    pub closed spec fn wf(&self) -> bool {
        &&& self@.wf()
        &&& self.consumed <= self.input.len()
    }

    /// What a well-formed environment's model holds.
    pub proof fn lemma_wf(&self)
        requires
            self.wf(),
        ensures
            self@.wf(),
    {
    }

    /// An environment with one scope that has no parent, if `outer` is
    /// none; otherwise the environment `outer` with one more scope, whose
    /// parent is the scope that `outer` started from, and from which reads
    /// and writes now start.
    pub fn new(outer: Option<Environment>) -> (env: Self)
        requires
            outer matches Some(e) ==> e.wf(),
        ensures
            env.wf(),
            match outer {
                Some(e) => env@ == (EnvView {
                    current: e@.scopes.len(),
                    ..e@.with_scope(e@.current)
                }),
                None => env@ == (EnvView {
                    scopes: seq![ScopeView { store: Seq::empty(), outer: None }],
                    current: 0,
                    output: Seq::empty(),
                    input: Seq::empty(),
                }),
            },
    {
        match outer {
            Some(e) => {
                let mut env = e;
                let parent = env.current;
                let id = env.push_scope(parent);
                env.current = id;
                env
            },
            None => {
                let mut scopes: Vec<Scope> = Vec::new();
                scopes.push(Scope { store: Vec::new(), outer: None });
                let env = Self {
                    scopes,
                    current: 0,
                    output: Vec::new(),
                    input: Vec::new(),
                    consumed: 0,
                };
                assert(env@.scopes =~~= seq![ScopeView { store: Seq::empty(), outer: None }]);
                assert(env@.output =~= Seq::empty());
                assert(env@.input =~= Seq::empty());
                env
            },
        }
    }

    /// The number of the scope from which reads and writes start.
    pub fn current(&self) -> (scope: usize)
        ensures
            scope == self@.current,
    {
        self.current
    }

    /// The number of scopes.
    pub fn scope_count(&self) -> (n: usize)
        ensures
            n == self@.scopes.len(),
    {
        self.scopes.len()
    }

    /// Adds a scope whose parent is `outer`, and returns its number.
    pub fn push_scope(&mut self, outer: usize) -> (id: usize)
        requires
            old(self).wf(),
            outer < old(self)@.scopes.len(),
        ensures
            final(self).wf(),
            final(self)@ == old(self)@.with_scope(outer as nat),
            id == old(self)@.scopes.len(),
    {
        let id = self.scopes.len();
        self.scopes.push(Scope { store: Vec::new(), outer: Some(outer) });
        assert(self@.scopes =~~= old(self)@.scopes.push(
            ScopeView { store: Seq::empty(), outer: Some(outer as nat) },
        ));
        assert(self@.output =~= old(self)@.output);
        assert(self@.input =~= old(self)@.input);
        id
    }

    /// Starts reads and writes from `scope`.
    pub fn enter(&mut self, scope: usize)
        requires
            old(self).wf(),
            scope < old(self)@.scopes.len(),
        ensures
            final(self).wf(),
            final(self)@ == (EnvView { current: scope as nat, ..old(self)@ }),
    {
        self.current = scope;
        assert(self@.scopes =~~= old(self)@.scopes);
        assert(self@.output =~= old(self)@.output);
        assert(self@.input =~= old(self)@.input);
    }

    /// The index of the binding of `name` in `scope`, if it has one.
    fn position(&self, scope: usize, name: &str) -> (at: Option<usize>)
        requires
            scope < self.scopes.len(),
        ensures
            match at {
                Some(i) => i < self.scopes[scope as int].store.len() && i == find(
                    self@.scopes[scope as int].store,
                    name@,
                    0,
                ),
                None => find(self@.scopes[scope as int].store, name@, 0)
                    == self@.scopes[scope as int].store.len(),
            },
    {
        let store = &self.scopes[scope].store;
        let ghost view = self@.scopes[scope as int].store;
        let mut i: usize = 0;
        while i < store.len()
            invariant
                i <= store.len(),
                store == &self.scopes[scope as int].store,
                view == self@.scopes[scope as int].store,
                view.len() == store.len(),
                forall|j: int| 0 <= j < store.len() ==> view[j] == store[j]@,
                find(view, name@, i as int) == find(view, name@, 0),
            decreases store.len() - i,
        {
            if store[i].name.as_str().eq(name) {
                return Some(i);
            }
            i += 1;
        }
        None
    }

    /// The parent of `scope`, if it has one.
    fn parent(&self, scope: usize) -> (p: Option<usize>)
        ensures
            match p {
                Some(j) => self@.parent(scope as nat) == Some(j as nat) && j < scope,
                None => self@.parent(scope as nat) is None,
            },
    {
        if scope < self.scopes.len() {
            match self.scopes[scope].outer {
                Some(j) => if j < scope {
                    Some(j)
                } else {
                    None
                },
                None => None,
            }
        } else {
            None
        }
    }

    /// Reads `name` from `scope`: the value that the nearest scope on the
    /// chain binds it to.
    pub fn get_in(&self, scope: usize, name: &str) -> (value: Option<Object>)
        ensures
            value_view(value) == self@.lookup(scope as nat, name@),
    {
        let mut s = scope;
        loop
            invariant
                self@.lookup(s as nat, name@) == self@.lookup(scope as nat, name@),
            decreases s,
        {
            if s < self.scopes.len() {
                match self.position(s, name) {
                    Some(i) => {
                        return Some(self.scopes[s].store[i].value.duplicate());
                    },
                    None => {},
                }
            }
            match self.parent(s) {
                Some(j) => {
                    s = j;
                },
                None => {
                    return None;
                },
            }
        }
    }

    /// Reads `name`, starting from the current scope.
    pub fn get(&self, name: String) -> (value: Option<Object>)
        ensures
            value_view(value) == self@.lookup(self@.current, name@),
    {
        self.get_in(self.current, name.as_str())
    }

    /// Tells whether a scope that encloses `scope` binds `name`.
    pub fn exists_in_outer(&self, scope: usize, name: &str) -> (b: bool)
        ensures
            b == self@.exists_in_outer(scope as nat, name@),
    {
        match self.parent(scope) {
            Some(j) => self.get_in(j, name).is_some(),
            None => false,
        }
    }

    /// Writes `name` from `scope`: changes the binding of an enclosing
    /// scope if there is one, and binds the name in `scope` otherwise.
    pub fn set_in(&mut self, scope: usize, name: String, obj: Object)
        requires
            old(self).wf(),
        ensures
            final(self).wf(),
            final(self)@ == old(self)@.assign(scope as nat, name@, obj@),
    {
        let mut home = scope;
        while self.exists_in_outer(home, name.as_str())
            invariant
                *self == *old(self),
                self@.home(home as nat, name@) == self@.home(scope as nat, name@),
            decreases home,
        {
            match self.parent(home) {
                Some(j) => {
                    home = j;
                },
                None => {},
            }
        }
        if home < self.scopes.len() {
            let ghost before = self@.scopes[home as int].store;
            proof {
                lemma_find(before, name@, 0);
            }
            match self.position(home, name.as_str()) {
                Some(i) => {
                    self.scopes[home].store[i] = Binding { name, value: obj };
                    assert(self@.scopes[home as int].store =~= put(before, name@, obj@));
                },
                None => {
                    self.scopes[home].store.push(Binding { name, value: obj });
                    assert(self@.scopes[home as int].store =~= put(before, name@, obj@));
                },
            }
            assert(self@.scopes =~~= old(self)@.assign(scope as nat, name@, obj@).scopes);
            assert(self@.output =~= old(self)@.output);
            assert(self@.input =~= old(self)@.input);
        }
    }

    /// Writes `name`, starting from the current scope.
    pub fn set(&mut self, name: String, obj: Object)
        requires
            old(self).wf(),
        ensures
            final(self).wf(),
            final(self)@ == old(self)@.assign(old(self)@.current, name@, obj@),
    {
        let scope = self.current;
        self.set_in(scope, name, obj)
    }

    /// Records that the program printed `text` to `stream`.
    pub fn print(&mut self, stream: Stream, text: String)
        requires
            old(self).wf(),
        ensures
            final(self).wf(),
            final(self)@ == old(self)@.printed(stream, text@),
    {
        self.output.push(Output { stream, text });
        assert(self@.output =~= old(self)@.output.push(OutputView { stream, text: text@ }));
        assert(self@.scopes =~~= old(self)@.scopes);
        assert(self@.input =~= old(self)@.input);
    }

    /// Hands the program the next line of its input; the empty line when
    /// none is left.
    pub fn read_line(&mut self) -> (line: String)
        requires
            old(self).wf(),
        ensures
            final(self).wf(),
            line@ == old(self)@.next_line(),
            final(self)@ == old(self)@.after_line(),
    {
        if self.consumed < self.input.len() {
            let line = self.input[self.consumed].clone();
            self.consumed += 1;
            assert(self@.input =~= old(self)@.input.skip(1));
            assert(self@.scopes =~~= old(self)@.scopes);
            assert(self@.output =~= old(self)@.output);
            line
        } else {
            String::new()
        }
    }

    /// Adds a line at the end of what the program can read.
    pub fn push_input(&mut self, line: String)
        requires
            old(self).wf(),
        ensures
            final(self).wf(),
            final(self)@ == (EnvView { input: old(self)@.input.push(line@), ..old(self)@ }),
    {
        self.input.push(line);
        assert(self@.input =~= old(self)@.input.push(line@));
        assert(self@.scopes =~~= old(self)@.scopes);
        assert(self@.output =~= old(self)@.output);
    }

    /// What the program has printed so far, in order.
    pub fn output(&self) -> (log: &Vec<Output>)
        ensures
            log@.len() == self@.output.len(),
            forall|i: int| 0 <= i < log@.len() ==> log@[i]@ == self@.output[i],
    {
        &self.output
    }
}

impl Default for Environment {
    fn default() -> (env: Self)
        ensures
            env.wf(),
            env@ == (EnvView {
                scopes: seq![ScopeView { store: Seq::empty(), outer: None }],
                current: 0,
                output: Seq::empty(),
                input: Seq::empty(),
            }),
    {
        Self::new(None)
    }
}

} // verus!
