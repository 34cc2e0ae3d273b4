//! Runtime values and the environment that holds them.
//!
//! Values have value semantics: a value that is read from a binding is a
//! copy, and nothing that is done to the copy shows in the binding.  The
//! only cells that change are the bindings of the environment.

pub mod array;
pub mod boolean;
pub mod built_in;
pub mod environment;
pub mod error;
pub mod function;
pub mod integer;
pub mod null;
pub mod ret;
pub mod string;

use crate::ast::expression::{duplicate_block, duplicate_idents, write_block, write_params};
use crate::ast::model::{
    block_opt_text, block_opt_view, function_text, idents_view, params_text, IdentView, StmtView,
};
use crate::ast::types::Type;
use crate::object::array::Array;
use crate::object::boolean::Boolean;
use crate::object::built_in::{BuildInFn, BuiltIn};
use crate::object::error::Error;
use crate::object::function::Function;
use crate::object::integer::Integer;
use crate::object::null::Null;
use crate::object::ret::Ret;
use crate::object::string::Str;
use crate::text::{int_text, int_to_string};
use vstd::prelude::*;

verus! {

/// A runtime value: one of the nine kinds.
#[derive(Debug)]
pub enum Object {
    Integer(Integer),
    Boolean(Boolean),
    Str(Str),
    Array(Array),
    Null(Null),
    Error(Error),
    Ret(Ret),
    Function(Function),
    BuiltIn(BuiltIn),
}

/// The model of a runtime value.
pub enum ObjectView {
    Integer(int),
    Boolean(bool),
    Str(Seq<char>),
    Array(Seq<ObjectView>),
    Null,
    Error(Seq<char>),
    Ret(Box<ObjectView>),
    Function { name: IdentView, parameters: Seq<IdentView>, body: Option<Seq<StmtView>>, env: nat },
    BuiltIn(BuildInFn),
}

/// The models of a list of values.
pub open spec fn objects_view(v: Vec<Object>) -> Seq<ObjectView>
    decreases v,
{
    Seq::new(
        v.len() as nat,
        |i: int|
            if 0 <= i < v.len() {
                object_view(v[i])
            } else {
                ObjectView::Null
            },
    )
}

/// The model of a value.
pub open spec fn object_view(o: Object) -> ObjectView
    decreases o,
{
    match o {
        Object::Integer(i) => ObjectView::Integer(i.val as int),
        Object::Boolean(b) => ObjectView::Boolean(b.val),
        Object::Str(s) => ObjectView::Str(s.val@),
        Object::Array(a) => ObjectView::Array(objects_view(a.elements)),
        Object::Null(_) => ObjectView::Null,
        Object::Error(e) => ObjectView::Error(e.val@),
        Object::Ret(r) => ObjectView::Ret(Box::new(object_view(*r.val))),
        Object::Function(f) => ObjectView::Function {
            name: f.name@,
            parameters: idents_view(f.parameters),
            body: block_opt_view(f.body),
            env: f.env as nat,
        },
        Object::BuiltIn(b) => ObjectView::BuiltIn(b.function),
    }
}

impl View for Object {
    type V = ObjectView;

    open spec fn view(&self) -> ObjectView {
        object_view(*self)
    }
}

/// The model of an optional value.
pub open spec fn value_view(o: Option<Object>) -> Option<ObjectView> {
    match o {
        Some(o) => Some(o@),
        None => None,
    }
}

/// The type of a value.  A wrapped value has the type of what it wraps.
pub open spec fn object_type(o: ObjectView) -> Type
    decreases o,
{
    match o {
        ObjectView::Integer(_) => Type::Int,
        ObjectView::Boolean(_) => Type::Bool,
        ObjectView::Str(_) => Type::String,
        ObjectView::Array(_) => Type::Array,
        ObjectView::Null => Type::Unknown,
        ObjectView::Error(_) => Type::Error,
        ObjectView::Ret(v) => object_type(*v),
        ObjectView::Function { .. } => Type::Function,
        ObjectView::BuiltIn(_) => Type::Function,
    }
}

/// Whether the value is a runtime error, bare or wrapped.
pub open spec fn is_error(o: ObjectView) -> bool {
    object_type(o) == Type::Error
}

/// The values of an array as text, with `, ` between them.
pub open spec fn objects_text(items: Seq<ObjectView>) -> Seq<char>
    decreases items, 0nat,
{
    if items.len() == 0 {
        Seq::empty()
    } else if items.len() == 1 {
        object_text(items[0])
    } else {
        objects_text(items.drop_last()) + ", "@ + object_text(items.last())
    }
}

/// A value as text: what the program sees when it prints the value.  A
/// string is its characters, without quotes; a function is its source text.
pub open spec fn object_text(o: ObjectView) -> Seq<char>
    decreases o, 1nat,
{
    match o {
        ObjectView::Integer(i) => int_text(i),
        ObjectView::Boolean(b) => if b {
            "true"@
        } else {
            "false"@
        },
        ObjectView::Str(s) => s,
        ObjectView::Array(items) => "["@ + objects_text(items) + "]"@,
        ObjectView::Null => "null"@,
        ObjectView::Error(m) => m,
        ObjectView::Ret(v) => object_text(*v),
        ObjectView::Function { name, parameters, body, .. } => function_text(
            name.value,
            params_text(parameters),
            Type::Unknown,
            block_opt_text(body),
        ),
        ObjectView::BuiltIn(_) => "build in function"@,
    }
}

/// Copies a list of values.
#[verifier::loop_isolation(false)]
pub fn duplicate_objects(items: &Vec<Object>) -> (r: Vec<Object>)
    ensures
        objects_view(r) == objects_view(*items),
    decreases items,
{
    let mut r: Vec<Object> = Vec::new();
    let mut i: usize = 0;
    while i < items.len()
        invariant
            i <= items.len(),
            r.len() == i,
            forall|j: int| 0 <= j < i ==> r[j]@ == items[j]@,
        decreases items.len() - i,
    {
        r.push(items[i].duplicate());
        i += 1;
    }
    assert(objects_view(r) =~= objects_view(*items));
    r
}

/// Appends the values of an array as text, with `, ` between them.
#[verifier::loop_isolation(false)]
pub fn write_objects(items: &Vec<Object>, out: &mut String)
    ensures
        final(out)@ == old(out)@ + objects_text(objects_view(*items)),
    decreases items,
{
    let ghost views = objects_view(*items);
    let mut i: usize = 0;
    assert(old(out)@ + objects_text(views.take(0)) =~= old(out)@);
    while i < items.len()
        invariant
            i <= items.len(),
            out@ == old(out)@ + objects_text(views.take(i as int)),
        decreases items.len() - i,
    {
        if i > 0 {
            out.append(", ");
        }
        items[i].write(out);
        i += 1;
        proof {
            let now = views.take(i as int);
            assert(now.drop_last() =~= views.take(i - 1));
            assert(now.last() == items[i - 1]@);
            assert(out@ =~= old(out)@ + objects_text(now));
        }
    }
    assert(views.take(items.len() as int) =~= views);
}

impl Object {
    /// The type of the value.
    pub fn get_type(&self) -> (t: Type)
        ensures
            t == object_type(self@),
        decreases self,
    {
        match self {
            Object::Integer(i) => i.get_type(),
            Object::Boolean(b) => b.get_type(),
            Object::Str(s) => s.get_type(),
            Object::Array(a) => a.get_type(),
            Object::Null(n) => n.get_type(),
            Object::Error(e) => e.get_type(),
            Object::Ret(r) => r.val.get_type(),
            Object::Function(f) => f.get_type(),
            Object::BuiltIn(b) => b.get_type(),
        }
    }

    /// Tells whether the value is a runtime error.
    pub fn is_error(&self) -> (b: bool)
        ensures
            b == is_error(self@),
    {
        self.get_type() == Type::Error
    }

    /// A copy of the value with the same model.
    pub fn duplicate(&self) -> (r: Self)
        ensures
            r@ == self@,
        decreases self,
    {
        match self {
            Object::Integer(i) => Object::Integer(Integer { val: i.val }),
            Object::Boolean(b) => Object::Boolean(Boolean { val: b.val }),
            Object::Str(s) => Object::Str(Str { val: s.val.clone() }),
            Object::Array(a) => Object::Array(Array { elements: duplicate_objects(&a.elements) }),
            Object::Null(_) => Object::Null(Null),
            Object::Error(e) => Object::Error(Error { val: e.val.clone() }),
            Object::Ret(r) => Object::Ret(Ret { val: Box::new(r.val.duplicate()) }),
            Object::Function(f) => Object::Function(
                Function {
                    parameters: duplicate_idents(&f.parameters),
                    name: f.name.clone(),
                    body: duplicate_block(&f.body),
                    env: f.env,
                },
            ),
            Object::BuiltIn(b) => Object::BuiltIn(BuiltIn { function: b.function }),
        }
    }

    /// Appends the value as text.
    pub fn write(&self, out: &mut String)
        ensures
            final(out)@ == old(out)@ + object_text(self@),
        decreases self,
    {
        match self {
            Object::Integer(i) => out.append(int_to_string(i.val).as_str()),
            Object::Boolean(b) => {
                if b.val {
                    out.append("true");
                } else {
                    out.append("false");
                }
            },
            Object::Str(s) => out.append(s.val.as_str()),
            Object::Array(a) => {
                out.append("[");
                write_objects(&a.elements, out);
                out.append("]");
                assert(out@ =~= old(out)@ + object_text(self@));
            },
            Object::Null(_) => out.append("null"),
            Object::Error(e) => out.append(e.val.as_str()),
            Object::Ret(r) => r.val.write(out),
            Object::Function(f) => {
                out.append("fn ");
                out.append(f.name.value.as_str());
                out.append("(");
                write_params(&f.parameters, out);
                out.append(") ");
                write_block(&f.body, out);
                assert(out@ =~= old(out)@ + object_text(self@)) by {
                    assert(crate::ast::model::ret_text(Type::Unknown) =~= Seq::<char>::empty());
                    reveal_strlit(") ");
                    reveal_strlit(")");
                    reveal_strlit(" ");
                    assert(") "@ =~= ")"@ + " "@);
                }
            },
            Object::BuiltIn(_) => out.append("build in function"),
        }
    }

    /// The value as text.
    pub fn to_string(&self) -> (s: String)
        ensures
            s@ == object_text(self@),
    {
        let mut s = String::new();
        self.write(&mut s);
        assert(Seq::<char>::empty() + object_text(self@) =~= object_text(self@));
        s
    }

    /// The value as text; the same as [`Object::to_string`].
    pub fn inspect(&self) -> (s: String)
        ensures
            s@ == object_text(self@),
    {
        self.to_string()
    }
}

impl Clone for Object {
    fn clone(&self) -> (r: Self)
        ensures
            r@ == self@,
    {
        self.duplicate()
    }
}

} // verus!
