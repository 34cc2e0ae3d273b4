//! The operators: what they make of values.

use crate::ast::types::Type;
use crate::evaluator::built_in_fns::{error, error_with};
use crate::evaluator::semantics;
use crate::evaluator::Evaluator;
use crate::object::boolean::Boolean;
use crate::object::error::Error;
use crate::object::integer::Integer;
use crate::object::null::Null;
use crate::object::string::Str;
use crate::object::{value_view, Object, ObjectView};
use crate::text::{concat, int_to_string};
use vstd::prelude::*;

verus! {

fn checked(v: Option<i64>) -> (o: Object)
    ensures
        match v {
            Some(i) => o@ == ObjectView::Integer(i as int),
            None => o@ == ObjectView::Error("integer overflow"@),
        },
{
    match v {
        Some(i) => Object::Integer(Integer::new(i)),
        None => error("integer overflow"),
    }
}

fn boolean(b: bool) -> (o: Object)
    ensures
        o@ == ObjectView::Boolean(b),
{
    Object::Boolean(Boolean::new(b))
}

fn unsupported(left: &str, operator: &str, right: &str) -> (o: Object)
    ensures
        o@ == semantics::unsupported(left@, operator@, right@),
{
    let mut message = String::from_str("unsupported operation ");
    message.append(left);
    message.append(" ");
    message.append(operator);
    message.append(" ");
    message.append(right);
    Object::Error(Error::new(message))
}

fn bool_text(b: bool) -> (s: &'static str)
    ensures
        s@ == semantics::bool_text(b),
{
    if b {
        "true"
    } else {
        "false"
    }
}

fn integer_infix(left: i64, right: i64, operator: &str) -> (o: Object)
    ensures
        o@ == semantics::integer_infix(left as int, right as int, operator@),
{
    if operator.eq("+") {
        checked(left.checked_add(right))
    } else if operator.eq("-") {
        checked(left.checked_sub(right))
    } else if operator.eq("*") {
        checked(left.checked_mul(right))
    } else if operator.eq("/") {
        if right == 0 {
            error("division by zero")
        } else {
            checked(left.checked_div(right))
        }
    } else if operator.eq("!=") {
        boolean(left != right)
    } else if operator.eq("==") {
        boolean(left == right)
    } else if operator.eq(">=") {
        boolean(left >= right)
    } else if operator.eq("<=") {
        boolean(left <= right)
    } else if operator.eq(">") {
        boolean(left > right)
    } else if operator.eq("<") {
        boolean(left < right)
    } else {
        error_with("unknown operator ", operator)
    }
}

fn boolean_infix(left: bool, right: bool, operator: &str) -> (o: Object)
    ensures
        o@ == semantics::boolean_infix(left, right, operator@),
{
    if operator.eq("!=") {
        boolean(left != right)
    } else if operator.eq("==") {
        boolean(left == right)
    } else if operator.eq(">=") {
        boolean(left || !right)
    } else if operator.eq("<=") {
        boolean(!left || right)
    } else if operator.eq(">") {
        boolean(left && !right)
    } else if operator.eq("<") {
        boolean(!left && right)
    } else if operator.eq("||") {
        boolean(left || right)
    } else if operator.eq("&&") {
        boolean(left && right)
    } else {
        unsupported(bool_text(left), operator, bool_text(right))
    }
}

fn string_infix(left: &str, right: &str, operator: &str) -> (o: Object)
    ensures
        o@ == semantics::string_infix(left@, right@, operator@),
{
    if operator.eq("+") {
        Object::Str(Str::new(concat(left, right)))
    } else {
        unsupported(left, operator, right)
    }
}

fn index_error(left: &Object) -> (o: Object)
    ensures
        o@ == semantics::index_error(left@),
{
    error_with("index operation not suported: ", left.get_type().as_str())
}

impl Evaluator {
    /// Applies a prefix operator to a value.
    pub fn eval_prefix_expr(&self, right: Object, operator: &str) -> (o: Object)
        ensures
            o@ == semantics::eval_prefix_expr(right@, operator@),
    {
        if operator.eq("!") {
            self.eval_bang_operator(right)
        } else if operator.eq("-") {
            self.eval_minus_prefix_operator(right)
        } else {
            error_with("invalid expression ", right.to_string().as_str())
        }
    }

    /// Negates a boolean.
    pub fn eval_bang_operator(&self, right: Object) -> (o: Object)
        ensures
            o@ == semantics::eval_bang_operator(right@),
    {
        match &right {
            Object::Boolean(b) => boolean(!b.val),
            _ => {
                let mut message = String::from_str("invalid expression '!");
                message.append(right.to_string().as_str());
                message.append("'");
                Object::Error(Error::new(message))
            },
        }
    }

    /// Takes the negative of an integer.
    pub fn eval_minus_prefix_operator(&self, right: Object) -> (o: Object)
        ensures
            o@ == semantics::eval_minus_prefix_operator(right@),
    {
        match &right {
            Object::Integer(i) => checked(0i64.checked_sub(i.val)),
            _ => {
                let mut message = String::from_str("invalid expression '-");
                message.append(right.to_string().as_str());
                message.append("'");
                Object::Error(Error::new(message))
            },
        }
    }

    /// Applies a binary operator to two values.
    pub fn eval_infix_expr(&self, left: Object, right: Object, operator: &str) -> (o: Object)
        ensures
            o@ == semantics::eval_infix_expr(left@, right@, operator@),
    {
        let left_type = left.get_type();
        let right_type = right.get_type();
        if left_type != right_type {
            let mut message = String::from_str("incompatible types ");
            message.append(right_type.as_str());
            message.append(" and ");
            message.append(left_type.as_str());
            return Object::Error(Error::new(message));
        }
        match &left {
            Object::Integer(l) => match &right {
                Object::Integer(r) => integer_infix(l.val, r.val, operator),
                _ => error_with("miss right operator ", left.to_string().as_str()),
            },
            Object::Boolean(l) => match &right {
                Object::Boolean(r) => boolean_infix(l.val, r.val, operator),
                _ => error_with("miss right operator ", left.to_string().as_str()),
            },
            Object::Str(l) => match &right {
                Object::Str(r) => string_infix(l.val.as_str(), r.val.as_str(), operator),
                _ => error_with("miss right operator ", left.to_string().as_str()),
            },
            _ => unsupported(left.to_string().as_str(), operator, right.to_string().as_str()),
        }
    }

    /// Indexes a value with another.
    pub fn eval_index_expr(&self, left: Object, index: Object) -> (o: Object)
        ensures
            o@ == semantics::eval_index_expr(left@, index@),
    {
        let left_type = left.get_type();
        if (left_type == Type::Array || left_type == Type::String) && index.get_type()
            == Type::Int {
            self.eval_array_index_expr(left, index)
        } else {
            index_error(&left)
        }
    }

    /// Takes the element of an array or the character of a string at an
    /// integer index.
    pub fn eval_array_index_expr(&self, left: Object, index: Object) -> (o: Object)
        ensures
            o@ == semantics::eval_array_index_expr(left@, index@),
    {
        let index = match &index {
            Object::Integer(i) => i.val,
            _ => {
                return index_error(&left);
            },
        };
        match &left {
            Object::Array(array) => {
                assert(crate::object::objects_view(array.elements).len() == array.elements.len());
                if 0 <= index && (index as u64) < array.elements.len() as u64 {
                    array.elements[index as usize].duplicate()
                } else {
                    Object::Null(Null)
                }
            },
            Object::Str(string) => {
                let s = string.val.as_str();
                if 0 <= index && (index as u64) < s.unicode_len() as u64 {
                    let mut one = String::new();
                    one.push(s.get_char(index as usize));
                    assert(one@ =~= seq![string.val@[index as int]]);
                    Object::Str(Str::new(one))
                } else {
                    Object::Null(Null)
                }
            },
            _ => {
                let mut message = String::from_str("index operation not suported: ");
                message.append(left.get_type().as_str());
                message.append("[");
                message.append(int_to_string(index).as_str());
                message.append("]");
                Object::Error(Error::new(message))
            },
        }
    }

    /// Takes a value out of the wrapping of a `ret` statement.
    pub fn extract_ret_val(&self, evaluated: Option<Object>) -> (o: Option<Object>)
        ensures
            value_view(o) == semantics::extract_ret_val(value_view(evaluated)),
    {
        match evaluated {
            Some(Object::Ret(ret)) => Some(*ret.val),
            other => other,
        }
    }

    /// Tells whether there is a value and it is a runtime error.
    pub fn is_error(&self, to_check: &Option<Object>) -> (b: bool)
        ensures
            b == (value_view(*to_check) matches Some(v) && crate::object::is_error(v)),
    {
        match to_check {
            Some(check) => check.is_error(),
            None => false,
        }
    }
}

} // verus!
