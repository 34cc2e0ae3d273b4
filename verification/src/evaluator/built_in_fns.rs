//! The native functions.
//!
//! Each takes the values of its arguments and gives a value back.  Misuse,
//! such as a wrong number of arguments, gives an error value and never
//! stops the host.  The functions that print or read do neither here: they
//! compute the text, and the evaluator passes it on to the environment.

use crate::object::array::Array;
use crate::object::boolean::Boolean;
use crate::object::error::Error;
use crate::object::integer::Integer;
use crate::object::null::Null;
use crate::object::string::Str;
use crate::object::{duplicate_objects, object_text, objects_view, Object, ObjectView};
use crate::text::{chars_of, concat, int_text, int_to_string, parse_i64, parse_int, text_of, trim, trimmed};
use vstd::prelude::*;

verus! {

/// A length as a value: the length itself, or the greatest integer if the
/// length is greater still.
pub open spec fn length_value(n: nat) -> ObjectView {
    if n <= i64::MAX {
        ObjectView::Integer(n as int)
    } else {
        ObjectView::Integer(i64::MAX as int)
    }
}

/// `len(x)`: the number of characters of a string or of elements of an
/// array, and zero for any other value.
pub open spec fn len_of(args: Seq<ObjectView>) -> ObjectView {
    if args.len() != 1 {
        ObjectView::Error("wrong number of arguments"@)
    } else {
        match args[0] {
            ObjectView::Str(s) => length_value(s.len()),
            ObjectView::Array(a) => length_value(a.len()),
            _ => ObjectView::Integer(0),
        }
    }
}

/// The texts of the values, one after the other.
pub open spec fn joined(args: Seq<ObjectView>) -> Seq<char>
    decreases args.len(),
{
    if args.len() == 0 {
        Seq::empty()
    } else {
        joined(args.drop_last()) + object_text(args.last())
    }
}

/// `append(collection, items...)`: the array with the items behind its
/// elements, or the string with the texts of the items behind it.
pub open spec fn append_of(args: Seq<ObjectView>) -> ObjectView {
    if args.len() < 2 {
        ObjectView::Error("wrong number of arguments"@)
    } else {
        match args[0] {
            ObjectView::Array(a) => ObjectView::Array(a + args.skip(1)),
            ObjectView::Str(s) => ObjectView::Str(s + joined(args.skip(1))),
            _ => ObjectView::Error("first argument must be array"@),
        }
    }
}

/// `puts(...)` and its kin: the texts of the arguments as one string.
pub open spec fn puts_of(args: Seq<ObjectView>) -> ObjectView {
    ObjectView::Str(joined(args))
}

/// `to_str(...)`: the texts of the arguments as one string.
pub open spec fn to_str_of(args: Seq<ObjectView>) -> ObjectView {
    if args.len() == 0 {
        ObjectView::Error("must have more than 0 arguments"@)
    } else {
        ObjectView::Str(joined(args))
    }
}

/// `to_int(x)`: the integer that the text of `x` denotes once the white
/// space around it is cut off.
pub open spec fn to_int_of(args: Seq<ObjectView>) -> ObjectView {
    if args.len() != 1 {
        ObjectView::Error("invalid number of arguments, needs 1 arguments"@)
    } else {
        match parse_int(trimmed(object_text(args[0]))) {
            Some(v) => ObjectView::Integer(v),
            None => ObjectView::Error("invalid value to parse int: "@ + object_text(args[0])),
        }
    }
}

/// The error for a range that does not lie within the collection.
pub open spec fn range_error(start: int, end: int) -> ObjectView {
    ObjectView::Error("invalid range "@ + int_text(start) + ".."@ + int_text(end))
}

/// `slice(collection, start, end)`: the characters or elements from
/// `start` up to, and without, `end`.
pub open spec fn slice_of(args: Seq<ObjectView>) -> ObjectView {
    if args.len() != 3 {
        ObjectView::Error("invalid number of arguments, must be have string/arr, start, end"@)
    } else {
        match args[1] {
            ObjectView::Integer(start) => match args[2] {
                ObjectView::Integer(end) => match args[0] {
                    ObjectView::Str(s) => if 0 <= start <= end <= s.len() {
                        ObjectView::Str(s.subrange(start, end))
                    } else {
                        range_error(start, end)
                    },
                    ObjectView::Array(a) => if 0 <= start <= end <= a.len() {
                        ObjectView::Array(a.subrange(start, end))
                    } else {
                        range_error(start, end)
                    },
                    _ => ObjectView::Null,
                },
                _ => ObjectView::Error("invalid end "@ + object_text(args[2])),
            },
            _ => ObjectView::Error("invalid start "@ + object_text(args[1])),
        }
    }
}

/// `is_error(x)`: whether `x` is an error value.
pub open spec fn is_error_of(args: Seq<ObjectView>) -> ObjectView {
    if args.len() != 1 {
        ObjectView::Error("invalid number of arguments, needs 1 argument"@)
    } else {
        ObjectView::Boolean(args[0] is Error)
    }
}

/// `input()`: the line that was read, as a string.
pub open spec fn input_of(args: Seq<ObjectView>, line: Seq<char>) -> ObjectView {
    if args.len() != 0 {
        ObjectView::Error("invalid number of arguments, needs no arguments"@)
    } else {
        ObjectView::Str(line)
    }
}

/// An error value with the given message.
pub fn error(message: &str) -> (o: Object)
    ensures
        o@ == ObjectView::Error(message@),
{
    Object::Error(Error::new(String::from_str(message)))
}

/// An error value whose message is `prefix` followed by `rest`.
pub fn error_with(prefix: &str, rest: &str) -> (o: Object)
    ensures
        o@ == ObjectView::Error(prefix@ + rest@),
{
    Object::Error(Error::new(concat(prefix, rest)))
}

fn length_object(n: usize) -> (o: Object)
    ensures
        o@ == length_value(n as nat),
{
    if n as u64 <= 9223372036854775807u64 {
        Object::Integer(Integer::new(n as i64))
    } else {
        Object::Integer(Integer::new(i64::MAX))
    }
}

/// Appends the texts of `args[from..]` to `out`.
fn write_joined(args: &Vec<Object>, from: usize, out: &mut String)
    requires
        from <= args.len(),
    ensures
        final(out)@ == old(out)@ + joined(objects_view(*args).skip(from as int)),
{
    let ghost views = objects_view(*args).skip(from as int);
    let mut i: usize = from;
    assert(old(out)@ + joined(views.take(0)) =~= old(out)@);
    while i < args.len()
        invariant
            from <= i <= args.len(),
            views == objects_view(*args).skip(from as int),
            out@ == old(out)@ + joined(views.take(i - from)),
        decreases args.len() - i,
    {
        args[i].write(out);
        i += 1;
        proof {
            let now = views.take(i - from);
            assert(now.drop_last() =~= views.take(i - 1 - from));
            assert(now.last() == args[i - 1]@);
            assert(out@ =~= old(out)@ + joined(now));
        }
    }
    assert(views.take(args.len() - from) =~= views);
}

/// The number of characters of a string or of elements of an array.
pub fn len(args: &Vec<Object>) -> (r: Object)
    ensures
        r@ == len_of(objects_view(*args)),
{
    if args.len() == 1 {
        match &args[0] {
            Object::Str(s) => length_object(s.val.as_str().unicode_len()),
            Object::Array(a) => {
                assert(objects_view(a.elements).len() == a.elements.len());
                length_object(a.elements.len())
            },
            _ => Object::Integer(Integer::new(0)),
        }
    } else {
        error("wrong number of arguments")
    }
}

/// The collection with more behind it: elements behind an array, text
/// behind a string.
pub fn append(args: &Vec<Object>) -> (r: Object)
    ensures
        r@ == append_of(objects_view(*args)),
{
    if args.len() < 2 {
        return error("wrong number of arguments");
    }
    match &args[0] {
        Object::Array(a) => {
            let mut elements = duplicate_objects(&a.elements);
            let ghost views = objects_view(*args);
            let ghost items = objects_view(a.elements);
            let mut i: usize = 1;
            assert(objects_view(elements) =~= items + views.subrange(1, 1));
            while i < args.len()
                invariant
                    1 <= i <= args.len(),
                    views == objects_view(*args),
                    objects_view(elements) == items + views.subrange(1, i as int),
                decreases args.len() - i,
            {
                let ghost before = objects_view(elements);
                elements.push(args[i].duplicate());
                i += 1;
                assert(objects_view(elements) =~= before.push(args[i - 1]@));
                assert(objects_view(elements) =~= items + views.subrange(1, i as int));
            }
            assert(views.subrange(1, args.len() as int) =~= views.skip(1));
            Object::Array(Array::new(elements))
        },
        Object::Str(s) => {
            let mut buffer = s.val.clone();
            write_joined(args, 1, &mut buffer);
            Object::Str(Str::new(buffer))
        },
        _ => error("first argument must be array"),
    }
}

/// The texts of the arguments as one string: what `puts` prints.
pub fn puts(args: &Vec<Object>) -> (r: Object)
    ensures
        r@ == puts_of(objects_view(*args)),
{
    let mut buffer = String::new();
    write_joined(args, 0, &mut buffer);
    assert(objects_view(*args).skip(0) =~= objects_view(*args));
    assert(Seq::<char>::empty() + joined(objects_view(*args)) =~= joined(objects_view(*args)));
    Object::Str(Str::new(buffer))
}

/// The texts of the arguments as one string: what `putsln` prints before
/// it ends the line.
pub fn putsln(args: &Vec<Object>) -> (r: Object)
    ensures
        r@ == puts_of(objects_view(*args)),
{
    puts(args)
}

/// The texts of the arguments as one string: what `eputs` prints.
pub fn eputs(args: &Vec<Object>) -> (r: Object)
    ensures
        r@ == puts_of(objects_view(*args)),
{
    puts(args)
}

/// The texts of the arguments as one string: what `eputsln` prints before
/// it ends the line.
pub fn eputsln(args: &Vec<Object>) -> (r: Object)
    ensures
        r@ == puts_of(objects_view(*args)),
{
    puts(args)
}

/// The texts of the arguments as one string.
pub fn to_str(args: &Vec<Object>) -> (r: Object)
    ensures
        r@ == to_str_of(objects_view(*args)),
{
    if args.len() == 0 {
        return error("must have more than 0 arguments");
    }
    puts(args)
}

/// The integer that the text of the argument denotes.
pub fn to_int(args: &Vec<Object>) -> (r: Object)
    ensures
        r@ == to_int_of(objects_view(*args)),
{
    if args.len() != 1 {
        return error("invalid number of arguments, needs 1 arguments");
    }
    let buffer = args[0].to_string();
    let chars = chars_of(buffer.as_str());
    match parse_i64(&trim(&chars)) {
        Some(val) => Object::Integer(Integer::new(val)),
        None => error_with("invalid value to parse int: ", buffer.as_str()),
    }
}

fn range_error_object(start: i64, end: i64) -> (o: Object)
    ensures
        o@ == range_error(start as int, end as int),
{
    let mut message = String::from_str("invalid range ");
    message.append(int_to_string(start).as_str());
    message.append("..");
    message.append(int_to_string(end).as_str());
    Object::Error(Error::new(message))
}

/// A part of a string or of an array.
pub fn slice(args: &Vec<Object>) -> (r: Object)
    ensures
        r@ == slice_of(objects_view(*args)),
{
    if args.len() != 3 {
        return error("invalid number of arguments, must be have string/arr, start, end");
    }
    let start = match &args[1] {
        Object::Integer(start) => start.val,
        _ => {
            return error_with("invalid start ", args[1].to_string().as_str());
        },
    };
    let end = match &args[2] {
        Object::Integer(end) => end.val,
        _ => {
            return error_with("invalid end ", args[2].to_string().as_str());
        },
    };
    match &args[0] {
        Object::Str(string) => {
            let chars = chars_of(string.val.as_str());
            if 0 <= start && start <= end && end as u64 <= chars.len() as u64 {
                Object::Str(Str::new(text_of(&chars, start as usize, end as usize)))
            } else {
                range_error_object(start, end)
            }
        },
        Object::Array(arr) => {
            assert(objects_view(arr.elements).len() == arr.elements.len());
            if 0 <= start && start <= end && end as u64 <= arr.elements.len() as u64 {
                let mut elements: Vec<Object> = Vec::new();
                let mut i: usize = start as usize;
                let ghost items = objects_view(arr.elements);
                assert(objects_view(elements) =~= items.subrange(start as int, start as int));
                while i < end as usize
                    invariant
                        0 <= start <= i <= end <= arr.elements.len(),
                        items == objects_view(arr.elements),
                        objects_view(elements) == items.subrange(start as int, i as int),
                    decreases end - i,
                {
                    let ghost before = objects_view(elements);
                    elements.push(arr.elements[i].duplicate());
                    i += 1;
                    assert(objects_view(elements) =~= before.push(arr.elements[i - 1]@));
                    assert(objects_view(elements) =~= items.subrange(start as int, i as int));
                }
                Object::Array(Array::new(elements))
            } else {
                range_error_object(start, end)
            }
        },
        _ => Object::Null(Null),
    }
}

/// Whether the argument is an error value.
pub fn is_error(args: &Vec<Object>) -> (r: Object)
    ensures
        r@ == is_error_of(objects_view(*args)),
{
    if args.len() != 1 {
        return error("invalid number of arguments, needs 1 argument");
    }
    let is = match &args[0] {
        Object::Error(_) => true,
        _ => false,
    };
    Object::Boolean(Boolean::new(is))
}

/// The line that was read for the program, as a string value.
pub fn input(args: &Vec<Object>, line: String) -> (r: Object)
    ensures
        r@ == input_of(objects_view(*args), line@),
{
    if args.len() != 0 {
        return error("invalid number of arguments, needs no arguments");
    }
    Object::Str(Str::new(line))
}

} // verus!
