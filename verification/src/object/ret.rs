//! The value of a `ret` statement on its way out of a block.

use crate::object::Object;
use vstd::prelude::*;

verus! {

/// A value that a `ret` statement wrapped: the statement sequence that
/// meets it stops and hands the inner value to its caller.
#[derive(Debug)]
pub struct Ret {
    pub val: Box<Object>,
}

impl Ret {
    pub fn new(val: Object) -> (o: Self)
        ensures
            *o.val == val,
    {
        Self { val: Box::new(val) }
    }
}

} // verus!
