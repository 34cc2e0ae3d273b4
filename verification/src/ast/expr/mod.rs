//! The kinds of expression nodes.

pub mod arr_expr;
pub mod bool_expr;
pub mod call_expr;
pub mod function_expr;
pub mod if_expr;
pub mod index_expr;
pub mod infix_expr;
pub mod int_expr;
pub mod prefix_expr;
pub mod str_expr;
pub mod while_expr;
