//! The kinds of statement nodes.

pub mod block_stmt;
pub mod expression_stmt;
pub mod let_stmt;
pub mod return_stmt;
pub mod var_stmt;
