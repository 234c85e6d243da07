//! NanoCheck L0: fast syntactic, domain and type validation of expressions.

pub mod domain;
pub mod parser;
pub mod quick_fail;
pub mod special;
pub mod type_check;
pub mod types;
