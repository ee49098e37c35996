//! Helpers for writing algebraic data types and monadic blocks as macros,
//! with the grammar, the expansion and the monad operations verified.

pub mod adt;
pub mod examples;
pub mod expand;
pub mod grammar;
pub mod mdo;
pub mod monad;
pub mod syntax;
pub mod text;
pub mod tokens;
