//! The data types of the examples, written out as `adt!` expands them, with
//! the behaviour of each element type.

pub mod example1;
pub mod example2;
pub mod example3;
pub mod example4;
pub mod items;
