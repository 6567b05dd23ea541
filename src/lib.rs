//! Local aliases for types and trait bounds, scoped to one item.
//!
//! An item declares aliases (`type X = [u8; 4]`, `trait A = Clone + Send`);
//! every reference to them in its generics, bounds and members is replaced by
//! the aliased expression, and the declarations are removed.
pub mod augmented;
pub mod item;
pub mod laws;
pub mod model;
pub mod options;
pub mod semantics;
pub mod seqs;
pub mod substitute;
pub mod syntax;
pub mod table;
