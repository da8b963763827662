//! Generic traversals over heterogeneous, recursively defined terms.
//!
//! A function written for one concrete type is lifted by [`Transformation`]
//! into one that can be applied at every type: it acts as the wrapped
//! function on values of its own type and as the identity everywhere else.
//! [`Everywhere`] applies such a function bottom-up to every node of a term,
//! and [`EverywhereBut`] does the same but leaves alone every subtree that a
//! predicate rejects.
//!
//! Contracts are stated over [`Shape`], the finite tree that a term denotes.
//! A type takes part by implementing [`Shaped`], which gives its values
//! their shapes, and [`Term`], which hands the children of a value to a
//! traversal. The module [`laws`] proves what follows from the contracts.
//!
//! Whether a value is of the type of a lifted function is found out when
//! the program runs. The contracts say what holds either way;
//! [`Transformation::try_transform`] tells the caller which way it went.

mod cast;
pub mod containers;
pub mod laws;
pub mod leaves;
pub mod query;
pub mod shape;
pub mod term;
pub mod transform;

pub use query::GenericQuery;
pub use shape::{Shape, Shaped, TypeKey};
pub use term::Term;
pub use transform::{Everywhere, EverywhereBut, GenericTransform, Transformation};
