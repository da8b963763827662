//! The mathematical model of terms: finite trees of typed nodes.

use vstd::prelude::*;

verus! {

/// What distinguishes one term type from every other.
///
/// A plain type has an `id` and no `args`; a type with parameters lists the
/// keys of its arguments, so that `Option<bool>` and `Option<char>` differ.
/// The ids 1 to 10 are taken by the types for which this crate implements
/// [`Shaped`].
pub struct TypeKey {
    pub id: int,
    pub args: Seq<TypeKey>,
}

/// The tree that a term denotes.
///
/// `key` says which type the node has, `kids` holds its immediate children
/// in their declared order, and `atom` stands for whatever the node holds
/// besides its children.
pub struct Shape {
    pub key: TypeKey,
    pub atom: Seq<int>,
    pub kids: Seq<Shape>,
}

impl TypeKey {
    /// The key of a type without parameters.
    pub open spec fn plain(id: int) -> TypeKey {
        TypeKey { id, args: Seq::empty() }
    }
}

impl Shape {
    /// A node without children.
    pub open spec fn leaf(key: TypeKey, atom: Seq<int>) -> Shape {
        Shape { key, atom, kids: Seq::empty() }
    }
}

/// A type whose values denote trees.
///
/// Types with different keys are different types, and contracts rely on no
/// more than that: a lifted function leaves alone every value whose type
/// has another key than its own type. Two types that share a key are still
/// told apart when the program runs, so a value of the one is never handed
/// to a function on the other.
pub trait Shaped: Sized {
    /// The key of this type.
    spec fn type_key() -> TypeKey;

    /// The tree that `self` denotes.
    spec fn shape(self) -> Shape;

    /// Every value's root carries the key of its type.
    proof fn shape_has_type_key(self)
        ensures
            self.shape().key == Self::type_key(),
    ;
}

/// Whether the values of `T` are told apart by their shapes.
pub open spec fn faithful<T: Shaped>() -> bool {
    forall|a: T, b: T| #![trigger a.shape(), b.shape()] a.shape() == b.shape() ==> a == b
}

} // verus!
