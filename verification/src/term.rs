//! Values that a traversal can take apart and put together again.

use crate::query::GenericQuery;
use crate::shape::Shaped;
use crate::transform::{rebuilt, rebuilt_but, Everywhere, EverywhereBut, GenericTransform};
use vstd::prelude::*;

verus! {

/// A value with immediate children that a traversal can replace.
///
/// Both methods hand every immediate child of `self` to the traversal, in
/// the order in which `shape` lists them, and return `self` with each child
/// replaced by what the traversal made of it. Nothing else of `self` changes.
pub trait Term: Shaped + 'static {
    /// Rebuilds `self` from its children as `walk` transforms them.
    fn map_one_transform<F: GenericTransform>(self, walk: &mut Everywhere<F>) -> (r: Self)
        requires
            old(walk).function().total(),
        ensures
            final(walk).function().total(),
            rebuilt(old(walk).function(), self.shape(), r.shape(), final(walk).function()),
    ;

    /// Rebuilds `self` from its children as `walk` transforms or skips them.
    fn map_one_transform_but<F: GenericTransform, P: GenericQuery<bool>>(
        self,
        walk: &mut EverywhereBut<F, P>,
    ) -> (r: Self)
        requires
            old(walk).function().total(),
            old(walk).predicate().total(),
        ensures
            final(walk).function().total(),
            final(walk).predicate().total(),
            rebuilt_but(
                old(walk).predicate(),
                old(walk).function(),
                self.shape(),
                r.shape(),
                final(walk).predicate(),
                final(walk).function(),
            ),
    ;
}

} // verus!
