//! Questions that can be put to a value of any type.

use crate::shape::{Shape, Shaped};
use vstd::prelude::*;

verus! {

/// A question that can be put to a value of any type and is answered with
/// an `R`. The value is only looked at.
///
/// `answers` says over shapes what it does: started in state `self` on a
/// value of shape `t`, it may answer `r` and be left in state `post`.
pub trait GenericQuery<R>: Sized {
    /// Whether `self` may be put to every value, now and after each answer.
    spec fn total(self) -> bool;

    /// Whether `self`, put to `t`, may answer `r` and become `post`.
    spec fn answers(self, t: Shape, r: R, post: Self) -> bool;

    /// Puts the question to `t`.
    fn query<T: Shaped + 'static>(&mut self, t: &T) -> (r: R)
        requires
            old(self).total(),
        ensures
            final(self).total(),
            old(self).answers(t.shape(), r, *final(self)),
    ;
}

} // verus!
