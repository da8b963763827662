//! Terms with children: pairs and optional values.
//!
//! Their keys have the ids 9 and 10 and list the keys of their parameters.

use crate::query::GenericQuery;
use crate::shape::{faithful, Shape, Shaped, TypeKey};
use crate::term::Term;
use crate::transform::{everywhere, everywhere_but, Everywhere, EverywhereBut, GenericTransform};
use vstd::prelude::*;

verus! {

impl<A: Shaped, B: Shaped> Shaped for (A, B) {
    open spec fn type_key() -> TypeKey {
        TypeKey { id: 9, args: seq![A::type_key(), B::type_key()] }
    }

    /// A pair has its two components as children, the first one first.
    open spec fn shape(self) -> Shape {
        Shape {
            key: Self::type_key(),
            atom: Seq::empty(),
            kids: seq![self.0.shape(), self.1.shape()],
        }
    }

    proof fn shape_has_type_key(self) {
    }
}

impl<A: Term, B: Term> Term for (A, B) {
    fn map_one_transform<F: GenericTransform>(self, walk: &mut Everywhere<F>) -> (r: Self) {
        let ghost at_first = walk.function();
        let first = walk.transform(self.0);
        let ghost at_second = walk.function();
        let second = walk.transform(self.1);
        let r = (first, second);
        proof {
            let states = seq![at_first, at_second, walk.function()];
            assert(states.len() == self.shape().kids.len() + 1);
            assert forall|i: int| 0 <= i < self.shape().kids.len() implies everywhere(
                states[i],
                #[trigger] self.shape().kids[i],
                r.shape().kids[i],
                states[i + 1],
            ) by {}
        }
        r
    }

    fn map_one_transform_but<F: GenericTransform, P: GenericQuery<bool>>(
        self,
        walk: &mut EverywhereBut<F, P>,
    ) -> (r: Self) {
        let ghost asked_first = walk.predicate();
        let ghost at_first = walk.function();
        let first = walk.transform(self.0);
        let ghost asked_second = walk.predicate();
        let ghost at_second = walk.function();
        let second = walk.transform(self.1);
        let r = (first, second);
        proof {
            let ps = seq![asked_first, asked_second, walk.predicate()];
            let fs = seq![at_first, at_second, walk.function()];
            assert(ps.len() == self.shape().kids.len() + 1);
            assert(fs.len() == self.shape().kids.len() + 1);
            assert forall|i: int| 0 <= i < self.shape().kids.len() implies everywhere_but(
                ps[i],
                fs[i],
                #[trigger] self.shape().kids[i],
                r.shape().kids[i],
                ps[i + 1],
                fs[i + 1],
            ) by {}
        }
        r
    }
}

/// Two pairs with one shape are one pair, if that holds of their
/// components.
pub proof fn lemma_pair_faithful<A: Shaped, B: Shaped>()
    requires
        faithful::<A>(),
        faithful::<B>(),
    ensures
        faithful::<(A, B)>(),
{
    assert forall|a: (A, B), b: (A, B)|
        #![trigger a.shape(), b.shape()]
        a.shape() == b.shape() implies a == b by {
        assert(a.shape().kids[0] == b.shape().kids[0]);
        assert(a.shape().kids[1] == b.shape().kids[1]);
    }
}

impl<T: Shaped> Shaped for Option<T> {
    open spec fn type_key() -> TypeKey {
        TypeKey { id: 10, args: seq![T::type_key()] }
    }

    /// `None` has no child; `Some` has the value it holds as its only one.
    open spec fn shape(self) -> Shape {
        match self {
            None => Shape { key: Self::type_key(), atom: seq![0int], kids: Seq::empty() },
            Some(held) => Shape { key: Self::type_key(), atom: seq![1int], kids: seq![held.shape()] },
        }
    }

    proof fn shape_has_type_key(self) {
    }
}

impl<T: Term> Term for Option<T> {
    fn map_one_transform<F: GenericTransform>(self, walk: &mut Everywhere<F>) -> (r: Self) {
        let ghost before = walk.function();
        match self {
            None => {
                proof {
                    let states = seq![before];
                    assert(states.len() == self.shape().kids.len() + 1);
                }
                None
            },
            Some(held) => {
                let r = Some(walk.transform(held));
                proof {
                    let states = seq![before, walk.function()];
                    assert(states.len() == self.shape().kids.len() + 1);
                    assert forall|i: int| 0 <= i < self.shape().kids.len() implies everywhere(
                        states[i],
                        #[trigger] self.shape().kids[i],
                        r.shape().kids[i],
                        states[i + 1],
                    ) by {}
                }
                r
            },
        }
    }

    fn map_one_transform_but<F: GenericTransform, P: GenericQuery<bool>>(
        self,
        walk: &mut EverywhereBut<F, P>,
    ) -> (r: Self) {
        let ghost asked = walk.predicate();
        let ghost before = walk.function();
        match self {
            None => {
                proof {
                    let ps = seq![asked];
                    let fs = seq![before];
                    assert(ps.len() == self.shape().kids.len() + 1);
                    assert(fs.len() == self.shape().kids.len() + 1);
                }
                None
            },
            Some(held) => {
                let r = Some(walk.transform(held));
                proof {
                    let ps = seq![asked, walk.predicate()];
                    let fs = seq![before, walk.function()];
                    assert(ps.len() == self.shape().kids.len() + 1);
                    assert(fs.len() == self.shape().kids.len() + 1);
                    assert forall|i: int| 0 <= i < self.shape().kids.len() implies everywhere_but(
                        ps[i],
                        fs[i],
                        #[trigger] self.shape().kids[i],
                        r.shape().kids[i],
                        ps[i + 1],
                        fs[i + 1],
                    ) by {}
                }
                r
            },
        }
    }
}

/// Two optional values with one shape are one value, if that holds of what
/// they may hold.
pub proof fn lemma_option_faithful<T: Shaped>()
    requires
        faithful::<T>(),
    ensures
        faithful::<Option<T>>(),
{
    assert forall|a: Option<T>, b: Option<T>|
        #![trigger a.shape(), b.shape()]
        a.shape() == b.shape() implies a == b by {
        assert(a.shape().atom[0] == b.shape().atom[0]);
        if a is Some {
            assert(a.shape().kids[0] == b.shape().kids[0]);
        }
    }
}

} // verus!
