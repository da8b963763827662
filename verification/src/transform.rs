//! Functions that apply at every type, and the traversals built on them.

use crate::cast::view_as;
use crate::query::GenericQuery;
use crate::shape::{Shape, Shaped};
use crate::term::Term;
use core::marker::PhantomData;
use vstd::pervasive::unreached;
use vstd::prelude::*;

verus! {

/// A function that can be applied to a value of any type.
///
/// `maps` says over shapes what it does: started in state `self` on a value
/// of shape `t`, it may return a value of shape `r` and be left in state
/// `post`.
pub trait GenericTransform: Sized {
    /// Whether `self` may be applied to every value, now and after each
    /// application.
    spec fn total(self) -> bool;

    /// Whether `self`, applied to `t`, may yield `r` and become `post`.
    spec fn maps(self, t: Shape, r: Shape, post: Self) -> bool;

    /// Applies the function to `t`.
    fn transform<T: Shaped + 'static>(&mut self, t: T) -> (r: T)
        requires
            old(self).total(),
        ensures
            final(self).total(),
            old(self).maps(t.shape(), r.shape(), *final(self)),
    ;
}

/// A function on `U` lifted to every type: it is the wrapped function on
/// values of type `U` and the identity on all others.
///
/// Whether a value is a `U` is found out when the program runs. Contracts
/// can only say that a value whose type has another key is none; `apply`
/// says what happens to a value that is one.
#[derive(Debug)]
#[verifier::reject_recursive_types(U)]
pub struct Transformation<F, U> where F: FnMut(U) -> U {
    f: F,
    phantom: PhantomData<U>,
}

impl<F, U> Transformation<F, U> where F: FnMut(U) -> U, U: Shaped + 'static {
    /// The wrapped function.
    pub closed spec fn function(self) -> F {
        self.f
    }

    /// Lifts `f` to every type. The result can be applied to every value
    /// if `f` can be applied to every `U`.
    pub fn new(f: F) -> (r: Transformation<F, U>)
        ensures
            r.function() == f,
            r.total() <==> forall|u: U| call_requires(f, (u,)),
    {
        let r = Transformation { f, phantom: PhantomData };
        assert(r.function() == f);
        r
    }

    /// Whether a value of shape `t` that is a `U` may come back from the
    /// wrapped function with shape `r`.
    pub open spec fn applies(self, t: Shape, r: Shape) -> bool {
        &&& t.key == U::type_key()
        &&& exists|u: U, v: U|
            #![trigger call_ensures(self.function(), (u,), v)]
            u.shape() == t && call_ensures(self.function(), (u,), v) && v.shape() == r
    }

    /// Applies the wrapped function to a value of its own type.
    pub fn apply(&mut self, u: U) -> (v: U)
        requires
            call_requires(old(self).function(), (u,)),
        ensures
            call_ensures(old(self).function(), (u,), v),
            *final(self) == *old(self),
    {
        (self.f)(u)
    }

    /// Does what follows the type test: where a slot was lent, the
    /// wrapped function is applied to the value in it and the outcome put
    /// back in its place. Says whether a slot was lent.
    pub fn apply_in(&mut self, lent: Option<&mut Option<U>>) -> (found: bool)
        requires
            old(self).total(),
        ensures
            *final(self) == *old(self),
            found == lent is Some,
            lent matches Some(hit) ==> match *hit {
                Some(u) => exists|v: U| #[trigger]
                    call_ensures(old(self).function(), (u,), v) && *final(hit) == Some(v),
                None => *final(hit) == None::<U>,
            },
    {
        match lent {
            Some(hit) => {
                match hit.take() {
                    Some(u) => {
                        let v = self.apply(u);
                        *hit = Some(v);
                    },
                    None => {},
                }
                true
            },
            None => false,
        }
    }

    /// Hands `t` to the wrapped function if the type test finds it to be a
    /// `U`, and says which it was: `Ok` holds what the function made of
    /// `t`, `Err` holds `t` itself, which was no `U`.
    pub fn try_transform<T: Shaped + 'static>(&mut self, t: T) -> (r: Result<T, T>)
        requires
            old(self).total(),
        ensures
            *final(self) == *old(self),
            r matches Ok(made) ==> old(self).applies(t.shape(), made.shape()),
            r matches Err(same) ==> same == t,
            T::type_key() != U::type_key() ==> r is Err,
    {
        proof {
            t.shape_has_type_key();
        }
        let mut slot = Some(t);
        let found = self.apply_in(view_as::<T, U>(&mut slot));
        match slot {
            Some(held) => if found {
                Ok(held)
            } else {
                Err(held)
            },
            None => unreached(),
        }
    }
}

impl<F, U> GenericTransform for Transformation<F, U> where
    F: FnMut(U) -> U,
    U: Shaped + 'static,
 {
    /// The wrapped function accepts every `U`.
    open spec fn total(self) -> bool {
        forall|u: U| call_requires(self.function(), (u,))
    }

    /// A value comes back either as it is or, if it is a `U`, as what the
    /// wrapped function may return for it. A value whose type has another
    /// key than `U` is no `U`. The lifted function itself is left as it
    /// was.
    open spec fn maps(self, t: Shape, r: Shape, post: Self) -> bool {
        &&& post == self
        &&& r == t || self.applies(t, r)
    }

    /// Hands `t` to the wrapped function if the type test finds it to be a
    /// `U`, and returns it as it is if not.
    fn transform<T: Shaped + 'static>(&mut self, t: T) -> (r: T)
        ensures
            T::type_key() != U::type_key() ==> r == t,
    {
        match self.try_transform(t) {
            Ok(made) => made,
            Err(same) => same,
        }
    }
}

/// Whether the bottom-up traversal with `f` may turn the tree `t` into `r`
/// and leave `f` as `post`: the children of `t` are traversed first, then
/// `f` is applied to the tree rebuilt from them.
pub open spec fn everywhere<F: GenericTransform>(f: F, t: Shape, r: Shape, post: F) -> bool
    decreases t, 1int,
{
    exists|mid: Shape, g: F| rebuilt(f, t, mid, g) && #[trigger] g.maps(mid, r, post)
}

/// Whether the traversal with `f` may turn the trees `ts` into `rs`, one
/// after the other from the first to the last, and leave `f` as `post`:
/// each tree is traversed in the state in which the one before it left `f`.
pub open spec fn everywhere_each<F: GenericTransform>(
    f: F,
    ts: Seq<Shape>,
    rs: Seq<Shape>,
    post: F,
) -> bool
    decreases ts, 0int,
{
    &&& rs.len() == ts.len()
    &&& exists|states: Seq<F>|
        {
            &&& #[trigger] states.len() == ts.len() + 1
            &&& states[0] == f
            &&& states[ts.len() as int] == post
            &&& forall|i: int|
                0 <= i < ts.len() ==> everywhere(
                    states[i],
                    #[trigger] ts[i],
                    rs[i],
                    states[i + 1],
                )
        }
}

/// Whether `mid` is `t` with its children replaced by what the traversal
/// with `f` may make of them, which leaves `f` as `post`.
pub open spec fn rebuilt<F: GenericTransform>(f: F, t: Shape, mid: Shape, post: F) -> bool
    decreases t, 0int,
{
    &&& mid.key == t.key
    &&& mid.atom == t.atom
    &&& everywhere_each(f, t.kids, mid.kids, post)
}

/// Applies a function bottom-up to every node of a term.
#[derive(Debug)]
pub struct Everywhere<F> where F: GenericTransform {
    f: F,
}

impl<F> Everywhere<F> where F: GenericTransform {
    /// The function that is applied to each node.
    pub closed spec fn function(self) -> F {
        self.f
    }

    /// The traversal that applies `f` to every node.
    pub fn new(f: F) -> (r: Everywhere<F>)
        ensures
            r.function() == f,
    {
        Everywhere { f }
    }

    /// Traverses `t`: first its children, each by this same traversal,
    /// then the function is applied to `t` rebuilt from them.
    pub fn transform<T: Term>(&mut self, t: T) -> (r: T)
        requires
            old(self).function().total(),
        ensures
            final(self).function().total(),
            everywhere(old(self).function(), t.shape(), r.shape(), final(self).function()),
    {
        let ghost before = self.f;
        let ghost whole = t.shape();
        let t = t.map_one_transform(self);
        let ghost between = self.f;
        let r = self.f.transform(t);
        assert(rebuilt(before, whole, t.shape(), between) && between.maps(
            t.shape(),
            r.shape(),
            self.f,
        ));
        assert(everywhere(before, whole, r.shape(), self.f));
        assert(before == old(self).function());
        r
    }
}

/// Whether the traversal with `f` that skips what `p` rejects may turn the
/// tree `t` into `r` and leave `p` and `f` as `p_post` and `f_post`.
///
/// `p` is put to `t` first. Where it says no, `t` stays as it is and
/// neither `p` nor `f` is applied to anything below it. Where it says yes,
/// the children of `t` are traversed and `f` is applied to the tree rebuilt
/// from them.
pub open spec fn everywhere_but<F: GenericTransform, P: GenericQuery<bool>>(
    p: P,
    f: F,
    t: Shape,
    r: Shape,
    p_post: P,
    f_post: F,
) -> bool
    decreases t, 1int,
{
    exists|keep: bool, q: P| #[trigger]
        p.answers(t, keep, q) && if keep {
            exists|mid: Shape, g: F|
                rebuilt_but(q, f, t, mid, p_post, g) && #[trigger] g.maps(mid, r, f_post)
        } else {
            r == t && p_post == q && f_post == f
        }
}

/// Whether that traversal may turn the trees `ts` into `rs`, one after the
/// other from the first to the last.
pub open spec fn everywhere_but_each<F: GenericTransform, P: GenericQuery<bool>>(
    p: P,
    f: F,
    ts: Seq<Shape>,
    rs: Seq<Shape>,
    p_post: P,
    f_post: F,
) -> bool
    decreases ts, 0int,
{
    &&& rs.len() == ts.len()
    &&& exists|ps: Seq<P>, fs: Seq<F>|
        #![trigger ps.len(), fs.len()]
        {
            &&& ps.len() == ts.len() + 1
            &&& fs.len() == ts.len() + 1
            &&& ps[0] == p
            &&& fs[0] == f
            &&& ps[ts.len() as int] == p_post
            &&& fs[ts.len() as int] == f_post
            &&& forall|i: int|
                0 <= i < ts.len() ==> everywhere_but(
                    ps[i],
                    fs[i],
                    #[trigger] ts[i],
                    rs[i],
                    ps[i + 1],
                    fs[i + 1],
                )
        }
}

/// Whether `mid` is `t` with its children replaced by what that traversal
/// may make of them.
pub open spec fn rebuilt_but<F: GenericTransform, P: GenericQuery<bool>>(
    p: P,
    f: F,
    t: Shape,
    mid: Shape,
    p_post: P,
    f_post: F,
) -> bool
    decreases t, 0int,
{
    &&& mid.key == t.key
    &&& mid.atom == t.atom
    &&& everywhere_but_each(p, f, t.kids, mid.kids, p_post, f_post)
}

/// Applies a function bottom-up to every node of a term, except that a
/// subtree whose root the predicate rejects is left alone.
#[derive(Debug)]
pub struct EverywhereBut<F, P> where F: GenericTransform, P: GenericQuery<bool> {
    p: P,
    f: F,
}

impl<F, P> EverywhereBut<F, P> where F: GenericTransform, P: GenericQuery<bool> {
    /// The predicate that decides which subtrees are entered.
    pub closed spec fn predicate(self) -> P {
        self.p
    }

    /// The function that is applied to each node that is entered.
    pub closed spec fn function(self) -> F {
        self.f
    }

    /// The traversal that applies `f` wherever `p` lets it in.
    pub fn new(p: P, f: F) -> (r: EverywhereBut<F, P>)
        ensures
            r.predicate() == p,
            r.function() == f,
    {
        EverywhereBut { p, f }
    }

    /// Traverses `t`: where the predicate rejects `t`, it comes back as it
    /// is; otherwise its children are traversed by this same traversal and
    /// the function is applied to `t` rebuilt from them.
    pub fn transform<T: Term>(&mut self, t: T) -> (r: T)
        requires
            old(self).function().total(),
            old(self).predicate().total(),
        ensures
            final(self).function().total(),
            final(self).predicate().total(),
            everywhere_but(
                old(self).predicate(),
                old(self).function(),
                t.shape(),
                r.shape(),
                final(self).predicate(),
                final(self).function(),
            ),
            (forall|q: P| !#[trigger] old(self).predicate().answers(t.shape(), true, q)) ==> r == t
                && final(self).function() == old(self).function(),
    {
        let ghost asked = self.p;
        let ghost before = self.f;
        let ghost whole = t.shape();
        if self.p.query(&t) {
            let ghost answered = self.p;
            let t = t.map_one_transform_but(self);
            let ghost between = self.f;
            let r = self.f.transform(t);
            assert(rebuilt_but(answered, before, whole, t.shape(), self.p, between)
                && between.maps(t.shape(), r.shape(), self.f));
            assert(asked.answers(whole, true, answered));
            r
        } else {
            assert(asked.answers(whole, false, self.p));
            t
        }
    }
}

} // verus!
