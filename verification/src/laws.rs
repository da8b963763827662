//! What holds of lifted functions and of the two traversals.

use crate::query::GenericQuery;
use crate::shape::{faithful, Shape, Shaped};
use crate::transform::{
    everywhere, everywhere_but, everywhere_each, rebuilt, rebuilt_but, GenericTransform,
    Transformation,
};
use vstd::prelude::*;

verus! {

/// Whether `f` returns every value as it got it and stays as it is.
pub open spec fn acts_as_identity<F: GenericTransform>(f: F) -> bool {
    forall|t: Shape, r: Shape, post: F| #[trigger] f.maps(t, r, post) ==> r == t && post == f
}

/// A lifted function is the identity on every value whose type is not its
/// own.
pub proof fn lemma_identity_elsewhere<F, U>(
    lift: Transformation<F, U>,
    t: Shape,
    r: Shape,
    post: Transformation<F, U>,
) where F: FnMut(U) -> U, U: Shaped + 'static
    requires
        t.key != U::type_key(),
        lift.maps(t, r, post),
    ensures
        r == t,
        post == lift,
{
}

/// What a lifted function does to a value, spelled out: the value comes
/// back as it is, or its type has the key of `U` and it comes back as what
/// the wrapped function may return for a `U` of its shape. Either way the
/// lifted function is left as it was.
pub proof fn lemma_as_it_is_or_applied<F, U>(
    lift: Transformation<F, U>,
    t: Shape,
    r: Shape,
    post: Transformation<F, U>,
) where F: FnMut(U) -> U, U: Shaped + 'static
    requires
        lift.maps(t, r, post),
    ensures
        post == lift,
        r == t || (t.key == U::type_key() && exists|u: U, v: U|
            #![trigger call_ensures(lift.function(), (u,), v)]
            u.shape() == t && call_ensures(lift.function(), (u,), v) && v.shape() == r),
{
}

/// What it means that the wrapped function was applied, spelled out: the
/// value's type has the key of `U`, and there are a `U` of its shape and a
/// return value of the function for it with the shape of the result.
pub proof fn lemma_applied_spelled_out<F, U>(lift: Transformation<F, U>, t: Shape, r: Shape) where
    F: FnMut(U) -> U,
    U: Shaped + 'static,

    requires
        lift.applies(t, r),
    ensures
        t.key == U::type_key(),
        exists|u: U, v: U|
            #![trigger call_ensures(lift.function(), (u,), v)]
            u.shape() == t && call_ensures(lift.function(), (u,), v) && v.shape() == r,
{
}

/// Where the wrapped function was applied to a value of its own type, the
/// result is what the function returns for that value, if shapes tell the
/// values of that type apart.
pub proof fn lemma_applied_at_own_type<F, U>(lift: Transformation<F, U>, v: U, r: U) where
    F: FnMut(U) -> U,
    U: Shaped + 'static,

    requires
        faithful::<U>(),
        lift.applies(v.shape(), r.shape()),
    ensures
        call_ensures(lift.function(), (v,), r),
{
    let (a, b) = choose|a: U, b: U|
        #![trigger call_ensures(lift.function(), (a,), b)]
        a.shape() == v.shape() && call_ensures(lift.function(), (a,), b) && b.shape() == r.shape();
    assert(a == v);
    assert(b == r);
}

/// A lifted function returns a value of its own type as it is or as what
/// the wrapped function returns for it, where shapes tell the values of
/// that type apart.
pub proof fn lemma_function_at_own_type<F, U>(
    lift: Transformation<F, U>,
    v: U,
    r: U,
    post: Transformation<F, U>,
) where F: FnMut(U) -> U, U: Shaped + 'static
    requires
        faithful::<U>(),
        lift.maps(v.shape(), r.shape(), post),
    ensures
        r == v || call_ensures(lift.function(), (v,), r),
        post == lift,
{
    if r.shape() != v.shape() {
        let (a, b) = choose|a: U, b: U|
            #![trigger call_ensures(lift.function(), (a,), b)]
            a.shape() == v.shape() && call_ensures(lift.function(), (a,), b) && b.shape()
                == r.shape();
        assert(a == v);
        assert(b == r);
    }
}

/// A lifted identity function is the identity on every value.
pub proof fn lemma_lifted_identity<F, U>(lift: Transformation<F, U>) where
    F: FnMut(U) -> U,
    U: Shaped + 'static,

    requires
        forall|u: U, v: U| #[trigger] call_ensures(lift.function(), (u,), v) ==> v == u,
    ensures
        acts_as_identity(lift),
{
}

/// On a tree without children the full traversal does what the function
/// does.
pub proof fn lemma_everywhere_at_leaf<F: GenericTransform>(f: F, t: Shape, r: Shape, post: F)
    requires
        t.kids.len() == 0,
    ensures
        everywhere(f, t, r, post) <==> f.maps(t, r, post),
{
    if everywhere(f, t, r, post) {
        let (mid, g) = choose|mid: Shape, g: F|
            rebuilt(f, t, mid, g) && #[trigger] g.maps(mid, r, post);
        assert(mid.kids =~= t.kids);
    }
    if f.maps(t, r, post) {
        let states = seq![f];
        assert(states.len() == t.kids.len() + 1);
        assert(rebuilt(f, t, t, f));
    }
}

/// The full traversal handles the children before their parent and
/// siblings in their declared order: of a tree with two children it
/// traverses the first child, then the second in the state in which the
/// first left the function, and only then applies the function, in the
/// state in which the second left it, to the tree rebuilt from the two
/// results.
pub proof fn lemma_children_first_in_order<F: GenericTransform>(f: F, t: Shape, r: Shape, post: F)
    requires
        t.kids.len() == 2,
        everywhere(f, t, r, post),
    ensures
        exists|mid: Shape, f1: F, f2: F|
            #![trigger everywhere(f, t.kids[0], mid.kids[0], f1), f2.maps(mid, r, post)]
            {
                &&& mid.key == t.key
                &&& mid.atom == t.atom
                &&& mid.kids.len() == 2
                &&& everywhere(f, t.kids[0], mid.kids[0], f1)
                &&& everywhere(f1, t.kids[1], mid.kids[1], f2)
                &&& f2.maps(mid, r, post)
            },
{
    let (mid, g) = choose|mid: Shape, g: F| rebuilt(f, t, mid, g) && #[trigger] g.maps(mid, r, post);
    let states = choose|states: Seq<F>|
        {
            &&& #[trigger] states.len() == t.kids.len() + 1
            &&& states[0] == f
            &&& states[t.kids.len() as int] == g
            &&& forall|i: int|
                0 <= i < t.kids.len() ==> everywhere(
                    states[i],
                    #[trigger] t.kids[i],
                    mid.kids[i],
                    states[i + 1],
                )
        };
    assert(everywhere(states[0], t.kids[0], mid.kids[0], states[1]));
    assert(everywhere(states[1], t.kids[1], mid.kids[1], states[2]));
    assert(states[2].maps(mid, r, post));
}

/// On a tree without children the filtered traversal asks the predicate
/// once and, where it says yes, does what the function does.
pub proof fn lemma_everywhere_but_at_leaf<F: GenericTransform, P: GenericQuery<bool>>(
    p: P,
    f: F,
    t: Shape,
    r: Shape,
    p_post: P,
    f_post: F,
)
    requires
        t.kids.len() == 0,
    ensures
        everywhere_but(p, f, t, r, p_post, f_post) <==> (p.answers(t, true, p_post) && f.maps(
            t,
            r,
            f_post,
        )) || (p.answers(t, false, p_post) && r == t && f_post == f),
{
    if everywhere_but(p, f, t, r, p_post, f_post) {
        let (keep, q) = choose|keep: bool, q: P| #[trigger]
            p.answers(t, keep, q) && if keep {
                exists|mid: Shape, g: F|
                    rebuilt_but(q, f, t, mid, p_post, g) && #[trigger] g.maps(mid, r, f_post)
            } else {
                r == t && p_post == q && f_post == f
            };
        if keep {
            let (mid, g) = choose|mid: Shape, g: F|
                rebuilt_but(q, f, t, mid, p_post, g) && #[trigger] g.maps(mid, r, f_post);
            assert(mid.kids =~= t.kids);
        }
    }
    if p.answers(t, true, p_post) && f.maps(t, r, f_post) {
        let ps = seq![p_post];
        let fs = seq![f];
        assert(ps.len() == t.kids.len() + 1 && fs.len() == t.kids.len() + 1);
        assert(rebuilt_but(p_post, f, t, t, p_post, f));
    }
}

/// The filtered traversal, too, handles the children before their parent
/// and siblings in their declared order: of a tree with two children whose
/// root the predicate can only let in, it asks about the root, traverses
/// the first child, then the second in the state in which the first left
/// predicate and function, and only then applies the function to the tree
/// rebuilt from the two results.
pub proof fn lemma_children_first_in_order_but<F: GenericTransform, P: GenericQuery<bool>>(
    p: P,
    f: F,
    t: Shape,
    r: Shape,
    p_post: P,
    f_post: F,
)
    requires
        t.kids.len() == 2,
        forall|q: P| !#[trigger] p.answers(t, false, q),
        everywhere_but(p, f, t, r, p_post, f_post),
    ensures
        exists|q: P, mid: Shape, p1: P, f1: F, f2: F|
            #![trigger p.answers(t, true, q), everywhere_but(q, f, t.kids[0], mid.kids[0], p1, f1), f2.maps(mid, r, f_post)]
            {
                &&& p.answers(t, true, q)
                &&& mid.key == t.key
                &&& mid.atom == t.atom
                &&& mid.kids.len() == 2
                &&& everywhere_but(q, f, t.kids[0], mid.kids[0], p1, f1)
                &&& everywhere_but(p1, f1, t.kids[1], mid.kids[1], p_post, f2)
                &&& f2.maps(mid, r, f_post)
            },
{
    let (keep, q) = choose|keep: bool, q: P| #[trigger]
        p.answers(t, keep, q) && if keep {
            exists|mid: Shape, g: F|
                rebuilt_but(q, f, t, mid, p_post, g) && #[trigger] g.maps(mid, r, f_post)
        } else {
            r == t && p_post == q && f_post == f
        };
    let (mid, g) = choose|mid: Shape, g: F|
        rebuilt_but(q, f, t, mid, p_post, g) && #[trigger] g.maps(mid, r, f_post);
    let (ps, fs) = choose|ps: Seq<P>, fs: Seq<F>|
        #![trigger ps.len(), fs.len()]
        {
            &&& ps.len() == t.kids.len() + 1
            &&& fs.len() == t.kids.len() + 1
            &&& ps[0] == q
            &&& fs[0] == f
            &&& ps[t.kids.len() as int] == p_post
            &&& fs[t.kids.len() as int] == g
            &&& forall|i: int|
                0 <= i < t.kids.len() ==> everywhere_but(
                    ps[i],
                    fs[i],
                    #[trigger] t.kids[i],
                    mid.kids[i],
                    ps[i + 1],
                    fs[i + 1],
                )
        };
    assert(everywhere_but(ps[0], fs[0], t.kids[0], mid.kids[0], ps[1], fs[1]));
    assert(everywhere_but(ps[1], fs[1], t.kids[1], mid.kids[1], ps[2], fs[2]));
    assert(fs[2].maps(mid, r, f_post));
}

/// A subtree whose root the predicate rejects comes back as it is: the
/// function is applied to nothing, and the predicate to nothing but the
/// root.
pub proof fn lemma_rejected_subtree_untouched<F: GenericTransform, P: GenericQuery<bool>>(
    p: P,
    f: F,
    t: Shape,
    r: Shape,
    p_post: P,
    f_post: F,
)
    requires
        forall|q: P| !#[trigger] p.answers(t, true, q),
        everywhere_but(p, f, t, r, p_post, f_post),
    ensures
        r == t,
        f_post == f,
        p.answers(t, false, p_post),
{
}

/// The full traversal with a function that is the identity returns every
/// tree as it got it.
pub proof fn lemma_everywhere_identity<F: GenericTransform>(f: F, t: Shape, r: Shape, post: F)
    requires
        acts_as_identity(f),
        everywhere(f, t, r, post),
    ensures
        r == t,
        post == f,
    decreases t, 0int, 0int,
{
    let (mid, g) = choose|mid: Shape, g: F| rebuilt(f, t, mid, g) && #[trigger] g.maps(mid, r, post);
    lemma_everywhere_each_identity(f, t.kids, mid.kids, g);
}

/// The full traversal with a function that is the identity returns every
/// forest as it got it.
pub proof fn lemma_everywhere_each_identity<F: GenericTransform>(
    f: F,
    ts: Seq<Shape>,
    rs: Seq<Shape>,
    post: F,
)
    requires
        acts_as_identity(f),
        everywhere_each(f, ts, rs, post),
    ensures
        rs == ts,
        post == f,
    decreases ts, 1int, 0int,
{
    let states = choose|states: Seq<F>|
        {
            &&& #[trigger] states.len() == ts.len() + 1
            &&& states[0] == f
            &&& states[ts.len() as int] == post
            &&& forall|i: int|
                0 <= i < ts.len() ==> everywhere(states[i], #[trigger] ts[i], rs[i], states[i + 1])
        };
    lemma_identity_upto(f, ts, rs, states, ts.len() as int);
    assert(rs =~= ts);
}

proof fn lemma_identity_upto<F: GenericTransform>(
    f: F,
    ts: Seq<Shape>,
    rs: Seq<Shape>,
    states: Seq<F>,
    n: int,
)
    requires
        acts_as_identity(f),
        0 <= n <= ts.len() == rs.len(),
        states.len() == ts.len() + 1,
        states[0] == f,
        forall|i: int|
            0 <= i < ts.len() ==> everywhere(states[i], #[trigger] ts[i], rs[i], states[i + 1]),
    ensures
        forall|i: int| 0 <= i <= n ==> states[i] == f,
        forall|i: int| 0 <= i < n ==> rs[i] == ts[i],
    decreases ts, 0int, n,
{
    if n > 0 {
        lemma_identity_upto(f, ts, rs, states, n - 1);
        assert(everywhere(states[n - 1], ts[n - 1], rs[n - 1], states[n - 1 + 1]));
        lemma_everywhere_identity(f, ts[n - 1], rs[n - 1], states[n]);
    }
}

/// Whether `p` says yes to every value and stays as it is.
pub open spec fn always_agrees<P: GenericQuery<bool>>(p: P) -> bool {
    &&& forall|t: Shape| #[trigger] p.answers(t, true, p)
    &&& forall|t: Shape, keep: bool, post: P| #[trigger]
        p.answers(t, keep, post) ==> keep && post == p
}

/// With a predicate that says yes to every value the filtered traversal
/// does what the full traversal does.
pub proof fn lemma_all_entered<F: GenericTransform, P: GenericQuery<bool>>(
    p: P,
    f: F,
    t: Shape,
    r: Shape,
    p_post: P,
    f_post: F,
)
    requires
        always_agrees(p),
    ensures
        everywhere_but(p, f, t, r, p_post, f_post) <==> everywhere(f, t, r, f_post) && p_post == p,
    decreases t, 1int, 0int,
{
    if everywhere_but(p, f, t, r, p_post, f_post) {
        let (keep, q) = choose|keep: bool, q: P| #[trigger]
            p.answers(t, keep, q) && if keep {
                exists|mid: Shape, g: F|
                    rebuilt_but(q, f, t, mid, p_post, g) && #[trigger] g.maps(mid, r, f_post)
            } else {
                r == t && p_post == q && f_post == f
            };
        let (mid, g) = choose|mid: Shape, g: F|
            rebuilt_but(p, f, t, mid, p_post, g) && #[trigger] g.maps(mid, r, f_post);
        let (ps, fs) = choose|ps: Seq<P>, fs: Seq<F>|
            #![trigger ps.len(), fs.len()]
            {
                &&& ps.len() == t.kids.len() + 1
                &&& fs.len() == t.kids.len() + 1
                &&& ps[0] == p
                &&& fs[0] == f
                &&& ps[t.kids.len() as int] == p_post
                &&& fs[t.kids.len() as int] == g
                &&& forall|i: int|
                    0 <= i < t.kids.len() ==> everywhere_but(
                        ps[i],
                        fs[i],
                        #[trigger] t.kids[i],
                        mid.kids[i],
                        ps[i + 1],
                        fs[i + 1],
                    )
            };
        lemma_all_entered_upto(p, t.kids, mid.kids, ps, fs, t.kids.len() as int);
        assert(fs.len() == t.kids.len() + 1);
        assert(rebuilt(f, t, mid, g));
    }
    if everywhere(f, t, r, f_post) && p_post == p {
        let (mid, g) = choose|mid: Shape, g: F|
            rebuilt(f, t, mid, g) && #[trigger] g.maps(mid, r, f_post);
        let fs = choose|fs: Seq<F>|
            {
                &&& #[trigger] fs.len() == t.kids.len() + 1
                &&& fs[0] == f
                &&& fs[t.kids.len() as int] == g
                &&& forall|i: int|
                    0 <= i < t.kids.len() ==> everywhere(
                        fs[i],
                        #[trigger] t.kids[i],
                        mid.kids[i],
                        fs[i + 1],
                    )
            };
        let ps = Seq::new(fs.len(), |i: int| p);
        assert forall|i: int| 0 <= i < t.kids.len() implies everywhere_but(
            ps[i],
            fs[i],
            #[trigger] t.kids[i],
            mid.kids[i],
            ps[i + 1],
            fs[i + 1],
        ) by {
            lemma_all_entered(p, fs[i], t.kids[i], mid.kids[i], p, fs[i + 1]);
        }
        assert(ps.len() == t.kids.len() + 1 && fs.len() == t.kids.len() + 1);
        assert(rebuilt_but(p, f, t, mid, p, g));
        assert(p.answers(t, true, p));
    }
}

proof fn lemma_all_entered_upto<F: GenericTransform, P: GenericQuery<bool>>(
    p: P,
    ts: Seq<Shape>,
    rs: Seq<Shape>,
    ps: Seq<P>,
    fs: Seq<F>,
    n: int,
)
    requires
        always_agrees(p),
        0 <= n <= ts.len() == rs.len(),
        ps.len() == ts.len() + 1,
        fs.len() == ts.len() + 1,
        ps[0] == p,
        forall|i: int|
            0 <= i < ts.len() ==> everywhere_but(
                ps[i],
                fs[i],
                #[trigger] ts[i],
                rs[i],
                ps[i + 1],
                fs[i + 1],
            ),
    ensures
        forall|i: int| 0 <= i <= n ==> ps[i] == p,
        forall|i: int| 0 <= i < n ==> everywhere(fs[i], #[trigger] ts[i], rs[i], fs[i + 1]),
    decreases ts, 0int, n,
{
    if n > 0 {
        lemma_all_entered_upto(p, ts, rs, ps, fs, n - 1);
        assert(everywhere_but(ps[n - 1], fs[n - 1], ts[n - 1], rs[n - 1], ps[n], fs[n]));
        lemma_all_entered(p, fs[n - 1], ts[n - 1], rs[n - 1], ps[n], fs[n]);
    }
}

} // verus!
