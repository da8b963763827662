//! Terms without children: the primitive types.
//!
//! Their keys have the ids 1 to 8, in the order in which they stand here.
//! A number or a character is its own `atom`, `false` and `true` are 0 and
//! 1, and a text is the sequence of its characters.

use crate::query::GenericQuery;
use crate::shape::{faithful, Shape, Shaped, TypeKey};
use crate::term::Term;
use crate::transform::{rebuilt, rebuilt_but, Everywhere, EverywhereBut, GenericTransform};
use vstd::prelude::*;

verus! {

/// A tree without children is rebuilt as itself, and the function is not
/// applied on the way.
pub proof fn lemma_childless_rebuilt<F: GenericTransform>(f: F, t: Shape)
    requires
        t.kids.len() == 0,
    ensures
        rebuilt(f, t, t, f),
{
    let states = seq![f];
    assert(states.len() == t.kids.len() + 1);
}

/// A tree without children is rebuilt as itself, and neither the predicate
/// nor the function is applied on the way.
pub proof fn lemma_childless_rebuilt_but<F: GenericTransform, P: GenericQuery<bool>>(
    p: P,
    f: F,
    t: Shape,
)
    requires
        t.kids.len() == 0,
    ensures
        rebuilt_but(p, f, t, t, p, f),
{
    let ps = seq![p];
    let fs = seq![f];
    assert(ps.len() == t.kids.len() + 1 && fs.len() == t.kids.len() + 1);
}

impl Shaped for bool {
    open spec fn type_key() -> TypeKey {
        TypeKey::plain(1)
    }

    open spec fn shape(self) -> Shape {
        Shape::leaf(Self::type_key(), seq![if self { 1int } else { 0int }])
    }

    proof fn shape_has_type_key(self) {
    }
}

impl Term for bool {
    fn map_one_transform<F: GenericTransform>(self, walk: &mut Everywhere<F>) -> (r: Self) {
        proof {
            lemma_childless_rebuilt(walk.function(), self.shape());
        }
        self
    }

    fn map_one_transform_but<F: GenericTransform, P: GenericQuery<bool>>(
        self,
        walk: &mut EverywhereBut<F, P>,
    ) -> (r: Self) {
        proof {
            lemma_childless_rebuilt_but(walk.predicate(), walk.function(), self.shape());
        }
        self
    }
}

/// Two `bool` values with one shape are one value.
pub proof fn lemma_bool_faithful()
    ensures
        faithful::<bool>(),
{
    assert forall|a: bool, b: bool| #![trigger a.shape(), b.shape()] a.shape() == b.shape() implies a
        == b by {
        assert(a.shape().atom[0] == b.shape().atom[0]);
    }
}

impl Shaped for char {
    open spec fn type_key() -> TypeKey {
        TypeKey::plain(2)
    }

    open spec fn shape(self) -> Shape {
        Shape::leaf(Self::type_key(), seq![self as int])
    }

    proof fn shape_has_type_key(self) {
    }
}

impl Term for char {
    fn map_one_transform<F: GenericTransform>(self, walk: &mut Everywhere<F>) -> (r: Self) {
        proof {
            lemma_childless_rebuilt(walk.function(), self.shape());
        }
        self
    }

    fn map_one_transform_but<F: GenericTransform, P: GenericQuery<bool>>(
        self,
        walk: &mut EverywhereBut<F, P>,
    ) -> (r: Self) {
        proof {
            lemma_childless_rebuilt_but(walk.predicate(), walk.function(), self.shape());
        }
        self
    }
}

/// Two `char` values with one shape are one value.
pub proof fn lemma_char_faithful()
    ensures
        faithful::<char>(),
{
    assert forall|a: char, b: char| #![trigger a.shape(), b.shape()] a.shape() == b.shape() implies a
        == b by {
        assert(a.shape().atom[0] == b.shape().atom[0]);
    }
}

impl Shaped for u8 {
    open spec fn type_key() -> TypeKey {
        TypeKey::plain(3)
    }

    open spec fn shape(self) -> Shape {
        Shape::leaf(Self::type_key(), seq![self as int])
    }

    proof fn shape_has_type_key(self) {
    }
}

impl Term for u8 {
    fn map_one_transform<F: GenericTransform>(self, walk: &mut Everywhere<F>) -> (r: Self) {
        proof {
            lemma_childless_rebuilt(walk.function(), self.shape());
        }
        self
    }

    fn map_one_transform_but<F: GenericTransform, P: GenericQuery<bool>>(
        self,
        walk: &mut EverywhereBut<F, P>,
    ) -> (r: Self) {
        proof {
            lemma_childless_rebuilt_but(walk.predicate(), walk.function(), self.shape());
        }
        self
    }
}

/// Two `u8` values with one shape are one value.
pub proof fn lemma_u8_faithful()
    ensures
        faithful::<u8>(),
{
    assert forall|a: u8, b: u8| #![trigger a.shape(), b.shape()] a.shape() == b.shape() implies a
        == b by {
        assert(a.shape().atom[0] == b.shape().atom[0]);
    }
}

impl Shaped for u32 {
    open spec fn type_key() -> TypeKey {
        TypeKey::plain(4)
    }

    open spec fn shape(self) -> Shape {
        Shape::leaf(Self::type_key(), seq![self as int])
    }

    proof fn shape_has_type_key(self) {
    }
}

impl Term for u32 {
    fn map_one_transform<F: GenericTransform>(self, walk: &mut Everywhere<F>) -> (r: Self) {
        proof {
            lemma_childless_rebuilt(walk.function(), self.shape());
        }
        self
    }

    fn map_one_transform_but<F: GenericTransform, P: GenericQuery<bool>>(
        self,
        walk: &mut EverywhereBut<F, P>,
    ) -> (r: Self) {
        proof {
            lemma_childless_rebuilt_but(walk.predicate(), walk.function(), self.shape());
        }
        self
    }
}

/// Two `u32` values with one shape are one value.
pub proof fn lemma_u32_faithful()
    ensures
        faithful::<u32>(),
{
    assert forall|a: u32, b: u32| #![trigger a.shape(), b.shape()] a.shape() == b.shape() implies a
        == b by {
        assert(a.shape().atom[0] == b.shape().atom[0]);
    }
}

impl Shaped for u64 {
    open spec fn type_key() -> TypeKey {
        TypeKey::plain(5)
    }

    open spec fn shape(self) -> Shape {
        Shape::leaf(Self::type_key(), seq![self as int])
    }

    proof fn shape_has_type_key(self) {
    }
}

impl Term for u64 {
    fn map_one_transform<F: GenericTransform>(self, walk: &mut Everywhere<F>) -> (r: Self) {
        proof {
            lemma_childless_rebuilt(walk.function(), self.shape());
        }
        self
    }

    fn map_one_transform_but<F: GenericTransform, P: GenericQuery<bool>>(
        self,
        walk: &mut EverywhereBut<F, P>,
    ) -> (r: Self) {
        proof {
            lemma_childless_rebuilt_but(walk.predicate(), walk.function(), self.shape());
        }
        self
    }
}

/// Two `u64` values with one shape are one value.
pub proof fn lemma_u64_faithful()
    ensures
        faithful::<u64>(),
{
    assert forall|a: u64, b: u64| #![trigger a.shape(), b.shape()] a.shape() == b.shape() implies a
        == b by {
        assert(a.shape().atom[0] == b.shape().atom[0]);
    }
}

impl Shaped for i32 {
    open spec fn type_key() -> TypeKey {
        TypeKey::plain(6)
    }

    open spec fn shape(self) -> Shape {
        Shape::leaf(Self::type_key(), seq![self as int])
    }

    proof fn shape_has_type_key(self) {
    }
}

impl Term for i32 {
    fn map_one_transform<F: GenericTransform>(self, walk: &mut Everywhere<F>) -> (r: Self) {
        proof {
            lemma_childless_rebuilt(walk.function(), self.shape());
        }
        self
    }

    fn map_one_transform_but<F: GenericTransform, P: GenericQuery<bool>>(
        self,
        walk: &mut EverywhereBut<F, P>,
    ) -> (r: Self) {
        proof {
            lemma_childless_rebuilt_but(walk.predicate(), walk.function(), self.shape());
        }
        self
    }
}

/// Two `i32` values with one shape are one value.
pub proof fn lemma_i32_faithful()
    ensures
        faithful::<i32>(),
{
    assert forall|a: i32, b: i32| #![trigger a.shape(), b.shape()] a.shape() == b.shape() implies a
        == b by {
        assert(a.shape().atom[0] == b.shape().atom[0]);
    }
}

impl Shaped for i64 {
    open spec fn type_key() -> TypeKey {
        TypeKey::plain(7)
    }

    open spec fn shape(self) -> Shape {
        Shape::leaf(Self::type_key(), seq![self as int])
    }

    proof fn shape_has_type_key(self) {
    }
}

impl Term for i64 {
    fn map_one_transform<F: GenericTransform>(self, walk: &mut Everywhere<F>) -> (r: Self) {
        proof {
            lemma_childless_rebuilt(walk.function(), self.shape());
        }
        self
    }

    fn map_one_transform_but<F: GenericTransform, P: GenericQuery<bool>>(
        self,
        walk: &mut EverywhereBut<F, P>,
    ) -> (r: Self) {
        proof {
            lemma_childless_rebuilt_but(walk.predicate(), walk.function(), self.shape());
        }
        self
    }
}

/// Two `i64` values with one shape are one value.
pub proof fn lemma_i64_faithful()
    ensures
        faithful::<i64>(),
{
    assert forall|a: i64, b: i64| #![trigger a.shape(), b.shape()] a.shape() == b.shape() implies a
        == b by {
        assert(a.shape().atom[0] == b.shape().atom[0]);
    }
}

impl Shaped for &'static str {
    open spec fn type_key() -> TypeKey {
        TypeKey::plain(8)
    }

    open spec fn shape(self) -> Shape {
        Shape::leaf(Self::type_key(), self@.map_values(|c: char| c as int))
    }

    proof fn shape_has_type_key(self) {
    }
}

impl Term for &'static str {
    fn map_one_transform<F: GenericTransform>(self, walk: &mut Everywhere<F>) -> (r: Self) {
        proof {
            lemma_childless_rebuilt(walk.function(), self.shape());
        }
        self
    }

    fn map_one_transform_but<F: GenericTransform, P: GenericQuery<bool>>(
        self,
        walk: &mut EverywhereBut<F, P>,
    ) -> (r: Self) {
        proof {
            lemma_childless_rebuilt_but(walk.predicate(), walk.function(), self.shape());
        }
        self
    }
}

} // verus!
