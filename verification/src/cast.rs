//! The run-time type test.

use crate::shape::Shaped;
use std::any::Any;
use vstd::prelude::*;

verus! {

/// Whether two slots are both empty or hold values of one shape.
pub open spec fn alike<A: Shaped, B: Shaped>(a: Option<A>, b: Option<B>) -> bool {
    match (a, b) {
        (Some(x), Some(y)) => x.shape() == y.shape(),
        (None, None) => true,
        _ => false,
    }
}

/// Lends `slot` out as a slot for a `U` when `T` and `U` are one and the
/// same type, and lends nothing when they are not.
///
/// Trusted. The body is `<dyn Any>::downcast_mut` of the standard library,
/// which hands out a reference to the value it is asked about when that
/// value is of the type asked for, and `None` when it is not. The contract
/// claims of it: where a reference comes back, the two types are one, so
/// their keys are equal, and the reference is to `slot` itself, so what it
/// holds is what `slot` holds, now and when the loan ends; where none comes
/// back, `slot` stays as it is. The contract does not say when a reference
/// comes back.
#[verifier::external_body]
pub(crate) fn view_as<T: Shaped + 'static, U: Shaped + 'static>(slot: &mut Option<T>) -> (r: Option<
    &mut Option<U>,
>)
    ensures
        r is Some ==> T::type_key() == U::type_key(),
        r matches Some(hit) ==> alike(*hit, *old(slot)) && alike(*final(hit), *final(slot)),
        r is None ==> *final(slot) == *old(slot),
{
    (slot as &mut dyn Any).downcast_mut::<Option<U>>()
}

} // verus!
