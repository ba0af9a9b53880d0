//! Method resolution for reflected values seen from a script.

use vstd::prelude::*;

verus! {

/// The type ids searched, in order, for a function named on a reflected value: the value's
/// own tail type first when it is known, then the generic reference type.
pub open spec fn lookup_order_spec<T>(tail: Option<T>, fallback: T) -> Seq<T> {
    match tail {
        Some(t) => seq![t, fallback],
        None => seq![fallback],
    }
}

/// Builds the search order of [`lookup_order_spec`].
pub fn lookup_order<T: Copy>(tail: Option<T>, fallback: T) -> (order: Vec<T>)
    ensures
        order@ == lookup_order_spec(tail, fallback),
        tail matches Some(t) ==> order@ == seq![t, fallback],
        tail is None ==> order@ == seq![fallback],
{
    let mut order: Vec<T> = Vec::new();
    match tail {
        Some(t) => {
            order.push(t);
        },
        None => {},
    }
    order.push(fallback);
    assert(order@ =~= lookup_order_spec(tail, fallback));
    order
}

/// The value's own type, when known, is searched first, and the generic reference type is
/// always searched, last, and only once.
pub proof fn law_own_type_first_then_fallback<T>(tail: Option<T>, fallback: T)
    ensures
        lookup_order_spec(tail, fallback).len() == if tail is Some { 2int } else { 1int },
        lookup_order_spec(tail, fallback).last() == fallback,
        tail matches Some(t) ==> lookup_order_spec(tail, fallback)[0] == t,
{
}

} // verus!
