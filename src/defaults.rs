//! Cascading defaults: a feed's own value, else the global default, else the
//! built-in one.

use vstd::prelude::*;

verus! {

/// The first of `own` and `global` that is present.
pub open spec fn first_present<T>(own: Option<T>, global: Option<T>) -> Option<T> {
    match own {
        Some(v) => Some(v),
        None => global,
    }
}

/// `own` where present, else `global` where present, else `fallback`.
pub open spec fn resolved<T>(own: Option<T>, global: Option<T>, fallback: T) -> T {
    match first_present(own, global) {
        Some(v) => v,
        None => fallback,
    }
}

/// The feed's own value where it has one, else the global default.
pub fn resolve_option<T>(own: Option<T>, global: Option<T>) -> (r: Option<T>)
    ensures
        r == first_present(own, global),
{
    match own {
        Some(v) => Some(v),
        None => global,
    }
}

/// The feed's own value where it has one, else the global default where there
/// is one, else `fallback`.
pub fn resolve<T>(own: Option<T>, global: Option<T>, fallback: T) -> (r: T)
    ensures
        r == resolved(own, global, fallback),
{
    match resolve_option(own, global) {
        Some(v) => v,
        None => fallback,
    }
}

} // verus!
