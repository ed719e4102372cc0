//! A small collection helper: appending an item to an optional vector unless
//! an equal item already stands there.

use vstd::prelude::*;
use vstd::std_specs::cmp::PartialEqSpec;

verus! {

/// Whether some element of `v` equals `item`, by the type's equality.
pub open spec fn holds_equal<T: PartialEq>(v: Seq<T>, item: T) -> bool {
    exists|k: int| 0 <= k < v.len() && (#[trigger] v[k]).eq_spec(&item)
}

/// Appends `item` to the vector in the option unless an equal element already
/// stands there; a missing vector becomes the vector of just `item`.
///
/// The equality used is the type's `==`; the contract describes the outcome
/// for every type whose `==` agrees with its specification.
pub fn add_to_vec<T: PartialEq + Clone>(vec_option: &mut Option<Vec<T>>, item: T)
    ensures
        *final (vec_option) is Some,
        *old(vec_option) is None ==> (*final (vec_option) matches Some(v) && v@ =~= seq![item]),
        T::obeys_eq_spec() ==> match *old(vec_option) {
            None => true,
            Some(v0) => if holds_equal(v0@, item) {
                *final (vec_option) == *old(vec_option)
            } else {
                *final (vec_option) matches Some(v) && v@ =~= v0@.push(item)
            },
        },
{
    let inner = vec_option.take();
    match inner {
        Some(mut vec) => {
            let ghost v0 = vec@;
            let mut found = false;
            let mut k: usize = 0;
            while k < vec.len()
                invariant
                    k <= v0.len(),
                    vec@ == v0,
                    T::obeys_eq_spec() ==> (found <==> exists|k2: int|
                        0 <= k2 < k && (#[trigger] v0[k2]).eq_spec(&item)),
                decreases v0.len() - k,
            {
                if vec[k] == item {
                    found = true;
                    proof {
                        if T::obeys_eq_spec() {
                            assert(v0[k as int].eq_spec(&item));
                        }
                    }
                }
                k += 1;
            }
            if !found {
                vec.push(item);
            }
            *vec_option = Some(vec);
        },
        None => {
            *vec_option = Some(vec![item]);
        },
    }
}

} // verus!
