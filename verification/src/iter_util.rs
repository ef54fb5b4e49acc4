//! Reduction over runs of optional values.

use vstd::prelude::*;

verus! {

/// Fold a run of optional values with a combining function.  An absent
/// first value gives no result; an absent value later ends the reduction
/// early with the fold of what came before it.
pub trait IteratorExt<T, F>: Sized where F: Fn(T, T) -> T {
    fn try_reduce(self, f: F) -> (r: Option<T>)
        requires
            forall|a: T, b: T| #[trigger] f.requires((a, b)),
    ;
}

impl<T, F> IteratorExt<T, F> for Vec<Option<T>> where F: Fn(T, T) -> T {
    fn try_reduce(self, f: F) -> (r: Option<T>)
        ensures
            self@.len() == 0 ==> r is None,
            self@.len() > 0 && self@[0] is None ==> r is None,
    {
        let mut v = self;
        if v.len() == 0 {
            return None;
        }
        let first = v.remove(0);
        let mut accum = match first {
            Some(x) => x,
            None => {
                return None;
            },
        };
        while v.len() > 0
            invariant
                forall|a: T, b: T| #[trigger] f.requires((a, b)),
                self@.len() > 0,
                !(self@[0] is None),
            decreases v@.len(),
        {
            match v.remove(0) {
                Some(x) => {
                    accum = f(accum, x);
                },
                None => {
                    return Some(accum);
                },
            }
        }
        Some(accum)
    }
}

} // verus!
