use vstd::prelude::*;
use crate::error::TraceError;

verus! {

/// The intersections of a ray with a scene, in the order in which they lie
/// along the ray.
///
/// The order is the caller's to establish (ascending distance); the
/// collection keeps it, and the hit is the first entry, in that order, that
/// lies in front of the ray's origin.
#[derive(Debug, Clone)]
pub struct Intersections<I> {
    xs: Vec<I>,
}

impl<I> Intersections<I> {
    /// The entries, in order.
    pub closed spec fn view(&self) -> Seq<I> {
        self.xs@
    }

    /// The collection holding `xs`, in the order given.
    pub fn new(xs: Vec<I>) -> (r: Intersections<I>)
        ensures
            r@ == xs@,
    {
        Intersections { xs }
    }

    /// Number of entries.
    pub fn len(&self) -> (r: usize)
        ensures
            r == self@.len(),
    {
        self.xs.len()
    }

    /// Entry `i`, or `IndexOutOfRange` when there are not that many.
    pub fn get(&self, i: usize) -> (r: Result<&I, TraceError>)
        ensures
            i < self@.len() ==> r == Ok::<&I, TraceError>(&self@[i as int]),
            i >= self@.len() ==> r == Err::<&I, TraceError>(TraceError::IndexOutOfRange),
    {
        if i < self.xs.len() {
            Ok(&self.xs[i])
        } else {
            Err(TraceError::IndexOutOfRange)
        }
    }

    /// Position of the first entry for which `in_front` holds, or `None`
    /// when it holds for none. With `in_front` testing for a positive
    /// distance, this is the hit.
    pub fn first_where<F: Fn(&I) -> bool>(&self, in_front: F) -> (r: Option<usize>)
        requires
            forall|x: &I| #[trigger] in_front.requires((x,)),
        ensures
            match r {
                Some(k) => {
                    &&& k < self@.len()
                    &&& in_front.ensures((&self@[k as int],), true)
                    &&& forall|j: int|
                        0 <= j < k ==> in_front.ensures((&self@[j],), false)
                },
                None => forall|j: int|
                    0 <= j < self@.len() ==> in_front.ensures((&self@[j],), false),
            },
    {
        let mut k: usize = 0;
        while k < self.xs.len()
            invariant
                k <= self@.len(),
                forall|x: &I| #[trigger] in_front.requires((x,)),
                forall|j: int| 0 <= j < k ==> in_front.ensures((&self@[j],), false),
            decreases self@.len() - k,
        {
            if in_front(&self.xs[k]) {
                return Some(k);
            }
            k = k + 1;
        }
        None
    }

    /// The entries, in order.
    pub fn into_vec(self) -> (r: Vec<I>)
        ensures
            r@ == self@,
    {
        self.xs
    }
}

} // verus!
