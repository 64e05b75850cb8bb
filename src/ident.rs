use vstd::prelude::*;

verus! {

/// Hands out shape identities: each call of [`get_id`] gives a number that
/// no earlier call on the same generator gave.
///
/// The generator is passed explicitly to whatever builds shapes, in place
/// of a counter shared by the whole process.
#[derive(Debug)]
pub struct IdGen {
    next: usize,
}

impl IdGen {
    /// Identities start at 1 and only grow, so the next one is never 0.
    #[verifier::type_invariant]
    spec fn starts_at_one(self) -> bool {
        self.next >= 1
    }

    /// The identity that the next call of [`get_id`] hands out.
    pub closed spec fn spec_next(&self) -> nat {
        self.next as nat
    }

    /// A fresh generator; its first identity is 1.
    pub fn new() -> (r: IdGen)
        ensures
            r.spec_next() == 1,
    {
        IdGen { next: 1 }
    }

    /// The identity that the next call of [`get_id`] hands out.
    pub fn peek(&self) -> (r: usize)
        ensures
            r == self.spec_next(),
            r >= 1,
    {
        proof {
            use_type_invariant(self);
        }
        self.next
    }

    /// Whether another identity can still be handed out.
    pub fn has_next(&self) -> (r: bool)
        ensures
            r == (self.spec_next() < usize::MAX),
    {
        self.next < usize::MAX
    }
}

/// Takes the next identity from `ids`.
///
/// Identities come out in strictly increasing order, so no two calls on one
/// generator ever give the same value, and none of them is 0.
pub fn get_id(ids: &mut IdGen) -> (r: usize)
    requires
        old(ids).spec_next() < usize::MAX,
    ensures
        r == old(ids).spec_next(),
        r >= 1,
        final(ids).spec_next() == old(ids).spec_next() + 1,
{
    proof {
        use_type_invariant(&*ids);
    }
    let r = ids.next;
    ids.next = ids.next + 1;
    r
}

} // verus!
