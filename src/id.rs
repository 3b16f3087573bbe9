use vstd::prelude::*;

verus! {

/// The identifier that the empty text always receives.
pub open spec fn empty_id() -> usize {
    1
}

/// An identifier handed out for an interned text value.
///
/// The integer inside is never 0.
#[derive(Clone, Copy, PartialEq, Eq, PartialOrd, Ord, Hash)]
pub struct StrID(usize);

impl View for StrID {
    type V = usize;

    closed spec fn view(&self) -> usize {
        self.0
    }
}

impl StrID {
    #[verifier::type_invariant]
    closed spec fn non_zero(self) -> bool {
        self.0 != 0
    }

    /// Two identifiers with the same integer are the same identifier.
    pub proof fn lemma_view_injective(a: StrID, b: StrID)
        requires
            a@ == b@,
        ensures
            a == b,
    {
    }

    /// Draws a fresh identifier from `counter`, or `None` once every value
    /// has been handed out.
    pub(crate) fn try_new(counter: &mut IdCounter) -> (r: Option<StrID>)
        ensures
            old(counter).is_exhausted() ==> r is None && *final(counter) == *old(counter),
            !old(counter).is_exhausted() ==> (r matches Some(id) && id@ == old(counter).next_id()
                && final(counter).next_id() == IdCounter::successor(old(counter).next_id())),
    {
        let n = counter.next;
        if n == 0 {
            None
        } else {
            counter.next = if n == usize::MAX { 0 } else { n + 1 };
            Some(StrID(n))
        }
    }

    /// Draws a fresh identifier from a counter that is not yet exhausted.
    pub(crate) fn new(counter: &mut IdCounter) -> (r: StrID)
        requires
            !old(counter).is_exhausted(),
        ensures
            r@ == old(counter).next_id(),
            final(counter).next_id() == IdCounter::successor(old(counter).next_id()),
    {
        Self::try_new(counter).unwrap()
    }

    /// The raw integer of this identifier.
    pub fn as_usize(self) -> (r: usize)
        ensures
            r == self@,
            r != 0,
    {
        proof {
            use_type_invariant(&self);
        }
        self.0
    }
}

impl Default for StrID {
    /// The identifier of the empty text.
    fn default() -> (r: StrID)
        ensures
            r@ == empty_id(),
    {
        StrID(1)
    }
}

/// The source of fresh identifiers: it hands out 1, 2, 3, ... in turn and is
/// exhausted once it has handed out `usize::MAX`.
pub struct IdCounter {
    next: usize,
}

impl IdCounter {
    /// The value the counter hands out next; 0 once it is exhausted.
    pub closed spec fn next_id(self) -> usize {
        self.next
    }

    pub open spec fn is_exhausted(self) -> bool {
        self.next_id() == 0
    }

    /// What the counter holds after handing out `n`.
    pub open spec fn successor(n: usize) -> usize {
        if n == usize::MAX {
            0
        } else {
            (n + 1) as usize
        }
    }

    pub fn is_exhausted_exec(&self) -> (r: bool)
        ensures
            r == self.is_exhausted(),
    {
        self.next == 0
    }

    /// A counter that has handed out nothing yet.
    pub fn new() -> (c: IdCounter)
        ensures
            c.next_id() == 1,
    {
        IdCounter { next: 1 }
    }
}

} // verus!
