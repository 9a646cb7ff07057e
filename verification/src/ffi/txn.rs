//! Transaction identifiers handed out by the browser serial client.

use vstd::prelude::*;

verus! {

/// The identifier handed out after `id`: one more, wrapping past the top
/// of the range back to 1, so that 0 is never used.
pub open spec fn txn_after(id: u16) -> u16 {
    if id == u16::MAX {
        1
    } else {
        (id + 1) as u16
    }
}

/// Hands out transaction identifiers in turn, starting at 1 and never 0.
pub struct TxnCounter {
    next: u16,
}

impl TxnCounter {
    #[verifier::type_invariant]
    spec fn never_zero(self) -> bool {
        self.next != 0
    }

    /// The identifier the next allocation hands out.
    pub closed spec fn next_id(self) -> u16 {
        self.next
    }

    /// A counter whose first identifier is 1.
    pub fn new() -> (r: Self)
        ensures
            r.next_id() == 1,
    {
        TxnCounter { next: 1 }
    }

    /// The identifier the next allocation hands out.
    pub fn peek(&self) -> (r: u16)
        ensures
            r == self.next_id(),
            r != 0,
    {
        proof {
            use_type_invariant(self);
        }
        self.next
    }

    /// Hands out the current identifier and moves on to the next one.
    pub fn alloc_txn(&mut self) -> (id: u16)
        ensures
            id == old(self).next_id(),
            id != 0,
            final(self).next_id() == txn_after(id),
    {
        proof {
            use_type_invariant(&*self);
        }
        let id = self.next;
        let bumped = self.next.wrapping_add(1);
        self.next = if bumped == 0 {
            1
        } else {
            bumped
        };
        id
    }
}

/// Every identifier handed out is nonzero, and after the largest one the
/// counter starts again at 1.
pub proof fn lemma_txn_never_zero(id: u16)
    ensures
        txn_after(id) != 0,
        id == u16::MAX ==> txn_after(id) == 1,
        id < u16::MAX ==> txn_after(id) == id + 1,
{
}

} // verus!
