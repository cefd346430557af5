//! Counts the bytes that compiled code allocates and decides when a
//! collection is due.

use vstd::prelude::*;
use crate::Word;

verus! {

/// The sum of a counter and an amount, held within the range of a word.
pub open spec fn saturating_sum(counter: Word, amount: Word) -> int {
    if counter + amount > Word::MAX {
        Word::MAX as int
    } else if counter + amount < Word::MIN {
        Word::MIN as int
    } else {
        counter + amount
    }
}

/// The bytes allocated since the last collection, and the number of bytes
/// at which the next collection is due.
pub struct AllocationCounter {
    allocated: Word,
    threshold: Word,
}

impl AllocationCounter {
    /// The bytes counted since the last collection.
    pub closed spec fn allocated_bytes(&self) -> Word {
        self.allocated
    }

    /// The count at which a collection is due.
    pub closed spec fn collection_threshold(&self) -> Word {
        self.threshold
    }

    /// A counter at zero. With a threshold of zero every allocation makes a
    /// collection due.
    pub fn new(threshold: Word) -> (counter: Self)
        ensures
            counter.allocated_bytes() == 0,
            counter.collection_threshold() == threshold,
    {
        Self { allocated: 0, threshold }
    }

    /// The bytes counted since the last collection.
    pub fn allocated(&self) -> (bytes: Word)
        ensures
            bytes == self.allocated_bytes(),
    {
        self.allocated
    }

    /// The count at which a collection is due.
    pub fn threshold(&self) -> (bytes: Word)
        ensures
            bytes == self.collection_threshold(),
    {
        self.threshold
    }

    /// Counts an allocation of `amount` bytes. A collection is due when the
    /// count has reached the threshold; the count then starts again at zero.
    pub fn record_allocation(&mut self, amount: Word) -> (collect: bool)
        ensures
            collect == collection_due(*old(self), amount),
            final(self).allocated_bytes() == if collect {
                0
            } else {
                saturating_sum(old(self).allocated_bytes(), amount)
            },
            final(self).collection_threshold() == old(self).collection_threshold(),
    {
        let total: Word = match self.allocated.checked_add(amount) {
            Some(sum) => sum,
            None => if amount > 0 {
                Word::MAX
            } else {
                Word::MIN
            },
        };
        if total >= self.threshold {
            self.allocated = 0;
            true
        } else {
            self.allocated = total;
            false
        }
    }
}

/// An allocation of `amount` bytes makes a collection due: with it the count
/// is at or above the threshold.
pub open spec fn collection_due(counter: AllocationCounter, amount: Word) -> bool {
    saturating_sum(counter.allocated_bytes(), amount) >= counter.collection_threshold()
}

/// With a threshold of zero every allocation makes a collection due, as long
/// as no amount is negative.
pub proof fn lemma_threshold_zero_collects_always(counter: AllocationCounter, amount: Word)
    requires
        counter.collection_threshold() == 0,
        counter.allocated_bytes() >= 0,
        amount >= 0,
    ensures
        collection_due(counter, amount),
{
}

/// An amount at or above the threshold makes a collection due, whatever was
/// counted before, as long as that count is not negative.
pub proof fn lemma_amount_at_threshold_collects(counter: AllocationCounter, amount: Word)
    requires
        counter.allocated_bytes() >= 0,
        amount >= counter.collection_threshold(),
    ensures
        collection_due(counter, amount),
{
}

} // verus!
