//! The two entry points of the collector: the registration of a finished
//! function and the hook that compiled code calls when it allocates.

use vstd::prelude::*;
use crate::accounting::{collection_due, saturating_sum, AllocationCounter};
use crate::collector::Value;
use crate::layout::{StackSlotLayout, ValueLocation};
use crate::registry::{registered, StackMapRegistry};
use crate::resolver::{as_ints, root_offsets, root_offsets_from_values, roots_resolvable};
use crate::walker::{stack_roots, walk_stack, Frame, Root, WalkError};
use crate::Word;

verus! {

/// Resolves the escaped and the local handles of a finished function and
/// registers the two lists of offsets under the number of the function.
pub fn register_stackmaps(
    registry: &mut StackMapRegistry,
    id: i64,
    locations: &[ValueLocation],
    layout: &StackSlotLayout,
    word_size: usize,
    maps: (Vec<Value>, Vec<Value>),
)
    requires
        0 <= id < usize::MAX,
        roots_resolvable(maps.0@, locations@, layout.slots@, layout.frame_size, word_size),
        roots_resolvable(maps.1@, locations@, layout.slots@, layout.frame_size, word_size),
    ensures
        id < final(registry)@.len(),
        final(registry)@ == registered(
            old(registry)@,
            id as nat,
            final(registry)@[id as int],
        ),
        as_ints(final(registry)@[id as int].0) == root_offsets(
            maps.0@,
            locations@,
            layout.slots@,
            layout.frame_size,
            word_size,
        ),
        as_ints(final(registry)@[id as int].1) == root_offsets(
            maps.1@,
            locations@,
            layout.slots@,
            layout.frame_size,
            word_size,
        ),
{
    let escaped = root_offsets_from_values(maps.0.as_slice(), locations, layout, word_size);
    let local = root_offsets_from_values(maps.1.as_slice(), locations, layout, word_size);
    registry.register(id as usize, escaped, local);
}

/// What the hook handed out: nothing where no collection was due, else what
/// the walk gave, with the roots as a sequence.
pub open spec fn outcome_view(outcome: Result<Option<Vec<Root>>, WalkError>) -> Option<
    Result<Seq<Root>, WalkError>,
> {
    match outcome {
        Ok(None) => None,
        Ok(Some(roots)) => Some(Ok(roots@)),
        Err(e) => Some(Err(e)),
    }
}

/// The allocation hook: counts `amount` bytes and, when a collection is due,
/// walks the captured stack `frames` and hands out the roots found.
/// Without a collection nothing is handed out.
pub fn do_gc(
    counter: &mut AllocationCounter,
    amount: Word,
    registry: &StackMapRegistry,
    frames: &[Frame],
    window: usize,
    word_size: usize,
) -> (outcome: Result<Option<Vec<Root>>, WalkError>)
    ensures
        final(counter).collection_threshold() == old(counter).collection_threshold(),
        final(counter).allocated_bytes() == if collection_due(*old(counter), amount) {
            0
        } else {
            saturating_sum(old(counter).allocated_bytes(), amount)
        },
        outcome_view(outcome) == if collection_due(*old(counter), amount) {
            Some(stack_roots(registry@, frames@, window as nat, word_size))
        } else {
            None
        },
{
    if counter.record_allocation(amount) {
        match walk_stack(registry, frames, window, word_size) {
            Ok(roots) => Ok(Some(roots)),
            Err(e) => Err(e),
        }
    } else {
        Ok(None)
    }
}

} // verus!
