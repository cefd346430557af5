//! Turns the handles of a finished function into word offsets from the base
//! of its frame.

use vstd::prelude::*;
use crate::collector::Value;
use crate::layout::{holds_one_word, root_slot, word_offset};
use crate::layout::{StackSlotData, StackSlotKind, StackSlotLayout, ValueLocation};

verus! {

/// The word offsets of the roots among `args`, one for each handle that has
/// a root slot, in the order of the handles.
pub open spec fn root_offsets(
    args: Seq<Value>,
    locations: Seq<ValueLocation>,
    slots: Seq<StackSlotData>,
    frame_size: u32,
    word_size: usize,
) -> Seq<int>
    decreases args.len(),
{
    if args.len() == 0 {
        Seq::empty()
    } else {
        let rest = root_offsets(args.drop_last(), locations, slots, frame_size, word_size);
        match root_slot(args.last(), locations, slots) {
            Some(slot) => rest.push(word_offset(slot, frame_size, word_size)),
            None => rest,
        }
    }
}

/// Every root slot among `args` can hold a root, and a word has a size.
pub open spec fn roots_resolvable(
    args: Seq<Value>,
    locations: Seq<ValueLocation>,
    slots: Seq<StackSlotData>,
    frame_size: u32,
    word_size: usize,
) -> bool {
    &&& word_size > 0
    &&& forall|i: int|
        0 <= i < args.len() ==> match #[trigger] root_slot(args[i], locations, slots) {
            Some(slot) => holds_one_word(slot, frame_size, word_size),
            None => true,
        }
}

/// The offset `offset` is that of the handle `val`: `val` lives in an
/// ordinary stack slot known to the layout, and `offset` is the word offset
/// of that slot.
pub open spec fn stems_from(
    offset: int,
    val: Value,
    locations: Seq<ValueLocation>,
    slots: Seq<StackSlotData>,
    frame_size: u32,
    word_size: usize,
) -> bool {
    &&& val.index < locations.len()
    &&& locations[val.index as int] matches ValueLocation::Stack(ss) && ss < slots.len()
        && slots[ss as int].kind is Ordinary && offset == word_offset(
        slots[ss as int],
        frame_size,
        word_size,
    )
}

/// A list of machine offsets as mathematical integers.
pub open spec fn as_ints(offsets: Seq<usize>) -> Seq<int> {
    offsets.map_values(|o: usize| o as int)
}

/// The root slot of one handle, if it has one.
pub fn find_root_slot(val: Value, locations: &[ValueLocation], layout: &StackSlotLayout) -> (found:
    Option<StackSlotData>)
    ensures
        found == root_slot(val, locations@, layout.slots@),
{
    let index: usize = val.index as usize;
    if index < locations.len() {
        match locations[index] {
            ValueLocation::Stack(ss) => {
                let number: usize = ss as usize;
                if number < layout.slots.len() {
                    let slot = layout.slots[number];
                    match slot.kind {
                        StackSlotKind::Ordinary => Some(slot),
                        StackSlotKind::OutgoingArg => None,
                    }
                } else {
                    None
                }
            },
            _ => None,
        }
    } else {
        None
    }
}

/// Tells whether the roots among `args` can be resolved for this layout and
/// word size.
pub fn can_resolve(
    args: &[Value],
    locations: &[ValueLocation],
    layout: &StackSlotLayout,
    word_size: usize,
) -> (yes: bool)
    ensures
        yes == roots_resolvable(args@, locations@, layout.slots@, layout.frame_size, word_size),
{
    if word_size == 0 {
        return false;
    }
    let mut i: usize = 0;
    while i < args.len()
        invariant
            word_size > 0,
            i <= args.len(),
            forall|j: int|
                0 <= j < i ==> match #[trigger] root_slot(args@[j], locations@, layout.slots@) {
                    Some(slot) => holds_one_word(slot, layout.frame_size, word_size),
                    None => true,
                },
        decreases args.len() - i,
    {
        match find_root_slot(args[i], locations, layout) {
            Some(slot) => {
                let fits = match slot.offset {
                    Some(offset) => {
                        let bytes: i64 = layout.frame_size as i64 + offset as i64;
                        slot.size as u64 == word_size as u64 && bytes >= 0 && bytes as u64
                            / word_size as u64 <= usize::MAX as u64
                    },
                    None => false,
                };
                if !fits {
                    assert(!holds_one_word(slot, layout.frame_size, word_size));
                    assert(root_slot(args@[i as int], locations@, layout.slots@) == Some(slot));
                    return false;
                }
            },
            None => {},
        }
        i += 1;
    }
    true
}

/// Resolves the handles `args` of a finished function into the word offsets
/// of its roots. A handle that lives in a register or has no location gives
/// no offset, nor does one whose slot serves outgoing call arguments.
pub fn root_offsets_from_values(
    args: &[Value],
    locations: &[ValueLocation],
    layout: &StackSlotLayout,
    word_size: usize,
) -> (offsets: Vec<usize>)
    requires
        roots_resolvable(args@, locations@, layout.slots@, layout.frame_size, word_size),
    ensures
        as_ints(offsets@) == root_offsets(
            args@,
            locations@,
            layout.slots@,
            layout.frame_size,
            word_size,
        ),
        offsets@.len() == root_offsets(
            args@,
            locations@,
            layout.slots@,
            layout.frame_size,
            word_size,
        ).len(),
{
    let mut offsets: Vec<usize> = Vec::new();
    let mut i: usize = 0;
    while i < args.len()
        invariant
            i <= args.len(),
            roots_resolvable(args@, locations@, layout.slots@, layout.frame_size, word_size),
            as_ints(offsets@) == root_offsets(
                args@.take(i as int),
                locations@,
                layout.slots@,
                layout.frame_size,
                word_size,
            ),
        decreases args.len() - i,
    {
        let ghost before = offsets@;
        let found = find_root_slot(args[i], locations, layout);
        proof {
            let next = args@.take(i + 1);
            assert(next.drop_last() == args@.take(i as int));
            assert(next.last() == args@[i as int]);
        }
        match found {
            Some(slot) => {
                assert(holds_one_word(slot, layout.frame_size, word_size));
                match slot.offset {
                    Some(offset) => {
                        let bytes: i64 = layout.frame_size as i64 + offset as i64;
                        let words: usize = (bytes as u64 / word_size as u64) as usize;
                        offsets.push(words);
                        assert(as_ints(offsets@) == as_ints(before).push(words as int));
                    },
                    None => {},
                }
            },
            None => {},
        }
        i += 1;
    }
    assert(args@.take(i as int) == args@);
    assert(as_ints(offsets@).len() == offsets@.len());
    offsets
}

/// A handle that has no root slot adds no offset: one that lives in a
/// register, that has no location, or whose slot serves outgoing call
/// arguments.
pub proof fn lemma_handle_without_root_slot_adds_nothing(
    args: Seq<Value>,
    val: Value,
    locations: Seq<ValueLocation>,
    slots: Seq<StackSlotData>,
    frame_size: u32,
    word_size: usize,
)
    requires
        root_slot(val, locations, slots) is None,
    ensures
        root_offsets(args.push(val), locations, slots, frame_size, word_size) == root_offsets(
            args,
            locations,
            slots,
            frame_size,
            word_size,
        ),
{
    assert(args.push(val).drop_last() == args);
}

/// A handle in a register has no root slot.
pub proof fn lemma_register_has_no_root_slot(
    val: Value,
    locations: Seq<ValueLocation>,
    slots: Seq<StackSlotData>,
)
    requires
        val.index < locations.len(),
        locations[val.index as int] is Reg,
    ensures
        root_slot(val, locations, slots) is None,
{
}

/// A handle in a slot for outgoing call arguments has no root slot.
pub proof fn lemma_outgoing_argument_has_no_root_slot(
    val: Value,
    locations: Seq<ValueLocation>,
    slots: Seq<StackSlotData>,
)
    requires
        val.index < locations.len(),
        locations[val.index as int] matches ValueLocation::Stack(ss) && ss < slots.len()
            && slots[ss as int].kind is OutgoingArg,
    ensures
        root_slot(val, locations, slots) is None,
{
}

/// A handle in an ordinary stack slot adds exactly the word offset of that
/// slot, behind the offsets of the handles before it.
pub proof fn lemma_handle_in_ordinary_slot_adds_its_offset(
    args: Seq<Value>,
    val: Value,
    locations: Seq<ValueLocation>,
    slots: Seq<StackSlotData>,
    frame_size: u32,
    word_size: usize,
)
    requires
        val.index < locations.len(),
        locations[val.index as int] matches ValueLocation::Stack(ss) && ss < slots.len()
            && slots[ss as int].kind is Ordinary,
    ensures
        locations[val.index as int] matches ValueLocation::Stack(ss) && root_offsets(
            args.push(val),
            locations,
            slots,
            frame_size,
            word_size,
        ) == root_offsets(args, locations, slots, frame_size, word_size).push(
            word_offset(slots[ss as int], frame_size, word_size),
        ),
{
    assert(args.push(val).drop_last() == args);
}

/// Every offset that is resolved belongs to one of the handles: that handle
/// lives in an ordinary stack slot, and the offset is the word offset of
/// that slot. So no slot for outgoing call arguments and no register ever
/// shows among the offsets, and there are at most as many offsets as handles.
pub proof fn lemma_offsets_stem_from_ordinary_slots(
    args: Seq<Value>,
    locations: Seq<ValueLocation>,
    slots: Seq<StackSlotData>,
    frame_size: u32,
    word_size: usize,
)
    ensures
        root_offsets(args, locations, slots, frame_size, word_size).len() <= args.len(),
        forall|k: int|
            0 <= k < root_offsets(args, locations, slots, frame_size, word_size).len()
                ==> exists|i: int|
                0 <= i < args.len() && stems_from(
                    #[trigger] root_offsets(args, locations, slots, frame_size, word_size)[k],
                    #[trigger] args[i],
                    locations,
                    slots,
                    frame_size,
                    word_size,
                ),
    decreases args.len(),
{
    if args.len() > 0 {
        let front = args.drop_last();
        lemma_offsets_stem_from_ordinary_slots(front, locations, slots, frame_size, word_size);
        let all = root_offsets(args, locations, slots, frame_size, word_size);
        let rest = root_offsets(front, locations, slots, frame_size, word_size);
        assert forall|k: int| 0 <= k < all.len() implies exists|i: int|
            0 <= i < args.len() && stems_from(
                #[trigger] all[k],
                #[trigger] args[i],
                locations,
                slots,
                frame_size,
                word_size,
            ) by {
            if k < rest.len() {
                let i = choose|i: int|
                    0 <= i < front.len() && stems_from(
                        #[trigger] rest[k],
                        #[trigger] front[i],
                        locations,
                        slots,
                        frame_size,
                        word_size,
                    );
                assert(front[i] == args[i]);
                assert(all[k] == rest[k]);
            } else {
                let i = args.len() - 1;
                assert(stems_from(all[k], args[i], locations, slots, frame_size, word_size));
            }
        }
    }
}

/// When every root slot is one word wide, the slot of a resolved offset
/// starts exactly at that offset: the offset times the size of a word is the
/// distance of the slot, in bytes, from the base of the frame, provided that
/// distance is a whole number of words.
pub proof fn lemma_offset_addresses_its_slot(slot: StackSlotData, frame_size: u32, word_size: usize)
    requires
        word_size > 0,
        holds_one_word(slot, frame_size, word_size),
        (frame_size + slot.offset->Some_0) % (word_size as int) == 0,
    ensures
        word_offset(slot, frame_size, word_size) * word_size == frame_size + slot.offset->Some_0,
        0 <= word_offset(slot, frame_size, word_size),
{
    let bytes: int = frame_size + slot.offset->Some_0;
    let size: int = word_size as int;
    assert(bytes == size * (bytes / size) + bytes % size) by {
        vstd::arithmetic::div_mod::lemma_fundamental_div_mod(bytes, size);
    }
    assert((bytes / size) * size == size * (bytes / size)) by (nonlinear_arith);
    assert(0 <= bytes / size) by {
        vstd::arithmetic::div_mod::lemma_div_pos_is_pos(bytes, size);
    }
}

} // verus!
