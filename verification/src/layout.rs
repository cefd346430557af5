//! What the code generator knows of a finished function: where each value
//! lives and how the stack slots are laid out.

use vstd::prelude::*;

verus! {

/// Where register and stack allocation placed a value.
#[derive(Clone, Copy, Debug)]
pub enum ValueLocation {
    /// No location was assigned.
    Unassigned,
    /// The value lives in the register with this number.
    Reg(u16),
    /// The value lives in the stack slot with this number.
    Stack(u32),
}

/// The two kinds of stack slot that root enumeration tells apart.
#[derive(Clone, Copy, Debug)]
pub enum StackSlotKind {
    /// A slot that holds a value of the function itself.
    Ordinary,
    /// Scratch space for the arguments of an outgoing call.
    OutgoingArg,
}

/// One stack slot of a finished function.
#[derive(Clone, Copy, Debug)]
pub struct StackSlotData {
    /// The kind of the slot.
    pub kind: StackSlotKind,
    /// The size of the slot in bytes.
    pub size: u32,
    /// The byte offset of the slot within the frame, once the frame is laid
    /// out.
    pub offset: Option<i32>,
}

/// The stack slots of a finished function and the size of its frame.
#[derive(Clone, Debug)]
pub struct StackSlotLayout {
    /// The slots, each under its number.
    pub slots: Vec<StackSlotData>,
    /// The size of the whole frame in bytes.
    pub frame_size: u32,
}

/// The slot in which `val` holds a root: the stack slot that `val` was
/// assigned, unless that slot is unknown to the layout or serves outgoing
/// call arguments. A value in a register or without a location has none.
pub open spec fn root_slot(
    val: crate::collector::Value,
    locations: Seq<ValueLocation>,
    slots: Seq<StackSlotData>,
) -> Option<StackSlotData> {
    if val.index < locations.len() {
        match locations[val.index as int] {
            ValueLocation::Stack(ss) => {
                if ss < slots.len() && slots[ss as int].kind is Ordinary {
                    Some(slots[ss as int])
                } else {
                    None
                }
            },
            _ => None,
        }
    } else {
        None
    }
}

/// The distance of a laid-out slot from the base of its frame, in whole
/// words: the size of the frame plus the byte offset of the slot, divided by
/// the size of a word.
pub open spec fn word_offset(slot: StackSlotData, frame_size: u32, word_size: usize) -> int {
    (frame_size + slot.offset->Some_0) / (word_size as int)
}

/// A slot can hold a root: it is one word wide, has its place in the frame,
/// at or above the base, and its word offset is a machine number.
pub open spec fn holds_one_word(slot: StackSlotData, frame_size: u32, word_size: usize) -> bool {
    &&& slot.size == word_size
    &&& slot.offset is Some
    &&& 0 <= frame_size + slot.offset->Some_0
    &&& word_offset(slot, frame_size, word_size) <= usize::MAX
}

} // verus!
