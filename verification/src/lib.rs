//! Precise root enumeration for natively compiled code: stack maps, their
//! registry, allocation accounting and the frame walker's decisions.

use vstd::prelude::*;

pub mod accounting;
pub mod collector;
pub mod gc;
pub mod layout;
pub mod resolver;
pub mod registry;
pub mod walker;

verus! {

/// The unit of the stack and of every value of the runtime: one machine word.
pub type Word = i64;

} // verus!
