//! Per-compilation collection of the values that must be treated as roots.

use vstd::prelude::*;

verus! {

/// A handle of an abstract value of the function that is being compiled.
#[derive(Clone, Copy, Debug, PartialEq, Eq, Structural)]
pub struct Value {
    /// The number under which the code generator knows the value.
    pub index: u32,
}

/// Collects the values created while one function is compiled: those that
/// point to a heap-boxed, captured value and the ordinary ones.
pub struct LocalValueCollector {
    /// Values that hold a pointer to an escaped value.
    escaped: Vec<Value>,
    /// Values that hold a reference directly.
    local: Vec<Value>,
}

impl LocalValueCollector {
    /// The escaped handles in the order of registration.
    pub closed spec fn escaped_view(&self) -> Seq<Value> {
        self.escaped@
    }

    /// The local handles in the order of registration.
    pub closed spec fn local_view(&self) -> Seq<Value> {
        self.local@
    }

    /// An empty collector.
    pub fn new() -> (c: Self)
        ensures
            c.escaped_view() == Seq::<Value>::empty(),
            c.local_view() == Seq::<Value>::empty(),
    {
        Self { escaped: Vec::new(), local: Vec::new() }
    }

    /// The escaped handles registered so far.
    pub fn escaped(&self) -> (handles: &[Value])
        ensures
            handles@ == self.escaped_view(),
    {
        self.escaped.as_slice()
    }

    /// The local handles registered so far.
    pub fn local(&self) -> (handles: &[Value])
        ensures
            handles@ == self.local_view(),
    {
        self.local.as_slice()
    }

    /// Registers a value that points to an escaped value.
    pub fn register_escaped(&mut self, val: Value)
        ensures
            final(self).escaped_view() == old(self).escaped_view().push(val),
            final(self).local_view() == old(self).local_view(),
    {
        self.escaped.push(val)
    }

    /// Registers a value that holds a reference directly.
    pub fn register_local(&mut self, val: Value)
        ensures
            final(self).local_view() == old(self).local_view().push(val),
            final(self).escaped_view() == old(self).escaped_view(),
    {
        self.local.push(val)
    }

    /// Empties both lists, so that the collector can serve the next function.
    pub fn clear(&mut self)
        ensures
            final(self).escaped_view() == Seq::<Value>::empty(),
            final(self).local_view() == Seq::<Value>::empty(),
    {
        self.escaped.clear();
        self.local.clear();
    }

    /// Hands out the escaped and the local handles, in that order.
    pub fn get_maps(self) -> (maps: (Vec<Value>, Vec<Value>))
        ensures
            maps.0@ == self.escaped_view(),
            maps.1@ == self.local_view(),
    {
        (self.escaped, self.local)
    }
}

} // verus!
