//! The table of stack maps, one entry for each compiled function.

use vstd::prelude::*;

verus! {

/// The mathematical content of a stack map: the word offsets of the escaped
/// roots and those of the local roots.
pub type StackMap = (Seq<usize>, Seq<usize>);

/// The stack map of a function without roots.
pub open spec fn empty_map() -> StackMap {
    (Seq::empty(), Seq::empty())
}

/// The stack map of one compiled function.
#[derive(Clone, Debug)]
pub struct StackMapEntry {
    /// Word offsets of the slots that point to an escaped value.
    pub escaped: Vec<usize>,
    /// Word offsets of the slots that hold a reference directly.
    pub local: Vec<usize>,
}

impl View for StackMapEntry {
    type V = StackMap;

    open spec fn view(&self) -> StackMap {
        (self.escaped@, self.local@)
    }
}

/// The table `table` after `map` was registered under `id`: grown to hold
/// `id` where it did not, with empty stack maps in the gap, and with `map`
/// in place `id`.
pub open spec fn registered(table: Seq<StackMap>, id: nat, map: StackMap) -> Seq<StackMap> {
    let grown = if id < table.len() {
        table
    } else {
        table + Seq::new((id + 1 - table.len()) as nat, |i: int| empty_map())
    };
    grown.update(id as int, map)
}

/// A table from the number of a compiled function to its stack map. It only
/// grows, and every place below its length holds a stack map.
pub struct StackMapRegistry {
    entries: Vec<StackMapEntry>,
}

impl View for StackMapRegistry {
    type V = Seq<StackMap>;

    closed spec fn view(&self) -> Seq<StackMap> {
        self.entries@.map_values(|e: StackMapEntry| e@)
    }
}

impl StackMapRegistry {
    /// A registry without entries.
    pub fn new() -> (registry: Self)
        ensures
            registry@ == Seq::<StackMap>::empty(),
    {
        let registry = Self { entries: Vec::new() };
        assert(registry@ =~= Seq::<StackMap>::empty());
        registry
    }

    /// The number of places in the table.
    pub fn len(&self) -> (n: usize)
        ensures
            n == self@.len(),
    {
        self.entries.len()
    }

    /// Registers a stack map under `id`, in place of what stood there. A
    /// table too short for `id` grows to `id + 1` places first.
    pub fn register(&mut self, id: usize, escaped: Vec<usize>, local: Vec<usize>)
        requires
            id < usize::MAX,
        ensures
            final(self)@ == registered(
                old(self)@,
                id as nat,
                (escaped@, local@),
            ),
    {
        let ghost before = self@;
        while self.entries.len() <= id
            invariant
                id < usize::MAX,
                before.len() <= self@.len() <= vstd::math::max(before.len() as int, id + 1),
                self@ == before + Seq::new(
                    (self@.len() - before.len()) as nat,
                    |i: int| empty_map(),
                ),
            decreases id + 1 - self.entries.len(),
        {
            let ghost earlier = self@;
            self.entries.push(StackMapEntry { escaped: Vec::new(), local: Vec::new() });
            proof {
                assert(self@ =~= earlier.push(empty_map()));
                assert(self@ =~= before + Seq::new(
                    (self@.len() - before.len()) as nat,
                    |i: int| empty_map(),
                ));
            }
        }
        let ghost grown = self@;
        let ghost map = (escaped@, local@);
        self.entries.set(id, StackMapEntry { escaped, local });
        proof {
            assert(self@ =~= grown.update(id as int, map));
            assert(grown =~= if id < before.len() {
                before
            } else {
                before + Seq::new((id + 1 - before.len()) as nat, |i: int| empty_map())
            });
        }
    }

    /// The stack map registered under `id`, or the empty one where the place
    /// was only made by growth.
    pub fn lookup(&self, id: usize) -> (entry: &StackMapEntry)
        requires
            id < self@.len(),
        ensures
            entry@ == self@[id as int],
    {
        &self.entries[id]
    }

    /// The stack map in place `id`, if the table has such a place.
    pub fn get(&self, id: usize) -> (entry: Option<&StackMapEntry>)
        ensures
            match entry {
                Some(e) => id < self@.len() && e@ == self@[id as int],
                None => id >= self@.len(),
            },
    {
        if id < self.entries.len() {
            Some(&self.entries[id])
        } else {
            None
        }
    }
}

} // verus!

verus! {

/// A registration: the number of the function and its stack map.
pub type Registration = (nat, StackMap);

/// The table that a run of registrations leaves, starting from the empty one.
pub open spec fn replay(history: Seq<Registration>) -> Seq<StackMap>
    decreases history.len(),
{
    if history.len() == 0 {
        Seq::empty()
    } else {
        registered(replay(history.drop_last()), history.last().0, history.last().1)
    }
}

/// Registering under `id` and looking `id` up gives back what was
/// registered.
pub proof fn lemma_lookup_returns_registration(table: Seq<StackMap>, id: nat, map: StackMap)
    ensures
        id < registered(table, id, map).len(),
        registered(table, id, map)[id as int] == map,
{
}

/// Registering under `id` grows a table of `m <= id` places to `id + 1`
/// places, fills the places from `m` up to `id` with empty stack maps, and
/// leaves every other place as it was. A table that holds `id` already keeps
/// its length. So the table never shrinks.
pub proof fn lemma_register_grows_and_fills_gap(table: Seq<StackMap>, id: nat, map: StackMap)
    ensures
        registered(table, id, map).len() == if id < table.len() {
            table.len()
        } else {
            id + 1
        },
        forall|j: int|
            table.len() <= j < id ==> #[trigger] registered(table, id, map)[j] == empty_map(),
        forall|j: int|
            0 <= j < table.len() && j != id ==> #[trigger] registered(table, id, map)[j]
                == table[j],
{
}

/// Of two registrations under one number the later one stands: the table is
/// the same as if the earlier one had never been made.
pub proof fn lemma_last_registration_wins(
    table: Seq<StackMap>,
    id: nat,
    first: StackMap,
    second: StackMap,
)
    ensures
        registered(registered(table, id, first), id, second) == registered(table, id, second),
        registered(registered(table, id, first), id, second)[id as int] == second,
{
    assert(registered(registered(table, id, first), id, second) =~= registered(
        table,
        id,
        second,
    ));
}

/// Registering the same stack map twice is the same as registering it once.
pub proof fn lemma_register_is_idempotent(table: Seq<StackMap>, id: nat, map: StackMap)
    ensures
        registered(registered(table, id, map), id, map) == registered(table, id, map),
{
    lemma_last_registration_wins(table, id, map, map);
}

/// After any run of registrations, a place of the table under whose number
/// nothing was registered holds the empty stack map, and a place under whose
/// number something was registered holds the last stack map registered
/// there.
pub proof fn lemma_places_hold_last_registration(history: Seq<Registration>, id: nat)
    requires
        id < replay(history).len(),
    ensures
        (forall|k: int| 0 <= k < history.len() ==> (#[trigger] history[k]).0 != id) ==> replay(
            history,
        )[id as int] == empty_map(),
        forall|k: int|
            0 <= k < history.len() && (#[trigger] history[k]).0 == id && (forall|l: int|
                k < l < history.len() ==> (#[trigger] history[l]).0 != id) ==> replay(
                history,
            )[id as int] == history[k].1,
    decreases history.len(),
{
    if history.len() > 0 {
        let front = history.drop_last();
        let last = history.last();
        lemma_register_grows_and_fills_gap(replay(front), last.0, last.1);
        if last.0 != id {
            if id < replay(front).len() {
                lemma_places_hold_last_registration(front, id);
                assert forall|k: int|
                    0 <= k < history.len() && (#[trigger] history[k]).0 == id && (forall|l: int|
                        k < l < history.len() ==> (#[trigger] history[l]).0
                            != id) implies replay(history)[id as int] == history[k].1 by {
                    assert(front[k] == history[k]);
                    assert forall|l: int| k < l < front.len() implies (#[trigger] front[l]).0
                        != id by {
                        assert(front[l] == history[l]);
                    }
                }
                if forall|k: int| 0 <= k < history.len() ==> (#[trigger] history[k]).0 != id {
                    assert forall|k: int| 0 <= k < front.len() implies (#[trigger] front[k]).0
                        != id by {
                        assert(front[k] == history[k]);
                    }
                }
            } else {
                lemma_no_place_beyond_registrations(front, id);
                assert forall|k: int|
                    0 <= k < history.len() && (#[trigger] history[k]).0 == id implies false by {
                    assert(front[k] == history[k]);
                }
            }
        } else {
            assert(history[history.len() - 1].0 == id);
        }
    }
}

/// The table holds a place for every number under which something was
/// registered.
pub proof fn lemma_no_place_beyond_registrations(history: Seq<Registration>, id: nat)
    requires
        id >= replay(history).len(),
    ensures
        forall|k: int| 0 <= k < history.len() ==> (#[trigger] history[k]).0 != id,
    decreases history.len(),
{
    if history.len() > 0 {
        let front = history.drop_last();
        let last = history.last();
        lemma_register_grows_and_fills_gap(replay(front), last.0, last.1);
        lemma_no_place_beyond_registrations(front, id);
        assert forall|k: int| 0 <= k < history.len() implies (#[trigger] history[k]).0 != id by {
            if k < front.len() {
                assert(front[k] == history[k]);
            }
        }
    }
}

} // verus!
