//! The decisions of the stack walk: where a frame carries its sentinel, which
//! function it belongs to, and at which addresses its roots lie.

use vstd::prelude::*;
use crate::registry::{StackMap, StackMapRegistry};
use crate::Word;

verus! {

/// The first word of the sentinel that every compiled function pushes on
/// entry. The word behind it is the number of the function.
pub const SENTINEL_MAGIC: Word = 0xBA5EBA11;

/// The number of words of a frame that are searched for the sentinel unless
/// the caller asks for another.
pub const DEFAULT_WINDOW: usize = 10;

/// How the collector reaches the reference behind a root.
#[derive(Clone, Copy, Debug, PartialEq, Eq, Structural)]
pub enum RootKind {
    /// The word at the address is the reference.
    Local,
    /// The word at the address points to the heap cell that holds the
    /// reference.
    Escaped,
}

/// A place on the stack that holds a live reference.
#[derive(Clone, Copy, Debug, PartialEq, Eq, Structural)]
pub struct Root {
    /// The address of the word.
    pub address: usize,
    /// How the reference is reached from that word.
    pub kind: RootKind,
}

/// One frame of the native call stack as the walker sees it.
#[derive(Clone, Debug)]
pub struct Frame {
    /// The stack pointer of the frame.
    pub sp: usize,
    /// The words of the frame in the order of the search, the first one being
    /// the word at the stack pointer.
    pub words: Vec<Word>,
}

/// A sentinel found in a frame.
#[derive(Clone, Copy, Debug, PartialEq, Eq, Structural)]
pub struct Sentinel {
    /// The position of the magic word among the words of the frame.
    pub position: usize,
    /// The word behind the magic word: the number of the function.
    pub function: Word,
}

/// The roots of one compiled frame.
#[derive(Clone, Debug)]
pub struct FrameRoots {
    /// The number of the function that owns the frame.
    pub function: usize,
    /// The local roots of the frame, then its escaped roots.
    pub roots: Vec<Root>,
}

/// Why a walk cannot go on: the stack or the registry is corrupt.
#[derive(Clone, Copy, Debug, PartialEq, Eq, Structural)]
pub enum WalkError {
    /// The word behind a sentinel is no number of the registry.
    UnknownFunction(Word),
    /// A root of the function with this number would lie below address zero.
    RootOutsideStack(usize),
}

/// The sentinel of the frame starts at `position`: the magic word stands
/// there, within the window, not before, and a word follows it.
pub open spec fn sentinel_at(words: Seq<Word>, window: nat, position: int) -> bool {
    &&& 0 <= position < window
    &&& position + 1 < words.len()
    &&& words[position] == SENTINEL_MAGIC
    &&& forall|j: int| 0 <= j < position ==> words[j] != SENTINEL_MAGIC
}

/// The sentinel that a search of the first `window` words finds, if any.
pub open spec fn sentinel_of(words: Seq<Word>, window: nat) -> Option<Sentinel> {
    if exists|p: int| sentinel_at(words, window, p) {
        let p = choose|p: int| sentinel_at(words, window, p);
        Some(Sentinel { position: p as usize, function: words[p + 1] })
    } else {
        None
    }
}

/// The address of the root at `offset` words from the base of a frame.
pub open spec fn root_address_of(sp: usize, offset: usize, word_size: usize) -> int {
    sp - offset * word_size
}

/// Every offset gives an address that is not below zero.
pub open spec fn all_addressable(sp: usize, offsets: Seq<usize>, word_size: usize) -> bool {
    forall|i: int| 0 <= i < offsets.len() ==> root_address_of(sp, #[trigger] offsets[i], word_size) >= 0
}

/// One root of the given kind for each offset, in the order of the offsets.
pub open spec fn roots_of_kind(
    sp: usize,
    offsets: Seq<usize>,
    word_size: usize,
    kind: RootKind,
) -> Seq<Root> {
    Seq::new(
        offsets.len(),
        |i: int| (Root { address: root_address_of(sp, offsets[i], word_size) as usize, kind }),
    )
}

/// The roots of a frame with the given stack map: the local ones, then the
/// escaped ones.
pub open spec fn frame_roots(sp: usize, map: StackMap, word_size: usize) -> Seq<Root> {
    roots_of_kind(sp, map.1, word_size, RootKind::Local) + roots_of_kind(
        sp,
        map.0,
        word_size,
        RootKind::Escaped,
    )
}

/// What the walker makes of one frame: nothing where it finds no sentinel,
/// the number of the function and its roots where it finds one, and an
/// error where the sentinel names no function of the table or a root has no
/// address.
pub open spec fn frame_outcome(
    table: Seq<StackMap>,
    sp: usize,
    words: Seq<Word>,
    window: nat,
    word_size: usize,
) -> Result<Option<(usize, Seq<Root>)>, WalkError> {
    match sentinel_of(words, window) {
        None => Ok(None),
        Some(s) => if s.function < 0 || s.function >= table.len() {
            Err(WalkError::UnknownFunction(s.function))
        } else {
            let map = table[s.function as int];
            if all_addressable(sp, map.1, word_size) && all_addressable(sp, map.0, word_size) {
                Ok(Some((s.function as usize, frame_roots(sp, map, word_size))))
            } else {
                Err(WalkError::RootOutsideStack(s.function as usize))
            }
        },
    }
}

/// The roots of a whole stack, frame by frame from the innermost outward.
/// Frames without a sentinel add nothing; the first corrupt frame ends the
/// walk with its error.
pub open spec fn stack_roots(
    table: Seq<StackMap>,
    frames: Seq<Frame>,
    window: nat,
    word_size: usize,
) -> Result<Seq<Root>, WalkError>
    decreases frames.len(),
{
    if frames.len() == 0 {
        Ok(Seq::empty())
    } else {
        match stack_roots(table, frames.drop_last(), window, word_size) {
            Err(e) => Err(e),
            Ok(roots) => match frame_outcome(
                table,
                frames.last().sp,
                frames.last().words@,
                window,
                word_size,
            ) {
                Err(e) => Err(e),
                Ok(None) => Ok(roots),
                Ok(Some(found)) => Ok(roots + found.1),
            },
        }
    }
}

/// What a scan of one frame returned, with the roots as a sequence.
pub open spec fn scan_view(scanned: Result<Option<FrameRoots>, WalkError>) -> Result<
    Option<(usize, Seq<Root>)>,
    WalkError,
> {
    match scanned {
        Ok(Some(found)) => Ok(Some((found.function, found.roots@))),
        Ok(None) => Ok(None),
        Err(e) => Err(e),
    }
}

/// What a walk returned, with the roots as a sequence.
pub open spec fn walk_view(walked: Result<Vec<Root>, WalkError>) -> Result<Seq<Root>, WalkError> {
    match walked {
        Ok(roots) => Ok(roots@),
        Err(e) => Err(e),
    }
}

/// A frame has at most one sentinel.
pub proof fn lemma_sentinel_is_unique(words: Seq<Word>, window: nat, p: int, q: int)
    requires
        sentinel_at(words, window, p),
        sentinel_at(words, window, q),
    ensures
        p == q,
{
    if p < q {
        assert(words[p] != SENTINEL_MAGIC);
    } else if q < p {
        assert(words[q] != SENTINEL_MAGIC);
    }
}

/// A sentinel whose magic word is the first one of the frame, within the
/// window and with a word behind it, is found where it stands, and the word
/// behind it is taken for the number of the function.
pub proof fn lemma_sentinel_is_found(words: Seq<Word>, window: nat, position: int)
    requires
        sentinel_at(words, window, position),
    ensures
        sentinel_of(words, window) == Some(
            Sentinel { position: position as usize, function: words[position + 1] },
        ),
{
    let p = choose|p: int| sentinel_at(words, window, p);
    lemma_sentinel_is_unique(words, window, p, position);
}

/// A frame whose first `window` words hold no magic word has no sentinel,
/// wherever the magic word may stand behind the window.
pub proof fn lemma_sentinel_behind_window_is_missed(words: Seq<Word>, window: nat)
    requires
        forall|j: int| 0 <= j < window && j < words.len() ==> words[j] != SENTINEL_MAGIC,
    ensures
        sentinel_of(words, window) is None,
{
}

/// Searches the first `window` words of a frame for the sentinel.
pub fn find_sentinel(words: &[Word], window: usize) -> (found: Option<Sentinel>)
    ensures
        found == sentinel_of(words@, window as nat),
        match found {
            Some(s) => sentinel_at(words@, window as nat, s.position as int) && s.function
                == words@[s.position + 1],
            None => forall|p: int| !sentinel_at(words@, window as nat, p),
        },
{
    let mut i: usize = 0;
    while i < window && i < words.len()
        invariant
            i <= window,
            i <= words.len(),
            forall|j: int| 0 <= j < i ==> words@[j] != SENTINEL_MAGIC,
        decreases words.len() - i,
    {
        if words[i] == SENTINEL_MAGIC {
            if i + 1 < words.len() {
                proof {
                    lemma_sentinel_is_found(words@, window as nat, i as int);
                }
                return Some(Sentinel { position: i, function: words[i + 1] });
            } else {
                assert forall|p: int| !sentinel_at(words@, window as nat, p) by {
                    if sentinel_at(words@, window as nat, p) {
                        assert(words@[i as int] == SENTINEL_MAGIC);
                    }
                }
                return None;
            }
        }
        i += 1;
    }
    assert forall|p: int| !sentinel_at(words@, window as nat, p) by {}
    None
}

/// The address of the root at `offset` words from the base of the frame
/// with stack pointer `sp`, unless it would lie below zero.
pub fn root_address(sp: usize, offset: usize, word_size: usize) -> (address: Option<usize>)
    ensures
        match address {
            Some(a) => a == root_address_of(sp, offset, word_size),
            None => root_address_of(sp, offset, word_size) < 0,
        },
{
    match offset.checked_mul(word_size) {
        Some(bytes) => sp.checked_sub(bytes),
        None => None,
    }
}

/// Tells whether every offset gives an address.
pub fn addressable(sp: usize, offsets: &[usize], word_size: usize) -> (yes: bool)
    ensures
        yes == all_addressable(sp, offsets@, word_size),
{
    let mut i: usize = 0;
    while i < offsets.len()
        invariant
            i <= offsets.len(),
            forall|j: int|
                0 <= j < i ==> root_address_of(sp, #[trigger] offsets@[j], word_size) >= 0,
        decreases offsets.len() - i,
    {
        if root_address(sp, offsets[i], word_size).is_none() {
            assert(root_address_of(sp, offsets@[i as int], word_size) < 0);
            return false;
        }
        i += 1;
    }
    true
}

/// Appends one root of the given kind for each offset.
pub fn push_roots(
    roots: &mut Vec<Root>,
    sp: usize,
    offsets: &[usize],
    word_size: usize,
    kind: RootKind,
)
    requires
        all_addressable(sp, offsets@, word_size),
    ensures
        final(roots)@ == old(roots)@ + roots_of_kind(sp, offsets@, word_size, kind),
{
    let ghost before = roots@;
    let mut i: usize = 0;
    while i < offsets.len()
        invariant
            i <= offsets.len(),
            all_addressable(sp, offsets@, word_size),
            roots@ == before + roots_of_kind(sp, offsets@.take(i as int), word_size, kind),
        decreases offsets.len() - i,
    {
        let ghost earlier = roots@;
        match root_address(sp, offsets[i], word_size) {
            Some(address) => {
                roots.push(Root { address, kind });
            },
            None => {
                assert(root_address_of(sp, offsets@[i as int], word_size) >= 0);
            },
        }
        assert(roots@ =~= before + roots_of_kind(
            sp,
            offsets@.take(i + 1),
            word_size,
            kind,
        ));
        i += 1;
    }
    assert(offsets@.take(i as int) == offsets@);
}

/// Finds out whether a frame belongs to a compiled function and, if so,
/// where its roots lie.
pub fn scan_frame(
    registry: &StackMapRegistry,
    frame: &Frame,
    window: usize,
    word_size: usize,
) -> (scanned: Result<Option<FrameRoots>, WalkError>)
    ensures
        scan_view(scanned) == frame_outcome(
            registry@,
            frame.sp,
            frame.words@,
            window as nat,
            word_size,
        ),
{
    match find_sentinel(frame.words.as_slice(), window) {
        None => Ok(None),
        Some(s) => {
            if s.function < 0 || s.function as u64 >= registry.len() as u64 {
                return Err(WalkError::UnknownFunction(s.function));
            }
            let function: usize = s.function as usize;
            let entry = registry.lookup(function);
            if addressable(frame.sp, entry.local.as_slice(), word_size) && addressable(
                frame.sp,
                entry.escaped.as_slice(),
                word_size,
            ) {
                let mut roots: Vec<Root> = Vec::new();
                push_roots(
                    &mut roots,
                    frame.sp,
                    entry.local.as_slice(),
                    word_size,
                    RootKind::Local,
                );
                push_roots(
                    &mut roots,
                    frame.sp,
                    entry.escaped.as_slice(),
                    word_size,
                    RootKind::Escaped,
                );
                assert(roots@ =~= frame_roots(frame.sp, registry@[function as int], word_size));
                Ok(Some(FrameRoots { function, roots }))
            } else {
                Err(WalkError::RootOutsideStack(function))
            }
        },
    }
}

/// A corrupt frame ends the walk: whatever frames follow, the error stands.
pub proof fn lemma_error_ends_walk(
    table: Seq<StackMap>,
    frames: Seq<Frame>,
    window: nat,
    word_size: usize,
    upto: int,
)
    requires
        0 <= upto <= frames.len(),
        stack_roots(table, frames.take(upto), window, word_size) is Err,
    ensures
        stack_roots(table, frames, window, word_size) == stack_roots(
            table,
            frames.take(upto),
            window,
            word_size,
        ),
    decreases frames.len() - upto,
{
    if upto < frames.len() {
        assert(frames.take(upto + 1).drop_last() == frames.take(upto));
        lemma_error_ends_walk(table, frames, window, word_size, upto + 1);
    } else {
        assert(frames.take(upto) == frames);
    }
}

/// A frame without a sentinel is passed over: the walk goes on and reports
/// what it would report without that frame.
pub proof fn lemma_foreign_frame_adds_nothing(
    table: Seq<StackMap>,
    frames: Seq<Frame>,
    frame: Frame,
    window: nat,
    word_size: usize,
)
    requires
        sentinel_of(frame.words@, window) is None,
    ensures
        stack_roots(table, frames.push(frame), window, word_size) == stack_roots(
            table,
            frames,
            window,
            word_size,
        ),
{
    assert(frames.push(frame).drop_last() == frames);
}

/// A compiled frame with a sound stack map adds exactly one root for each
/// offset of its stack map: the local ones, reached directly, then the
/// escaped ones, reached through one more step, each at the stack pointer
/// less the offset in bytes.
pub proof fn lemma_compiled_frame_adds_its_roots(
    table: Seq<StackMap>,
    frames: Seq<Frame>,
    frame: Frame,
    window: nat,
    word_size: usize,
    position: int,
)
    requires
        stack_roots(table, frames, window, word_size) is Ok,
        sentinel_at(frame.words@, window, position),
        0 <= frame.words@[position + 1] < table.len(),
        all_addressable(frame.sp, table[frame.words@[position + 1] as int].0, word_size),
        all_addressable(frame.sp, table[frame.words@[position + 1] as int].1, word_size),
    ensures
        stack_roots(table, frames.push(frame), window, word_size) == Ok::<Seq<Root>, WalkError>(
            stack_roots(table, frames, window, word_size)->Ok_0 + frame_roots(
                frame.sp,
                table[frame.words@[position + 1] as int],
                word_size,
            ),
        ),
        frame_roots(frame.sp, table[frame.words@[position + 1] as int], word_size).len()
            == table[frame.words@[position + 1] as int].0.len()
            + table[frame.words@[position + 1] as int].1.len(),
{
    assert(frames.push(frame).drop_last() == frames);
    lemma_sentinel_is_found(frame.words@, window, position);
}

/// Walks the frames of a stack from the innermost outward and lists the
/// roots of the compiled frames among them.
pub fn walk_stack(
    registry: &StackMapRegistry,
    frames: &[Frame],
    window: usize,
    word_size: usize,
) -> (walked: Result<Vec<Root>, WalkError>)
    ensures
        walk_view(walked) == stack_roots(registry@, frames@, window as nat, word_size),
{
    let mut roots: Vec<Root> = Vec::new();
    let mut i: usize = 0;
    while i < frames.len()
        invariant
            i <= frames.len(),
            stack_roots(registry@, frames@.take(i as int), window as nat, word_size) == Ok::<
                Seq<Root>,
                WalkError,
            >(roots@),
        decreases frames.len() - i,
    {
        proof {
            assert(frames@.take(i + 1).drop_last() == frames@.take(i as int));
            assert(frames@.take(i + 1).last() == frames@[i as int]);
        }
        match scan_frame(registry, &frames[i], window, word_size) {
            Err(e) => {
                proof {
                    lemma_error_ends_walk(registry@, frames@, window as nat, word_size, i + 1);
                }
                return Err(e);
            },
            Ok(None) => {},
            Ok(Some(found)) => {
                let mut more = found.roots;
                roots.append(&mut more);
            },
        }
        i += 1;
    }
    assert(frames@.take(i as int) == frames@);
    Ok(roots)
}

} // verus!
