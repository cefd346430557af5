use lust_gc::accounting::AllocationCounter;
use lust_gc::collector::{LocalValueCollector, Value};
use lust_gc::gc::{do_gc, register_stackmaps};
use lust_gc::layout::{StackSlotData, StackSlotKind, StackSlotLayout, ValueLocation};
use lust_gc::registry::StackMapRegistry;
use lust_gc::walker::{
    addressable, find_sentinel, push_roots, root_address, scan_frame, walk_stack, Frame, Root,
    RootKind, Sentinel, WalkError, DEFAULT_WINDOW, SENTINEL_MAGIC,
};

fn local(address: usize) -> Root {
    Root { address, kind: RootKind::Local }
}

fn escaped(address: usize) -> Root {
    Root { address, kind: RootKind::Escaped }
}

#[test]
fn the_sentinel_is_the_documented_constant() {
    assert_eq!(SENTINEL_MAGIC, 0xBA5EBA11);
    assert_eq!(DEFAULT_WINDOW, 10);
}

#[test]
fn sentinel_is_found_behind_garbage() {
    let words = vec![17, -4, SENTINEL_MAGIC, 5, 0, 0];
    assert_eq!(
        find_sentinel(&words, DEFAULT_WINDOW),
        Some(Sentinel { position: 2, function: 5 })
    );
}

#[test]
fn sentinel_behind_the_window_is_a_miss() {
    let window = 4;
    let mut words = vec![1i64; 8];
    words[window + 1] = SENTINEL_MAGIC;
    words[window + 2] = 5;
    assert_eq!(find_sentinel(&words, window), None);
    let mut at_edge = vec![1i64; 8];
    at_edge[window] = SENTINEL_MAGIC;
    at_edge[window + 1] = 5;
    assert_eq!(find_sentinel(&at_edge, window), None);
    let mut inside = vec![1i64; 8];
    inside[window - 1] = SENTINEL_MAGIC;
    inside[window] = 5;
    assert_eq!(find_sentinel(&inside, window), Some(Sentinel { position: 3, function: 5 }));
}

#[test]
fn sentinel_behind_the_default_window_is_a_miss() {
    let mut words = vec![0i64; 16];
    words[DEFAULT_WINDOW + 1] = SENTINEL_MAGIC;
    words[DEFAULT_WINDOW + 2] = 1;
    assert_eq!(find_sentinel(&words, DEFAULT_WINDOW), None);
}

#[test]
fn the_first_magic_word_counts() {
    let words = vec![SENTINEL_MAGIC, 3, SENTINEL_MAGIC, 4];
    assert_eq!(find_sentinel(&words, 10), Some(Sentinel { position: 0, function: 3 }));
    let twice = vec![SENTINEL_MAGIC, SENTINEL_MAGIC, 4];
    assert_eq!(
        find_sentinel(&twice, 10),
        Some(Sentinel { position: 0, function: SENTINEL_MAGIC })
    );
}

#[test]
fn a_magic_word_without_a_follower_is_a_miss() {
    assert_eq!(find_sentinel(&[1, 2, SENTINEL_MAGIC], 10), None);
    assert_eq!(find_sentinel(&[SENTINEL_MAGIC], 10), None);
    assert_eq!(find_sentinel(&[], 10), None);
    assert_eq!(find_sentinel(&[SENTINEL_MAGIC, 1], 0), None);
}

#[test]
fn root_address_is_stack_pointer_less_offset_in_bytes() {
    assert_eq!(root_address(0x1000, 3, 8), Some(0x1000 - 24));
    assert_eq!(root_address(0x1000, 0, 8), Some(0x1000));
    assert_eq!(root_address(24, 3, 8), Some(0));
    assert_eq!(root_address(23, 3, 8), None);
    assert_eq!(root_address(usize::MAX, usize::MAX, 2), None);
    assert_eq!(root_address(40, 10, 4), Some(0));
}

#[test]
fn addressable_asks_every_offset() {
    assert!(addressable(64, &[0, 8, 3], 8));
    assert!(!addressable(64, &[0, 9, 3], 8));
    assert!(addressable(0, &[], 8));
    assert!(addressable(0, &[0], 8));
}

#[test]
fn push_roots_appends_in_order() {
    let mut roots = vec![local(1)];
    push_roots(&mut roots, 800, &[1, 2, 1], 8, RootKind::Escaped);
    assert_eq!(roots, vec![local(1), escaped(792), escaped(784), escaped(792)]);
}

fn registry_with_one_function() -> StackMapRegistry {
    let mut registry = StackMapRegistry::new();
    registry.register(2, vec![4], vec![2, 3]);
    registry
}

#[test]
fn a_compiled_frame_reports_its_roots() {
    let registry = registry_with_one_function();
    let frame = Frame { sp: 0x7000, words: vec![0, SENTINEL_MAGIC, 2, 0] };
    let found = scan_frame(&registry, &frame, 10, 8).unwrap().unwrap();
    assert_eq!(found.function, 2);
    assert_eq!(
        found.roots,
        vec![local(0x7000 - 16), local(0x7000 - 24), escaped(0x7000 - 32)]
    );
}

#[test]
fn a_frame_of_a_function_without_roots_reports_none() {
    let registry = registry_with_one_function();
    let frame = Frame { sp: 0x7000, words: vec![SENTINEL_MAGIC, 1] };
    let found = scan_frame(&registry, &frame, 10, 8).unwrap().unwrap();
    assert_eq!(found.function, 1);
    assert!(found.roots.is_empty());
}

#[test]
fn a_foreign_frame_is_passed_over() {
    let registry = registry_with_one_function();
    let frame = Frame { sp: 0x7000, words: vec![1, 2, 3, 4] };
    assert!(scan_frame(&registry, &frame, 10, 8).unwrap().is_none());
    let late = Frame { sp: 0x7000, words: vec![1, 2, SENTINEL_MAGIC, 2] };
    assert!(scan_frame(&registry, &late, 2, 8).unwrap().is_none());
}

#[test]
fn a_sentinel_with_an_unknown_number_is_an_error() {
    let registry = registry_with_one_function();
    let beyond = Frame { sp: 0x7000, words: vec![SENTINEL_MAGIC, 3] };
    assert_eq!(scan_frame(&registry, &beyond, 10, 8).err(), Some(WalkError::UnknownFunction(3)));
    let negative = Frame { sp: 0x7000, words: vec![SENTINEL_MAGIC, -1] };
    assert_eq!(
        scan_frame(&registry, &negative, 10, 8).err(),
        Some(WalkError::UnknownFunction(-1))
    );
}

#[test]
fn a_root_below_address_zero_is_an_error() {
    let registry = registry_with_one_function();
    let frame = Frame { sp: 31, words: vec![SENTINEL_MAGIC, 2] };
    assert_eq!(scan_frame(&registry, &frame, 10, 8).err(), Some(WalkError::RootOutsideStack(2)));
    let enough = Frame { sp: 32, words: vec![SENTINEL_MAGIC, 2] };
    assert_eq!(
        scan_frame(&registry, &enough, 10, 8).unwrap().unwrap().roots,
        vec![local(16), local(8), escaped(0)]
    );
}

#[test]
fn the_walk_goes_on_past_foreign_frames() {
    let mut registry = registry_with_one_function();
    registry.register(0, vec![], vec![1]);
    let frames = vec![
        Frame { sp: 1000, words: vec![9, 9, 9] },
        Frame { sp: 2000, words: vec![SENTINEL_MAGIC, 0] },
        Frame { sp: 3000, words: vec![] },
        Frame { sp: 4000, words: vec![5, SENTINEL_MAGIC, 2, 5] },
        Frame { sp: 5000, words: vec![5, 5] },
    ];
    assert_eq!(
        walk_stack(&registry, &frames, 10, 8),
        Ok(vec![local(1992), local(3984), local(3976), escaped(3968)])
    );
    assert_eq!(walk_stack(&registry, &[], 10, 8), Ok(vec![]));
    assert_eq!(walk_stack(&registry, &frames[..1], 10, 8), Ok(vec![]));
}

#[test]
fn the_walk_ends_at_the_first_corrupt_frame() {
    let registry = registry_with_one_function();
    let frames = vec![
        Frame { sp: 4000, words: vec![SENTINEL_MAGIC, 2] },
        Frame { sp: 5000, words: vec![SENTINEL_MAGIC, 77] },
        Frame { sp: 8, words: vec![SENTINEL_MAGIC, 2] },
    ];
    assert_eq!(walk_stack(&registry, &frames, 10, 8), Err(WalkError::UnknownFunction(77)));
    assert_eq!(
        walk_stack(&registry, &frames[2..], 10, 8),
        Err(WalkError::RootOutsideStack(2))
    );
}

#[test]
fn the_hook_collects_only_when_due() {
    let registry = registry_with_one_function();
    let frames = vec![Frame { sp: 4000, words: vec![SENTINEL_MAGIC, 2] }];
    let mut counter = AllocationCounter::new(100);
    assert_eq!(do_gc(&mut counter, 60, &registry, &frames, 10, 8), Ok(None));
    assert_eq!(counter.allocated(), 60);
    assert_eq!(
        do_gc(&mut counter, 40, &registry, &frames, 10, 8),
        Ok(Some(vec![local(3984), local(3976), escaped(3968)]))
    );
    assert_eq!(counter.allocated(), 0);
    let corrupt = vec![Frame { sp: 4000, words: vec![SENTINEL_MAGIC, 9] }];
    assert_eq!(do_gc(&mut counter, 10, &registry, &corrupt, 10, 8), Ok(None));
    assert_eq!(
        do_gc(&mut counter, 90, &registry, &corrupt, 10, 8),
        Err(WalkError::UnknownFunction(9))
    );
    assert_eq!(counter.allocated(), 0);
}

#[test]
fn one_escaped_and_one_local_root_are_found_end_to_end() {
    let locations = vec![ValueLocation::Stack(0), ValueLocation::Stack(1), ValueLocation::Reg(0)];
    let layout = StackSlotLayout {
        slots: vec![
            StackSlotData { kind: StackSlotKind::Ordinary, size: 8, offset: Some(-24) },
            StackSlotData { kind: StackSlotKind::Ordinary, size: 8, offset: Some(-32) },
            StackSlotData { kind: StackSlotKind::OutgoingArg, size: 8, offset: Some(0) },
        ],
        frame_size: 48,
    };
    let mut collector = LocalValueCollector::new();
    collector.register_escaped(Value { index: 0 });
    collector.register_local(Value { index: 1 });
    collector.register_local(Value { index: 2 });
    let mut registry = StackMapRegistry::new();
    register_stackmaps(&mut registry, 1, &locations, &layout, 8, collector.get_maps());
    let entry = registry.lookup(1);
    assert_eq!((entry.escaped.clone(), entry.local.clone()), (vec![3], vec![2]));

    let sp = 0x7fff_0000;
    let frames = vec![
        Frame { sp: sp - 64, words: vec![0; 11] },
        Frame { sp, words: vec![SENTINEL_MAGIC, 1, 0, 0, 0, 0, 0, 0, 0, 0, 0] },
    ];
    let mut counter = AllocationCounter::new(0);
    let roots = do_gc(&mut counter, 0, &registry, &frames, DEFAULT_WINDOW, 8).unwrap().unwrap();
    assert_eq!(roots, vec![local(sp - 2 * 8), escaped(sp - 3 * 8)]);
}
