use std::collections::HashSet;

use time_graph::{
    register_callsite, traverse_registered_callsite, CallSite, IdAllocator, Registry,
};

#[test]
fn callsite_macro() {
    let mut ids = IdAllocator::new();
    let cs_1 = CallSite::new("cs_1", "callsite", "time-graph/tests/callsite.rs", 5, &mut ids);
    let cs_2 = CallSite::new("cs_2", "callsite", "time-graph/tests/callsite.rs", 6, &mut ids);
    let cs_3 = CallSite::new("test", "callsite", "time-graph/tests/callsite.rs", 7, &mut ids);
    let cs_4 = CallSite::new("test", "callsite", "time-graph/tests/callsite.rs", 7, &mut ids);

    assert_eq!(cs_1.name(), "cs_1");
    assert_eq!(cs_2.name(), "cs_2");
    assert_eq!(cs_3.name(), "test");
    assert_eq!(cs_4.name(), "test");

    let all = [cs_1, cs_2, cs_3, cs_4];

    for cs in &all {
        assert_eq!(cs.file(), "time-graph/tests/callsite.rs");
        assert_eq!(cs.module(), "callsite");
    }

    assert_eq!(cs_3.line(), cs_4.line());
    assert_eq!(cs_1.line() + 1, cs_2.line());
}

#[test]
fn check_created_callsite() {
    let mut names = HashSet::new();
    let mut ids = IdAllocator::new();
    let mut registry = Registry::new();

    for cs in traverse_registered_callsite(&registry) {
        names.insert(cs.name());
    }
    assert!(names.is_empty());

    // the equivalent of one run of an instrumented `do_nothing` calling two
    // instrumented helpers: three distinct call sites get registered once
    let do_nothing = CallSite::new("do_nothing", "attribute", "tests/attribute.rs", 11, &mut ids);
    let named = CallSite::new("renamed", "attribute", "tests/attribute.rs", 5, &mut ids);
    let spaced = CallSite::new(
        "even with spaces",
        "attribute",
        "tests/attribute.rs",
        8,
        &mut ids,
    );
    register_callsite(&mut registry, do_nothing);
    register_callsite(&mut registry, named);
    register_callsite(&mut registry, spaced);

    for cs in traverse_registered_callsite(&registry) {
        names.insert(cs.name());
    }
    let expected = ["do_nothing", "renamed", "even with spaces"]
        .iter()
        .cloned()
        .collect::<HashSet<_>>();
    assert_eq!(names, expected);
}

#[test]
fn id_allocation_is_sequential_and_nonzero() {
    let mut ids = IdAllocator::new();
    let first = ids.next_id();
    let second = ids.next_id();
    let third = ids.next_id();
    assert_eq!(first.value, 1);
    assert_eq!(second.value, 2);
    assert_eq!(third.value, 3);
}

#[test]
fn full_name_plain_and_bracketed() {
    let mut ids = IdAllocator::new();
    let plain = CallSite::new("run", "app::inner", "src/app.rs", 10, &mut ids);
    assert_eq!(plain.full_name(), "app::inner::run");

    let spaced = CallSite::new("even with spaces", "app", "src/app.rs", 12, &mut ids);
    assert_eq!(spaced.full_name(), "app::{even with spaces}");

    let empty = CallSite::new("", "app", "src/app.rs", 14, &mut ids);
    assert_eq!(empty.full_name(), "app::");
}

#[test]
fn traversal_is_newest_first_and_complete() {
    let mut ids = IdAllocator::new();
    let mut registry = Registry::new();
    let a = CallSite::new("a", "m", "f.rs", 1, &mut ids);
    let b = CallSite::new("b", "m", "f.rs", 2, &mut ids);
    let c = CallSite::new("c", "m", "f.rs", 3, &mut ids);
    register_callsite(&mut registry, a);
    register_callsite(&mut registry, b);
    register_callsite(&mut registry, c);

    let seen = traverse_registered_callsite(&registry);
    assert_eq!(seen.len(), 3);
    assert_eq!(seen[0].name(), "c");
    assert_eq!(seen[1].name(), "b");
    assert_eq!(seen[2].name(), "a");
    // every site exactly once
    let distinct: HashSet<u64> = seen.iter().map(|cs| cs.id().value).collect();
    assert_eq!(distinct.len(), 3);
}
