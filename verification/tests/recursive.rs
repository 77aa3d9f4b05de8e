use quanta::Clock;

use time_graph::{
    enable_data_collection, get_full_graph, register_callsite, CallSite, Collector, IdAllocator,
    Registry, Span, ThreadSpanState,
};

/// Busy-wait until at least `millis` milliseconds have passed on `clock`.
fn spin_sleep(clock: &Clock, millis: u64) {
    let start = clock.raw();
    while clock.delta_as_nanos(start, clock.raw()) < millis * 1_000_000 {
        std::hint::spin_loop();
    }
}

fn sleep_recursive(
    depth: u32,
    site: &CallSite,
    clock: &Clock,
    thread: &mut ThreadSpanState,
    collector: &mut Collector,
) {
    let span = Span::new(site);
    let guard = span.enter(thread, collector);
    if depth != 0 {
        spin_sleep(clock, 10);
        sleep_recursive(depth - 1, site, clock, thread, collector);
    }
    guard.exit(thread, collector);
}

#[test]
fn recursion_accumulates_on_a_self_loop() {
    // each nested invocation records its own window, so depth 5 with a
    // 10 ms sleep per level accumulates at least 50 ms on the single node
    let mut ids = IdAllocator::new();
    let mut registry = Registry::new();
    let site = CallSite::new("sleep_recursive", "recursive", "tests/recursive.rs", 30, &mut ids);
    register_callsite(&mut registry, site);
    let mut collector = Collector::new();
    let mut thread = ThreadSpanState::new();
    let clock = Clock::new();

    enable_data_collection(&mut collector, true);
    sleep_recursive(5, &site, &clock, &mut thread, &mut collector);

    let graph = get_full_graph(&collector, &registry);
    assert_eq!(graph.spans().len(), 1);
    let node = &graph.spans()[0];
    assert_eq!(node.called, 6);
    assert!(node.elapsed_ns >= 50_000_000);

    assert_eq!(graph.calls().len(), 1);
    let edge = &graph.calls()[0];
    assert_eq!(edge.caller, node.id);
    assert_eq!(edge.callee, node.id);
    assert_eq!(edge.count, 5);
}
