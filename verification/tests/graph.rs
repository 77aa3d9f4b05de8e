use quanta::Clock;

use time_graph::{
    clear_collected_data, enable_data_collection, get_full_graph, register_callsite, CallSite,
    CallSiteId, Collector, FullCallGraph, IdAllocator, Registry, Span, ThreadSpanState, TimedSpan,
};

/// Busy-wait until at least `millis` milliseconds have passed on `clock`.
fn spin_sleep(clock: &Clock, millis: u64) {
    let start = clock.raw();
    while clock.delta_as_nanos(start, clock.raw()) < millis * 1_000_000 {
        std::hint::spin_loop();
    }
}

struct Fixture {
    registry: Registry,
    collector: Collector,
    thread: ThreadSpanState,
    ids: IdAllocator,
    clock: Clock,
}

impl Fixture {
    fn new() -> Fixture {
        Fixture {
            registry: Registry::new(),
            collector: Collector::new(),
            thread: ThreadSpanState::new(),
            ids: IdAllocator::new(),
            clock: Clock::new(),
        }
    }

    fn site(&mut self, name: &'static str, line: u32) -> CallSite {
        let cs = CallSite::new(name, "graph", "tests/graph.rs", line, &mut self.ids);
        register_callsite(&mut self.registry, cs);
        cs
    }

    fn run_leaf(&mut self, site: &CallSite, millis: u64) {
        let span = Span::new(site);
        let guard = span.enter(&mut self.thread, &self.collector);
        if millis > 0 {
            spin_sleep(&self.clock, millis);
        }
        guard.exit(&mut self.thread, &mut self.collector);
    }

    fn snapshot(&self) -> FullCallGraph {
        get_full_graph(&self.collector, &self.registry)
    }
}

fn span_named<'a>(graph: &'a FullCallGraph, name: &str) -> &'a TimedSpan {
    graph
        .spans()
        .iter()
        .find(|span| span.callsite.name() == name)
        .expect("span not found")
}

#[test]
fn single_span_counts_one_call() {
    let mut fx = Fixture::new();
    let site = fx.site("leaf", 1);
    enable_data_collection(&mut fx.collector, true);

    fx.run_leaf(&site, 5);

    let graph = fx.snapshot();
    assert_eq!(graph.spans().len(), 1);
    let leaf = span_named(&graph, "leaf");
    assert_eq!(leaf.called, 1);
    assert!(leaf.elapsed_ns >= 5_000_000);
    assert!(graph.calls().is_empty());
}

#[test]
fn nested_spans_build_call_edges() {
    // `a` calls `b` twice and `c` once, each sleeping a fixed small
    // duration with no sub-calls
    let mut fx = Fixture::new();
    let site_a = fx.site("a", 10);
    let site_b = fx.site("b", 11);
    let site_c = fx.site("c", 12);
    enable_data_collection(&mut fx.collector, true);

    let span_a = Span::new(&site_a);
    let guard_a = span_a.enter(&mut fx.thread, &fx.collector);
    fx.run_leaf(&site_b, 5);
    fx.run_leaf(&site_b, 5);
    fx.run_leaf(&site_c, 5);
    guard_a.exit(&mut fx.thread, &mut fx.collector);

    let graph = fx.snapshot();
    assert_eq!(graph.spans().len(), 3);
    let a = span_named(&graph, "a");
    let b = span_named(&graph, "b");
    let c = span_named(&graph, "c");
    assert_eq!(a.called, 1);
    assert_eq!(b.called, 2);
    assert_eq!(c.called, 1);
    assert!(b.elapsed_ns >= 10_000_000);
    assert!(c.elapsed_ns >= 5_000_000);
    assert!(a.elapsed_ns >= 15_000_000);

    assert_eq!(graph.calls().len(), 2);
    let a_to_b = graph
        .calls()
        .iter()
        .find(|call| call.caller == a.id && call.callee == b.id)
        .expect("missing edge from a to b");
    assert_eq!(a_to_b.count, 2);
    let a_to_c = graph
        .calls()
        .iter()
        .find(|call| call.caller == a.id && call.callee == c.id)
        .expect("missing edge from a to c");
    assert_eq!(a_to_c.count, 1);
}

#[test]
fn clear_then_snapshot_is_empty() {
    let mut fx = Fixture::new();
    let site = fx.site("work", 20);
    enable_data_collection(&mut fx.collector, true);
    fx.run_leaf(&site, 0);

    clear_collected_data(&mut fx.collector);
    let graph = fx.snapshot();
    assert!(graph.spans().is_empty());
    assert!(graph.calls().is_empty());

    // clearing twice changes nothing
    clear_collected_data(&mut fx.collector);
    let graph = fx.snapshot();
    assert!(graph.spans().is_empty());
    assert!(graph.calls().is_empty());
}

#[test]
fn snapshot_twice_is_identical() {
    let mut fx = Fixture::new();
    let outer = fx.site("outer", 30);
    let inner = fx.site("inner", 31);
    enable_data_collection(&mut fx.collector, true);

    let span = Span::new(&outer);
    let guard = span.enter(&mut fx.thread, &fx.collector);
    fx.run_leaf(&inner, 0);
    guard.exit(&mut fx.thread, &mut fx.collector);

    let first = fx.snapshot();
    let second = fx.snapshot();

    assert_eq!(first.spans().len(), second.spans().len());
    for (x, y) in first.spans().iter().zip(second.spans().iter()) {
        assert_eq!(x.id, y.id);
        assert_eq!(x.callsite.id(), y.callsite.id());
        assert_eq!(x.callsite.name(), y.callsite.name());
        assert_eq!(x.elapsed_ns, y.elapsed_ns);
        assert_eq!(x.called, y.called);
    }
    assert_eq!(first.calls().len(), second.calls().len());
    for (x, y) in first.calls().iter().zip(second.calls().iter()) {
        assert_eq!(x, y);
    }

    // the first snapshot is untouched by later recording
    let before = first.spans().len();
    fx.run_leaf(&inner, 0);
    assert_eq!(first.spans().len(), before);
}

#[test]
fn toggling_off_mid_flight_keeps_started_span() {
    let mut fx = Fixture::new();
    let site = fx.site("flight", 40);
    enable_data_collection(&mut fx.collector, true);

    let span = Span::new(&site);
    let guard = span.enter(&mut fx.thread, &fx.collector);
    enable_data_collection(&mut fx.collector, false);
    guard.exit(&mut fx.thread, &mut fx.collector);

    enable_data_collection(&mut fx.collector, true);
    let graph = fx.snapshot();
    let flight = span_named(&graph, "flight");
    assert_eq!(flight.called, 1);
}

#[test]
fn span_started_while_disabled_contributes_nothing() {
    let mut fx = Fixture::new();
    let site = fx.site("ghostly", 50);

    let span = Span::new(&site);
    let guard = span.enter(&mut fx.thread, &fx.collector);
    enable_data_collection(&mut fx.collector, true);
    guard.exit(&mut fx.thread, &mut fx.collector);

    let graph = fx.snapshot();
    assert!(graph.spans().is_empty());
    assert!(graph.calls().is_empty());
}

#[test]
fn same_name_different_location_stays_distinct() {
    let mut fx = Fixture::new();
    let first = fx.site("same", 60);
    let second = fx.site("same", 61);
    enable_data_collection(&mut fx.collector, true);

    fx.run_leaf(&first, 0);
    fx.run_leaf(&second, 0);
    fx.run_leaf(&second, 0);

    let graph = fx.snapshot();
    assert_eq!(graph.spans().len(), 2);
    let by_line_first = graph
        .spans()
        .iter()
        .find(|span| span.callsite.line() == 60)
        .expect("first site missing");
    let by_line_second = graph
        .spans()
        .iter()
        .find(|span| span.callsite.line() == 61)
        .expect("second site missing");
    assert_eq!(by_line_first.callsite.name(), "same");
    assert_eq!(by_line_second.callsite.name(), "same");
    assert_eq!(by_line_first.called, 1);
    assert_eq!(by_line_second.called, 2);
    assert_ne!(by_line_first.callsite.id(), by_line_second.callsite.id());
}

#[test]
fn thread_slot_restores_parent_on_exit() {
    let mut fx = Fixture::new();
    let outer = fx.site("outer_slot", 70);
    let inner = fx.site("inner_slot", 71);
    enable_data_collection(&mut fx.collector, true);

    assert_eq!(fx.thread.current, None);
    let outer_span = Span::new(&outer);
    let outer_guard = outer_span.enter(&mut fx.thread, &fx.collector);
    assert_eq!(fx.thread.current, Some(outer.id()));

    let inner_span = Span::new(&inner);
    let inner_guard = inner_span.enter(&mut fx.thread, &fx.collector);
    assert_eq!(fx.thread.current, Some(inner.id()));

    inner_guard.exit(&mut fx.thread, &mut fx.collector);
    assert_eq!(fx.thread.current, Some(outer.id()));
    outer_guard.exit(&mut fx.thread, &mut fx.collector);
    assert_eq!(fx.thread.current, None);
}

#[test]
fn clock_delta_is_zero_when_end_precedes_start() {
    let clock = Clock::new();
    let early = clock.raw();
    spin_sleep(&clock, 1);
    let late = clock.raw();
    assert_eq!(clock.delta_as_nanos(late, early), 0);
    assert!(clock.delta_as_nanos(early, late) > 0);
}

#[test]
fn collector_starts_disabled_and_empty() {
    let fx = Fixture::new();
    let graph = fx.snapshot();
    assert!(graph.spans().is_empty());
    assert!(graph.calls().is_empty());

    let _ = CallSiteId::new(7);
}
