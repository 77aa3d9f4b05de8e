//! Core engine of an always-on call-graph profiler.
//!
//! The crate records, for arbitrary nested executions of instrumented code,
//! cumulative elapsed time, call counts, and caller-to-callee relationships.
//! [`CallSite`] identifies a single location in the source; a [`Span`] is one
//! execution of that location.  Entering a span links it to the span currently
//! active on the thread, and exiting it merges the measured elapsed time into
//! a shared call graph, from which [`get_full_graph`] produces an immutable
//! snapshot joined with the registry of call sites.

pub mod callsite;
mod clock;
pub mod graph;
mod store;

pub use callsite::{CallSite, CallSiteId, IdAllocator, Registry};
pub use callsite::{register_callsite, traverse_registered_callsite};
pub use graph::{Calls, Collector, FullCallGraph, LightCallGraph, LightGraphNode};
pub use graph::{Span, SpanGuard, ThreadSpanState, TimedSpan};
pub use graph::{clear_collected_data, enable_data_collection, get_full_graph};
