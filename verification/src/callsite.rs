//! Call sites and the process-wide registry that holds them.
//!
//! A [`CallSite`] identifies one static source location that can be entered
//! as a span.  Each one carries a [`CallSiteId`], a strictly positive
//! identifier handed out by an [`IdAllocator`].  Registered call sites are
//! kept in a [`Registry`], an append-only collection whose traversal yields
//! every registered site exactly once, in reverse registration order.

use vstd::prelude::*;
use vstd::string::StrSliceExecFns;
use vstd::string::StringExecFns;

verus! {

/// Unique identifier of a [`CallSite`].
///
/// The value is strictly positive: zero is never a valid identifier and
/// denotes "no call site" wherever an identifier would be optional.
#[derive(Debug, Clone, Copy, PartialEq, Eq, Structural)]
pub struct CallSiteId {
    pub value: u64,
}

impl CallSiteId {
    /// A valid identifier is strictly positive.
    pub open spec fn wf(self) -> bool {
        self.value > 0
    }

    /// Wrap a raw identifier value; zero is rejected by the precondition.
    pub fn new(value: u64) -> (r: CallSiteId)
        requires
            value > 0,
        ensures
            r.value == value,
            r.wf(),
    {
        CallSiteId { value }
    }
}

/// Hands out call-site identifiers: strictly positive, strictly increasing,
/// never reused, starting at 1.
pub struct IdAllocator {
    /// The identifier that the next call to [`IdAllocator::next_id`] returns.
    pub next: u64,
}

impl IdAllocator {
    /// All identifiers handed out so far were strictly positive, so the next
    /// one is too.
    pub open spec fn wf(self) -> bool {
        self.next >= 1
    }

    /// A fresh allocator; the first identifier handed out is 1.
    pub fn new() -> (r: IdAllocator)
        ensures
            r.next == 1,
            r.wf(),
    {
        IdAllocator { next: 1 }
    }

    /// Hand out the next identifier.  Identifiers are never reused and never
    /// zero.
    pub fn next_id(&mut self) -> (r: CallSiteId)
        requires
            old(self).wf(),
            old(self).next < u64::MAX,
        ensures
            r.value == old(self).next,
            final(self).next == old(self).next + 1,
            r.wf(),
            final(self).wf(),
    {
        let id = CallSiteId::new(self.next);
        self.next = self.next + 1;
        id
    }
}

/// A `CallSite` identifies uniquely a location in the source code, and
/// records the attributes associated with this location.  It is immutable
/// once constructed.
#[derive(Debug, Clone, Copy)]
pub struct CallSite {
    /// Unique identifier of this call site.
    pub id: CallSiteId,
    /// The display name of the call site; it may be empty or contain spaces.
    pub name: &'static str,
    /// The Rust module where the call site occurred.
    pub module: &'static str,
    /// The source code file where the call site occurred.
    pub file: &'static str,
    /// The line number where the call site occurred.
    pub line: u32,
}

/// The qualified name of a call site: the module path, `::`, then the
/// display name, in braces when the name contains a space.
pub open spec fn spec_full_name(cs: CallSite) -> Seq<char> {
    cs.module@ + "::"@ + if has_space(cs.name@) {
        "{"@ + cs.name@ + "}"@
    } else {
        cs.name@
    }
}

/// Whether a character sequence contains a space.
pub open spec fn has_space(s: Seq<char>) -> bool {
    exists|i: int| 0 <= i < s.len() && s[i] == ' '
}

impl CallSite {
    /// Create a new `CallSite` with the given metadata, under a fresh
    /// identifier taken from `ids`.
    pub fn new(
        name: &'static str,
        module: &'static str,
        file: &'static str,
        line: u32,
        ids: &mut IdAllocator,
    ) -> (r: CallSite)
        requires
            old(ids).wf(),
            old(ids).next < u64::MAX,
        ensures
            r.id.value == old(ids).next,
            final(ids).next == old(ids).next + 1,
            final(ids).wf(),
            r.id.wf(),
            r.name == name,
            r.module == module,
            r.file == file,
            r.line == line,
    {
        let id = ids.next_id();
        CallSite { id, name, module, file, line }
    }

    /// The identifier of this call site.
    pub fn id(&self) -> (r: CallSiteId)
        ensures
            r == self.id,
    {
        self.id
    }

    /// The user-provided name for this call site.
    pub fn name(&self) -> (r: &'static str)
        ensures
            r == self.name,
    {
        self.name
    }

    /// The Rust module path of the source location of this call site.
    pub fn module(&self) -> (r: &'static str)
        ensures
            r == self.module,
    {
        self.module
    }

    /// The path of the file containing this call site.
    pub fn file(&self) -> (r: &'static str)
        ensures
            r == self.file,
    {
        self.file
    }

    /// The line of the source file containing this call site.
    pub fn line(&self) -> (r: u32)
        ensures
            r == self.line,
    {
        self.line
    }

    /// The full name of this call site, containing both the module path and
    /// the display name.  A name containing a space is set inside braces.
    pub fn full_name(&self) -> (r: String)
        ensures
            r@ == spec_full_name(*self),
    {
        let mut out: String = String::from_str(self.module);
        out.append("::");

        if str_contains_space(self.name) {
            out.append("{");
            out.append(self.name);
            out.append("}");
        } else {
            out.append(self.name);
        }

        proof {
            assert(out@ =~= spec_full_name(*self));
        }
        out
    }
}

/// Whether the string contains an ASCII space character.
fn str_contains_space(s: &str) -> (r: bool)
    ensures
        r == has_space(s@),
{
    let len = s.unicode_len();
    let mut i: usize = 0;
    while i < len
        invariant
            0 <= i <= len,
            len == s@.len(),
            forall|j: int| 0 <= j < i ==> s@[j] != ' ',
        decreases len - i,
    {
        if s.get_char(i) == ' ' {
            return true;
        }
        i = i + 1;
    }
    false
}

/// Registry of call sites: an append-only collection of every call site that
/// has been published, traversed in reverse registration order.
///
/// Registration of distinct sites never corrupts the collection, and every
/// registered site stays reachable afterwards.  A traversal that runs while
/// further sites are being registered may or may not observe those late
/// sites; the sites it does observe are exact.
pub struct Registry {
    /// Registered call sites, oldest first.
    sites: Vec<CallSite>,
}

impl Registry {
    /// The registered call sites, in registration order.
    pub closed spec fn view(self) -> Seq<CallSite> {
        self.sites@
    }

    /// Identifiers of registered sites are valid and pairwise distinct.
    pub open spec fn wf(self) -> bool {
        &&& forall|i: int| 0 <= i < self@.len() ==> (#[trigger] self@[i].id).wf()
        &&& forall|i: int, j: int|
            0 <= i < j < self@.len() ==> self@[i].id.value != self@[j].id.value
    }

    /// Whether some site with the given identifier value is registered.
    pub open spec fn spec_contains_id(self, value: u64) -> bool {
        exists|i: int| 0 <= i < self@.len() && #[trigger] self@[i].id.value == value
    }

    /// An empty registry.
    pub fn new() -> (r: Registry)
        ensures
            r@ =~= Seq::<CallSite>::empty(),
            r.wf(),
    {
        Registry { sites: Vec::new() }
    }

    /// Publish a call site so that it becomes visible to traversal.
    ///
    /// The caller owes a site that is not yet registered: registering the
    /// same site twice is a programming error (the underlying lazy
    /// initialization of each static call site runs its registration exactly
    /// once), and it is rejected here rather than corrupting the collection.
    pub fn register(&mut self, callsite: CallSite)
        requires
            old(self).wf(),
            callsite.id.wf(),
            !old(self).spec_contains_id(callsite.id.value),
        ensures
            final(self)@ == old(self)@.push(callsite),
            final(self).wf(),
    {
        self.sites.push(callsite);
        proof {
            assert forall|i: int, j: int| 0 <= i < j < self@.len()
                implies self@[i].id.value != self@[j].id.value by {
                if j == self@.len() - 1 {
                    assert(old(self)@[i].id.value != callsite.id.value);
                } else {
                    assert(old(self)@[i].id.value != old(self)@[j].id.value);
                }
            }
        }
    }
}

/// The registered call site carrying the given identifier value;
/// meaningful when one is registered, and unique under [`Registry::wf`].
pub open spec fn site_with_id(registry: Registry, value: u64) -> CallSite {
    registry@[choose|j: int|
        0 <= j < registry@.len() && (#[trigger] registry@[j]).id.value == value]
}

impl Registry {
    /// Look up the registered call site carrying the given identifier
    /// value.
    pub fn site_for(&self, value: u64) -> (r: Option<CallSite>)
        requires
            self.wf(),
        ensures
            r matches Some(cs) ==> self.spec_contains_id(value)
                && cs == site_with_id(*self, value)
                && cs.id.value == value,
            r is None ==> !self.spec_contains_id(value),
    {
        let len = self.sites.len();
        let mut i: usize = 0;
        while i < len
            invariant
                0 <= i <= len,
                len == self@.len(),
                self.wf(),
                forall|j: int| 0 <= j < i ==> (#[trigger] self@[j]).id.value != value,
            decreases len - i,
        {
            let site = self.sites[i];
            if site.id.value == value {
                proof {
                    let j = choose|j: int|
                        0 <= j < self@.len() && (#[trigger] self@[j]).id.value == value;
                    if j != i {
                        if j < i {
                            assert(self@[j].id.value != self@[i as int].id.value);
                        } else {
                            assert(self@[i as int].id.value != self@[j].id.value);
                        }
                    }
                }
                return Some(site);
            }
            i = i + 1;
        }
        None
    }
}

/// The order in which a traversal visits the registered sites: the reverse
/// of the registration order, newest first.
pub open spec fn traversal_order(registry: Registry) -> Seq<CallSite> {
    Seq::new(registry@.len(), |i: int| registry@[registry@.len() - 1 - i])
}

/// Register a call site into the given registry.
pub fn register_callsite(registry: &mut Registry, callsite: CallSite)
    requires
        old(registry).wf(),
        callsite.id.wf(),
        !old(registry).spec_contains_id(callsite.id.value),
    ensures
        final(registry)@ == old(registry)@.push(callsite),
        final(registry).wf(),
{
    registry.register(callsite);
}

/// Every call site the registry knows about, in traversal order (newest
/// first).
pub fn traverse_registered_callsite(registry: &Registry) -> (r: Vec<CallSite>)
    ensures
        r@ == traversal_order(*registry),
{
    let mut out: Vec<CallSite> = Vec::new();
    let len = registry.sites.len();
    let mut i: usize = 0;
    while i < len
        invariant
            0 <= i <= len,
            len == registry@.len(),
            out@.len() == i,
            forall|j: int| 0 <= j < i ==> out@[j] == registry@[len - 1 - j],
        decreases len - i,
    {
        let site = registry.sites[len - 1 - i];
        out.push(site);
        i = i + 1;
    }
    proof {
        assert(out@ =~= traversal_order(*registry));
    }
    out
}

/// Law: a traversal of a well-formed registry visits every registered site
/// exactly once — no duplicates and no omissions.
pub proof fn lemma_traversal_exactly_once(registry: Registry)
    requires
        registry.wf(),
    ensures
        traversal_order(registry).len() == registry@.len(),
        // no omission: every registered site appears in the traversal
        forall|s: int| 0 <= s < registry@.len()
            ==> traversal_order(registry)[registry@.len() - 1 - s] == #[trigger] registry@[s],
        // no duplicate: two distinct traversal positions show distinct sites
        forall|t1: int, t2: int|
            0 <= t1 < t2 < traversal_order(registry).len()
                ==> traversal_order(registry)[t1].id.value
                    != traversal_order(registry)[t2].id.value,
{
    assert forall|s: int| 0 <= s < registry@.len()
        implies traversal_order(registry)[registry@.len() - 1 - s]
            == #[trigger] registry@[s] by {
        assert(traversal_order(registry)[registry@.len() - 1 - s] == registry@[s]);
    }
}

} // verus!
