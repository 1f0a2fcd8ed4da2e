//! Scope-rooted handles to guest-managed values.
//!
//! The guest's garbage collector may relocate or collect objects at any
//! safepoint, so the host may inspect guest-managed memory only through a
//! handle rooted in an explicitly opened scope, and only while that scope
//! is still open. This module models the engine's scope stack: opening a
//! scope yields a marker, a handle remembers the scope it was rooted in,
//! and every dereference demands that this scope is still open. Scope
//! identities are never reused, so a handle that outlives its scope stays
//! invalid even after new scopes open.

use vstd::prelude::*;

use crate::value::GuestValue;

verus! {

/// A marker for one open scope. Closing the scope consumes the marker, so
/// a scope cannot be closed twice.
pub struct ScopeMarker {
    id: u64,
}

impl ScopeMarker {
    /// The identity of the scope this marker guards.
    pub closed spec fn id(self) -> u64 {
        self.id
    }
}

/// A stable, scope-rooted indirection to a guest value. It survives
/// garbage-collection safepoints while its scope is open and is dead the
/// moment the scope closes.
pub struct GuestHandle {
    scope_id: u64,
    value: GuestValue,
}

impl GuestHandle {
    /// The identity of the scope the handle is rooted in.
    pub closed spec fn scope_id(self) -> u64 {
        self.scope_id
    }

    /// The guest value the handle roots.
    pub closed spec fn value(self) -> GuestValue {
        self.value
    }
}

/// The stack of currently open scopes, plus a counter that makes every
/// scope identity fresh.
pub struct ScopeStack {
    open_ids: Vec<u64>,
    next_id: u64,
}

impl ScopeStack {
    /// The identities of the scopes that are open, innermost last.
    pub closed spec fn open_ids(self) -> Seq<u64> {
        self.open_ids@
    }

    /// The next fresh scope identity.
    pub closed spec fn next_id(self) -> u64 {
        self.next_id
    }

    /// Scope identities are handed out in increasing order and never
    /// reused: the stack is strictly increasing and everything on it is
    /// below the counter.
    pub closed spec fn wf(self) -> bool {
        &&& forall|i: int| 0 <= i < self.open_ids@.len() ==> self.open_ids@[i] < self.next_id
        &&& forall|i: int, j: int| 0 <= i < j < self.open_ids@.len() ==> self.open_ids@[i]
            < self.open_ids@[j]
    }

    /// Whether the scope with this identity is still open.
    pub open spec fn is_open(self, id: u64) -> bool {
        self.open_ids().contains(id)
    }

    /// Whether a handle may still be dereferenced: its scope is open.
    pub open spec fn handle_valid(self, h: GuestHandle) -> bool {
        self.is_open(h.scope_id())
    }

    /// A fresh stack with no open scope.
    pub fn new() -> (s: ScopeStack)
        ensures
            s.wf(),
            s.open_ids() == Seq::<u64>::empty(),
            s.next_id() == 0,
    {
        let s = ScopeStack { open_ids: Vec::new(), next_id: 0 };
        proof {
            assert(s.open_ids@ =~= Seq::<u64>::empty());
        }
        s
    }

    /// Open a scope. Guest-memory inspection is allowed only between this
    /// call and the matching `close_scope`.
    pub fn open_scope(&mut self) -> (m: ScopeMarker)
        requires
            old(self).wf(),
            old(self).next_id() < u64::MAX,
        ensures
            final(self).wf(),
            m.id() == old(self).next_id(),
            final(self).open_ids() == old(self).open_ids().push(m.id()),
            final(self).next_id() == old(self).next_id() + 1,
            final(self).is_open(m.id()),
    {
        let id = self.next_id;
        self.open_ids.push(id);
        self.next_id = self.next_id + 1;
        proof {
            assert(self.open_ids@.last() == id);
            assert(self.open_ids@.contains(id));
        }
        ScopeMarker { id }
    }

    /// Close the innermost scope. The marker is consumed; every handle
    /// rooted in this scope is invalid from here on, forever, because the
    /// identity is never handed out again.
    pub fn close_scope(&mut self, m: ScopeMarker)
        requires
            old(self).wf(),
            old(self).open_ids().len() > 0,
            old(self).open_ids().last() == m.id(),
        ensures
            final(self).wf(),
            final(self).open_ids() == old(self).open_ids().drop_last(),
            final(self).next_id() == old(self).next_id(),
            !final(self).is_open(m.id()),
    {
        let _ = self.open_ids.pop();
        proof {
            assert(!self.is_open(m.id())) by {
                if self.open_ids@.contains(m.id()) {
                    let k = choose|k: int|
                        0 <= k < self.open_ids@.len() && self.open_ids@[k] == m.id();
                    assert(old(self).open_ids@[k] < old(self).open_ids@.last());
                }
            }
        }
    }

    /// Root a guest value in an open scope, yielding a handle that stays
    /// valid across garbage-collection safepoints until that scope closes.
    pub fn root(&self, m: &ScopeMarker, v: GuestValue) -> (h: GuestHandle)
        requires
            self.is_open(m.id()),
        ensures
            h.scope_id() == m.id(),
            h.value() == v,
            self.handle_valid(h),
    {
        GuestHandle { scope_id: m.id, value: v }
    }

    /// Dereference a handle. Demands that the handle's scope is still
    /// open: using a handle past its scope is a use-after-free in the
    /// engine and is ruled out here by construction.
    pub fn resolve(&self, h: &GuestHandle) -> (v: GuestValue)
        requires
            self.handle_valid(*h),
        ensures
            v == h.value(),
    {
        h.value
    }
}

/// Scope identities are fresh: once a handle's scope has closed, opening a
/// further scope does not make the handle valid again, because every scope
/// opened later carries a strictly larger identity than any the stack has
/// already handed out.
pub proof fn lemma_closed_scope_stays_closed(before: ScopeStack, after: ScopeStack, h: GuestHandle)
    requires
        before.wf(),
        !before.handle_valid(h),
        h.scope_id() < before.next_id(),
        after.open_ids() == before.open_ids().push(before.next_id()),
    ensures
        !after.handle_valid(h),
{
    if after.is_open(h.scope_id()) {
        let j = choose|j: int|
            0 <= j < after.open_ids().len() && after.open_ids()[j] == h.scope_id();
        if j < before.open_ids().len() {
            assert(before.open_ids()[j] == h.scope_id());
            assert(before.open_ids().contains(h.scope_id()));
        } else {
            assert(after.open_ids()[j] == before.next_id());
        }
    }
}

} // verus!
