//! A model of the guest runtime's observable interface: the string heap
//! the host marshals text into, and the global namespace that native
//! bindings are installed into.
//!
//! The runtime is exclusively owned by the execution driver for the
//! duration of one run; every mutation goes through methods that take it
//! by mutable reference, so single-writer discipline holds at the type
//! level. The global namespace is modelled mathematically as a map from
//! symbol name to binding reference; defining an existing name overwrites
//! its entry (last-writer-wins), and defining a new one consumes guest
//! heap headroom and can fail when the heap is exhausted.

use vstd::prelude::*;

use crate::errors::BridgeError;
use crate::scope::{GuestHandle, ScopeStack};
use crate::text::GuestString;
use crate::value::{tag_of, GuestValue, ValueTag};

verus! {

/// One entry of the guest global namespace: a guest-visible symbol name
/// bound to a native callable, referenced by its index in the registry.
pub struct GlobalSlot {
    pub name: String,
    pub binding: usize,
}

/// Whether some slot carries this name.
pub open spec fn slot_with_name(gs: Seq<GlobalSlot>, n: Seq<char>) -> bool {
    exists|i: int| 0 <= i < gs.len() && gs[i].name@ == n
}

/// The index of the slot carrying this name (meaningful only when names
/// are unique and some slot carries it).
pub open spec fn slot_index(gs: Seq<GlobalSlot>, n: Seq<char>) -> int {
    choose|i: int| 0 <= i < gs.len() && gs[i].name@ == n
}

/// No two slots carry the same name.
pub open spec fn unique_names(gs: Seq<GlobalSlot>) -> bool {
    forall|i: int, j: int| 0 <= i < j < gs.len() ==> gs[i].name@ != gs[j].name@
}

/// The global namespace as a map from symbol name to binding reference.
pub open spec fn map_of(gs: Seq<GlobalSlot>) -> Map<Seq<char>, usize> {
    Map::new(|n: Seq<char>| slot_with_name(gs, n), |n: Seq<char>| gs[slot_index(gs, n)].binding)
}

/// With unique names, the slot index of a name present at `i` is `i`
/// itself, and the map reads that slot's binding.
pub proof fn lemma_map_at(gs: Seq<GlobalSlot>, n: Seq<char>, i: int)
    requires
        unique_names(gs),
        0 <= i < gs.len(),
        gs[i].name@ == n,
    ensures
        slot_with_name(gs, n),
        slot_index(gs, n) == i,
        map_of(gs)[n] == gs[i].binding,
{
    assert(slot_with_name(gs, n));
    let j = slot_index(gs, n);
    assert(0 <= j < gs.len() && gs[j].name@ == n);
    if i < j {
        assert(gs[i].name@ != gs[j].name@);
    } else if j < i {
        assert(gs[j].name@ != gs[i].name@);
    }
}

/// The guest runtime instance, as the bridge observes it.
pub struct Runtime {
    strings: Vec<GuestString>,
    globals: Vec<GlobalSlot>,
    heap_slots: usize,
}

impl Runtime {
    /// The guest string heap.
    pub closed spec fn strings(self) -> Seq<GuestString> {
        self.strings@
    }

    /// The global namespace slots, in installation order.
    pub closed spec fn globals(self) -> Seq<GlobalSlot> {
        self.globals@
    }

    /// Remaining guest-heap headroom for new global-namespace entries.
    pub closed spec fn heap_slots(self) -> nat {
        self.heap_slots as nat
    }

    /// The global namespace as a mathematical map.
    pub open spec fn globals_map(self) -> Map<Seq<char>, usize> {
        map_of(self.globals())
    }

    /// A well-formed runtime: every heap string is well formed and global
    /// names are unique (the namespace is a map, not a multimap).
    pub open spec fn wf(self) -> bool {
        &&& forall|i: int| 0 <= i < self.strings().len() ==> (#[trigger] self.strings()[i]).wf()
        &&& unique_names(self.globals())
    }

    /// A guest value is meaningful in this runtime: a string reference
    /// points into the string heap.
    pub open spec fn value_wf(self, v: GuestValue) -> bool {
        v matches GuestValue::StringRef(i) ==> i < self.strings().len()
    }

    /// A fresh runtime with an empty global namespace, an empty string
    /// heap, and the given guest-heap headroom.
    pub fn new(heap_slots: usize) -> (rt: Runtime)
        ensures
            rt.wf(),
            rt.strings() == Seq::<GuestString>::empty(),
            rt.globals() == Seq::<GlobalSlot>::empty(),
            rt.heap_slots() == heap_slots,
    {
        let rt = Runtime { strings: Vec::new(), globals: Vec::new(), heap_slots };
        proof {
            assert(rt.strings@ =~= Seq::<GuestString>::empty());
            assert(rt.globals@ =~= Seq::<GlobalSlot>::empty());
        }
        rt
    }

    /// Marshal host text of seven-bit codes into the guest heap, producing
    /// a guest string reference (host-to-guest `encode_text`, narrow case).
    pub fn encode_ascii_text(&mut self, bytes: Vec<u8>) -> (v: GuestValue)
        requires
            old(self).wf(),
            forall|i: int| 0 <= i < bytes@.len() ==> bytes@[i] < 128,
        ensures
            final(self).wf(),
            v == GuestValue::StringRef(old(self).strings().len() as usize),
            final(self).strings() == old(self).strings().push(GuestString::Ascii(bytes)),
            final(self).strings().last().units() == bytes@.map_values(|b: u8| b as u16),
            final(self).globals() == old(self).globals(),
            final(self).heap_slots() == old(self).heap_slots(),
            final(self).value_wf(v),
    {
        let idx = self.strings.len();
        self.strings.push(GuestString::Ascii(bytes));
        proof {
            assert forall|i: int| 0 <= i < self.strings().len() implies (
            #[trigger] self.strings()[i]).wf() by {
                if i < old(self).strings().len() {
                    assert(self.strings()[i] == old(self).strings()[i]);
                }
            };
        }
        GuestValue::StringRef(idx)
    }

    /// Marshal host text of sixteen-bit code units into the guest heap
    /// (host-to-guest `encode_text`, wide case).
    pub fn encode_wide_text(&mut self, units: Vec<u16>) -> (v: GuestValue)
        requires
            old(self).wf(),
        ensures
            final(self).wf(),
            v == GuestValue::StringRef(old(self).strings().len() as usize),
            final(self).strings() == old(self).strings().push(GuestString::Wide(units)),
            final(self).strings().last().units() == units@,
            final(self).globals() == old(self).globals(),
            final(self).heap_slots() == old(self).heap_slots(),
            final(self).value_wf(v),
    {
        let idx = self.strings.len();
        self.strings.push(GuestString::Wide(units));
        proof {
            assert forall|i: int| 0 <= i < self.strings().len() implies (
            #[trigger] self.strings()[i]).wf() by {
                if i < old(self).strings().len() {
                    assert(self.strings()[i] == old(self).strings()[i]);
                }
            };
        }
        GuestValue::StringRef(idx)
    }

    /// Resolve a string handle to a read-only view over its character
    /// data. The handle's scope must still be open: character data of a
    /// guest string may only be read inside an active scope. Values of any
    /// other tag are a `TypeMismatch`.
    pub fn to_text_view<'a>(
        &'a self,
        scopes: &ScopeStack,
        h: &GuestHandle,
    ) -> (r: Result<&'a GuestString, BridgeError>)
        requires
            scopes.handle_valid(*h),
            self.value_wf(h.value()),
        ensures
            r is Ok <==> tag_of(h.value()) == ValueTag::String,
            r matches Ok(view) ==> h.value() matches GuestValue::StringRef(i) && *view
                == self.strings()[i as int],
            r matches Err(e) ==> e == BridgeError::TypeMismatch,
    {
        let v = scopes.resolve(h);
        match v {
            GuestValue::StringRef(i) => Ok(&self.strings[i]),
            _ => Err(BridgeError::TypeMismatch),
        }
    }

    /// Look a name up in the global namespace; `Some` exactly when some
    /// binding was installed under it, carrying the reference the latest
    /// definition left there.
    pub fn lookup_global(&self, name: &String) -> (r: Option<usize>)
        requires
            self.wf(),
        ensures
            r is Some <==> self.globals_map().dom().contains(name@),
            r matches Some(b) ==> self.globals_map()[name@] == b,
    {
        let n = self.globals.len();
        let mut i: usize = 0;
        while i < n
            invariant
                self.wf(),
                n == self.globals().len(),
                i <= n,
                forall|k: int| 0 <= k < i ==> self.globals()[k].name@ != name@,
            decreases n - i,
        {
            if self.globals[i].name == *name {
                proof {
                    lemma_map_at(self.globals(), name@, i as int);
                }
                return Some(self.globals[i].binding);
            }
            i = i + 1;
        }
        proof {
            assert(!slot_with_name(self.globals(), name@));
        }
        None
    }

    /// Install one global-namespace entry: bind `name` to the given
    /// binding reference. An existing entry under the same name is
    /// overwritten (last-writer-wins); a new entry consumes one slot of
    /// guest-heap headroom, and the definition fails, changing nothing,
    /// exactly when a new entry is needed and the heap is exhausted. The
    /// outcome is reported as a boolean that the caller must not ignore.
    pub fn define_global(&mut self, name: &String, binding: usize) -> (ok: bool)
        requires
            old(self).wf(),
        ensures
            final(self).wf(),
            final(self).strings() == old(self).strings(),
            ok ==> final(self).globals_map() == old(self).globals_map().insert(name@, binding),
            ok == !(!old(self).globals_map().dom().contains(name@) && old(self).heap_slots()
                == 0),
            !ok ==> *final(self) == *old(self),
            old(self).globals_map().dom().contains(name@) ==> final(self).heap_slots() == old(
                self,
            ).heap_slots(),
            ok && !old(self).globals_map().dom().contains(name@) ==> final(self).heap_slots() + 1
                == old(self).heap_slots(),
    {
        let n = self.globals.len();
        let mut i: usize = 0;
        while i < n
            invariant
                *self == *old(self),
                old(self).wf(),
                n == self.globals().len(),
                i <= n,
                forall|k: int| 0 <= k < i ==> self.globals()[k].name@ != name@,
            decreases n - i,
        {
            if self.globals[i].name == *name {
                let ghost before = self.globals();
                self.globals.set(i, GlobalSlot { name: name.clone(), binding });
                proof {
                    assert forall|k: int| 0 <= k < self.strings().len() implies (
                    #[trigger] self.strings()[k]).wf() by {
                        assert(self.strings()[k] == old(self).strings()[k]);
                    };
                    lemma_map_at(before, name@, i as int);
                    assert(unique_names(self.globals())) by {
                        assert(forall|k: int|
                            0 <= k < self.globals().len() ==> (#[trigger] self.globals()[k].name)@
                                == before[k].name@);
                    }
                    lemma_map_at(self.globals(), name@, i as int);
                    assert(self.globals_map() =~= map_of(before).insert(name@, binding)) by {
                        assert forall|m: Seq<char>|
                            m != name@ && slot_with_name(self.globals(), m) implies map_of(
                            self.globals(),
                        )[m] == map_of(before)[m] by {
                            let j = slot_index(self.globals(), m);
                            lemma_map_at(before, m, j);
                        };
                        assert forall|m: Seq<char>|
                            m != name@ && slot_with_name(before, m) implies slot_with_name(
                            self.globals(),
                            m,
                        ) by {
                            let j = slot_index(before, m);
                            assert(self.globals()[j].name@ == m);
                        };
                    }
                }
                return true;
            }
            i = i + 1;
        }
        proof {
            assert(!slot_with_name(self.globals(), name@));
            assert(!self.globals_map().dom().contains(name@));
        }
        if self.heap_slots == 0 {
            return false;
        }
        self.heap_slots = self.heap_slots - 1;
        let ghost before = self.globals();
        self.globals.push(GlobalSlot { name: name.clone(), binding });
        proof {
            assert forall|k: int| 0 <= k < self.strings().len() implies (
            #[trigger] self.strings()[k]).wf() by {
                assert(self.strings()[k] == old(self).strings()[k]);
            };
            let len = before.len() as int;
            assert(self.globals()[len].name@ == name@);
            assert(unique_names(self.globals())) by {
                assert(forall|k: int|
                    0 <= k < len ==> (#[trigger] self.globals()[k].name)@ == before[k].name@);
            }
            lemma_map_at(self.globals(), name@, len);
            assert(self.globals_map() =~= map_of(before).insert(name@, binding)) by {
                assert forall|m: Seq<char>|
                    m != name@ && slot_with_name(self.globals(), m) implies slot_with_name(
                    before,
                    m,
                ) && map_of(self.globals())[m] == map_of(before)[m] by {
                    let j = slot_index(self.globals(), m);
                    assert(j < len);
                    assert(before[j].name@ == m);
                    lemma_map_at(before, m, j);
                };
                assert forall|m: Seq<char>|
                    m != name@ && slot_with_name(before, m) implies slot_with_name(
                    self.globals(),
                    m,
                ) by {
                    let j = slot_index(before, m);
                    assert(self.globals()[j].name@ == m);
                };
            }
        }
        true
    }
}

} // verus!
