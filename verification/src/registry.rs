//! The native function registry: a table of host-implemented callables,
//! each bound to a guest-visible symbol name, installed into the guest
//! global namespace before execution starts.
//!
//! Installation is all-or-nothing in effect: a failed definition is
//! surfaced as `DefinitionFailed` and the driver aborts the run, because
//! continuing would silently run a script that expects a function that
//! does not exist. Defining a name that already exists overwrites the
//! previous entry (last-writer-wins), which costs no new guest heap.

use vstd::prelude::*;
use vstd::string::StrSliceExecFns;

use crate::dispatch::HostHandler;
use crate::errors::BridgeError;
use crate::runtime::Runtime;

verus! {

/// Whether `c` may stand in a guest-visible symbol name: a letter, an
/// underscore, a dollar sign, or — past the first position — a digit.
pub open spec fn is_identifier_char(c: char, leading: bool) -> bool {
    ||| 'a' <= c && c <= 'z'
    ||| 'A' <= c && c <= 'Z'
    ||| c == '_'
    ||| c == '$'
    ||| (!leading && '0' <= c && c <= '9')
}

/// Whether `s` is an identifier-safe symbol name.
pub open spec fn is_identifier(s: Seq<char>) -> bool {
    s.len() > 0 && forall|i: int| 0 <= i < s.len() ==> is_identifier_char(s[i], i == 0)
}

/// Check identifier-safety of a name at run time.
pub fn is_identifier_name(s: &str) -> (r: bool)
    ensures
        r == is_identifier(s@),
{
    let n = s.unicode_len();
    if n == 0 {
        return false;
    }
    let mut i: usize = 0;
    while i < n
        invariant
            n == s@.len(),
            i <= n,
            forall|k: int| 0 <= k < i ==> is_identifier_char(s@[k], k == 0),
        decreases n - i,
    {
        let c = s.get_char(i);
        let leading = i == 0;
        let ok = ('a' <= c && c <= 'z') || ('A' <= c && c <= 'Z') || c == '_' || c == '$' || (
        !leading && '0' <= c && c <= '9');
        if !ok {
            proof {
                assert(!is_identifier_char(s@[i as int], i as int == 0));
            }
            return false;
        }
        i = i + 1;
    }
    true
}

/// One registered native callable: a guest-visible symbol name, the
/// minimum argument count the handler expects (documentation only — the
/// engine does not enforce arity, so the handler checks defensively at
/// call time), and the handler itself. Created during registration and
/// immutable thereafter.
pub struct NativeBinding {
    pub name: String,
    pub arity: u32,
    pub handler: HostHandler,
}

/// The names bound by a table of bindings.
pub open spec fn names_of(bs: Seq<NativeBinding>) -> Set<Seq<char>> {
    Set::new(|n: Seq<char>| exists|i: int| 0 <= i < bs.len() && bs[i].name@ == n)
}

/// How many fresh global-namespace entries installing `bs` on top of a
/// namespace with domain `dom0` creates: one per binding whose name is
/// neither already in the namespace nor bound by an earlier binding.
pub open spec fn needed_slots(dom0: Set<Seq<char>>, bs: Seq<NativeBinding>) -> nat
    decreases bs.len(),
{
    if bs.len() == 0 {
        0
    } else {
        needed_slots(dom0, bs.drop_last()) + (if dom0.contains(bs.last().name@) || names_of(
            bs.drop_last(),
        ).contains(bs.last().name@) {
            0nat
        } else {
            1nat
        })
    }
}

/// The global namespace that installing `bs`, in order, leaves behind on
/// top of the namespace `m0`: each binding's name maps to its index, a
/// later binding overwriting an earlier entry of the same name.
pub open spec fn installed_map(m0: Map<Seq<char>, usize>, bs: Seq<NativeBinding>) -> Map<
    Seq<char>,
    usize,
>
    decreases bs.len(),
{
    if bs.len() == 0 {
        m0
    } else {
        installed_map(m0, bs.drop_last()).insert(bs.last().name@, (bs.len() - 1) as usize)
    }
}

/// Installation adds exactly the bound names to the namespace's domain.
pub proof fn lemma_installed_dom(m0: Map<Seq<char>, usize>, bs: Seq<NativeBinding>)
    ensures
        installed_map(m0, bs).dom() =~= m0.dom().union(names_of(bs)),
    decreases bs.len(),
{
    if bs.len() == 0 {
        assert(names_of(bs) =~= Set::<Seq<char>>::empty());
    } else {
        lemma_installed_dom(m0, bs.drop_last());
        assert(names_of(bs) =~= names_of(bs.drop_last()).insert(bs.last().name@)) by {
            assert forall|n: Seq<char>| names_of(bs).contains(n) implies names_of(
                bs.drop_last(),
            ).insert(bs.last().name@).contains(n) by {
                let i = choose|i: int| 0 <= i < bs.len() && bs[i].name@ == n;
                if i < bs.len() - 1 {
                    assert(bs.drop_last()[i].name@ == n);
                    assert(names_of(bs.drop_last()).contains(n));
                }
            };
            assert forall|n: Seq<char>|
                names_of(bs.drop_last()).insert(bs.last().name@).contains(n) implies names_of(
                bs,
            ).contains(n) by {
                if names_of(bs.drop_last()).contains(n) {
                    let i = choose|i: int|
                        0 <= i < bs.drop_last().len() && bs.drop_last()[i].name@ == n;
                    assert(bs[i].name@ == n);
                } else {
                    assert(bs[bs.len() - 1].name@ == n);
                }
            };
        }
    }
}

/// Extending the installed prefix by one binding never lowers the count of
/// fresh entries needed.
pub proof fn lemma_needed_step(dom0: Set<Seq<char>>, bs: Seq<NativeBinding>, j: int)
    requires
        0 <= j < bs.len(),
    ensures
        needed_slots(dom0, bs.take(j)) <= needed_slots(dom0, bs.take(j + 1)),
        needed_slots(dom0, bs.take(j + 1)) <= needed_slots(dom0, bs.take(j)) + 1,
{
    assert(bs.take(j + 1).drop_last() =~= bs.take(j));
    assert(bs.take(j + 1).last() == bs[j]);
}

/// A prefix of the bindings never needs more fresh entries than the whole
/// table.
pub proof fn lemma_needed_prefix(dom0: Set<Seq<char>>, bs: Seq<NativeBinding>, j: int)
    requires
        0 <= j <= bs.len(),
    ensures
        needed_slots(dom0, bs.take(j)) <= needed_slots(dom0, bs),
    decreases bs.len() - j,
{
    if j == bs.len() {
        assert(bs.take(j) =~= bs);
    } else {
        lemma_needed_step(dom0, bs, j);
        lemma_needed_prefix(dom0, bs, j + 1);
    }
}

/// After installation, every registered name resolves, and it resolves to
/// a binding that carries that very name (the latest one registered under
/// it) — never to a missing entry.
pub proof fn lemma_installed_resolves(m0: Map<Seq<char>, usize>, bs: Seq<NativeBinding>, j: int)
    requires
        0 <= j < bs.len(),
        bs.len() <= usize::MAX,
    ensures
        installed_map(m0, bs).dom().contains(bs[j].name@),
        0 <= installed_map(m0, bs)[bs[j].name@] < bs.len(),
        bs[installed_map(m0, bs)[bs[j].name@] as int].name@ == bs[j].name@,
    decreases bs.len(),
{
    let n = bs[j].name@;
    if bs.last().name@ == n {
        assert(installed_map(m0, bs)[n] == (bs.len() - 1) as usize);
    } else {
        assert(j < bs.len() - 1);
        assert(bs.drop_last()[j] == bs[j]);
        lemma_installed_resolves(m0, bs.drop_last(), j);
        let k = installed_map(m0, bs.drop_last())[n];
        assert(bs.drop_last()[k as int].name@ == n);
        assert(bs[k as int].name@ == n);
    }
}

/// Installing into an empty namespace leaves every entry resolving to a
/// real binding, one that carries the entry's own name.
pub proof fn lemma_installed_from_empty(bs: Seq<NativeBinding>)
    requires
        bs.len() <= usize::MAX,
    ensures
        forall|n: Seq<char>| #[trigger] installed_map(
            Map::<Seq<char>, usize>::empty(),
            bs,
        ).dom().contains(n) ==> 0 <= installed_map(Map::<Seq<char>, usize>::empty(), bs)[n]
            < bs.len() && bs[installed_map(Map::<Seq<char>, usize>::empty(), bs)[n] as int].name@
            == n,
{
    let m0 = Map::<Seq<char>, usize>::empty();
    lemma_installed_dom(m0, bs);
    assert forall|n: Seq<char>| #[trigger] installed_map(m0, bs).dom().contains(n) implies 0
        <= installed_map(m0, bs)[n] < bs.len() && bs[installed_map(m0, bs)[n] as int].name@
        == n by {
        assert(names_of(bs).contains(n));
        let j = choose|j: int| 0 <= j < bs.len() && bs[j].name@ == n;
        lemma_installed_resolves(m0, bs, j);
    }
}

/// The registry of native bindings for one run. Built during the `start`
/// phase, installed into the guest global namespace once a runtime exists,
/// and torn down when the run completes.
pub struct Registry {
    bindings: Vec<NativeBinding>,
}

impl Registry {
    /// The registered bindings, in registration order.
    pub closed spec fn bindings(self) -> Seq<NativeBinding> {
        self.bindings@
    }

    /// Every registered name is identifier-safe.
    pub open spec fn wf(self) -> bool {
        forall|i: int| 0 <= i < self.bindings().len() ==> is_identifier(
            (#[trigger] self.bindings()[i]).name@,
        )
    }

    /// An empty registry.
    pub fn new() -> (reg: Registry)
        ensures
            reg.wf(),
            reg.bindings() == Seq::<NativeBinding>::empty(),
    {
        let reg = Registry { bindings: Vec::new() };
        proof {
            assert(reg.bindings@ =~= Seq::<NativeBinding>::empty());
        }
        reg
    }

    /// Register one native callable under an identifier-safe symbol name,
    /// returning its binding reference. Registering the same name twice is
    /// allowed; at installation the later registration wins.
    pub fn define(&mut self, name: String, arity: u32, handler: HostHandler) -> (id: usize)
        requires
            old(self).wf(),
            is_identifier(name@),
        ensures
            final(self).wf(),
            id == old(self).bindings().len(),
            final(self).bindings() == old(self).bindings().push(
                (NativeBinding { name, arity, handler }),
            ),
    {
        let id = self.bindings.len();
        self.bindings.push(NativeBinding { name, arity, handler });
        id
    }

    /// How many bindings are registered.
    pub fn len(&self) -> (n: usize)
        ensures
            n == self.bindings().len(),
    {
        self.bindings.len()
    }

    /// Borrow the binding behind a binding reference.
    pub fn get(&self, id: usize) -> (b: &NativeBinding)
        requires
            id < self.bindings().len(),
        ensures
            *b == self.bindings()[id as int],
    {
        &self.bindings[id]
    }

    /// Install every registered binding into the guest global namespace,
    /// in registration order, each definition checked to have succeeded.
    ///
    /// Succeeds exactly when the guest heap has headroom for the fresh
    /// entries the table needs, and then leaves the namespace as the
    /// mathematical installation of the table: each registered name bound
    /// to its latest registration. A failed definition stops immediately
    /// with `DefinitionFailed`.
    pub fn install(&self, rt: &mut Runtime) -> (r: Result<(), BridgeError>)
        requires
            old(rt).wf(),
        ensures
            final(rt).wf(),
            final(rt).strings() == old(rt).strings(),
            r is Ok <==> needed_slots(old(rt).globals_map().dom(), self.bindings()) <= old(rt).heap_slots(),
            r is Ok ==> final(rt).globals_map() == installed_map(
                old(rt).globals_map(),
                self.bindings(),
            ),
            r is Ok ==> final(rt).heap_slots() + needed_slots(
                old(rt).globals_map().dom(),
                self.bindings(),
            ) == old(rt).heap_slots(),
            r is Ok ==> forall|j: int| 0 <= j < self.bindings().len() ==> final(rt).globals_map().dom().contains((#[trigger] self.bindings()[j]).name@),
            r matches Err(e) ==> e == BridgeError::DefinitionFailed,
    {
        let ghost m0 = old(rt).globals_map();
        let ghost dom0 = m0.dom();
        let ghost bs = self.bindings();
        let n = self.bindings.len();
        let mut i: usize = 0;
        while i < n
            invariant
                rt.wf(),
                bs == self.bindings(),
                n == bs.len(),
                i <= n,
                m0 == old(rt).globals_map(),
                dom0 == m0.dom(),
                rt.strings() == old(rt).strings(),
                rt.globals_map() == installed_map(m0, bs.take(i as int)),
                rt.heap_slots() + needed_slots(dom0, bs.take(i as int)) == old(rt).heap_slots(),
            decreases n - i,
        {
            let ghost prefix = bs.take(i as int);
            proof {
                lemma_installed_dom(m0, prefix);
                assert(bs.take(i as int + 1).drop_last() =~= prefix);
                assert(bs.take(i as int + 1).last() == bs[i as int]);
            }
            let ok = rt.define_global(&self.bindings[i].name, i);
            if !ok {
                proof {
                    lemma_needed_prefix(dom0, bs, i as int + 1);
                }
                return Err(BridgeError::DefinitionFailed);
            }
            i = i + 1;
        }
        proof {
            assert(bs.take(n as int) =~= bs);
            assert forall|j: int| 0 <= j < bs.len() implies installed_map(
                m0,
                bs,
            ).dom().contains((#[trigger] bs[j]).name@) by {
                lemma_installed_resolves(m0, bs, j);
            };
        }
        Ok(())
    }
}

} // verus!
