//! The bindings this host program defines for the guest, and their
//! two-phase lifecycle: `start` runs before a guest runtime exists and
//! prepares the handler contexts; `install` runs once the runtime is up
//! and binds the symbols into its global namespace. The post-start state
//! is its own type and is only produced by `start`, so installing without
//! having started is impossible by construction.

use vstd::prelude::*;
use vstd::string::StringExecFns;

use crate::dispatch::{BasicRustJSFunction, HostHandler};
use crate::errors::BridgeError;
use crate::registry::{installed_map, is_identifier, needed_slots, Registry};
use crate::runtime::Runtime;

verus! {

/// The name under which the basic test handler is made visible to guest
/// code.
pub open spec fn basic_binding_name() -> Seq<char> {
    "nativeTest"@
}

/// The host program's binding definitions, before `start` has run: the
/// handler instances exist, but no function context has been prepared yet.
pub struct RustBindingsDefine {
    basic_function: BasicRustJSFunction,
}

/// The post-start state: every handler paired with its prepared function
/// context, held as a registry that is ready to be installed into a guest
/// runtime. Only `RustBindingsDefine::start` produces this type.
pub struct StartedBindings {
    registry: Registry,
}

impl RustBindingsDefine {
    /// Create the host-side handler instances for one run.
    pub fn new() -> (b: RustBindingsDefine) {
        RustBindingsDefine { basic_function: BasicRustJSFunction::new() }
    }

    /// First lifecycle phase, run before a runtime exists: prepare each
    /// handler's function context and register it under its guest-visible
    /// name. Consumes the pre-start state.
    pub fn start(self) -> (started: StartedBindings)
        ensures
            started.registry().wf(),
            started.registry().bindings().len() == 1,
            started.registry().bindings()[0].name@ == basic_binding_name(),
            started.registry().bindings()[0].arity == 0,
            started.registry().bindings()[0].handler is Basic,
    {
        proof {
            reveal_strlit("nativeTest");
            assert(is_identifier("nativeTest"@));
        }
        let name = String::from_str("nativeTest");
        let mut registry = Registry::new();
        let _ = registry.define(name, 0, HostHandler::Basic(self.basic_function));
        StartedBindings { registry }
    }
}

impl StartedBindings {
    /// The prepared registry.
    pub closed spec fn registry(self) -> Registry {
        self.registry
    }

    /// Borrow the prepared registry, for dispatching installed bindings.
    pub fn registry_ref(&self) -> (r: &Registry)
        ensures
            *r == self.registry(),
    {
        &self.registry
    }

    /// Second lifecycle phase: bind every prepared symbol into the guest
    /// global namespace, each definition checked to have succeeded.
    pub fn install(&self, rt: &mut Runtime) -> (r: Result<(), BridgeError>)
        requires
            old(rt).wf(),
        ensures
            final(rt).wf(),
            final(rt).strings() == old(rt).strings(),
            r is Ok <==> needed_slots(old(rt).globals_map().dom(), self.registry().bindings())
                <= old(rt).heap_slots(),
            r is Ok ==> final(rt).globals_map() == installed_map(
                old(rt).globals_map(),
                self.registry().bindings(),
            ),
            r is Ok ==> forall|j: int| 0 <= j < self.registry().bindings().len() ==> final(rt)
                .globals_map().dom().contains((#[trigger] self.registry().bindings()[j]).name@),
            r matches Err(e) ==> e == BridgeError::DefinitionFailed,
    {
        self.registry.install(rt)
    }
}

} // verus!
