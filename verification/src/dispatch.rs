//! The call dispatcher: the trampoline the engine enters whenever guest
//! code calls a bound native function, together with the host handlers it
//! dispatches into.
//!
//! The trampoline opens a fresh scope, roots every argument in it, invokes
//! the handler, and closes the scope again on every exit path, so no
//! handle outlives the invocation. A call that arrives with fewer
//! arguments than the handler needs is a local, recoverable condition: the
//! handler answers with an encoded `undefined` and the run continues. An
//! argument of the wrong type is a `TypeMismatch`, which the execution
//! driver treats as fatal.

use vstd::prelude::*;

use crate::errors::BridgeError;
use crate::runtime::Runtime;
use crate::scope::{GuestHandle, ScopeMarker, ScopeStack};
use crate::text::{GuestString, TextEncoding};
use crate::value::{tag_of, to_number, GuestValue, ValueTag};

verus! {

/// An ordered, fixed-length, read-only view over the guest values supplied
/// for one invocation, each rooted as a handle in the invocation's scope.
/// It is valid only for the duration of that invocation.
pub struct ArgumentList {
    handles: Vec<GuestHandle>,
}

impl ArgumentList {
    /// The rooted argument handles, in call order.
    pub closed spec fn handles(self) -> Seq<GuestHandle> {
        self.handles@
    }

    /// The argument values, in call order.
    pub open spec fn values(self) -> Seq<GuestValue> {
        self.handles().map_values(|h: GuestHandle| h.value())
    }

    /// Every argument handle may still be dereferenced under this stack.
    pub open spec fn valid_in(self, scopes: ScopeStack) -> bool {
        forall|i: int| 0 <= i < self.handles().len() ==> scopes.handle_valid(
            #[trigger] self.handles()[i],
        )
    }

    /// Every argument value is meaningful in this runtime.
    pub open spec fn values_wf(self, rt: Runtime) -> bool {
        forall|i: int| 0 <= i < self.values().len() ==> rt.value_wf(#[trigger] self.values()[i])
    }

    /// Root the given values in the scope `m`, producing the argument list
    /// for one invocation.
    pub fn new(scopes: &ScopeStack, m: &ScopeMarker, values: &Vec<GuestValue>) -> (args:
        ArgumentList)
        requires
            scopes.is_open(m.id()),
        ensures
            args.values() == values@,
            args.valid_in(*scopes),
            forall|i: int| 0 <= i < args.handles().len() ==> (#[trigger] args.handles()[
                i
            ]).scope_id() == m.id(),
    {
        let mut handles: Vec<GuestHandle> = Vec::new();
        let mut i: usize = 0;
        while i < values.len()
            invariant
                scopes.is_open(m.id()),
                i <= values@.len(),
                handles@.len() == i,
                forall|k: int| 0 <= k < i ==> (#[trigger] handles@[k]).value() == values@[k],
                forall|k: int| 0 <= k < i ==> (#[trigger] handles@[k]).scope_id() == m.id(),
            decreases values@.len() - i,
        {
            let h = scopes.root(m, values[i]);
            handles.push(h);
            i = i + 1;
        }
        let args = ArgumentList { handles };
        proof {
            assert(args.values() =~= values@);
        }
        args
    }

    /// The number of arguments supplied for this invocation.
    pub fn arg_count(&self) -> (n: usize)
        ensures
            n == self.values().len(),
    {
        self.handles.len()
    }

    /// Read argument `i` as a value.
    pub fn get_arg(&self, scopes: &ScopeStack, i: usize) -> (v: GuestValue)
        requires
            i < self.values().len(),
            self.valid_in(*scopes),
        ensures
            v == self.values()[i as int],
    {
        scopes.resolve(&self.handles[i])
    }

    /// Borrow argument `i` as a rooted handle.
    pub fn get_arg_handle(&self, i: usize) -> (h: &GuestHandle)
        requires
            i < self.values().len(),
        ensures
            *h == self.handles()[i as int],
            h.value() == self.values()[i as int],
    {
        &self.handles[i]
    }
}

/// What one invocation of the basic test handler reported back to the
/// host: the encoded guest return value, plus what the handler observed
/// of its arguments.
pub struct InvokeReport {
    /// The value handed back to the guest; always an encoded `undefined`
    /// for this handler.
    pub result: GuestValue,
    /// How many arguments the invocation supplied.
    pub arg_count: usize,
    /// The bit pattern of the first argument, when one was supplied.
    pub number_bits: Option<u64>,
    /// The encoding the second argument's text view reported, when a
    /// second argument was supplied.
    pub text_encoding: Option<TextEncoding>,
    /// The code units read from the second argument; character data is
    /// only read out of wide strings, so this stays empty for narrow ones.
    pub wide_units: Vec<u16>,
}

/// The full contract of the basic test handler, as a relation between the
/// guest string heap, the argument values, and the outcome.
///
/// The handler needs a number and then a string; a call with fewer
/// arguments than it needs at either point answers `undefined`
/// (recoverable), and an argument of the wrong type is a `TypeMismatch`.
pub open spec fn basic_invoke_ok(
    strings: Seq<GuestString>,
    vals: Seq<GuestValue>,
    r: Result<InvokeReport, BridgeError>,
) -> bool {
    &&& (vals.len() == 0 ==> (r matches Ok(rep) && rep.result == GuestValue::Undefined
        && rep.number_bits is None && rep.text_encoding is None && rep.wide_units@.len() == 0))
    &&& (vals.len() >= 1 && !(vals[0] is Number) ==> r == Result::<
        InvokeReport,
        BridgeError,
    >::Err(BridgeError::TypeMismatch))
    &&& (vals.len() == 1 && vals[0] is Number ==> (r matches Ok(rep) && rep.result
        == GuestValue::Undefined && rep.number_bits == Some(vals[0]->Number_0)
        && rep.text_encoding is None && rep.wide_units@.len() == 0))
    &&& (vals.len() >= 2 && vals[0] is Number && !(vals[1] is StringRef) ==> r == Result::<
        InvokeReport,
        BridgeError,
    >::Err(BridgeError::TypeMismatch))
    &&& (vals.len() >= 2 && vals[0] is Number && vals[1] is StringRef && vals[1]->StringRef_0
        < strings.len() ==> (r matches Ok(rep) && {
        let text = strings[vals[1]->StringRef_0 as int];
        &&& rep.result == GuestValue::Undefined
        &&& rep.arg_count == vals.len()
        &&& rep.number_bits == Some(vals[0]->Number_0)
        &&& rep.text_encoding == Some(text.spec_encoding())
        &&& (text.spec_encoding() == TextEncoding::Wide ==> rep.wide_units@ == text.units())
        &&& (text.spec_encoding() == TextEncoding::Ascii ==> rep.wide_units@.len() == 0)
    }))
    &&& (r matches Ok(rep) ==> rep.arg_count == vals.len() && rep.result
        == GuestValue::Undefined)
    &&& (r is Err ==> r == Result::<InvokeReport, BridgeError>::Err(BridgeError::TypeMismatch))
}

/// The one host handler this program registers: it expects a number and a
/// string, reports what it saw of them, and answers the guest with an
/// encoded `undefined`.
pub struct BasicRustJSFunction {
}

impl BasicRustJSFunction {
    /// A fresh handler instance.
    pub fn new() -> (f: BasicRustJSFunction) {
        BasicRustJSFunction {  }
    }

    /// Handle one guest call. Checks the actual argument count defensively
    /// before each access (the engine does not enforce arity), narrows
    /// each argument only after classifying it, and reads the string's
    /// character data only after branching on its encoding flag.
    pub fn invoke(&self, rt: &Runtime, scopes: &ScopeStack, args: &ArgumentList) -> (r: Result<
        InvokeReport,
        BridgeError,
    >)
        requires
            rt.wf(),
            args.valid_in(*scopes),
            args.values_wf(*rt),
        ensures
            basic_invoke_ok(rt.strings(), args.values(), r),
    {
        let count = args.arg_count();
        if count < 1 {
            return Ok(
                InvokeReport {
                    result: crate::value::encode_undefined(),
                    arg_count: count,
                    number_bits: None,
                    text_encoding: None,
                    wide_units: Vec::new(),
                },
            );
        }
        let first = args.get_arg(scopes, 0);
        let bits = match to_number(&first) {
            Ok(bits) => bits,
            Err(e) => { return Err(e) },
        };
        if count < 2 {
            return Ok(
                InvokeReport {
                    result: crate::value::encode_undefined(),
                    arg_count: count,
                    number_bits: Some(bits),
                    text_encoding: None,
                    wide_units: Vec::new(),
                },
            );
        }
        let second = args.get_arg_handle(1);
        let view = match rt.to_text_view(scopes, second) {
            Ok(view) => view,
            Err(e) => { return Err(e) },
        };
        let encoding = view.encoding();
        let wide_units: Vec<u16> = if view.is_ascii() {
            Vec::new()
        } else {
            view.code_units()
        };
        Ok(
            InvokeReport {
                result: crate::value::encode_undefined(),
                arg_count: count,
                number_bits: Some(bits),
                text_encoding: Some(encoding),
                wide_units,
            },
        )
    }
}

/// A native call with fewer arguments than the handler requires is a
/// local, recoverable condition: the handler answers with an encoded
/// `undefined` instead of failing. The handler needs a number and then a
/// string; this law covers every shorter argument list, up to the point
/// where classification takes over — a lone argument that is not a number
/// is a type error, not an insufficiency, so it stands outside the law.
pub proof fn lemma_insufficient_args_recoverable(
    strings: Seq<GuestString>,
    vals: Seq<GuestValue>,
    r: Result<InvokeReport, BridgeError>,
)
    requires
        basic_invoke_ok(strings, vals, r),
        vals.len() < 2,
        vals.len() == 1 ==> vals[0] is Number,
    ensures
        r is Ok,
        r matches Ok(rep) ==> rep.result == GuestValue::Undefined,
{
}

/// A host-implemented callable, owned by the registry and referenced by
/// the global-namespace entries installed for it. One variant per handler
/// the host defines.
pub enum HostHandler {
    Basic(BasicRustJSFunction),
}

/// The outcome a dispatched call must have for a given handler.
pub open spec fn dispatch_ok(
    handler: HostHandler,
    strings: Seq<GuestString>,
    vals: Seq<GuestValue>,
    r: Result<InvokeReport, BridgeError>,
) -> bool {
    match handler {
        HostHandler::Basic(_) => basic_invoke_ok(strings, vals, r),
    }
}

/// The trampoline for one guest-to-host call: open a scope, root the
/// arguments in it as the invocation's argument list, invoke the handler,
/// and close the scope again. The scope is closed on every exit path —
/// the stack of open scopes leaves this function exactly as it entered it
/// — so no handle rooted here survives the invocation.
pub fn dispatch_call(
    handler: &HostHandler,
    rt: &Runtime,
    scopes: &mut ScopeStack,
    values: &Vec<GuestValue>,
) -> (r: Result<InvokeReport, BridgeError>)
    requires
        rt.wf(),
        old(scopes).wf(),
        old(scopes).next_id() < u64::MAX,
        forall|i: int| 0 <= i < values@.len() ==> rt.value_wf(#[trigger] values@[i]),
    ensures
        final(scopes).wf(),
        final(scopes).open_ids() == old(scopes).open_ids(),
        final(scopes).next_id() == old(scopes).next_id() + 1,
        dispatch_ok(*handler, rt.strings(), values@, r),
{
    let marker = scopes.open_scope();
    let args = ArgumentList::new(scopes, &marker, values);
    let r = match handler {
        HostHandler::Basic(f) => f.invoke(rt, scopes, &args),
    };
    scopes.close_scope(marker);
    proof {
        assert(scopes.open_ids() =~= old(scopes).open_ids());
    }
    r
}

} // verus!
