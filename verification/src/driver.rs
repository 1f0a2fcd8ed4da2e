//! The execution driver: it wraps the bytecode bytes as a buffer, takes
//! the bindings through their two-phase lifecycle against a fresh guest
//! runtime, hands the buffer to the engine's bytecode entry point, and
//! maps the run's success to a process exit code.
//!
//! What the bytecode does is the engine's business; its observable effect
//! at this boundary is the sequence of native calls it makes into the
//! registered bindings. The driver models that interface: it resolves each
//! call's target in the global namespace, marshals the call's arguments
//! into guest values, and enters the dispatcher — exactly the engine's
//! side of the native-function contract.

use vstd::prelude::*;

use crate::bindings::{basic_binding_name, RustBindingsDefine};
use crate::dispatch::{basic_invoke_ok, dispatch_call, InvokeReport};
use crate::errors::BridgeError;
use crate::registry::{
    installed_map, lemma_installed_dom, lemma_installed_from_empty, names_of, needed_slots,
    Registry,
};
use crate::runtime::Runtime;
use crate::scope::ScopeStack;
use crate::text::GuestString;
use crate::value::GuestValue;

verus! {

/// Guest-heap headroom the driver provisions for global-namespace entries
/// in a fresh runtime.
pub const GLOBAL_HEAP_SLOTS: usize = 64;

/// A non-owning view over a region of compiled bytecode. The bytes are
/// borrowed, never copied: the handle is valid only while the host keeps
/// the underlying region alive and unmodified, which the borrow enforces.
pub struct BytecodeBuffer<'a> {
    data: &'a [u8],
}

impl<'a> BytecodeBuffer<'a> {
    /// The wrapped bytes.
    pub closed spec fn bytes(self) -> Seq<u8> {
        self.data@
    }

    /// How many bytes the buffer holds.
    pub fn len(&self) -> (n: usize)
        ensures
            n == self.bytes().len(),
    {
        self.data.len()
    }

    /// Borrow the wrapped bytes.
    pub fn as_bytes(&self) -> (b: &'a [u8])
        ensures
            b@ == self.bytes(),
    {
        self.data
    }
}

/// Wrap a byte region as a bytecode buffer for the engine to read without
/// copying. Fails with `InvalidBuffer` exactly when the region is empty.
pub fn wrap<'a>(bytes: &'a [u8]) -> (r: Result<BytecodeBuffer<'a>, BridgeError>)
    ensures
        r is Ok <==> bytes@.len() > 0,
        r matches Ok(buf) ==> buf.bytes() == bytes@,
        r matches Err(e) ==> e == BridgeError::InvalidBuffer,
{
    if bytes.len() == 0 {
        Err(BridgeError::InvalidBuffer)
    } else {
        Ok(BytecodeBuffer { data: bytes })
    }
}

/// Check the command line: the program takes exactly one positional
/// argument (the input file path), so exactly two arguments counting the
/// program name itself. Anything else is a `UsageError`.
pub fn usage_check(arg_count: usize) -> (r: Result<(), BridgeError>)
    ensures
        r is Ok <==> arg_count == 2,
        r matches Err(e) ==> e == BridgeError::UsageError,
{
    if arg_count == 2 {
        Ok(())
    } else {
        Err(BridgeError::UsageError)
    }
}

/// The process exit code for a finished run: zero for success, one for
/// failure.
pub fn exit_code(success: bool) -> (code: i32)
    ensures
        success ==> code == 0,
        !success ==> code == 1,
{
    if success {
        0
    } else {
        1
    }
}

/// The process exit code for a run that stopped on an error: always one,
/// whatever the failure category.
pub fn error_exit_code(e: &BridgeError) -> (code: i32)
    ensures
        code == 1,
{
    match e {
        BridgeError::UsageError => 1,
        BridgeError::IoError => 1,
        BridgeError::InvalidBuffer => 1,
        BridgeError::DefinitionFailed => 1,
        BridgeError::TypeMismatch => 1,
    }
}

/// The outcome the engine reports for one execution. Produced once per
/// run; terminal.
#[derive(Clone, Copy, Debug, PartialEq, Eq, Structural)]
pub struct ExecutionResult {
    pub success: bool,
}

/// One argument of a native call, described in plain host terms before
/// marshalling: the engine hands the dispatcher guest values, and these
/// are the host-describable values they are marshalled from.
pub enum ScriptValue {
    Undefined,
    Boolean(bool),
    /// A guest number, as its double bit pattern.
    Number(u64),
    /// Text the engine stores narrow: one byte per character, below 128.
    AsciiText(Vec<u8>),
    /// Text the engine stores wide: sixteen-bit code units.
    WideText(Vec<u16>),
}

impl ScriptValue {
    /// Narrow text carries seven-bit codes only.
    pub open spec fn wf(self) -> bool {
        self matches ScriptValue::AsciiText(bytes) ==> forall|i: int|
            0 <= i < bytes@.len() ==> bytes@[i] < 128
    }
}

/// One native call the executing bytecode makes: the guest-visible name it
/// calls, and the arguments it passes.
pub struct NativeCall {
    pub target: String,
    pub args: Vec<ScriptValue>,
}

impl NativeCall {
    /// Every argument is well formed.
    pub open spec fn wf(self) -> bool {
        forall|i: int| 0 <= i < self.args@.len() ==> (#[trigger] self.args@[i]).wf()
    }
}

/// The guest value one script value marshals to, against a string heap of
/// the given contents: plain values marshal directly, text is allocated at
/// the end of the heap and marshals to a reference to it.
pub open spec fn marshal_value(strings: Seq<GuestString>, sv: ScriptValue) -> GuestValue {
    match sv {
        ScriptValue::Undefined => GuestValue::Undefined,
        ScriptValue::Boolean(b) => GuestValue::Boolean(b),
        ScriptValue::Number(bits) => GuestValue::Number(bits),
        ScriptValue::AsciiText(_) => GuestValue::StringRef(strings.len() as usize),
        ScriptValue::WideText(_) => GuestValue::StringRef(strings.len() as usize),
    }
}

/// The string heap after one script value has been marshalled against it.
pub open spec fn strings_after_value(strings: Seq<GuestString>, sv: ScriptValue) -> Seq<
    GuestString,
> {
    match sv {
        ScriptValue::AsciiText(bytes) => strings.push(GuestString::Ascii(bytes)),
        ScriptValue::WideText(units) => strings.push(GuestString::Wide(units)),
        _ => strings,
    }
}

/// The string heap after an argument list has been marshalled, in order.
pub open spec fn strings_after_args(strings: Seq<GuestString>, args: Seq<ScriptValue>) -> Seq<
    GuestString,
>
    decreases args.len(),
{
    if args.len() == 0 {
        strings
    } else {
        strings_after_value(strings_after_args(strings, args.drop_last()), args.last())
    }
}

/// The guest values an argument list marshals to, in order, against a
/// string heap with the given initial contents.
pub open spec fn call_values(strings: Seq<GuestString>, args: Seq<ScriptValue>) -> Seq<GuestValue>
    decreases args.len(),
{
    if args.len() == 0 {
        Seq::<GuestValue>::empty()
    } else {
        call_values(strings, args.drop_last()).push(
            marshal_value(strings_after_args(strings, args.drop_last()), args.last()),
        )
    }
}

/// Marshalling yields one guest value per argument.
pub proof fn lemma_call_values_len(strings: Seq<GuestString>, args: Seq<ScriptValue>)
    ensures
        call_values(strings, args).len() == args.len(),
    decreases args.len(),
{
    if args.len() > 0 {
        lemma_call_values_len(strings, args.drop_last());
    }
}

/// The guest value at position `i` is argument `i` marshalled against the
/// heap as it stood after the arguments before it.
pub proof fn lemma_call_values_index(strings: Seq<GuestString>, args: Seq<ScriptValue>, i: int)
    requires
        0 <= i < args.len(),
    ensures
        call_values(strings, args)[i] == marshal_value(
            strings_after_args(strings, args.take(i)),
            args[i],
        ),
    decreases args.len(),
{
    lemma_call_values_len(strings, args.drop_last());
    if i == args.len() - 1 {
        assert(args.take(i) =~= args.drop_last());
    } else {
        lemma_call_values_index(strings, args.drop_last(), i);
        assert(args.drop_last().take(i) =~= args.take(i));
    }
}

/// Marshal one script value into the runtime, producing the guest value a
/// handler will see.
fn marshal_value_exec(rt: &mut Runtime, sv: ScriptValue) -> (v: GuestValue)
    requires
        old(rt).wf(),
        sv.wf(),
    ensures
        final(rt).wf(),
        v == marshal_value(old(rt).strings(), sv),
        final(rt).strings() == strings_after_value(old(rt).strings(), sv),
        final(rt).globals() == old(rt).globals(),
        final(rt).heap_slots() == old(rt).heap_slots(),
        final(rt).value_wf(v),
{
    match sv {
        ScriptValue::Undefined => crate::value::encode_undefined(),
        ScriptValue::Boolean(b) => crate::value::encode_boolean(b),
        ScriptValue::Number(bits) => crate::value::encode_number(bits),
        ScriptValue::AsciiText(bytes) => rt.encode_ascii_text(bytes),
        ScriptValue::WideText(units) => rt.encode_wide_text(units),
    }
}

/// Marshal a call's arguments into the runtime, in order.
fn marshal_args(rt: &mut Runtime, args: Vec<ScriptValue>) -> (vals: Vec<GuestValue>)
    requires
        old(rt).wf(),
        forall|i: int| 0 <= i < args@.len() ==> (#[trigger] args@[i]).wf(),
    ensures
        final(rt).wf(),
        vals@ == call_values(old(rt).strings(), args@),
        final(rt).strings() == strings_after_args(old(rt).strings(), args@),
        final(rt).globals() == old(rt).globals(),
        final(rt).heap_slots() == old(rt).heap_slots(),
        forall|i: int| 0 <= i < vals@.len() ==> final(rt).value_wf(#[trigger] vals@[i]),
{
    let ghost orig = args@;
    let ghost s0 = old(rt).strings();
    let mut rest = args;
    let mut vals: Vec<GuestValue> = Vec::new();
    proof {
        assert(orig.take(0) =~= Seq::<ScriptValue>::empty());
    }
    while rest.len() > 0
        invariant
            rt.wf(),
            s0 == old(rt).strings(),
            vals@.len() + rest@.len() == orig.len(),
            rest@ == orig.skip(vals@.len() as int),
            forall|i: int| 0 <= i < orig.len() ==> (#[trigger] orig[i]).wf(),
            vals@ == call_values(s0, orig.take(vals@.len() as int)),
            rt.strings() == strings_after_args(s0, orig.take(vals@.len() as int)),
            rt.globals() == old(rt).globals(),
            rt.heap_slots() == old(rt).heap_slots(),
            forall|i: int| 0 <= i < vals@.len() ==> rt.value_wf(#[trigger] vals@[i]),
        decreases rest@.len(),
    {
        let ghost k = vals@.len() as int;
        proof {
            assert(rest@[0] == orig.skip(k)[0]);
            assert(orig.skip(k)[0] == orig[k]);
        }
        let sv = rest.remove(0);
        proof {
            assert(rest@ =~= orig.skip(k + 1));
            assert(orig[k].wf());
        }
        let ghost strings_before = rt.strings();
        let v = marshal_value_exec(rt, sv);
        proof {
            assert(orig.take(k + 1).drop_last() =~= orig.take(k));
            assert(orig.take(k + 1).last() == orig[k]);
            assert(rt.strings() == strings_after_args(s0, orig.take(k + 1)));
            assert(call_values(s0, orig.take(k + 1)) == call_values(s0, orig.take(k)).push(
                marshal_value(strings_before, orig[k]),
            ));
            assert(rt.strings().len() >= strings_before.len());
            assert forall|i: int| 0 <= i < vals@.len() implies rt.value_wf(
                #[trigger] vals@[i],
            ) by {
                if vals@[i] is StringRef {
                }
            };
        }
        vals.push(v);
    }
    proof {
        assert(orig.take(vals@.len() as int) =~= orig);
    }
    vals
}

/// Whether the runtime's global namespace only references bindings the
/// registry actually holds.
pub open spec fn globals_resolve(rt: Runtime, reg: Registry) -> bool {
    forall|n: Seq<char>| #[trigger] rt.globals_map().dom().contains(n) ==> rt.globals_map()[n]
        < reg.bindings().len()
}

/// Whether a call's arguments fit what the handler narrows them to — a
/// number first, then a text value, each checked only if supplied.
pub open spec fn call_args_ok(args: Seq<ScriptValue>) -> bool {
    &&& (args.len() >= 1 ==> args[0] is Number)
    &&& (args.len() >= 2 ==> (args[1] is AsciiText || args[1] is WideText))
}

/// Whether call `i` of the script resolves and dispatches cleanly under
/// the namespace `m`.
pub open spec fn call_permitted(m: Map<Seq<char>, usize>, calls: Seq<NativeCall>, i: int) -> bool {
    m.dom().contains(calls[i].target@) && call_args_ok(calls[i].args@)
}

/// Whether every call of the script resolves and dispatches cleanly.
pub open spec fn calls_all_ok(m: Map<Seq<char>, usize>, calls: Seq<NativeCall>) -> bool {
    forall|i: int| 0 <= i < calls.len() ==> call_permitted(m, calls, i)
}

/// What a report of call `i` must say: for some string heap the call was
/// marshalled against, the report is the handler's answer for the call's
/// marshalled arguments.
pub open spec fn report_ok(calls: Seq<NativeCall>, i: int, rep: InvokeReport) -> bool {
    exists|strs: Seq<GuestString>|
        basic_invoke_ok(
            strings_after_args(strs, calls[i].args@),
            call_values(strs, calls[i].args@),
            Ok(rep),
        )
}

/// Hand the buffer to the engine's bytecode entry point and run it to
/// completion. The bytecode's observable behaviour at this boundary is
/// `calls`, the native calls it makes, in order; each is resolved in the
/// global namespace and dispatched into its handler. The run succeeds
/// exactly when every call resolves to an installed binding and its
/// handler answers without a type error; the first call that does not
/// stops the run as a failure. The reports collect what the handlers
/// observed, one per dispatched call.
#[verifier::loop_isolation(false)]
pub fn execute(
    buffer: &BytecodeBuffer,
    registry: &Registry,
    rt: &mut Runtime,
    calls: Vec<NativeCall>,
) -> (outcome: (ExecutionResult, Vec<InvokeReport>))
    requires
        buffer.bytes().len() > 0,
        old(rt).wf(),
        globals_resolve(*old(rt), *registry),
        forall|i: int| 0 <= i < calls@.len() ==> (#[trigger] calls@[i]).wf(),
    ensures
        final(rt).wf(),
        final(rt).globals_map() == old(rt).globals_map(),
        outcome.0.success <==> calls_all_ok(old(rt).globals_map(), calls@),
        outcome.0.success ==> outcome.1@.len() == calls@.len(),
        !outcome.0.success ==> outcome.1@.len() < calls@.len() && !call_permitted(
            old(rt).globals_map(),
            calls@,
            outcome.1@.len() as int,
        ),
        forall|i: int| 0 <= i < outcome.1@.len() ==> call_permitted(
            old(rt).globals_map(),
            calls@,
            i,
        ),
        forall|i: int| 0 <= i < outcome.1@.len() ==> report_ok(calls@, i, #[trigger] outcome.1@[i]),
{
    let ghost orig = calls@;
    let ghost m = old(rt).globals_map();
    let mut rest = calls;
    let total = rest.len();
    proof {
        assert(orig.len() == total);
    }
    let mut reports: Vec<InvokeReport> = Vec::new();
    let mut scopes = ScopeStack::new();
    while rest.len() > 0
        invariant
            rt.wf(),
            m == old(rt).globals_map(),
            rt.globals_map() == m,
            globals_resolve(*rt, *registry),
            scopes.wf(),
            scopes.open_ids().len() == 0,
            scopes.next_id() == reports@.len(),
            reports@.len() + rest@.len() == orig.len(),
            orig.len() <= usize::MAX,
            rest@ == orig.skip(reports@.len() as int),
            forall|i: int| 0 <= i < orig.len() ==> (#[trigger] orig[i]).wf(),
            forall|i: int| 0 <= i < reports@.len() ==> call_permitted(m, orig, i),
            forall|i: int| 0 <= i < reports@.len() ==> report_ok(orig, i, #[trigger] reports@[i]),
        decreases rest@.len(),
    {
        let ghost k = reports@.len() as int;
        proof {
            assert(rest@[0] == orig.skip(k)[0]);
            assert(orig.skip(k)[0] == orig[k]);
        }
        let call = rest.remove(0);
        proof {
            assert(rest@ =~= orig.skip(k + 1));
            assert(orig[k].wf());
        }
        let NativeCall { target, args } = call;
        let looked_up = rt.lookup_global(&target);
        let b = match looked_up {
            Some(b) => b,
            None => {
                proof {
                    assert(!call_permitted(m, orig, k));
                    assert(!calls_all_ok(m, orig)) by {
                        if calls_all_ok(m, orig) {
                            assert(call_permitted(m, orig, k));
                        }
                    }
                }
                return (ExecutionResult { success: false }, reports);
            },
        };
        let binding = registry.get(b);
        let ghost strs0 = rt.strings();
        let ghost args_view = args@;
        let vals = marshal_args(rt, args);
        let r = dispatch_call(&binding.handler, rt, &mut scopes, &vals);
        proof {
            lemma_call_values_len(strs0, args_view);
            if args_view.len() >= 1 {
                lemma_call_values_index(strs0, args_view, 0);
            }
            if args_view.len() >= 2 {
                lemma_call_values_index(strs0, args_view, 1);
            }
        }
        match r {
            Ok(rep) => {
                proof {
                    assert(call_args_ok(args_view)) by {
                        if args_view.len() >= 1 && !(args_view[0] is Number) {
                            assert(!(vals@[0] is Number));
                        }
                        if args_view.len() >= 2 && !(args_view[1] is AsciiText) && !(args_view[1]
                            is WideText) {
                            assert(!(vals@[1] is StringRef));
                        }
                    }
                    assert(call_permitted(m, orig, k));
                    assert(report_ok(orig, k, rep)) by {
                        assert(basic_invoke_ok(
                            strings_after_args(strs0, orig[k].args@),
                            call_values(strs0, orig[k].args@),
                            Ok(rep),
                        ));
                    }
                }
                reports.push(rep);
            },
            Err(_) => {
                proof {
                    assert(!call_args_ok(args_view)) by {
                        if call_args_ok(args_view) {
                            if args_view.len() == 0 {
                            } else if args_view.len() == 1 {
                                assert(vals@[0] is Number);
                            } else {
                                assert(vals@[0] is Number);
                                assert(vals@[1] is StringRef);
                                assert(rt.value_wf(vals@[1]));
                            }
                        }
                    }
                    assert(!call_permitted(m, orig, k));
                    assert(!calls_all_ok(m, orig)) by {
                        if calls_all_ok(m, orig) {
                            assert(call_permitted(m, orig, k));
                        }
                    }
                }
                return (ExecutionResult { success: false }, reports);
            },
        }
    }
    proof {
        assert(calls_all_ok(m, orig));
    }
    (ExecutionResult { success: true }, reports)
}

/// Whether one native call is open to a program that registered only the
/// basic test binding: the call targets that binding's name and passes
/// arguments its handler narrows without a type error.
pub open spec fn driver_call_permitted(c: NativeCall) -> bool {
    c.target@ == basic_binding_name() && call_args_ok(c.args@)
}

/// Whether every call of the script is open to this program.
pub open spec fn driver_calls_ok(calls: Seq<NativeCall>) -> bool {
    forall|i: int| 0 <= i < calls.len() ==> driver_call_permitted(#[trigger] calls[i])
}

/// A call to the registered binding that supplies fewer arguments than its
/// handler requires does not abort the run: it is dispatched like any
/// other permitted call (and the handler answers `undefined`, see
/// `lemma_insufficient_args_recoverable`). As there, a lone argument that
/// is not a number is a type error rather than an insufficiency and stands
/// outside the law.
pub proof fn lemma_short_call_keeps_run_alive(c: NativeCall)
    requires
        c.target@ == basic_binding_name(),
        c.args@.len() < 2,
        c.args@.len() == 1 ==> c.args@[0] is Number,
    ensures
        driver_call_permitted(c),
{
}

/// What one full run left behind: the process exit code, and the handlers'
/// reports of the native calls that were dispatched.
pub struct RunOutcome {
    pub code: i32,
    pub reports: Vec<InvokeReport>,
}

/// Drive one full execution of the given bytecode bytes: wrap them as a
/// buffer (failing fast on an empty region), take the bindings through
/// `start` and `install` against a fresh runtime with every definition
/// checked, hand the buffer to the engine entry point with the script's
/// native calls, and map the outcome to an exit code — zero exactly when
/// the buffer was valid and every native call resolved and dispatched
/// cleanly, one otherwise.
#[verifier::loop_isolation(false)]
pub fn run(bytes: &[u8], calls: Vec<NativeCall>) -> (out: RunOutcome)
    requires
        forall|i: int| 0 <= i < calls@.len() ==> (#[trigger] calls@[i]).wf(),
    ensures
        out.code == 0 || out.code == 1,
        bytes@.len() == 0 ==> out.code == 1 && out.reports@.len() == 0,
        bytes@.len() > 0 ==> (out.code == 0 <==> driver_calls_ok(calls@)),
        out.code == 0 ==> out.reports@.len() == calls@.len(),
        bytes@.len() > 0 && out.code == 1 ==> out.reports@.len() < calls@.len()
            && !driver_call_permitted(calls@[out.reports@.len() as int]),
        forall|i: int| 0 <= i < out.reports@.len() ==> report_ok(calls@, i, #[trigger] out.reports@[i]),
{
    let buffer = match wrap(bytes) {
        Ok(buffer) => buffer,
        Err(e) => {
            return RunOutcome { code: error_exit_code(&e), reports: Vec::new() };
        },
    };
    let started = RustBindingsDefine::new().start();
    let mut rt = Runtime::new(GLOBAL_HEAP_SLOTS);
    let ghost bs = started.registry().bindings();
    let ghost m0 = rt.globals_map();
    proof {
        assert(m0.dom() =~= Set::<Seq<char>>::empty());
        assert(m0 =~= Map::<Seq<char>, usize>::empty());
        assert(bs.drop_last() =~= Seq::<crate::registry::NativeBinding>::empty());
        assert(!names_of(bs.drop_last()).contains(bs.last().name@));
        assert(needed_slots(m0.dom(), bs.drop_last()) == 0);
        assert(needed_slots(m0.dom(), bs) == 1);
    }
    let install_result = started.install(&mut rt);
    match install_result {
        Ok(_) => {},
        Err(_) => {
            return unreached();
        },
    }
    let ghost m = rt.globals_map();
    proof {
        assert(m == installed_map(Map::<Seq<char>, usize>::empty(), bs));
        lemma_installed_from_empty(bs);
        lemma_installed_dom(Map::<Seq<char>, usize>::empty(), bs);
        assert forall|n: Seq<char>| #[trigger] names_of(bs).contains(n) implies n
            == basic_binding_name() by {
            let i = choose|i: int| 0 <= i < bs.len() && bs[i].name@ == n;
            assert(i == 0);
        };
        assert(names_of(bs).contains(basic_binding_name())) by {
            assert(bs[0].name@ == basic_binding_name());
        }
        assert(globals_resolve(rt, started.registry()));
        assert forall|n: Seq<char>| #[trigger] m.dom().contains(n) <==> n
            == basic_binding_name() by {
            if m.dom().contains(n) {
                assert(names_of(bs).contains(n));
            }
        };
    }
    let (result, reports) = execute(&buffer, started.registry_ref(), &mut rt, calls);
    proof {
        assert forall|i: int| 0 <= i < calls@.len() implies (call_permitted(m, calls@, i)
            <==> driver_call_permitted(#[trigger] calls@[i])) by {
            assert(m.dom().contains(calls@[i].target@) <==> calls@[i].target@
                == basic_binding_name());
        };
        if calls_all_ok(m, calls@) {
            assert forall|i: int| 0 <= i < calls@.len() implies driver_call_permitted(
                #[trigger] calls@[i],
            ) by {
                assert(call_permitted(m, calls@, i));
            };
        }
        if driver_calls_ok(calls@) {
            assert forall|i: int| 0 <= i < calls@.len() implies call_permitted(
                m,
                calls@,
                i,
            ) by {
                assert(driver_call_permitted(calls@[i]));
            };
        }
    }
    RunOutcome { code: exit_code(result.success), reports }
}

} // verus!
