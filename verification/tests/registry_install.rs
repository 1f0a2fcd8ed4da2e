use native_bridge::bindings::RustBindingsDefine;
use native_bridge::dispatch::{BasicRustJSFunction, HostHandler};
use native_bridge::errors::BridgeError;
use native_bridge::registry::{is_identifier_name, Registry};
use native_bridge::runtime::Runtime;

#[test]
fn identifier_names_are_checked() {
    assert!(is_identifier_name("nativeTest"));
    assert!(is_identifier_name("a"));
    assert!(is_identifier_name("_private"));
    assert!(is_identifier_name("$jquery"));
    assert!(is_identifier_name("a1b2"));
    assert!(!is_identifier_name(""));
    assert!(!is_identifier_name("9lives"));
    assert!(!is_identifier_name("a-b"));
    assert!(!is_identifier_name("with space"));
}

#[test]
fn define_global_is_last_writer_wins() {
    let mut rt = Runtime::new(4);
    let name = "nativeTest".to_string();
    assert!(rt.define_global(&name, 0));
    assert_eq!(rt.lookup_global(&name), Some(0));
    assert!(rt.define_global(&name, 7));
    assert_eq!(rt.lookup_global(&name), Some(7));
    assert_eq!(rt.lookup_global(&"other".to_string()), None);
}

#[test]
fn define_global_reports_heap_exhaustion() {
    let mut rt = Runtime::new(1);
    assert!(rt.define_global(&"first".to_string(), 0));
    // a fresh name needs a fresh slot, and none is left
    assert!(!rt.define_global(&"second".to_string(), 1));
    // overwriting an existing entry needs none
    assert!(rt.define_global(&"first".to_string(), 2));
    assert_eq!(rt.lookup_global(&"first".to_string()), Some(2));
    assert_eq!(rt.lookup_global(&"second".to_string()), None);
}

#[test]
fn registry_install_binds_every_name() {
    let mut reg = Registry::new();
    let a = reg.define("alpha".to_string(), 0, HostHandler::Basic(BasicRustJSFunction::new()));
    let b = reg.define("beta".to_string(), 2, HostHandler::Basic(BasicRustJSFunction::new()));
    assert_eq!(a, 0);
    assert_eq!(b, 1);
    assert_eq!(reg.len(), 2);
    let mut rt = Runtime::new(8);
    assert!(reg.install(&mut rt).is_ok());
    assert_eq!(rt.lookup_global(&"alpha".to_string()), Some(0));
    assert_eq!(rt.lookup_global(&"beta".to_string()), Some(1));
    assert_eq!(reg.get(1).name, "beta".to_string());
    assert_eq!(reg.get(1).arity, 2);
}

#[test]
fn registry_install_last_registration_wins() {
    let mut reg = Registry::new();
    reg.define("f".to_string(), 0, HostHandler::Basic(BasicRustJSFunction::new()));
    reg.define("f".to_string(), 1, HostHandler::Basic(BasicRustJSFunction::new()));
    let mut rt = Runtime::new(8);
    assert!(reg.install(&mut rt).is_ok());
    assert_eq!(rt.lookup_global(&"f".to_string()), Some(1));
}

#[test]
fn registry_install_fails_without_heap() {
    let mut reg = Registry::new();
    reg.define("f".to_string(), 0, HostHandler::Basic(BasicRustJSFunction::new()));
    let mut rt = Runtime::new(0);
    assert_eq!(reg.install(&mut rt), Err(BridgeError::DefinitionFailed));
}

// After start and install, a guest-side lookup of the registered name
// resolves to a callable binding; a failed installation aborts before any
// bytecode would run.
#[test]
fn started_bindings_install_resolves_native_test() {
    let started = RustBindingsDefine::new().start();
    let mut rt = Runtime::new(8);
    assert!(started.install(&mut rt).is_ok());
    let binding_id = rt.lookup_global(&"nativeTest".to_string());
    assert_eq!(binding_id, Some(0));
    let binding = started.registry_ref().get(0);
    assert_eq!(binding.name, "nativeTest".to_string());
    assert_eq!(binding.arity, 0);
}

#[test]
fn started_bindings_install_fails_on_exhausted_heap() {
    let started = RustBindingsDefine::new().start();
    let mut rt = Runtime::new(0);
    assert_eq!(started.install(&mut rt), Err(BridgeError::DefinitionFailed));
    assert_eq!(rt.lookup_global(&"nativeTest".to_string()), None);
}
