//! The bridge's error taxonomy.

use vstd::prelude::*;

verus! {

/// Everything that can go wrong while driving one execution of a bytecode
/// file through the bridge.
///
/// `InsufficientArguments` is deliberately absent: a native call that
/// arrives with fewer arguments than its handler needs is a local,
/// recoverable condition, handled inside the dispatcher by returning an
/// encoded `undefined`, and never surfaces as an error.
#[derive(Clone, Copy, Debug, PartialEq, Eq, Structural)]
pub enum BridgeError {
    /// The process was started with the wrong number of arguments.
    UsageError,
    /// The bytecode file could not be read.
    IoError,
    /// The byte region handed to the buffer loader was empty or rejected.
    InvalidBuffer,
    /// A native binding could not be installed into the guest's global
    /// namespace; continuing would run a script that expects a function
    /// that does not exist, so this is fatal.
    DefinitionFailed,
    /// A native call received an argument of an unexpected type.
    TypeMismatch,
}

impl BridgeError {
    /// A short diagnostic text for the error stream.
    pub fn describe(&self) -> (s: &'static str)
        ensures
            s@.len() > 0,
            *self == BridgeError::UsageError ==> s@ == "wrong number of arguments"@,
            *self == BridgeError::IoError ==> s@ == "could not read the bytecode file"@,
            *self == BridgeError::InvalidBuffer ==> s@ == "empty or rejected bytecode buffer"@,
            *self == BridgeError::DefinitionFailed ==> s@ == "failed to install a native binding"@,
            *self == BridgeError::TypeMismatch ==> s@
                == "native call argument had an unexpected type"@,
    {
        proof {
            reveal_strlit("wrong number of arguments");
            reveal_strlit("could not read the bytecode file");
            reveal_strlit("empty or rejected bytecode buffer");
            reveal_strlit("failed to install a native binding");
            reveal_strlit("native call argument had an unexpected type");
        }
        match self {
            BridgeError::UsageError => "wrong number of arguments",
            BridgeError::IoError => "could not read the bytecode file",
            BridgeError::InvalidBuffer => "empty or rejected bytecode buffer",
            BridgeError::DefinitionFailed => "failed to install a native binding",
            BridgeError::TypeMismatch => "native call argument had an unexpected type",
        }
    }
}

} // verus!
