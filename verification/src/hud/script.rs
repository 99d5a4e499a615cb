//! Scripts: assets of source bytes that the HUD loads.
use vstd::prelude::*;

verus! {

/// A script, as the bytes of its source.
#[derive(Default, Debug)]
pub struct Script {
    pub bytes: Vec<u8>,
}

impl From<Vec<u8>> for Script {
    /// The script with the given source bytes.
    fn from(bytes: Vec<u8>) -> (s: Self) {
        Script { bytes }
    }
}

impl vstd::std_specs::convert::FromSpecImpl<Vec<u8>> for Script {
    open spec fn obeys_from_spec() -> bool {
        true
    }

    open spec fn from_spec(bytes: Vec<u8>) -> Script {
        Script { bytes }
    }
}

/// Errors while loading a script.
#[derive(Debug)]
pub enum ScriptError {
    IoError(std::io::Error),
}

impl From<std::io::Error> for ScriptError {
    /// The error for an I/O error.
    fn from(error: std::io::Error) -> (e: Self) {
        ScriptError::IoError(error)
    }
}

impl vstd::std_specs::convert::FromSpecImpl<std::io::Error> for ScriptError {
    open spec fn obeys_from_spec() -> bool {
        true
    }

    open spec fn from_spec(error: std::io::Error) -> ScriptError {
        ScriptError::IoError(error)
    }
}

/// The settings of the script loader.
#[derive(Default, Debug)]
pub struct ScriptSettings;

/// Loads scripts from their source files.
#[derive(Default, Debug)]
pub struct ScriptLoader {}

impl ScriptLoader {
    /// The file extensions of scripts: `ethos`, `ts` and `tsx`.
    pub fn extensions(&self) -> (e: &'static [&'static str])
        ensures
            e@.len() == 3,
            e@[0]@ == "ethos"@,
            e@[1]@ == "ts"@,
            e@[2]@ == "tsx"@,
    {
        &["ethos", "ts", "tsx"]
    }
}

} // verus!
