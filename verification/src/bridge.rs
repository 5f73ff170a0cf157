//! The device bridge: the external program through which devices are listed
//! and queried.
//!
//! The library does not run it. This module says how to call it for its
//! version and for the device listing, and holds what a call came to.

use vstd::prelude::*;
use vstd::string::*;

verus! {

/// How one call of the bridge ended.
#[derive(Debug)]
pub enum BridgeOutcome {
    /// The bridge could not be started.
    NotLaunched,
    /// The bridge ran: whether it exited with success, and what it printed.
    Exited { success: bool, output: String },
}

/// The bridge cannot be located or started.
#[derive(Debug, Clone, Copy, PartialEq, Eq, Structural)]
pub struct BridgeUnavailable;

/// The name of the bridge program.
pub fn program_name() -> (name: String)
    ensures
        name@ == "adb"@,
{
    "adb".to_owned()
}

/// The arguments of the call that shows whether the bridge can be started.
pub open spec fn version_command() -> Seq<Seq<char>> {
    seq!["version"@]
}

/// The arguments of the call that lists the attached devices, in the long
/// form that carries the model.
pub open spec fn listing_command() -> Seq<Seq<char>> {
    seq!["devices"@, "-l"@]
}

/// The views of a run of strings, in order.
pub open spec fn texts_of(words: Seq<String>) -> Seq<Seq<char>> {
    Seq::new(words.len(), |i: int| words[i]@)
}

/// The arguments to hand to the bridge to see whether it can be started.
pub fn version_arguments() -> (arguments: Vec<String>)
    ensures
        texts_of(arguments@) == version_command(),
{
    let mut arguments: Vec<String> = Vec::new();
    arguments.push("version".to_owned());
    arguments
}

/// The arguments to hand to the bridge for a listing of the attached devices.
pub fn listing_arguments() -> (arguments: Vec<String>)
    ensures
        texts_of(arguments@) == listing_command(),
{
    let mut arguments: Vec<String> = Vec::new();
    arguments.push("devices".to_owned());
    arguments.push("-l".to_owned());
    arguments
}

/// The bridge is available when the call could be started, however it
/// exited.
pub fn is_available(outcome: &BridgeOutcome) -> (available: bool)
    ensures
        available == (*outcome is Exited),
{
    match outcome {
        BridgeOutcome::NotLaunched => false,
        BridgeOutcome::Exited { .. } => true,
    }
}

/// The listing that a call of the bridge printed, whatever its exit status.
pub open spec fn listing_of(outcome: BridgeOutcome) -> Result<Seq<char>, BridgeUnavailable> {
    match outcome {
        BridgeOutcome::NotLaunched => Err(BridgeUnavailable),
        BridgeOutcome::Exited { success, output } => Ok(output@),
    }
}

/// The device listing out of the call that asked for it.
pub fn listing_text(outcome: BridgeOutcome) -> (listing: Result<String, BridgeUnavailable>)
    ensures
        match listing {
            Ok(text) => listing_of(outcome) == Ok::<Seq<char>, BridgeUnavailable>(text@),
            Err(error) => listing_of(outcome) == Err::<Seq<char>, BridgeUnavailable>(error),
        },
{
    match outcome {
        BridgeOutcome::NotLaunched => Err(BridgeUnavailable),
        BridgeOutcome::Exited { success, output } => Ok(output),
    }
}

} // verus!
