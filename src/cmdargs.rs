use vstd::prelude::*;

verus! {

/// What a run of the program was asked to do.
#[derive(Clone, Copy, Debug, PartialEq, Eq, Structural)]
pub enum AppAction {
    /// No subcommand.
    Root,
    /// Generate strings.
    Generate,
    /// Write the default configuration.
    DumpConfig,
}

} // verus!
