//! The build-system subcommand that a configuration selects.

use vstd::prelude::*;

verus! {

/// Subcommand that the build system is asked to run.
#[derive(Debug, Clone, Copy, PartialEq, Eq, Structural)]
pub enum Mode {
    /// Build the tests and run them.
    Test,
    /// Build only.
    Build,
}

} // verus!
