//! The settings of one run.

use vstd::prelude::*;

verus! {

/// Policy of one run. It selects how changes are detected and whether FLAC
/// output is delivered as MP3.
#[derive(Clone, Copy, Debug, PartialEq, Eq, Structural)]
pub enum Mode {
    /// A track is synchronised when it is missing or its size has changed by
    /// a tenth or more; FLAC stays FLAC.
    Default,
    /// A track is synchronised only when it is missing; FLAC is delivered as
    /// MP3.
    Legacy,
}

/// What a run works on: the two library roots and the policy.
#[derive(Clone, Debug, PartialEq, Eq)]
pub struct Config {
    pub source: String,
    pub destination: String,
    pub mode: Mode,
}

/// The command line: where the configuration is read from.
#[derive(Clone, Debug, PartialEq, Eq)]
pub struct Cmd {
    pub config: Option<String>,
}

} // verus!
