//! The run's options: where the configuration and the two hook scripts
//! live, the `force` policy, and how chatty the run is.  Parsing a command
//! line into these is the binary's business.

use vstd::prelude::*;

verus! {

/// Options of one deployment run.
#[derive(Debug, Clone)]
pub struct Options {
    /// Path of the configuration file.
    pub config: String,
    /// Path of the script run before deployment.
    pub pre: String,
    /// Path of the script run after deployment.
    pub post: String,
    /// Re-apply mappings whose target already matches the source.
    pub force: bool,
    /// Report errors only.
    pub quiet: bool,
    /// How much detail to report (0 to 2).
    pub verbosity: u8,
}

impl Default for Options {
    /// Empty paths, no force, no quiet, default verbosity.
    fn default() -> (r: Options)
        ensures
            r.config@ == Seq::<char>::empty(),
            r.pre@ == Seq::<char>::empty(),
            r.post@ == Seq::<char>::empty(),
            !r.force,
            !r.quiet,
            r.verbosity == 0,
    {
        Options {
            config: String::new(),
            pre: String::new(),
            post: String::new(),
            force: false,
            quiet: false,
            verbosity: 0,
        }
    }
}

} // verus!
