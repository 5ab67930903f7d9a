use vstd::prelude::*;

verus! {

/// The version the command line reports.
pub const VERSION: &'static str = "0.12.0";

/// What the command line was asked to do.
pub enum Commands {
    /// Run a Vyn program.
    Run { file: String },
    /// Type check a Vyn program without running it.
    Check { file: String },
    /// Disassemble bytecode.
    Disasm { file: String },
    /// Show version information.
    Version,
}

/// The command line's arguments: a command and the display switches.
pub struct CliArgs {
    pub command: Commands,
    /// Disable the progress bar.
    pub no_progress: bool,
    /// Show timing information for each phase.
    pub verbose: bool,
    /// Minimal output.
    pub quiet: bool,
    /// Slow down compilation for debugging.
    pub slow_mode: bool,
}

impl CliArgs {
    /// Whether the progress bar is drawn: it is asked for and output is not
    /// kept minimal.
    pub fn shows_progress(&self) -> (b: bool)
        ensures
            b == (!self.no_progress && !self.quiet),
    {
        !self.no_progress && !self.quiet
    }

    /// Whether phase timings are shown: asked for, and output is not minimal.
    pub fn shows_timing(&self) -> (b: bool)
        ensures
            b == (self.verbose && !self.quiet),
    {
        self.verbose && !self.quiet
    }
}

} // verus!
