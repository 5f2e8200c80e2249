use vstd::prelude::*;

verus! {

/// Output verbosity of a run.
#[derive(Debug, Clone, Copy, PartialEq, Eq, Structural)]
pub enum Verbosity {
    /// Summary only.
    Simple,
    /// Progress plus a strip of recently touched files.
    Standard,
    /// Terminal-height-adaptive detailed progress.
    Detailed,
}

impl Verbosity {
    /// Maps the number of `-v` flags to a verbosity level: none gives
    /// `Simple`, one gives `Standard`, two or more give `Detailed`.
    pub fn from_count(count: u8) -> (v: Verbosity)
        ensures
            v == Verbosity::from_count_spec(count),
    {
        match count {
            0 => Verbosity::Simple,
            1 => Verbosity::Standard,
            _ => Verbosity::Detailed,
        }
    }

    pub open spec fn from_count_spec(count: u8) -> Verbosity {
        if count == 0 {
            Verbosity::Simple
        } else if count == 1 {
            Verbosity::Standard
        } else {
            Verbosity::Detailed
        }
    }

    pub open spec fn is_verbose_spec(self) -> bool {
        self == Verbosity::Standard || self == Verbosity::Detailed
    }

    /// Whether this level asks for per-item output.
    pub fn is_verbose(&self) -> (r: bool)
        ensures
            r == self.is_verbose_spec(),
    {
        match self {
            Verbosity::Standard => true,
            Verbosity::Detailed => true,
            Verbosity::Simple => false,
        }
    }
}

/// Settings of one removal run.
#[derive(Debug, Clone, Copy, PartialEq, Eq, Structural)]
pub struct RemoveConfig {
    pub verbosity: Verbosity,
    /// When set, no filesystem object is touched: jobs are acknowledged only.
    pub dry_run: bool,
    /// When set, per-item errors are recorded and work continues; otherwise
    /// the first error aborts the affected subtree.
    pub continue_on_error: bool,
}

impl RemoveConfig {
    pub fn new(verbosity: Verbosity, dry_run: bool, continue_on_error: bool) -> (c: RemoveConfig)
        ensures
            c.verbosity == verbosity,
            c.dry_run == dry_run,
            c.continue_on_error == continue_on_error,
    {
        RemoveConfig { verbosity, dry_run, continue_on_error }
    }

    /// Whether a performed (or skipped) action should be echoed per item.
    pub fn should_log_action(&self) -> (r: bool)
        ensures
            r == (self.verbosity.is_verbose_spec() || self.dry_run),
    {
        self.verbosity.is_verbose() || self.dry_run
    }

    /// Whether the inspection of a path should be echoed.
    pub fn should_log_check(&self) -> (r: bool)
        ensures
            r == self.verbosity.is_verbose_spec(),
    {
        self.verbosity.is_verbose()
    }
}

/// Picks a worker-pool size: an explicit per-pool request wins, then the
/// shared request, then the machine's CPU count.
pub fn resolve_thread_count(specific: Option<usize>, shared: Option<usize>, cpu_count: usize) -> (
    n: usize)
    ensures
        n == if specific is Some {
            specific->0
        } else if shared is Some {
            shared->0
        } else {
            cpu_count
        },
{
    match specific {
        Some(n) => n,
        None => match shared {
            Some(n) => n,
            None => cpu_count,
        },
    }
}

} // verus!
