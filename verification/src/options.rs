//! Run configuration, shared read-only by every component of one suite run.

use vstd::prelude::*;

verus! {

/// Paths to the executables a run needs. Relative paths are resolved against
/// the invocation directory by the caller.
#[derive(Debug, Clone)]
pub struct ExecPaths {
    /// The candidate shell under test.
    pub minishell: String,
    /// The trusted reference shell.
    pub bash: String,
    /// The sandbox tool used for isolation.
    pub bwrap_path: String,
}

/// Flags and paths of one suite run; immutable once the run starts.
#[derive(Debug, Clone)]
pub struct RunOptions {
    pub exec_paths: ExecPaths,
    /// Skip the tests before this position.
    pub start: usize,
    /// Stop after exactly one test.
    pub one: bool,
    /// Keep running after a failed test.
    pub keep_going: bool,
    /// Do not show passed tests.
    pub quiet: bool,
    /// Run the reference shell in POSIX-compatibility mode.
    pub bash_posix: bool,
    /// Wrap the candidate in the memory checker.
    pub valgrind: bool,
    /// Wrap the candidate in the lighter fault checker.
    pub funcheck: bool,
    /// Also compare the standard-error streams.
    pub error_check: bool,
    /// Ignore the ignore list.
    pub no_ignore: bool,
    /// Isolate each invocation in a sandbox.
    pub bwrap: bool,
    /// Run tests concurrently; demands sandboxing.
    pub parallel: bool,
    /// Re-run the suite when the candidate is rebuilt.
    pub watch: bool,
}

/// A configuration is sound when the two fault-check modes are not combined
/// and parallel execution has the sandboxing it depends on: without a sandbox,
/// concurrent invocations would share one fixture path.
pub open spec fn options_valid(o: RunOptions) -> bool {
    (o.parallel ==> o.bwrap) && !(o.valgrind && o.funcheck)
}

/// Decides `options_valid`; callers refuse to run on an unsound configuration.
pub fn validate_options(o: &RunOptions) -> (r: bool)
    ensures
        r == options_valid(*o),
{
    (!o.parallel || o.bwrap) && !(o.valgrind && o.funcheck)
}

} // verus!
