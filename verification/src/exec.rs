//! The exec engine's data model and verdict classification: the two captured
//! outcomes of one test — reference shell and candidate — are normalized,
//! compared as the configured mode demands, and turned into a verdict plus a
//! banner-delimited report transcript.

use crate::norm;
use crate::numfmt::{dec_int, padded_dec, push_dec_i32, push_padded_dec};
use crate::options::RunOptions;
use crate::rewrite::{contains_bytes, contains_seq, replace_all, replace_all_spec};
use crate::test::Test;
use vstd::prelude::*;
use vstd::string::StringExecFns;

verus! {

/// Exit code the memory checker is told to reserve for "leak detected"; used
/// purely as a classification signal.
pub const LEAK_EXIT_CODE: i32 = 3;

/// What one process invocation produced: its exit code (absent when the
/// process was terminated by a signal) and its captured byte streams.
#[derive(Debug, Clone)]
pub struct ExecOutcome {
    pub code: Option<i32>,
    pub stdout: Vec<u8>,
    pub stderr: Vec<u8>,
}

/// A failure of the exec engine itself, as opposed to a failing test.
#[derive(Debug, PartialEq, Eq)]
pub enum SetupError {
    /// A filesystem operation failed while resetting the fixture; fatal for
    /// the whole suite, since a stale fixture invalidates later results.
    Io(String),
}

/// What can go wrong running one test.
#[derive(Debug, PartialEq, Eq)]
pub enum ExecError {
    /// Fixture preparation failed.
    Setup(SetupError),
    /// An I/O failure while feeding or reaping the child process.
    Io(String),
    /// The interpreter could not be spawned; reported against this test only.
    Command(String),
    /// The sandbox tool itself failed to start; fatal for the whole suite.
    Bwrap,
}

pub open spec fn setup_error_text(e: SetupError) -> Seq<char> {
    match e {
        SetupError::Io(m) => "Error during setup: "@ + m@,
    }
}

pub open spec fn exec_error_text(e: ExecError) -> Seq<char> {
    match e {
        ExecError::Setup(s) => setup_error_text(s),
        ExecError::Io(m) => "Error during test execution: "@ + m@,
        ExecError::Command(m) => "Error during test subcommand execution: "@ + m@,
        ExecError::Bwrap => "Error from bwrap, probably missing executable"@,
    }
}

impl SetupError {
    /// The operator-facing description of this failure.
    pub fn describe(&self) -> (r: String)
        ensures
            r@ == setup_error_text(*self),
    {
        let mut s = String::new();
        s.append("Error during setup: ");
        match self {
            SetupError::Io(m) => {
                s.append(m.as_str());
            },
        }
        proof {
            assert(s@ =~= setup_error_text(*self));
        }
        s
    }
}

impl ExecError {
    /// The operator-facing description of this failure.
    pub fn describe(&self) -> (r: String)
        ensures
            r@ == exec_error_text(*self),
    {
        match self {
            ExecError::Setup(e) => e.describe(),
            ExecError::Io(m) => {
                let mut s = String::new();
                s.append("Error during test execution: ");
                s.append(m.as_str());
                proof {
                    assert(s@ =~= exec_error_text(*self));
                }
                s
            },
            ExecError::Command(m) => {
                let mut s = String::new();
                s.append("Error during test subcommand execution: ");
                s.append(m.as_str());
                proof {
                    assert(s@ =~= exec_error_text(*self));
                }
                s
            },
            ExecError::Bwrap => {
                let mut s = String::new();
                s.append("Error from bwrap, probably missing executable");
                proof {
                    assert(s@ =~= exec_error_text(*self));
                }
                s
            },
        }
    }
}

/// What `String::from_utf8_lossy` yields on these bytes, as text; a function
/// of the bytes alone.
pub uninterp spec fn lossy_text(b: Seq<u8>) -> Seq<char>;

/// Relies on `String::from_utf8_lossy`: decodes the bytes as UTF-8, replacing
/// invalid sequences with the replacement character. The result depends on
/// the bytes alone.
#[verifier::external_body]
fn lossy_string(b: &[u8]) -> (r: String)
    ensures
        r@ == lossy_text(b@),
{
    String::from_utf8_lossy(b).into_owned()
}

/// The marker the sandbox tool prints on standard error when it cannot start
/// the target executable.
pub open spec fn bwrap_marker() -> Seq<u8> {
    seq![98u8, 119u8, 114u8, 97u8, 112u8, 58u8, 32u8, 101u8, 120u8, 101u8, 99u8, 118u8, 112u8]
}

fn bwrap_marker_bytes() -> (r: Vec<u8>)
    ensures
        r@ == bwrap_marker(),
{
    let mut v: Vec<u8> = Vec::new();
    v.push(98u8);
    v.push(119u8);
    v.push(114u8);
    v.push(97u8);
    v.push(112u8);
    v.push(58u8);
    v.push(32u8);
    v.push(101u8);
    v.push(120u8);
    v.push(101u8);
    v.push(99u8);
    v.push(118u8);
    v.push(112u8);
    proof {
        assert(v@ =~= bwrap_marker());
    }
    v
}

/// Literal `/usr/bin/env`, rewritten in reference output.
pub open spec fn env_path_literal() -> Seq<u8> {
    seq![47u8, 117u8, 115u8, 114u8, 47u8, 98u8, 105u8, 110u8, 47u8, 101u8, 110u8, 118u8]
}

/// Literal `env`, the rewrite target.
pub open spec fn env_name_literal() -> Seq<u8> {
    seq![101u8, 110u8, 118u8]
}

/// Literal `minishell`, the candidate's conventional name.
pub open spec fn minishell_literal() -> Seq<u8> {
    seq![109u8, 105u8, 110u8, 105u8, 115u8, 104u8, 101u8, 108u8, 108u8]
}

fn env_path_bytes() -> (r: Vec<u8>)
    ensures
        r@ == env_path_literal(),
{
    let mut v: Vec<u8> = Vec::new();
    v.push(47u8);
    v.push(117u8);
    v.push(115u8);
    v.push(114u8);
    v.push(47u8);
    v.push(98u8);
    v.push(105u8);
    v.push(110u8);
    v.push(47u8);
    v.push(101u8);
    v.push(110u8);
    v.push(118u8);
    proof {
        assert(v@ =~= env_path_literal());
    }
    v
}

fn env_name_bytes() -> (r: Vec<u8>)
    ensures
        r@ == env_name_literal(),
{
    let mut v: Vec<u8> = Vec::new();
    v.push(101u8);
    v.push(110u8);
    v.push(118u8);
    proof {
        assert(v@ =~= env_name_literal());
    }
    v
}

fn minishell_bytes() -> (r: Vec<u8>)
    ensures
        r@ == minishell_literal(),
{
    let mut v: Vec<u8> = Vec::new();
    v.push(109u8);
    v.push(105u8);
    v.push(110u8);
    v.push(105u8);
    v.push(115u8);
    v.push(104u8);
    v.push(101u8);
    v.push(108u8);
    v.push(108u8);
    proof {
        assert(v@ =~= minishell_literal());
    }
    v
}

/// Normalizes both captured streams of one outcome: canonical ordering of
/// environment-listing runs, then trailing-newline repair.
pub fn normalize_outcome(o: &mut ExecOutcome)
    ensures
        final(o).code == old(o).code,
        final(o).stdout@ == norm::normalize_spec(old(o).stdout@),
        final(o).stderr@ == norm::normalize_spec(old(o).stderr@),
{
    norm::sort_env(&mut o.stdout);
    norm::ensure_newline(&mut o.stdout);
    norm::sort_env(&mut o.stderr);
    norm::ensure_newline(&mut o.stderr);
}

/// Reference-only rewriting: `/usr/bin/env` becomes `env`, and the reference
/// shell's own path becomes the candidate's conventional name, so that
/// self-referential messages compare equal.
pub open spec fn adjust_bash_spec(s: Seq<u8>, bash_path: Seq<u8>) -> Seq<u8> {
    replace_all_spec(
        replace_all_spec(s, env_path_literal(), env_name_literal()),
        bash_path,
        minishell_literal(),
    )
}

/// Applies the reference-only substitutions to one stream. The reference
/// shell's resolved path is never empty.
pub fn adjust_bash_output(bytes: &mut Vec<u8>, bash_path: &Vec<u8>)
    requires
        bash_path@.len() > 0,
    ensures
        final(bytes)@ == adjust_bash_spec(old(bytes)@, bash_path@),
{
    let from = env_path_bytes();
    let to = env_name_bytes();
    let step = replace_all(bytes, from.as_slice(), to.as_slice());
    let name = minishell_bytes();
    let done = replace_all(&step, bash_path.as_slice(), name.as_slice());
    *bytes = done;
}

/// Applies the reference-only substitutions to both streams of the reference
/// shell's outcome.
pub fn adjust_reference(o: &mut ExecOutcome, bash_path: &Vec<u8>)
    requires
        bash_path@.len() > 0,
    ensures
        final(o).code == old(o).code,
        final(o).stdout@ == adjust_bash_spec(old(o).stdout@, bash_path@),
        final(o).stderr@ == adjust_bash_spec(old(o).stderr@, bash_path@),
{
    adjust_bash_output(&mut o.stdout, bash_path);
    adjust_bash_output(&mut o.stderr, bash_path);
}

/// The sandbox tool started but could not run the target: a nonzero exit
/// combined with its failure marker on standard error. Fatal for the suite,
/// since it means the environment, not the test, is broken.
pub open spec fn sandbox_start_failed(opts: RunOptions, o: ExecOutcome) -> bool {
    opts.bwrap && o.code != Some(0i32) && contains_seq(o.stderr@, bwrap_marker())
}

/// The verdict for one test, from its two normalized captures. `Ok(true)`
/// passes, `Ok(false)` fails, `Err` aborts.
pub open spec fn verdict_spec(opts: RunOptions, bash: ExecOutcome, mini: ExecOutcome) -> Result<
    bool,
    ExecError,
> {
    if sandbox_start_failed(opts, bash) {
        Err(ExecError::Bwrap)
    } else if sandbox_start_failed(opts, mini) {
        Err(ExecError::Bwrap)
    } else if opts.valgrind && mini.code == Some(LEAK_EXIT_CODE) {
        Ok(false)
    } else if opts.valgrind && mini.code is Some {
        Ok(true)
    } else if opts.funcheck && mini.code == Some(0i32) {
        Ok(true)
    } else if opts.funcheck && mini.code is Some {
        Ok(false)
    } else if bash.code is None {
        Ok(false)
    } else if mini.code is None {
        Ok(false)
    } else if bash.code != mini.code {
        Ok(false)
    } else if bash.stdout@ != mini.stdout@ {
        Ok(false)
    } else if opts.error_check && bash.stderr@ != mini.stderr@ {
        Ok(false)
    } else {
        Ok(true)
    }
}

/// The report header for one test: a banner with its identifier, then the
/// script under test.
pub open spec fn header_text(id: int, commands: Seq<char>) -> Seq<char> {
    "\n##### TEST "@ + padded_dec(id, 7) + " #####\n"@ + commands + "\n"@
}

/// The captured standard output, shown only when non-empty.
pub open spec fn output_block(stdout: Seq<u8>) -> Seq<char> {
    if stdout.len() > 0 {
        "Output:\n"@ + lossy_text(stdout)
    } else {
        Seq::empty()
    }
}

/// The captured standard error, shown only when non-empty.
pub open spec fn error_block(stderr: Seq<u8>) -> Seq<char> {
    if stderr.len() > 0 {
        "Error:\n"@ + lossy_text(stderr)
    } else {
        Seq::empty()
    }
}

/// The closing banner of one report block.
pub open spec fn banner_end() -> Seq<char> {
    "########################\n"@
}

/// The candidate's exit code, shown only when it exited normally.
pub open spec fn status_block(code: Option<i32>) -> Seq<char> {
    match code {
        Some(c) => "Status: "@ + dec_int(c as int) + "\n"@,
        None => Seq::empty(),
    }
}

/// The full report transcript for one test, following the same decision order
/// as `verdict_spec`.
pub open spec fn transcript_spec(
    test: Test,
    opts: RunOptions,
    bash: ExecOutcome,
    mini: ExecOutcome,
) -> Seq<char> {
    let h = header_text(test.id as int, test.commands@);
    if sandbox_start_failed(opts, bash) {
        h + "## BASH FAILED TO RUN! ##\n"@ + lossy_text(bash.stderr@)
    } else if sandbox_start_failed(opts, mini) {
        h + "#### FAILED TO RUN! ####\n"@ + lossy_text(mini.stderr@)
    } else if opts.valgrind && mini.code == Some(LEAK_EXIT_CODE) {
        h + "#### VALGRIND ERROR ####\n"@ + output_block(mini.stdout@) + error_block(mini.stderr@)
            + banner_end()
    } else if opts.valgrind && mini.code is Some {
        h + "####### SUCCESS! #######\n"@
    } else if opts.funcheck && mini.code == Some(0i32) {
        h + "####### SUCCESS! #######\n"@
    } else if opts.funcheck && mini.code is Some {
        h + "#### FUNCHECK ERROR ####\n"@ + output_block(mini.stdout@) + error_block(mini.stderr@)
            + banner_end()
    } else if bash.code is None {
        h + "#### BASH CRASHED! #####\n"@
    } else if mini.code is None {
        h + "### PROGRAM CRASHED! ###\n"@
    } else if bash.code != mini.code {
        h + "######## FAILED ########\n"@ + "Expected status "@ + dec_int(bash.code->0 as int)
            + ", got "@ + dec_int(mini.code->0 as int) + "\n"@ + output_block(mini.stdout@)
            + error_block(mini.stderr@) + banner_end()
    } else if bash.stdout@ != mini.stdout@ {
        h + "######## FAILED ########\n"@ + "Expected output:\n"@ + lossy_text(bash.stdout@)
            + "Tested output:\n"@ + lossy_text(mini.stdout@) + error_block(mini.stderr@)
            + banner_end()
    } else if opts.error_check && bash.stderr@ != mini.stderr@ {
        h + "######## FAILED ########\n"@ + output_block(mini.stdout@) + "Expected error:\n"@
            + lossy_text(bash.stderr@) + "Tested error:\n"@ + lossy_text(mini.stderr@)
            + banner_end()
    } else {
        h + "####### SUCCESS! #######\n"@ + status_block(mini.code) + output_block(mini.stdout@)
            + error_block(mini.stderr@) + banner_end()
    }
}

/// Appends the standard-output block to the transcript.
fn append_output_block(t: &mut String, stdout: &Vec<u8>)
    ensures
        final(t)@ == old(t)@ + output_block(stdout@),
{
    if stdout.len() > 0 {
        t.append("Output:\n");
        let text = lossy_string(stdout.as_slice());
        t.append(text.as_str());
        proof {
            assert(t@ =~= old(t)@ + output_block(stdout@));
        }
    } else {
        proof {
            assert(t@ =~= old(t)@ + output_block(stdout@));
        }
    }
}

/// Appends the standard-error block to the transcript.
fn append_error_block(t: &mut String, stderr: &Vec<u8>)
    ensures
        final(t)@ == old(t)@ + error_block(stderr@),
{
    if stderr.len() > 0 {
        t.append("Error:\n");
        let text = lossy_string(stderr.as_slice());
        t.append(text.as_str());
        proof {
            assert(t@ =~= old(t)@ + error_block(stderr@));
        }
    } else {
        proof {
            assert(t@ =~= old(t)@ + error_block(stderr@));
        }
    }
}

/// Whether an optional exit code equals a given code.
fn code_is(code: &Option<i32>, v: i32) -> (r: bool)
    ensures
        r == (*code == Some(v)),
{
    match code {
        Some(c) => *c == v,
        None => false,
    }
}

/// Whether two captured streams are byte-for-byte equal.
fn bytes_eq(a: &Vec<u8>, b: &Vec<u8>) -> (r: bool)
    ensures
        r == (a@ == b@),
{
    if a.len() != b.len() {
        return false;
    }
    let mut i: usize = 0;
    while i < a.len()
        invariant
            i <= a@.len(),
            a@.len() == b@.len(),
            forall|j: int| 0 <= j < i ==> a@[j] == b@[j],
        decreases a@.len() - i,
    {
        if a[i] != b[i] {
            return false;
        }
        i = i + 1;
    }
    proof {
        assert(a@ =~= b@);
    }
    true
}

/// Classifies one test from its two normalized captures, producing the
/// verdict and the full banner-delimited report transcript. The reference
/// outcome must already carry the reference-only substitutions.
pub fn exec_test(test: &Test, opts: &RunOptions, bash: &ExecOutcome, mini: &ExecOutcome) -> (r: (
    Result<bool, ExecError>,
    String,
))
    ensures
        r.0 == verdict_spec(*opts, *bash, *mini),
        r.1@ == transcript_spec(*test, *opts, *bash, *mini),
{
    let ghost h = header_text(test.id as int, test.commands@);
    let mut t = String::new();
    t.append("\n##### TEST ");
    push_padded_dec(test.id as u64, 7, &mut t);
    t.append(" #####\n");
    t.append(test.commands.as_str());
    t.append("\n");
    proof {
        assert(t@ =~= h);
    }
    let marker = bwrap_marker_bytes();

    if opts.bwrap && !code_is(&bash.code, 0) && contains_bytes(&bash.stderr, marker.as_slice()) {
        t.append("## BASH FAILED TO RUN! ##\n");
        let text = lossy_string(bash.stderr.as_slice());
        t.append(text.as_str());
        proof {
            assert(t@ =~= transcript_spec(*test, *opts, *bash, *mini));
        }
        return (Err(ExecError::Bwrap), t);
    }
    if opts.bwrap && !code_is(&mini.code, 0) && contains_bytes(&mini.stderr, marker.as_slice()) {
        t.append("#### FAILED TO RUN! ####\n");
        let text = lossy_string(mini.stderr.as_slice());
        t.append(text.as_str());
        proof {
            assert(t@ =~= transcript_spec(*test, *opts, *bash, *mini));
        }
        return (Err(ExecError::Bwrap), t);
    }
    if opts.valgrind {
        if code_is(&mini.code, LEAK_EXIT_CODE) {
            t.append("#### VALGRIND ERROR ####\n");
            append_output_block(&mut t, &mini.stdout);
            append_error_block(&mut t, &mini.stderr);
            t.append("########################\n");
            proof {
                assert(t@ =~= transcript_spec(*test, *opts, *bash, *mini));
            }
            return (Ok(false), t);
        }
        if mini.code.is_some() {
            t.append("####### SUCCESS! #######\n");
            proof {
                assert(t@ =~= transcript_spec(*test, *opts, *bash, *mini));
            }
            return (Ok(true), t);
        }
    }
    if opts.funcheck {
        if code_is(&mini.code, 0) {
            t.append("####### SUCCESS! #######\n");
            proof {
                assert(t@ =~= transcript_spec(*test, *opts, *bash, *mini));
            }
            return (Ok(true), t);
        }
        if mini.code.is_some() {
            t.append("#### FUNCHECK ERROR ####\n");
            append_output_block(&mut t, &mini.stdout);
            append_error_block(&mut t, &mini.stderr);
            t.append("########################\n");
            proof {
                assert(t@ =~= transcript_spec(*test, *opts, *bash, *mini));
            }
            return (Ok(false), t);
        }
    }
    match (&bash.code, &mini.code) {
        (Some(bash_code), Some(mini_code)) => {
            if *bash_code != *mini_code {
                t.append("######## FAILED ########\n");
                t.append("Expected status ");
                push_dec_i32(*bash_code, &mut t);
                t.append(", got ");
                push_dec_i32(*mini_code, &mut t);
                t.append("\n");
                append_output_block(&mut t, &mini.stdout);
                append_error_block(&mut t, &mini.stderr);
                t.append("########################\n");
                proof {
                    assert(t@ =~= transcript_spec(*test, *opts, *bash, *mini));
                }
                return (Ok(false), t);
            }
        },
        (None, _) => {
            t.append("#### BASH CRASHED! #####\n");
            proof {
                assert(t@ =~= transcript_spec(*test, *opts, *bash, *mini));
            }
            return (Ok(false), t);
        },
        (_, None) => {
            t.append("### PROGRAM CRASHED! ###\n");
            proof {
                assert(t@ =~= transcript_spec(*test, *opts, *bash, *mini));
            }
            return (Ok(false), t);
        },
    }
    if !bytes_eq(&bash.stdout, &mini.stdout) {
        t.append("######## FAILED ########\n");
        t.append("Expected output:\n");
        let expected = lossy_string(bash.stdout.as_slice());
        t.append(expected.as_str());
        t.append("Tested output:\n");
        let tested = lossy_string(mini.stdout.as_slice());
        t.append(tested.as_str());
        append_error_block(&mut t, &mini.stderr);
        t.append("########################\n");
        proof {
            assert(t@ =~= transcript_spec(*test, *opts, *bash, *mini));
        }
        return (Ok(false), t);
    }
    if opts.error_check && !bytes_eq(&bash.stderr, &mini.stderr) {
        t.append("######## FAILED ########\n");
        append_output_block(&mut t, &mini.stdout);
        t.append("Expected error:\n");
        let expected = lossy_string(bash.stderr.as_slice());
        t.append(expected.as_str());
        t.append("Tested error:\n");
        let tested = lossy_string(mini.stderr.as_slice());
        t.append(tested.as_str());
        t.append("########################\n");
        proof {
            assert(t@ =~= transcript_spec(*test, *opts, *bash, *mini));
        }
        return (Ok(false), t);
    }
    t.append("####### SUCCESS! #######\n");
    match &mini.code {
        Some(c) => {
            t.append("Status: ");
            push_dec_i32(*c, &mut t);
            t.append("\n");
        },
        None => {},
    }
    append_output_block(&mut t, &mini.stdout);
    append_error_block(&mut t, &mini.stderr);
    t.append("########################\n");
    proof {
        assert(t@ =~= transcript_spec(*test, *opts, *bash, *mini));
    }
    (Ok(true), t)
}

/// Determinism: the verdict and the transcript are functions of the test, the
/// options and the two captured outcomes alone, so running the same test
/// twice against the same candidate and reference, with no environment drift,
/// classifies the same way both times.
pub proof fn lemma_classify_deterministic(
    t1: Test,
    t2: Test,
    o1: RunOptions,
    o2: RunOptions,
    b1: ExecOutcome,
    b2: ExecOutcome,
    m1: ExecOutcome,
    m2: ExecOutcome,
)
    requires
        t1 == t2,
        o1 == o2,
        b1 == b2,
        m1 == m2,
    ensures
        verdict_spec(o1, b1, m1) == verdict_spec(o2, b2, m2),
        transcript_spec(t1, o1, b1, m1) == transcript_spec(t2, o2, b2, m2),
{
}

} // verus!
