use maxitest::exec::{
    adjust_reference, exec_test, normalize_outcome, ExecError, ExecOutcome, SetupError,
};
use maxitest::options::{validate_options, ExecPaths, RunOptions};
use maxitest::plan::{
    build_command, candidate_program, join_path_if_relative, setup_plan,
};
use maxitest::test::Test;

fn options() -> RunOptions {
    RunOptions {
        exec_paths: ExecPaths {
            minishell: "../minishell".to_string(),
            bash: "/usr/bin/bash".to_string(),
            bwrap_path: "/usr/bin/bwrap".to_string(),
        },
        start: 0,
        one: false,
        keep_going: false,
        quiet: false,
        bash_posix: false,
        valgrind: false,
        funcheck: false,
        error_check: false,
        no_ignore: false,
        bwrap: false,
        parallel: false,
        watch: false,
    }
}

fn outcome(code: Option<i32>, stdout: &[u8], stderr: &[u8]) -> ExecOutcome {
    ExecOutcome { code, stdout: stdout.to_vec(), stderr: stderr.to_vec() }
}

fn test_record(id: usize, commands: &str) -> Test {
    Test { id, commands: commands.to_string() }
}

#[test]
fn matching_outputs_pass() {
    let t = test_record(0, "echo hi");
    let bash = outcome(Some(0), b"hi\n", b"");
    let mini = outcome(Some(0), b"hi\n", b"");
    let (verdict, transcript) = exec_test(&t, &options(), &bash, &mini);
    assert_eq!(verdict, Ok(true));
    assert!(transcript.contains("SUCCESS"));
}

#[test]
fn passing_transcript_is_exact() {
    let t = test_record(3, "echo hi");
    let bash = outcome(Some(0), b"hi\n", b"");
    let mini = outcome(Some(0), b"hi\n", b"");
    let (_, transcript) = exec_test(&t, &options(), &bash, &mini);
    assert_eq!(
        transcript,
        "\n##### TEST       3 #####\necho hi\n\
         ####### SUCCESS! #######\nStatus: 0\nOutput:\nhi\n########################\n"
    );
}

#[test]
fn matching_nonzero_exits_pass() {
    let t = test_record(1, "exit 7");
    let bash = outcome(Some(7), b"", b"");
    let mini = outcome(Some(7), b"", b"");
    let (verdict, transcript) = exec_test(&t, &options(), &bash, &mini);
    assert_eq!(verdict, Ok(true));
    assert!(transcript.contains("Status: 7"));
    assert!(!transcript.contains("Output:"));
}

#[test]
fn reversed_env_listing_passes_after_normalization() {
    let t = test_record(2, "export A=1; export B=2; env");
    let mut bash = outcome(Some(0), b"B=2\nA=1\n", b"");
    let mut mini = outcome(Some(0), b"A=1\nB=2\n", b"");
    normalize_outcome(&mut bash);
    normalize_outcome(&mut mini);
    let (verdict, _) = exec_test(&t, &options(), &bash, &mini);
    assert_eq!(verdict, Ok(true));
}

#[test]
fn self_referential_messages_compare_equal_after_adjustment() {
    let t = test_record(3, "nosuch");
    let mut bash = outcome(
        Some(127),
        b"",
        b"/usr/bin/bash: line 1: nosuch: command not found",
    );
    let mut mini = outcome(
        Some(127),
        b"",
        b"minishell: line 1: nosuch: command not found",
    );
    normalize_outcome(&mut bash);
    normalize_outcome(&mut mini);
    adjust_reference(&mut bash, &b"/usr/bin/bash".to_vec());
    let mut opts = options();
    opts.error_check = true;
    let (verdict, _) = exec_test(&t, &opts, &bash, &mini);
    assert_eq!(verdict, Ok(true));
}

#[test]
fn candidate_crash_fails_whatever_the_reference_did() {
    let t = test_record(4, "echo boom");
    let bash = outcome(Some(0), b"boom\n", b"");
    let mini = outcome(None, b"", b"");
    let (verdict, transcript) = exec_test(&t, &options(), &bash, &mini);
    assert_eq!(verdict, Ok(false));
    assert!(transcript.contains("### PROGRAM CRASHED! ###"));
}

#[test]
fn reference_crash_is_reported_as_such() {
    let t = test_record(4, "echo boom");
    let bash = outcome(None, b"", b"");
    let mini = outcome(Some(0), b"boom\n", b"");
    let (verdict, transcript) = exec_test(&t, &options(), &bash, &mini);
    assert_eq!(verdict, Ok(false));
    assert!(transcript.contains("#### BASH CRASHED! #####"));
}

#[test]
fn exit_code_mismatch_fails_with_both_codes() {
    let t = test_record(5, "exit 1");
    let bash = outcome(Some(1), b"", b"");
    let mini = outcome(Some(2), b"", b"oops\n");
    let (verdict, transcript) = exec_test(&t, &options(), &bash, &mini);
    assert_eq!(verdict, Ok(false));
    assert!(transcript.contains("Expected status 1, got 2"));
    assert!(transcript.contains("Error:\noops"));
}

#[test]
fn output_mismatch_fails_with_both_outputs() {
    let t = test_record(6, "echo hi");
    let bash = outcome(Some(0), b"hi\n", b"");
    let mini = outcome(Some(0), b"ho\n", b"");
    let (verdict, transcript) = exec_test(&t, &options(), &bash, &mini);
    assert_eq!(verdict, Ok(false));
    assert!(transcript.contains("Expected output:\nhi\n"));
    assert!(transcript.contains("Tested output:\nho\n"));
}

#[test]
fn stderr_mismatch_fails_only_under_error_check() {
    let t = test_record(7, "nosuch");
    let bash = outcome(Some(127), b"", b"bash: nosuch\n");
    let mini = outcome(Some(127), b"", b"other text\n");
    let (lenient, _) = exec_test(&t, &options(), &bash, &mini);
    assert_eq!(lenient, Ok(true));
    let mut opts = options();
    opts.error_check = true;
    let (strict, transcript) = exec_test(&t, &opts, &bash, &mini);
    assert_eq!(strict, Ok(false));
    assert!(transcript.contains("Expected error:\nbash: nosuch"));
}

#[test]
fn sandbox_start_failure_is_fatal() {
    let t = test_record(0, "echo hi");
    let mut opts = options();
    opts.bwrap = true;
    let bash = outcome(
        Some(1),
        b"",
        b"bwrap: execvp /usr/bin/bash: No such file or directory\n",
    );
    let mini = outcome(Some(0), b"hi\n", b"");
    let (verdict, transcript) = exec_test(&t, &opts, &bash, &mini);
    assert_eq!(verdict, Err(ExecError::Bwrap));
    assert!(transcript.contains("## BASH FAILED TO RUN! ##"));
}

#[test]
fn sandbox_marker_is_ignored_outside_sandbox_mode() {
    let t = test_record(0, "echo hi");
    let bash = outcome(Some(1), b"", b"bwrap: execvp nope\n");
    let mini = outcome(Some(1), b"", b"bwrap: execvp nope\n");
    let (verdict, _) = exec_test(&t, &options(), &bash, &mini);
    assert_eq!(verdict, Ok(true));
}

#[test]
fn memory_check_classifies_on_leak_code_alone() {
    let t = test_record(8, "echo hi");
    let mut opts = options();
    opts.valgrind = true;
    let bash = outcome(Some(0), b"hi\n", b"");
    let leaked = outcome(Some(3), b"hi\n", b"leak report\n");
    let (verdict, transcript) = exec_test(&t, &opts, &bash, &leaked);
    assert_eq!(verdict, Ok(false));
    assert!(transcript.contains("#### VALGRIND ERROR ####"));
}

#[test]
fn memory_check_passes_any_other_exit_even_on_mismatch() {
    let t = test_record(8, "echo hi");
    let mut opts = options();
    opts.valgrind = true;
    let bash = outcome(Some(0), b"hi\n", b"");
    let mini = outcome(Some(1), b"completely different\n", b"");
    let (verdict, transcript) = exec_test(&t, &opts, &bash, &mini);
    assert_eq!(verdict, Ok(true));
    assert!(transcript.contains("SUCCESS"));
}

#[test]
fn fault_check_passes_zero_and_fails_nonzero() {
    let t = test_record(9, "echo hi");
    let mut opts = options();
    opts.funcheck = true;
    let bash = outcome(Some(0), b"hi\n", b"");
    let ok = outcome(Some(0), b"whatever\n", b"");
    let (verdict, _) = exec_test(&t, &opts, &bash, &ok);
    assert_eq!(verdict, Ok(true));
    let bad = outcome(Some(2), b"hi\n", b"fault\n");
    let (verdict, transcript) = exec_test(&t, &opts, &bash, &bad);
    assert_eq!(verdict, Ok(false));
    assert!(transcript.contains("#### FUNCHECK ERROR ####"));
}

#[test]
fn invalid_bytes_are_shown_with_replacement_character() {
    let t = test_record(0, "echo");
    let bash = outcome(Some(0), b"hi\n", b"");
    let mini = outcome(Some(0), &[0xff, 0x0a], b"");
    let (_, transcript) = exec_test(&t, &options(), &bash, &mini);
    assert!(transcript.contains("Tested output:\n\u{fffd}\n"));
}

#[test]
fn error_descriptions_match_their_variant() {
    assert_eq!(
        ExecError::Bwrap.describe(),
        "Error from bwrap, probably missing executable"
    );
    assert_eq!(
        ExecError::Io("broken pipe".to_string()).describe(),
        "Error during test execution: broken pipe"
    );
    assert_eq!(
        ExecError::Command("not found".to_string()).describe(),
        "Error during test subcommand execution: not found"
    );
    assert_eq!(
        ExecError::Setup(SetupError::Io("disk full".to_string())).describe(),
        "Error during setup: disk full"
    );
}

#[test]
fn configuration_validation() {
    let mut o = options();
    assert!(validate_options(&o));
    o.parallel = true;
    assert!(!validate_options(&o));
    o.bwrap = true;
    assert!(validate_options(&o));
    o.valgrind = true;
    o.funcheck = true;
    assert!(!validate_options(&o));
}

#[test]
fn fixture_plan_holds_exactly_the_three_seed_files() {
    for bwrap in [false, true] {
        let p = setup_plan(bwrap);
        assert_eq!(p.files.len(), 3);
        assert_eq!(p.files[0].name, "a");
        assert_eq!(p.files[0].contents, "file a\n");
        assert_eq!(p.files[1].name, "b");
        assert_eq!(p.files[1].contents, "file b\n");
        assert_eq!(p.files[2].name, "c");
        assert_eq!(p.files[2].contents, "file c\n");
    }
}

#[test]
fn fixture_plan_sandbox_directories() {
    let plain = setup_plan(false);
    assert!(plain.dirs.is_empty());
    assert_eq!(plain.files_dir, "");
    let sandboxed = setup_plan(true);
    assert_eq!(sandboxed.dirs, vec![".bin".to_string(), "home/maxitester".to_string()]);
    assert_eq!(sandboxed.files_dir, "home/maxitester");
}

#[test]
fn plain_command_is_the_interpreter_with_fixed_env() {
    let program = "/usr/bin/bash".to_string();
    let c = build_command(&program, &Vec::new(), false, false, None);
    assert_eq!(c.program, "/usr/bin/bash");
    assert!(c.args.is_empty());
    let env: Vec<(String, String)> =
        c.env.iter().map(|v| (v.name.clone(), v.value.clone())).collect();
    assert_eq!(
        env,
        vec![
            ("PATH".to_string(), "/usr/bin".to_string()),
            ("USER".to_string(), "maxitester".to_string()),
            ("HOME".to_string(), "/home/maxitester".to_string()),
            ("SHELL".to_string(), "/usr/bin/someshell".to_string()),
            ("TERM".to_string(), "xterm-256color".to_string()),
            ("UID".to_string(), "1000".to_string()),
            ("SHLVL".to_string(), String::new()),
        ]
    );
}

#[test]
fn sandboxed_command_wraps_the_interpreter() {
    let program = "/.bin/minishell".to_string();
    let bwrap = "/usr/bin/bwrap".to_string();
    let c = build_command(&program, &Vec::new(), false, false, Some(&bwrap));
    assert_eq!(c.program, "/usr/bin/bwrap");
    assert_eq!(c.args.first().map(String::as_str), Some("--bind"));
    assert!(c.args.contains(&"--unshare-all".to_string()));
    assert!(c.args.contains(&"--die-with-parent".to_string()));
    assert!(c.args.contains(&"--new-session".to_string()));
    assert!(!c.args.contains(&"--proc".to_string()));
    assert_eq!(c.args.last().map(String::as_str), Some("/.bin/minishell"));
}

#[test]
fn memory_checked_sandbox_binds_proc_and_names_the_checker() {
    let program = "/.bin/minishell".to_string();
    let bwrap = "/usr/bin/bwrap".to_string();
    let c = build_command(&program, &Vec::new(), true, false, Some(&bwrap));
    assert!(c.args.contains(&"--proc".to_string()));
    assert!(c.args.contains(&"valgrind".to_string()));
    assert!(c.args.contains(&"--leak-check=full".to_string()));
    assert!(c.args.contains(&"--error-exitcode=3".to_string()));
    assert!(c.args.contains(&"--suppressions=../../valgrind-suppressions".to_string()));
    assert_eq!(c.args.last().map(String::as_str), Some("/.bin/minishell"));
}

#[test]
fn plain_memory_check_spawns_the_checker_itself() {
    let program = "./minishell".to_string();
    let c = build_command(&program, &Vec::new(), true, false, None);
    assert_eq!(c.program, "valgrind");
    assert_eq!(c.args.first().map(String::as_str), Some("--leak-check=full"));
    assert_eq!(c.args.last().map(String::as_str), Some("./minishell"));
}

#[test]
fn posix_option_is_passed_through() {
    let program = "/usr/bin/bash".to_string();
    let opts = vec!["--posix".to_string()];
    let c = build_command(&program, &opts, false, false, None);
    assert_eq!(c.args, vec!["--posix".to_string()]);
}

#[test]
fn path_joining_follows_the_invocation_directory() {
    assert_eq!(join_path_if_relative("/work", "/abs/bash"), "/abs/bash");
    assert_eq!(join_path_if_relative("/work", "../minishell"), "/work/../minishell");
    assert_eq!(join_path_if_relative("/work/", "x"), "/work/x");
    assert_eq!(join_path_if_relative("", "x"), "/x");
}

#[test]
fn candidate_program_depends_on_sandboxing() {
    let resolved = "/work/minishell".to_string();
    assert_eq!(candidate_program(true, &resolved), "/.bin/minishell");
    assert_eq!(candidate_program(false, &resolved), "/work/minishell");
}
