use maxitest::exec::{adjust_bash_output, normalize_outcome, ExecOutcome};
use maxitest::norm::{ensure_newline, sort_env};
use maxitest::rewrite::{contains_bytes, replace_all};

fn normalized(input: &[u8]) -> Vec<u8> {
    let mut bytes = input.to_vec();
    sort_env(&mut bytes);
    ensure_newline(&mut bytes);
    bytes
}

#[test]
fn ensure_newline_appends_when_missing() {
    let mut bytes = b"abc".to_vec();
    ensure_newline(&mut bytes);
    assert_eq!(bytes, b"abc\n".to_vec());
}

#[test]
fn ensure_newline_keeps_existing_newline() {
    let mut bytes = b"abc\n".to_vec();
    ensure_newline(&mut bytes);
    assert_eq!(bytes, b"abc\n".to_vec());
}

#[test]
fn ensure_newline_leaves_empty_stream_alone() {
    let mut bytes: Vec<u8> = Vec::new();
    ensure_newline(&mut bytes);
    assert!(bytes.is_empty());
}

#[test]
fn env_assignment_run_is_sorted() {
    let out = normalized(b"B=2\nA=1\nC=3\n");
    assert_eq!(out, b"A=1\nB=2\nC=3\n".to_vec());
}

#[test]
fn export_declaration_run_is_sorted() {
    let out = normalized(b"declare -x PATH\ndeclare -x HOME\n");
    assert_eq!(out, b"declare -x HOME\ndeclare -x PATH\n".to_vec());
}

#[test]
fn ordinary_lines_bound_sorted_runs() {
    let out = normalized(b"b=2\na=1\nhello world\nz=9\nc=3\n");
    assert_eq!(out, b"a=1\nb=2\nhello world\nc=3\nz=9\n".to_vec());
}

#[test]
fn ordinary_lines_keep_their_order() {
    let out = normalized(b"banana\napple\n");
    assert_eq!(out, b"banana\napple\n".to_vec());
}

#[test]
fn lines_with_spaces_are_not_env_assignments() {
    // `B = 2` has whitespace, so it is an ordinary line and stays in place.
    let out = normalized(b"B = 2\nA=1\n");
    assert_eq!(out, b"B = 2\nA=1\n".to_vec());
}

#[test]
fn normalization_is_idempotent_on_samples() {
    let samples: Vec<&[u8]> = vec![
        b"B=2\nA=1\n",
        b"hello\n\n\n",
        b"no newline at end",
        b"",
        b"declare -x Z\ndeclare -x A\nplain\nB=1\nA=2",
    ];
    for s in samples {
        let once = normalized(s);
        let twice = normalized(&once);
        assert_eq!(once, twice);
    }
}

#[test]
fn permuted_env_block_normalizes_identically() {
    let a = normalized(b"before\nB=2\nA=1\nC=3\nafter\n");
    let b = normalized(b"before\nC=3\nA=1\nB=2\nafter\n");
    assert_eq!(a, b);
}

#[test]
fn adjust_rewrites_env_path() {
    let mut bytes = b"/usr/bin/env: 'nosuch': No such file\n".to_vec();
    adjust_bash_output(&mut bytes, &b"/bin/bash".to_vec());
    assert_eq!(bytes, b"env: 'nosuch': No such file\n".to_vec());
}

#[test]
fn adjust_rewrites_reference_path_to_candidate_name() {
    let mut bytes = b"/bin/bash: line 1: nosuch: command not found\n".to_vec();
    adjust_bash_output(&mut bytes, &b"/bin/bash".to_vec());
    assert_eq!(bytes, b"minishell: line 1: nosuch: command not found\n".to_vec());
}

#[test]
fn adjust_rewrites_every_occurrence() {
    let mut bytes = b"x /bin/sh y /bin/sh z".to_vec();
    adjust_bash_output(&mut bytes, &b"/bin/sh".to_vec());
    assert_eq!(bytes, b"x minishell y minishell z".to_vec());
}

#[test]
fn replacement_scans_left_to_right_without_rescanning() {
    assert_eq!(replace_all(&b"aaaa".to_vec(), b"aa", b"b"), b"bb".to_vec());
    assert_eq!(replace_all(&b"aab".to_vec(), b"ab", b"a"), b"aa".to_vec());
    assert_eq!(replace_all(&b"xyx".to_vec(), b"q", b"z"), b"xyx".to_vec());
}

#[test]
fn substring_search() {
    assert!(contains_bytes(&b"bwrap: execvp failed".to_vec(), b"bwrap: execvp"));
    assert!(!contains_bytes(&b"bwrap: exec".to_vec(), b"bwrap: execvp"));
    assert!(contains_bytes(&b"anything".to_vec(), b""));
    assert!(!contains_bytes(&b"ab".to_vec(), b"abc"));
}

#[test]
fn normalize_outcome_touches_both_streams() {
    let mut o = ExecOutcome {
        code: Some(0),
        stdout: b"B=2\nA=1".to_vec(),
        stderr: b"warn".to_vec(),
    };
    normalize_outcome(&mut o);
    assert_eq!(o.code, Some(0));
    assert_eq!(o.stdout, b"A=1\nB=2\n".to_vec());
    assert_eq!(o.stderr, b"warn\n".to_vec());
}
