//! Planning of one invocation's filesystem and process work: the fixture
//! reset, the sandbox and fault-checker command line, and the fixed
//! deterministic environment. Callers carry the plans out — create the
//! directories and files, spawn the command — but everything the plans decide
//! is decided here.

use vstd::prelude::*;
use vstd::string::StringExecFns;

verus! {

/// One file the fixture seeds: its name and its contents.
#[derive(Debug, Clone)]
pub struct FileSpec {
    pub name: String,
    pub contents: String,
}

/// The fixture-reset plan of one invocation. The fixture directory is removed
/// and recreated empty; then each of `dirs` is created inside it (parents
/// included), and each of `files` is created inside `files_dir` (a path
/// relative to the fixture root; the root itself when empty).
#[derive(Debug)]
pub struct SetupPlan {
    pub dirs: Vec<String>,
    pub files_dir: String,
    pub files: Vec<FileSpec>,
}

/// The fixture invariant: exactly the three seed files `a`, `b`, `c`, with
/// their fixed contents and nothing else.
pub open spec fn plan_files_exact(files: Seq<FileSpec>) -> bool {
    &&& files.len() == 3
    &&& files[0].name@ == "a"@ && files[0].contents@ == "file a\n"@
    &&& files[1].name@ == "b"@ && files[1].contents@ == "file b\n"@
    &&& files[2].name@ == "c"@ && files[2].contents@ == "file c\n"@
}

/// Plans the fixture reset that precedes every shell invocation, reference
/// and candidate alike: the directory holds exactly the seed files `a`, `b`,
/// `c` with fixed contents. Sandboxed runs add the candidate-binary directory
/// and the in-sandbox home, which becomes the working directory and the place
/// the seed files live.
pub fn setup_plan(bwrap: bool) -> (p: SetupPlan)
    ensures
        plan_files_exact(p.files@),
        bwrap ==> p.dirs@.len() == 2 && p.dirs@[0]@ == ".bin"@ && p.dirs@[1]@
            == "home/maxitester"@ && p.files_dir@ == "home/maxitester"@,
        !bwrap ==> p.dirs@.len() == 0 && p.files_dir@ == ""@,
{
    let mut dirs: Vec<String> = Vec::new();
    let files_dir: String;
    if bwrap {
        dirs.push(".bin".to_owned());
        dirs.push("home/maxitester".to_owned());
        files_dir = "home/maxitester".to_owned();
    } else {
        files_dir = String::new();
        proof {
            reveal_strlit("");
            assert(files_dir@ =~= ""@);
        }
    }
    let mut files: Vec<FileSpec> = Vec::new();
    files.push(FileSpec { name: "a".to_owned(), contents: "file a\n".to_owned() });
    files.push(FileSpec { name: "b".to_owned(), contents: "file b\n".to_owned() });
    files.push(FileSpec { name: "c".to_owned(), contents: "file c\n".to_owned() });
    SetupPlan { dirs, files_dir, files }
}

/// One variable of the fixed deterministic environment.
#[derive(Debug, Clone)]
pub struct EnvVar {
    pub name: String,
    pub value: String,
}

/// The fixed deterministic environment set for every invocation after the
/// inherited environment is cleared, so that host-environment leakage cannot
/// make comparisons flaky.
pub open spec fn deterministic_env(e: Seq<EnvVar>) -> bool {
    &&& e.len() == 7
    &&& e[0].name@ == "PATH"@ && e[0].value@ == "/usr/bin"@
    &&& e[1].name@ == "USER"@ && e[1].value@ == "maxitester"@
    &&& e[2].name@ == "HOME"@ && e[2].value@ == "/home/maxitester"@
    &&& e[3].name@ == "SHELL"@ && e[3].value@ == "/usr/bin/someshell"@
    &&& e[4].name@ == "TERM"@ && e[4].value@ == "xterm-256color"@
    &&& e[5].name@ == "UID"@ && e[5].value@ == "1000"@
    &&& e[6].name@ == "SHLVL"@ && e[6].value@ == ""@
}

/// A process to spawn: the executable, its arguments in order, and the
/// deterministic environment that replaces the cleared one. The working
/// directory is the test's fixture directory.
#[derive(Debug)]
pub struct CommandPlan {
    pub program: String,
    pub args: Vec<String>,
    pub env: Vec<EnvVar>,
}

/// The views of a list of strings.
pub open spec fn str_views(s: Seq<String>) -> Seq<Seq<char>> {
    s.map_values(|x: String| x@)
}

/// The sandbox tool's argument prefix: the fixture becomes the root, a device
/// tree is mounted, the host's system directories are bound read-only, `/tmp`
/// is private, the working directory is the in-sandbox home, all namespaces
/// are unshared, the child dies with its parent and starts a new session.
pub open spec fn bwrap_base_args() -> Seq<Seq<char>> {
    seq![
        "--bind"@,
        "."@,
        "/"@,
        "--dev"@,
        "/dev"@,
        "--ro-bind"@,
        "/usr"@,
        "/usr"@,
        "--ro-bind"@,
        "/bin"@,
        "/bin"@,
        "--ro-bind"@,
        "/lib"@,
        "/lib"@,
        "--ro-bind"@,
        "/lib64"@,
        "/lib64"@,
        "--tmpfs"@,
        "/tmp"@,
        "--chdir"@,
        "/home/maxitester"@,
        "--unshare-all"@,
        "--die-with-parent"@,
        "--new-session"@,
    ]
}

/// The memory checker's flags: full leak checking of every leak kind, origin
/// and file-descriptor tracking, the reserved leak exit code, and the fixed
/// suppressions file.
pub open spec fn valgrind_flags() -> Seq<Seq<char>> {
    seq![
        "--leak-check=full"@,
        "--show-leak-kinds=all"@,
        "--track-origins=yes"@,
        "--track-fds=yes"@,
        "--errors-for-leak-kinds=all"@,
        "--error-exitcode=3"@,
        "--suppressions=../../valgrind-suppressions"@,
    ]
}

/// The full argument list of one invocation, chosen by the
/// `(sandboxed, memory-check, fault-check)` combination exactly as
/// `build_command` constructs it.
pub open spec fn command_args_spec(
    program: Seq<char>,
    options: Seq<Seq<char>>,
    valgrind: bool,
    funcheck: bool,
    bwrap: bool,
) -> Seq<Seq<char>> {
    let base = if bwrap {
        bwrap_base_args() + if valgrind {
            seq!["--proc"@, "/proc"@]
        } else {
            Seq::empty()
        }
    } else {
        Seq::empty()
    };
    let v = if valgrind {
        (if bwrap {
            seq!["valgrind"@]
        } else {
            Seq::empty()
        }) + valgrind_flags()
    } else {
        Seq::empty()
    };
    let f = if funcheck && bwrap {
        seq!["funcheck"@]
    } else {
        Seq::empty()
    };
    let prog = if valgrind || funcheck || bwrap {
        seq![program]
    } else {
        Seq::empty()
    };
    base + v + f + prog + options
}

/// What executable is actually spawned: the sandbox tool when sandboxing,
/// else the checker when one is on, else the interpreter itself.
pub open spec fn command_program_spec(
    program: Seq<char>,
    valgrind: bool,
    funcheck: bool,
    bwrap: Option<Seq<char>>,
) -> Seq<char> {
    match bwrap {
        Some(b) => b,
        None => if valgrind {
            "valgrind"@
        } else if funcheck {
            "funcheck"@
        } else {
            program
        },
    }
}

fn push_str(args: &mut Vec<String>, s: &str)
    ensures
        final(args)@.len() == old(args)@.len() + 1,
        str_views(final(args)@) == str_views(old(args)@).push(s@),
{
    args.push(s.to_owned());
    proof {
        assert(str_views(args@) =~= str_views(old(args)@).push(s@));
    }
}

/// Builds the command of one invocation: the interpreter `program` with
/// `options`, wrapped in the sandbox and in the configured checker, with the
/// cleared-then-fixed environment.
#[verifier::loop_isolation(false)]
pub fn build_command(
    program: &String,
    options: &Vec<String>,
    valgrind: bool,
    funcheck: bool,
    bwrap: Option<&String>,
) -> (c: CommandPlan)
    ensures
        (bwrap matches Some(b) ==> c.program@ == b@ && str_views(c.args@) == command_args_spec(
            program@,
            str_views(options@),
            valgrind,
            funcheck,
            true,
        )),
        (bwrap is None ==> c.program@ == command_program_spec(program@, valgrind, funcheck, None)
            && str_views(c.args@) == command_args_spec(
            program@,
            str_views(options@),
            valgrind,
            funcheck,
            false,
        )),
        deterministic_env(c.env@),
{
    let is_bwrap = bwrap.is_some();
    let cmd_program: String = match bwrap {
        Some(b) => b.clone(),
        None => {
            if valgrind {
                "valgrind".to_owned()
            } else if funcheck {
                "funcheck".to_owned()
            } else {
                program.clone()
            }
        },
    };
    let mut args: Vec<String> = Vec::new();
    if is_bwrap {
        push_str(&mut args, "--bind");
        push_str(&mut args, ".");
        push_str(&mut args, "/");
        push_str(&mut args, "--dev");
        push_str(&mut args, "/dev");
        push_str(&mut args, "--ro-bind");
        push_str(&mut args, "/usr");
        push_str(&mut args, "/usr");
        push_str(&mut args, "--ro-bind");
        push_str(&mut args, "/bin");
        push_str(&mut args, "/bin");
        push_str(&mut args, "--ro-bind");
        push_str(&mut args, "/lib");
        push_str(&mut args, "/lib");
        push_str(&mut args, "--ro-bind");
        push_str(&mut args, "/lib64");
        push_str(&mut args, "/lib64");
        push_str(&mut args, "--tmpfs");
        push_str(&mut args, "/tmp");
        push_str(&mut args, "--chdir");
        push_str(&mut args, "/home/maxitester");
        push_str(&mut args, "--unshare-all");
        push_str(&mut args, "--die-with-parent");
        push_str(&mut args, "--new-session");
        if valgrind {
            push_str(&mut args, "--proc");
            push_str(&mut args, "/proc");
        }
    }
    let ghost base_part: Seq<Seq<char>> = if is_bwrap {
        bwrap_base_args() + if valgrind {
            seq!["--proc"@, "/proc"@]
        } else {
            Seq::empty()
        }
    } else {
        Seq::empty()
    };
    proof {
        assert(str_views(args@) =~= base_part);
    }
    if valgrind {
        if is_bwrap {
            push_str(&mut args, "valgrind");
        }
        push_str(&mut args, "--leak-check=full");
        push_str(&mut args, "--show-leak-kinds=all");
        push_str(&mut args, "--track-origins=yes");
        push_str(&mut args, "--track-fds=yes");
        push_str(&mut args, "--errors-for-leak-kinds=all");
        push_str(&mut args, "--error-exitcode=3");
        push_str(&mut args, "--suppressions=../../valgrind-suppressions");
    }
    let ghost valgrind_part: Seq<Seq<char>> = if valgrind {
        (if is_bwrap {
            seq!["valgrind"@]
        } else {
            Seq::<Seq<char>>::empty()
        }) + valgrind_flags()
    } else {
        Seq::empty()
    };
    proof {
        assert(str_views(args@) =~= base_part + valgrind_part);
    }
    if funcheck && is_bwrap {
        push_str(&mut args, "funcheck");
    }
    let ghost funcheck_part: Seq<Seq<char>> = if funcheck && is_bwrap {
        seq!["funcheck"@]
    } else {
        Seq::empty()
    };
    proof {
        assert(str_views(args@) =~= base_part + valgrind_part + funcheck_part);
    }
    if valgrind || funcheck || is_bwrap {
        let ghost pre = str_views(args@);
        args.push(program.clone());
        proof {
            assert(str_views(args@) =~= pre.push(program@));
        }
    }
    let ghost prog_part: Seq<Seq<char>> = if valgrind || funcheck || is_bwrap {
        seq![program@]
    } else {
        Seq::empty()
    };
    proof {
        assert(str_views(args@) =~= base_part + valgrind_part + funcheck_part + prog_part);
    }
    let ghost before_options = str_views(args@);
    let mut k: usize = 0;
    while k < options.len()
        invariant
            k <= options@.len(),
            str_views(args@) == before_options + str_views(options@).take(k as int),
        decreases options@.len() - k,
    {
        let ghost pre = str_views(args@);
        args.push(options[k].clone());
        proof {
            assert(str_views(args@) =~= pre.push(options@[k as int]@));
            assert(before_options + str_views(options@).take(k + 1) =~= pre.push(
                options@[k as int]@,
            ));
        }
        k = k + 1;
    }
    proof {
        assert(str_views(options@).take(options@.len() as int) =~= str_views(options@));
    }
    let mut env: Vec<EnvVar> = Vec::new();
    env.push(EnvVar { name: "PATH".to_owned(), value: "/usr/bin".to_owned() });
    env.push(EnvVar { name: "USER".to_owned(), value: "maxitester".to_owned() });
    env.push(EnvVar { name: "HOME".to_owned(), value: "/home/maxitester".to_owned() });
    env.push(EnvVar { name: "SHELL".to_owned(), value: "/usr/bin/someshell".to_owned() });
    env.push(EnvVar { name: "TERM".to_owned(), value: "xterm-256color".to_owned() });
    env.push(EnvVar { name: "UID".to_owned(), value: "1000".to_owned() });
    let shlvl = String::new();
    proof {
        reveal_strlit("");
        assert(shlvl@ =~= ""@);
    }
    env.push(EnvVar { name: "SHLVL".to_owned(), value: shlvl });
    let c = CommandPlan { program: cmd_program, args, env };
    proof {
        if bwrap is Some {
            assert(str_views(c.args@) =~= command_args_spec(
                program@,
                str_views(options@),
                valgrind,
                funcheck,
                true,
            ));
        } else {
            assert(str_views(c.args@) =~= command_args_spec(
                program@,
                str_views(options@),
                valgrind,
                funcheck,
                false,
            ));
        }
    }
    c
}

/// Path joining against the invocation directory, on the single-separator
/// convention: an absolute path (leading separator) stands alone; otherwise
/// the path is appended to the base with exactly one separator between them.
pub open spec fn join_path_spec(base: Seq<char>, path: Seq<char>) -> Seq<char> {
    if path.len() > 0 && path[0] == '/' {
        path
    } else if base.len() > 0 && base.last() == '/' {
        base + path
    } else {
        base + "/"@ + path
    }
}

/// Resolves a possibly relative path against the invocation directory.
pub fn join_path_if_relative(base: &str, path: &str) -> (r: String)
    ensures
        r@ == join_path_spec(base@, path@),
{
    if !path.is_empty() && path.get_char(0) == '/' {
        return path.to_owned();
    }
    let mut out = base.to_owned();
    let base_len = base.unicode_len();
    if base_len == 0 || base.get_char(base_len - 1) != '/' {
        out.append("/");
    }
    out.append(path);
    proof {
        assert(out@ =~= join_path_spec(base@, path@));
    }
    out
}

/// The fixture-relative path the candidate binary is copied to for a
/// sandboxed run, and removed from after it.
pub fn candidate_copy_target() -> (r: String)
    ensures
        r@ == ".bin/minishell"@,
{
    ".bin/minishell".to_owned()
}

/// What program path the candidate invocation names: the in-sandbox copy when
/// sandboxed, the resolved candidate path itself otherwise.
pub fn candidate_program(bwrap: bool, resolved: &String) -> (r: String)
    ensures
        bwrap ==> r@ == "/.bin/minishell"@,
        !bwrap ==> r@ == resolved@,
{
    if bwrap {
        "/.bin/minishell".to_owned()
    } else {
        resolved.clone()
    }
}

} // verus!
