//! What the shell of a session is started with: which shell, and which
//! environment. Starting it and moving its bytes is left to the caller.

use vstd::prelude::*;

verus! {

/// The bytes that the reader of a pseudoterminal asks for at a time.
pub const READ_BUFFER_SIZE: usize = 4096;

/// The chunks that may wait between the reader and the window. A reader
/// that finds the queue full waits for the window to drain it.
pub const CHANNEL_CAPACITY: usize = 256;

/// The shell to start: the one that the environment names, unless it names
/// none or an empty one; else the one that the directory service of the
/// platform gives for the user; else `/bin/zsh`.
pub open spec fn chosen_shell(env_shell: Option<Seq<char>>, directory_shell: Option<Seq<char>>) -> Seq<
    char,
> {
    if env_shell is Some && env_shell->0.len() > 0 {
        env_shell->0
    } else if directory_shell is Some {
        directory_shell->0
    } else {
        "/bin/zsh"@
    }
}

/// The view of an optional string.
pub open spec fn text_of(s: Option<String>) -> Option<Seq<char>> {
    match s {
        Some(text) => Some(text@),
        None => None,
    }
}

/// Picks the shell to start, see [`chosen_shell`].
pub fn resolve_shell(env_shell: Option<String>, directory_shell: Option<String>) -> (shell: String)
    ensures
        shell@ == chosen_shell(text_of(env_shell), text_of(directory_shell)),
{
    match env_shell {
        Some(shell) => {
            if shell.as_str().unicode_len() > 0 {
                return shell;
            }
        },
        None => {},
    }
    match directory_shell {
        Some(shell) => shell,
        None => String::from_str("/bin/zsh"),
    }
}

/// The environment of the shell, as names with values: `TERM` is
/// `xterm-256color`, `COLORTERM` is `truecolor`, `TERM_PROGRAM` names the
/// terminal; `HOME`, `USER` and `LOGNAME` are handed on where they are
/// known, `LOGNAME` with the value of `USER`; `SHELL` is the shell itself.
pub open spec fn shell_variables(
    home: Option<Seq<char>>,
    user: Option<Seq<char>>,
    shell: Seq<char>,
) -> Seq<(Seq<char>, Seq<char>)> {
    seq![
        ("TERM"@, "xterm-256color"@),
        ("COLORTERM"@, "truecolor"@),
        ("TERM_PROGRAM"@, "smooth_terminal"@),
    ] + (match home {
        Some(dir) => seq![("HOME"@, dir)],
        None => Seq::empty(),
    }) + (match user {
        Some(name) => seq![("USER"@, name), ("LOGNAME"@, name)],
        None => Seq::empty(),
    }) + seq![("SHELL"@, shell)]
}

/// What a list of variables holds.
pub open spec fn variables_view(vars: Seq<(String, String)>) -> Seq<(Seq<char>, Seq<char>)> {
    Seq::new(vars.len(), |i: int| (vars[i].0@, vars[i].1@))
}

/// The environment of the shell, see [`shell_variables`].
pub fn shell_environment(home: Option<&str>, user: Option<&str>, shell: &str) -> (vars: Vec<
    (String, String),
>)
    ensures
        variables_view(vars@) == shell_variables(
            match home {
                Some(dir) => Some(dir@),
                None => None,
            },
            match user {
                Some(name) => Some(name@),
                None => None,
            },
            shell@,
        ),
{
    let mut vars: Vec<(String, String)> = Vec::new();
    vars.push((String::from_str("TERM"), String::from_str("xterm-256color")));
    vars.push((String::from_str("COLORTERM"), String::from_str("truecolor")));
    vars.push((String::from_str("TERM_PROGRAM"), String::from_str("smooth_terminal")));
    assert(variables_view(vars@) =~= seq![
        ("TERM"@, "xterm-256color"@),
        ("COLORTERM"@, "truecolor"@),
        ("TERM_PROGRAM"@, "smooth_terminal"@),
    ]);
    let ghost fixed = variables_view(vars@);
    match home {
        Some(dir) => {
            vars.push((String::from_str("HOME"), String::from_str(dir)));
            assert(variables_view(vars@) =~= fixed + seq![("HOME"@, dir@)]);
        },
        None => {
            assert(variables_view(vars@) =~= fixed + Seq::empty());
        },
    }
    let ghost with_home = variables_view(vars@);
    match user {
        Some(name) => {
            vars.push((String::from_str("USER"), String::from_str(name)));
            vars.push((String::from_str("LOGNAME"), String::from_str(name)));
            assert(variables_view(vars@) =~= with_home + seq![
                ("USER"@, name@),
                ("LOGNAME"@, name@),
            ]);
        },
        None => {
            assert(variables_view(vars@) =~= with_home + Seq::empty());
        },
    }
    let ghost with_user = variables_view(vars@);
    vars.push((String::from_str("SHELL"), String::from_str(shell)));
    assert(variables_view(vars@) =~= with_user + seq![("SHELL"@, shell@)]);
    vars
}

} // verus!
