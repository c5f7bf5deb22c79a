//! Container-side helpers: display ids, container names, and the builder for
//! one command execution inside a running container.
use vstd::prelude::*;

verus! {

/// Number of significant characters of a container id.
pub const CONTAINER_ID_LEN: usize = 12;

/// What a container id looks like when shown: at most its first twelve characters.
pub open spec fn display_id(id: Seq<char>) -> Seq<char> {
    if id.len() > CONTAINER_ID_LEN {
        id.subrange(0, CONTAINER_ID_LEN as int)
    } else {
        id
    }
}

/// Shortens a full container id to its display form.
pub fn truncate(id: &str) -> (r: String)
    ensures
        r@ == display_id(id@),
{
    let n = id.unicode_len();
    if n > CONTAINER_ID_LEN {
        id.substring_char(0, CONTAINER_ID_LEN).to_string()
    } else {
        id.to_string()
    }
}

/// Whether the engine's character-class test calls `c` alphanumeric.
pub uninterp spec fn alphanumeric(c: char) -> bool;

/// Relies on `char::is_alphanumeric`: the Unicode alphabetic or numeric test,
/// which holds of every ASCII letter and digit.
#[verifier::external_body]
pub(crate) fn is_alphanumeric(c: char) -> (r: bool)
    ensures
        r == alphanumeric(c),
        ('a' <= c <= 'z' || 'A' <= c <= 'Z' || '0' <= c <= '9') ==> r,
{
    c.is_alphanumeric()
}

/// A character that may stay in a container name.
pub open spec fn name_char(c: char) -> bool {
    alphanumeric(c) || c == '-' || c == '.'
}

/// The characters of `s` that may stay in a container name, in order.
pub open spec fn keep_name_chars(s: Seq<char>) -> Seq<char>
    decreases s.len(),
{
    if s.len() == 0 {
        s
    } else {
        let rest = keep_name_chars(s.drop_last());
        if name_char(s.last()) {
            rest.push(s.last())
        } else {
            rest
        }
    }
}

/// Removes the characters a container name may not hold.
pub fn fix_name(name: &str) -> (r: String)
    ensures
        r@ == keep_name_chars(name@),
{
    let n = name.unicode_len();
    let mut out = String::new();
    let mut i: usize = 0;
    while i < n
        invariant
            n == name@.len(),
            i <= n,
            out@ == keep_name_chars(name@.subrange(0, i as int)),
        decreases n - i,
    {
        let c = name.get_char(i);
        proof {
            assert(name@.subrange(0, i + 1).drop_last() =~= name@.subrange(0, i as int));
        }
        if is_alphanumeric(c) || c == '-' || c == '.' {
            out.append(name.substring_char(i, i + 1));
            proof {
                assert(name@.subrange(i as int, i + 1) =~= seq![c]);
            }
        }
        i = i + 1;
    }
    proof {
        assert(name@.subrange(0, n as int) =~= name@);
    }
    out
}

/// Collected output of one execution: the chunks written to standard
/// output and standard error, and the exit code.
#[derive(Debug)]
pub struct Output {
    pub stdout: Vec<String>,
    pub stderr: Vec<String>,
    pub exit_code: u64,
}

/// Why a checked execution failed.
#[derive(Debug)]
pub enum ExecError {
    /// The command exited with a non-zero code; the last chunk of its
    /// standard error is kept.
    NonZero { exit_code: u64, stderr_tail: String },
}

/// The last element of a sequence of chunks, or nothing when there is none.
pub open spec fn last_chunk(chunks: Seq<String>) -> Seq<char> {
    if chunks.len() == 0 {
        Seq::empty()
    } else {
        chunks.last()@
    }
}

/// Turns an execution's output into an error when the command did not exit
/// with code zero.
pub fn check_exit(output: Output) -> (r: Result<Output, ExecError>)
    ensures
        output.exit_code == 0 <==> r.is_ok(),
        r.is_ok() ==> r.unwrap() == output,
        r matches Err(ExecError::NonZero { exit_code, stderr_tail }) ==> exit_code
            == output.exit_code && stderr_tail@ == last_chunk(output.stderr@),
{
    if output.exit_code == 0 {
        Ok(output)
    } else {
        let n = output.stderr.len();
        let tail = if n == 0 {
            String::new()
        } else {
            output.stderr[n - 1].clone()
        };
        Err(ExecError::NonZero { exit_code: output.exit_code, stderr_tail: tail })
    }
}

/// The shell a command runs under unless one is chosen.
pub open spec fn default_shell() -> Seq<char> {
    seq!['/', 'b', 'i', 'n', '/', 's', 'h']
}

/// Options of one command execution inside a container.
#[derive(Debug)]
pub struct ExecOpts {
    pub cmd: String,
    pub allocate_tty: bool,
    pub attach_stdout: bool,
    pub attach_stderr: bool,
    pub privileged: bool,
    pub shell: String,
    pub user: Option<String>,
    pub working_dir: Option<String>,
    pub env: Option<Vec<String>>,
}

impl ExecOpts {
    /// Options with an empty command, run by `/bin/sh`, both output streams
    /// attached, no terminal, unprivileged, and no user, directory or environment.
    pub fn new() -> (r: Self)
        ensures
            r.cmd@ == Seq::<char>::empty(),
            !r.allocate_tty,
            r.attach_stdout,
            r.attach_stderr,
            !r.privileged,
            r.shell@ == default_shell(),
            r.user.is_none(),
            r.working_dir.is_none(),
            r.env.is_none(),
    {
        let shell = String::from_str("/bin/sh");
        proof {
            reveal_strlit("/bin/sh");
            assert(shell@ =~= default_shell());
        }
        ExecOpts {
            cmd: String::new(),
            allocate_tty: false,
            attach_stdout: true,
            attach_stderr: true,
            privileged: false,
            shell,
            user: None,
            working_dir: None,
            env: None,
        }
    }

    /// Sets the command line.
    pub fn cmd(self, command: &str) -> (r: Self)
        ensures
            r == (ExecOpts { cmd: r.cmd, ..self }),
            r.cmd@ == command@,
    {
        ExecOpts { cmd: command.to_string(), ..self }
    }

    /// Sets whether a terminal is allocated.
    pub fn tty(self, allocate: bool) -> (r: Self)
        ensures
            r == (ExecOpts { allocate_tty: allocate, ..self }),
    {
        ExecOpts { allocate_tty: allocate, ..self }
    }

    /// Sets whether standard output is attached.
    pub fn attach_stdout(self, attach: bool) -> (r: Self)
        ensures
            r == (ExecOpts { attach_stdout: attach, ..self }),
    {
        ExecOpts { attach_stdout: attach, ..self }
    }

    /// Sets whether standard error is attached.
    pub fn attach_stderr(self, attach: bool) -> (r: Self)
        ensures
            r == (ExecOpts { attach_stderr: attach, ..self }),
    {
        ExecOpts { attach_stderr: attach, ..self }
    }

    /// Sets whether the command runs privileged.
    pub fn privileged(self, privileged: bool) -> (r: Self)
        ensures
            r == (ExecOpts { privileged: privileged, ..self }),
    {
        ExecOpts { privileged, ..self }
    }

    /// Sets the user the command runs as.
    pub fn user(self, user: &str) -> (r: Self)
        ensures
            r == (ExecOpts { user: r.user, ..self }),
            r.user.is_some() && r.user.unwrap()@ == user@,
    {
        ExecOpts { user: Some(user.to_string()), ..self }
    }

    /// Sets the shell the command runs under.
    pub fn shell(self, shell: &str) -> (r: Self)
        ensures
            r == (ExecOpts { shell: r.shell, ..self }),
            r.shell@ == shell@,
    {
        ExecOpts { shell: shell.to_string(), ..self }
    }

    /// Sets the directory the command runs in.
    pub fn working_dir(self, working_dir: &str) -> (r: Self)
        ensures
            r == (ExecOpts { working_dir: r.working_dir, ..self }),
            r.working_dir.is_some() && r.working_dir.unwrap()@ == working_dir@,
    {
        ExecOpts { working_dir: Some(working_dir.to_string()), ..self }
    }

    /// The argument vector handed to the engine: the shell, `-c`, and the command.
    pub fn command(&self) -> (r: Vec<String>)
        ensures
            r@.len() == 3,
            r@[0]@ == self.shell@,
            r@[1]@ == seq!['-', 'c'],
            r@[2]@ == self.cmd@,
    {
        let mut v: Vec<String> = Vec::new();
        v.push(self.shell.clone());
        let flag = String::from_str("-c");
        proof {
            reveal_strlit("-c");
        }
        v.push(flag);
        v.push(self.cmd.clone());
        v
    }
}

} // verus!
