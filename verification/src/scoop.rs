//! The `scoop` command runner: the arguments of each command, the command
//! line handed to the shell, the handling of a running command's output, and
//! the messages that tell the window about it.
//!
//! Starting the shell, reading its pipes and waiting for it is left to the
//! caller; it reports each event here and sends on the messages returned.

use vstd::prelude::*;
use vstd::string::StringExecFns;
use crate::model::DataUpdate;
use crate::text::{join_spaced, push_char};

verus! {

/// Runs `scoop` commands and reads what they print.
pub struct ScoopCommand;

/// The views of a sequence of strings.
pub open spec fn string_views(ss: Seq<String>) -> Seq<Seq<char>> {
    ss.map_values(|s: String| s@)
}

/// The command line that runs `scoop` with the given arguments: `scoop`,
/// then the arguments, one space before each.
pub open spec fn command_text(args: Seq<Seq<char>>) -> Seq<char> {
    "scoop "@ + join_spaced(args)
}

/// The arguments that searches for `q`.
pub open spec fn search_args_of(q: Seq<char>) -> Seq<Seq<char>> {
    seq!["search"@, q]
}

/// The arguments that installs `n`.
pub open spec fn install_args_of(n: Seq<char>) -> Seq<Seq<char>> {
    seq!["install"@, n]
}

/// The arguments that uninstalls `n`.
pub open spec fn uninstall_args_of(n: Seq<char>) -> Seq<Seq<char>> {
    seq!["uninstall"@, n]
}

/// The arguments that updates `n`.
pub open spec fn update_args_of(n: Seq<char>) -> Seq<Seq<char>> {
    seq!["update"@, n]
}

/// The arguments that adds `n`.
pub open spec fn add_bucket_args_of(n: Seq<char>) -> Seq<Seq<char>> {
    seq!["bucket"@, "add"@, n]
}

/// The arguments that removes `n`.
pub open spec fn remove_bucket_args_of(n: Seq<char>) -> Seq<Seq<char>> {
    seq!["bucket"@, "rm"@, n]
}

/// The text of a `CommandOutput` message, or nothing for other messages.
pub open spec fn output_text(u: DataUpdate) -> Option<Seq<char>> {
    match u {
        DataUpdate::CommandOutput(s) => Some(s@),
        _ => None,
    }
}

/// The character of a decimal digit.
pub open spec fn digit_char(d: int) -> char {
    if d == 0 {
        '0'
    } else if d == 1 {
        '1'
    } else if d == 2 {
        '2'
    } else if d == 3 {
        '3'
    } else if d == 4 {
        '4'
    } else if d == 5 {
        '5'
    } else if d == 6 {
        '6'
    } else if d == 7 {
        '7'
    } else if d == 8 {
        '8'
    } else {
        '9'
    }
}

/// The decimal digits of a natural number, most significant first, with no
/// leading zero.
pub open spec fn digits(n: nat) -> Seq<char>
    decreases n,
{
    if n < 10 {
        seq![digit_char(n as int)]
    } else {
        digits(n / 10).push(digit_char((n % 10) as int))
    }
}

/// An integer in decimal, with a minus sign when it is negative.
pub open spec fn decimal(i: int) -> Seq<char> {
    if i < 0 {
        seq!['-'] + digits((-i) as nat)
    } else {
        digits(i as nat)
    }
}

/// An exit code as Rust's `{:?}` shows an `Option<i32>`: `None`, or
/// `Some(` and the code in decimal and `)`.
pub open spec fn exit_code_text(code: Option<i32>) -> Seq<char> {
    match code {
        None => "None"@,
        Some(c) => "Some("@ + decimal(c as int) + ")"@,
    }
}

/// The message a failed command reports.
pub open spec fn failure_text(code: Option<i32>) -> Seq<char> {
    "命令执行失败，退出码: "@ + exit_code_text(code)
}

fn digit_of(d: u64) -> (c: char)
    requires
        d < 10,
    ensures
        c == digit_char(d as int),
{
    if d == 0 {
        '0'
    } else if d == 1 {
        '1'
    } else if d == 2 {
        '2'
    } else if d == 3 {
        '3'
    } else if d == 4 {
        '4'
    } else if d == 5 {
        '5'
    } else if d == 6 {
        '6'
    } else if d == 7 {
        '7'
    } else if d == 8 {
        '8'
    } else {
        '9'
    }
}

/// Appends the decimal digits of `n`.
fn push_digits(s: &mut String, n: u64)
    ensures
        final(s)@ == old(s)@ + digits(n as nat),
    decreases n,
{
    if n >= 10 {
        push_digits(s, n / 10);
    }
    push_char(s, digit_of(n % 10));
    assert(final(s)@ =~= old(s)@ + digits(n as nat));
}

/// An exit code as `{:?}` shows an `Option<i32>`.
pub fn format_exit_code(code: Option<i32>) -> (s: String)
    ensures
        s@ == exit_code_text(code),
{
    match code {
        None => String::from_str("None"),
        Some(c) => {
            let mut s = String::from_str("Some(");
            if c < 0 {
                push_char(&mut s, '-');
                let magnitude: u64 = (0i64 - c as i64) as u64;
                push_digits(&mut s, magnitude);
            } else {
                push_digits(&mut s, c as u64);
            }
            s.append(")");
            assert(s@ =~= exit_code_text(code));
            s
        },
    }
}

/// The lines a command printed on standard output, each followed by a
/// newline: what a run collects.
pub open spec fn collected_text(lines: Seq<Seq<char>>) -> Seq<char>
    decreases lines.len(),
{
    if lines.len() == 0 {
        seq![]
    } else {
        collected_text(lines.drop_last()) + lines.last() + seq!['\n']
    }
}

/// How a run of a command ended.
pub enum RunEnd {
    /// The shell could not be started; the error's text.
    SpawnFailed(String),
    /// Waiting for the shell failed; the error's text.
    WaitFailed(String),
    /// The task reading standard output could not be joined; the error's text.
    StdoutJoinFailed(String),
    /// The task reading standard error could not be joined; the error's text.
    StderrJoinFailed(String),
    /// The command exited, successfully or not, with the exit code if there
    /// is one, after the run collected its standard output.
    Exited { run: CommandRun, success: bool, code: Option<i32> },
}

/// One run of a command: the standard output collected so far.
pub struct CommandRun {
    stdout: String,
}

impl CommandRun {
    /// The standard output collected so far.
    pub closed spec fn collected(&self) -> Seq<char> {
        self.stdout@
    }

    /// A run that has collected nothing yet.
    pub fn new() -> (r: Self)
        ensures
            r.collected() == Seq::<char>::empty(),
    {
        CommandRun { stdout: String::new() }
    }

    /// A line of standard output arrived: it is collected, followed by a
    /// newline, and shown as it is.
    pub fn on_stdout_line(&mut self, line: String) -> (u: DataUpdate)
        ensures
            final(self).collected() == old(self).collected() + line@ + seq!['\n'],
            output_text(u) == Some(line@),
    {
        self.stdout.append(line.as_str());
        push_char(&mut self.stdout, '\n');
        DataUpdate::CommandOutput(line)
    }

    /// The command ended, successfully or not, with the exit code if there
    /// is one. On success the run gives back what it collected and shows
    /// that the command succeeded; otherwise it fails with a message that
    /// names the exit code, and shows that message.
    pub fn finish(self, success: bool, code: Option<i32>) -> (r: (DataUpdate, Result<String, String>))
        ensures
            success ==> output_text(r.0) == Some("命令执行成功"@),
            success ==> (r.1 matches Ok(out) && out@ == self.collected()),
            !success ==> output_text(r.0) == Some(failure_text(code)),
            !success ==> (r.1 matches Err(msg) && msg@ == failure_text(code)),
    {
        if success {
            (DataUpdate::CommandOutput(String::from_str("命令执行成功")), Ok(self.stdout))
        } else {
            let mut msg = String::from_str("命令执行失败，退出码: ");
            let code_text = format_exit_code(code);
            msg.append(code_text.as_str());
            (DataUpdate::CommandOutput(msg.clone()), Err(msg))
        }
    }
}

impl ScoopCommand {
    /// The command line that runs `scoop` with `args`.
    pub fn command_line(args: &Vec<String>) -> (s: String)
        ensures
            s@ == command_text(string_views(args@)),
    {
        let mut s = String::from_str("scoop ");
        let ghost prefix = s@;
        let n = args.len();
        for i in 0..n
            invariant
                n == args@.len(),
                prefix == "scoop "@,
                s@ == prefix + join_spaced(string_views(args@).take(i as int)),
        {
            let ghost done = string_views(args@).take(i as int);
            let ghost next = string_views(args@).take(i + 1);
            assert(next.drop_last() =~= done);
            if i > 0 {
                push_char(&mut s, ' ');
            }
            s.append(args[i].as_str());
            assert(s@ =~= prefix + join_spaced(next));
        }
        assert(string_views(args@).take(n as int) =~= string_views(args@));
        s
    }

    /// The first message of a run: the command line, after `> `.
    pub fn announce(command_line: &str) -> (u: DataUpdate)
        ensures
            output_text(u) == Some("> "@ + command_line@),
    {
        let mut s = String::from_str("> ");
        s.append(command_line);
        DataUpdate::CommandOutput(s)
    }

    /// How a line of standard error is shown: after `ERR: `.
    pub fn stderr_message(line: &str) -> (u: DataUpdate)
        ensures
            output_text(u) == Some("ERR: "@ + line@),
    {
        let mut s = String::from_str("ERR: ");
        s.append(line);
        DataUpdate::CommandOutput(s)
    }

    /// The reading of one output stream (`stream` names it) could not be
    /// joined: the message shown, and the error the run fails with.
    fn join_failure(stream: &str, detail: &str) -> (r: (DataUpdate, String))
        ensures
            output_text(r.0) == Some("ERR: "@ + r.1@),
            r.1@ == stream@ + " task join failed: "@ + detail@,
    {
        let mut msg = String::from_str(stream);
        msg.append(" task join failed: ");
        msg.append(detail);
        let mut shown = String::from_str("ERR: ");
        shown.append(msg.as_str());
        (DataUpdate::CommandOutput(shown), msg)
    }

    /// The end of a run: the last message to show, if any, and the run's
    /// result. A shell that could not be started or waited for fails the run
    /// with the error's text and shows nothing more; an output task that
    /// could not be joined fails it with a message naming the stream, shown
    /// after `ERR: `; an exited command ends as `CommandRun::finish` says.
    pub fn conclude(end: RunEnd) -> (r: (Option<DataUpdate>, Result<String, String>))
        ensures
            match end {
                RunEnd::SpawnFailed(e) => r.0 is None && (r.1 matches Err(m) && m@ == e@),
                RunEnd::WaitFailed(e) => r.0 is None && (r.1 matches Err(m) && m@ == e@),
                RunEnd::StdoutJoinFailed(d) => {
                    &&& r.1 matches Err(m) && m@ == "stdout"@ + " task join failed: "@ + d@
                    &&& r.0 matches Some(u) && output_text(u) == Some(
                        "ERR: "@ + ("stdout"@ + " task join failed: "@ + d@),
                    )
                },
                RunEnd::StderrJoinFailed(d) => {
                    &&& r.1 matches Err(m) && m@ == "stderr"@ + " task join failed: "@ + d@
                    &&& r.0 matches Some(u) && output_text(u) == Some(
                        "ERR: "@ + ("stderr"@ + " task join failed: "@ + d@),
                    )
                },
                RunEnd::Exited { run, success, code } => {
                    &&& r.0 matches Some(u) && (success ==> output_text(u) == Some("命令执行成功"@))
                        && (!success ==> output_text(u) == Some(failure_text(code)))
                    &&& success ==> (r.1 matches Ok(out) && out@ == run.collected())
                    &&& !success ==> (r.1 matches Err(msg) && msg@ == failure_text(code))
                },
            },
    {
        match end {
            RunEnd::SpawnFailed(e) => (None, Err(e)),
            RunEnd::WaitFailed(e) => (None, Err(e)),
            RunEnd::StdoutJoinFailed(d) => {
                let (shown, msg) = ScoopCommand::join_failure("stdout", d.as_str());
                (Some(shown), Err(msg))
            },
            RunEnd::StderrJoinFailed(d) => {
                let (shown, msg) = ScoopCommand::join_failure("stderr", d.as_str());
                (Some(shown), Err(msg))
            },
            RunEnd::Exited { run, success, code } => {
                let (shown, result) = run.finish(success, code);
                (Some(shown), result)
            },
        }
    }

    /// The arguments of `scoop list`.
    pub fn list_args() -> (args: Vec<String>)
        ensures
            string_views(args@) == seq!["list"@],
    {
        let mut args = Vec::new();
        args.push(String::from_str("list"));
        assert(string_views(args@) =~= seq!["list"@]);
        args
    }

    /// The arguments of `scoop search`.
    pub fn search_args(query: &str) -> (args: Vec<String>)
        ensures
            string_views(args@) == search_args_of(query@),
    {
        let mut args = Vec::new();
        args.push(String::from_str("search"));
        args.push(String::from_str(query));
        assert(string_views(args@) =~= seq!["search"@, query@]);
        args
    }

    /// The arguments of `scoop bucket list`.
    pub fn bucket_list_args() -> (args: Vec<String>)
        ensures
            string_views(args@) == seq!["bucket"@, "list"@],
    {
        let mut args = Vec::new();
        args.push(String::from_str("bucket"));
        args.push(String::from_str("list"));
        assert(string_views(args@) =~= seq!["bucket"@, "list"@]);
        args
    }

    /// The arguments that install a package.
    pub fn install_args(package_name: &str) -> (args: Vec<String>)
        ensures
            string_views(args@) == install_args_of(package_name@),
    {
        let mut args = Vec::new();
        args.push(String::from_str("install"));
        args.push(String::from_str(package_name));
        assert(string_views(args@) =~= seq!["install"@, package_name@]);
        args
    }

    /// The arguments that uninstall a package.
    pub fn uninstall_args(package_name: &str) -> (args: Vec<String>)
        ensures
            string_views(args@) == uninstall_args_of(package_name@),
    {
        let mut args = Vec::new();
        args.push(String::from_str("uninstall"));
        args.push(String::from_str(package_name));
        assert(string_views(args@) =~= seq!["uninstall"@, package_name@]);
        args
    }

    /// The arguments that update a package.
    pub fn update_args(package_name: &str) -> (args: Vec<String>)
        ensures
            string_views(args@) == update_args_of(package_name@),
    {
        let mut args = Vec::new();
        args.push(String::from_str("update"));
        args.push(String::from_str(package_name));
        assert(string_views(args@) =~= seq!["update"@, package_name@]);
        args
    }

    /// The arguments that add a bucket.
    pub fn add_bucket_args(bucket_name: &str) -> (args: Vec<String>)
        ensures
            string_views(args@) == add_bucket_args_of(bucket_name@),
    {
        let mut args = Vec::new();
        args.push(String::from_str("bucket"));
        args.push(String::from_str("add"));
        args.push(String::from_str(bucket_name));
        assert(string_views(args@) =~= seq!["bucket"@, "add"@, bucket_name@]);
        args
    }

    /// The arguments that remove a bucket.
    pub fn remove_bucket_args(bucket_name: &str) -> (args: Vec<String>)
        ensures
            string_views(args@) == remove_bucket_args_of(bucket_name@),
    {
        let mut args = Vec::new();
        args.push(String::from_str("bucket"));
        args.push(String::from_str("rm"));
        args.push(String::from_str(bucket_name));
        assert(string_views(args@) =~= seq!["bucket"@, "rm"@, bucket_name@]);
        args
    }
}

} // verus!
