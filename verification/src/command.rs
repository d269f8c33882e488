//! The command lines that drive the package manager, and what the end of a
//! command means. Nothing here runs a command: an [`Invocation`] says what is
//! to be run and how, and the caller runs it.

use crate::error::{CommandError, CommandErrorModel};
use crate::text::{texts_of, texts_of_strings};
use vstd::prelude::*;

verus! {

/// Time between two checks of the locks, in milliseconds.
pub const LOCK_DELAY: u64 = 3000;

/// Time between two polls of a running child, in milliseconds.
pub const POLL_DELAY: u64 = 16;

/// A command to run: the program, the variables added to its environment, its
/// arguments, whether its output is read line by line, and whether it has to
/// wait for the package manager's locks (with the time between two checks, in
/// milliseconds).
#[derive(Clone, Debug, PartialEq, Eq)]
pub struct Invocation {
    pub program: String,
    pub env: Vec<(String, String)>,
    pub args: Vec<String>,
    pub read_lines: bool,
    pub lock_delay: Option<u64>,
}

/// The mathematical content of an [`Invocation`].
pub ghost struct InvocationModel {
    pub program: Seq<char>,
    pub env: Seq<(Seq<char>, Seq<char>)>,
    pub args: Seq<Seq<char>>,
    pub read_lines: bool,
    pub lock_delay: Option<u64>,
}

/// The names and values of a list of environment variables.
pub open spec fn env_model(env: Seq<(String, String)>) -> Seq<(Seq<char>, Seq<char>)> {
    env.map_values(|pair: (String, String)| (pair.0@, pair.1@))
}

impl View for Invocation {
    type V = InvocationModel;

    open spec fn view(&self) -> InvocationModel {
        InvocationModel {
            program: self.program@,
            env: env_model(self.env@),
            args: texts_of_strings(self.args@),
            read_lines: self.read_lines,
            lock_delay: self.lock_delay,
        }
    }
}

/// `apt-get`, made non-interactive, with `extra` behind the arguments that
/// every call has.
pub open spec fn apt_get(extra: Seq<Seq<char>>) -> InvocationModel {
    InvocationModel {
        program: "apt-get"@,
        env: seq![("DEBIAN_FRONTEND"@, "noninteractive"@)],
        args: seq!["-y"@, "--allow-downgrades"@] + extra,
        read_lines: false,
        lock_delay: None,
    }
}

/// As [`apt_get`], with the tool's messages in the `C` locale and its output
/// read line by line.
pub open spec fn apt_get_lines(extra: Seq<Seq<char>>) -> InvocationModel {
    InvocationModel {
        program: "apt-get"@,
        env: seq![("DEBIAN_FRONTEND"@, "noninteractive"@), ("LANG"@, "C"@)],
        args: seq!["-y"@, "--allow-downgrades"@] + extra,
        read_lines: true,
        lock_delay: None,
    }
}

/// The same command, run once the locks are free.
pub open spec fn locked(m: InvocationModel) -> InvocationModel {
    InvocationModel { lock_delay: Some(LOCK_DELAY), ..m }
}

/// A command without environment or locks.
pub open spec fn plain(program: Seq<char>, args: Seq<Seq<char>>) -> InvocationModel {
    InvocationModel { program, env: Seq::empty(), args, read_lines: false, lock_delay: None }
}

/// Appends owned copies of `list` to `args`.
fn push_args(args: &mut Vec<String>, list: &[&str])
    ensures
        texts_of_strings(final(args)@) == texts_of_strings(old(args)@) + texts_of(list@),
{
    let mut i: usize = 0;
    while i < list.len()
        invariant
            i <= list.len(),
            texts_of_strings(args@) == texts_of_strings(old(args)@) + texts_of(list@).take(
                i as int,
            ),
        decreases list.len() - i,
    {
        let ghost before = texts_of_strings(args@);
        args.push(list[i].to_owned());
        assert(texts_of_strings(args@) =~= before.push(list@[i as int]@));
        assert(texts_of(list@).take(i + 1) =~= texts_of(list@).take(i as int).push(
            list@[i as int]@,
        ));
        i += 1;
    }
    assert(texts_of(list@).take(i as int) =~= texts_of(list@));
}

/// Appends an owned copy of `arg` to `args`.
fn push_arg(args: &mut Vec<String>, arg: &str)
    ensures
        texts_of_strings(final(args)@) == texts_of_strings(old(args)@).push(arg@),
{
    args.push(arg.to_owned());
    assert(texts_of_strings(args@) =~= texts_of_strings(old(args)@).push(arg@));
}

/// The arguments that every call of `apt-get` has.
fn apt_get_args() -> (args: Vec<String>)
    ensures
        texts_of_strings(args@) == seq!["-y"@, "--allow-downgrades"@],
{
    let mut args: Vec<String> = Vec::new();
    assert(texts_of_strings(args@) =~= Seq::<Seq<char>>::empty());
    push_arg(&mut args, "-y");
    push_arg(&mut args, "--allow-downgrades");
    assert(texts_of_strings(args@) =~= seq!["-y"@, "--allow-downgrades"@]);
    args
}

/// The call of `apt-get`, made non-interactive, with `first` and then `rest`
/// behind the arguments that every call has. Where `read_lines` is set the
/// tool is made to speak in the `C` locale and its output is read line by
/// line.
fn apt_get_call(
    first: &[&str],
    rest: &[&str],
    read_lines: bool,
    lock_delay: Option<u64>,
) -> (inv: Invocation)
    ensures
        inv@ == (InvocationModel {
            lock_delay,
            ..if read_lines {
                apt_get_lines(texts_of(first@) + texts_of(rest@))
            } else {
                apt_get(texts_of(first@) + texts_of(rest@))
            }
        }),
{
    let mut args = apt_get_args();
    push_args(&mut args, first);
    push_args(&mut args, rest);
    let mut env: Vec<(String, String)> = Vec::new();
    env.push(("DEBIAN_FRONTEND".to_owned(), "noninteractive".to_owned()));
    assert(env_model(env@) =~= seq![("DEBIAN_FRONTEND"@, "noninteractive"@)]);
    if read_lines {
        env.push(("LANG".to_owned(), "C".to_owned()));
        assert(env_model(env@) =~= seq![("DEBIAN_FRONTEND"@, "noninteractive"@), ("LANG"@, "C"@)]);
    }
    assert(texts_of_strings(args@) =~= seq!["-y"@, "--allow-downgrades"@] + (texts_of(first@)
        + texts_of(rest@)));
    Invocation { program: "apt-get".to_owned(), env, args, read_lines, lock_delay }
}

/// No arguments.
fn no_args() -> (none: [&'static str; 0])
    ensures
        texts_of(none@) == Seq::<Seq<char>>::empty(),
{
    let none: [&'static str; 0] = [];
    assert(texts_of(none@) =~= Seq::<Seq<char>>::empty());
    none
}

/// The call of `apt-get`, made non-interactive, with the arguments `args`
/// behind `-y --allow-downgrades`.
pub fn apt_noninteractive(args: &[&str]) -> (inv: Invocation)
    ensures
        inv@ == apt_get(texts_of(args@)),
{
    let none = no_args();
    assert(texts_of(none@) + texts_of(args@) =~= texts_of(args@));
    apt_get_call(none.as_slice(), args, false, None)
}

/// As [`apt_noninteractive`], for a call whose output is read line by line:
/// the tool is made to speak in the `C` locale.
pub fn apt_noninteractive_callback(args: &[&str]) -> (inv: Invocation)
    ensures
        inv@ == apt_get_lines(texts_of(args@)),
{
    let none = no_args();
    assert(texts_of(none@) + texts_of(args@) =~= texts_of(args@));
    apt_get_call(none.as_slice(), args, true, None)
}

/// `apt-get -y --allow-downgrades autoremove`, once the locks are free.
pub fn apt_autoremove() -> (inv: Invocation)
    ensures
        inv@ == locked(apt_get(seq!["autoremove"@])),
{
    let first: [&str; 1] = ["autoremove"];
    let none = no_args();
    assert(texts_of(first@) + texts_of(none@) =~= seq!["autoremove"@]);
    apt_get_call(first.as_slice(), none.as_slice(), false, Some(LOCK_DELAY))
}

/// `apt-get -y --allow-downgrades install`, then the packages, once the locks
/// are free.
pub fn apt_install(packages: &[&str]) -> (inv: Invocation)
    ensures
        inv@ == locked(apt_get(seq!["install"@] + texts_of(packages@))),
{
    let first: [&str; 1] = ["install"];
    assert(texts_of(first@) =~= seq!["install"@]);
    apt_get_call(first.as_slice(), packages, false, Some(LOCK_DELAY))
}

/// `apt-get -y --allow-downgrades install -f`, once the locks are free.
pub fn apt_install_fix_broken() -> (inv: Invocation)
    ensures
        inv@ == locked(apt_get(seq!["install"@, "-f"@])),
{
    let first: [&str; 2] = ["install", "-f"];
    let none = no_args();
    assert(texts_of(first@) + texts_of(none@) =~= seq!["install"@, "-f"@]);
    apt_get_call(first.as_slice(), none.as_slice(), false, Some(LOCK_DELAY))
}

/// `apt-get -y --allow-downgrades purge`, then the packages, once the locks
/// are free.
pub fn apt_purge(packages: &[&str]) -> (inv: Invocation)
    ensures
        inv@ == locked(apt_get(seq!["purge"@] + texts_of(packages@))),
{
    let first: [&str; 1] = ["purge"];
    assert(texts_of(first@) =~= seq!["purge"@]);
    apt_get_call(first.as_slice(), packages, false, Some(LOCK_DELAY))
}

/// `apt-get -y --allow-downgrades install --reinstall`, then the packages,
/// once the locks are free.
pub fn apt_reinstall(packages: &[&str]) -> (inv: Invocation)
    ensures
        inv@ == locked(apt_get(seq!["install"@, "--reinstall"@] + texts_of(packages@))),
{
    let first: [&str; 2] = ["install", "--reinstall"];
    assert(texts_of(first@) =~= seq!["install"@, "--reinstall"@]);
    apt_get_call(first.as_slice(), packages, false, Some(LOCK_DELAY))
}

/// `apt-get -y --allow-downgrades remove --autoremove`, then the packages,
/// once the locks are free.
pub fn apt_remove(packages: &[&str]) -> (inv: Invocation)
    ensures
        inv@ == locked(apt_get(seq!["remove"@, "--autoremove"@] + texts_of(packages@))),
{
    let first: [&str; 2] = ["remove", "--autoremove"];
    assert(texts_of(first@) =~= seq!["remove"@, "--autoremove"@]);
    apt_get_call(first.as_slice(), packages, false, Some(LOCK_DELAY))
}

/// `apt-get -y --allow-downgrades update`, once the locks are free.
pub fn apt_update() -> (inv: Invocation)
    ensures
        inv@ == locked(apt_get(seq!["update"@])),
{
    let first: [&str; 1] = ["update"];
    let none = no_args();
    assert(texts_of(first@) + texts_of(none@) =~= seq!["update"@]);
    apt_get_call(first.as_slice(), none.as_slice(), false, Some(LOCK_DELAY))
}

/// `apt-get -y --allow-downgrades --show-progress full-upgrade`, once the
/// locks are free, with its output read line by line: each line is then given
/// to the event parser.
pub fn apt_upgrade() -> (inv: Invocation)
    ensures
        inv@ == locked(apt_get_lines(seq!["--show-progress"@, "full-upgrade"@])),
{
    let first: [&str; 2] = ["--show-progress", "full-upgrade"];
    let none = no_args();
    assert(texts_of(first@) + texts_of(none@) =~= seq!["--show-progress"@, "full-upgrade"@]);
    apt_get_call(first.as_slice(), none.as_slice(), true, Some(LOCK_DELAY))
}

/// The call of `program` with two arguments and nothing added to its
/// environment.
fn plain_call(
    program: &str,
    first: &str,
    second: &str,
    lock_delay: Option<u64>,
) -> (inv: Invocation)
    ensures
        inv@ == (InvocationModel { lock_delay, ..plain(program@, seq![first@, second@]) }),
{
    let mut args: Vec<String> = Vec::new();
    assert(texts_of_strings(args@) =~= Seq::<Seq<char>>::empty());
    push_arg(&mut args, first);
    push_arg(&mut args, second);
    let inv = Invocation {
        program: program.to_owned(),
        env: Vec::new(),
        args,
        read_lines: false,
        lock_delay,
    };
    assert(env_model(inv.env@) =~= Seq::<(Seq<char>, Seq<char>)>::empty());
    assert(texts_of_strings(inv.args@) =~= seq![first@, second@]);
    inv
}

/// `dpkg --configure -a`, once the locks are free.
pub fn dpkg_configure_all() -> (inv: Invocation)
    ensures
        inv@ == locked(plain("dpkg"@, seq!["--configure"@, "-a"@])),
{
    plain_call("dpkg", "--configure", "-a", Some(LOCK_DELAY))
}

/// `apt-mark hold`, then the package.
pub fn apt_hold(package: &str) -> (inv: Invocation)
    ensures
        inv@ == plain("apt-mark"@, seq!["hold"@, package@]),
{
    plain_call("apt-mark", "hold", package, None)
}

/// `apt-mark unhold`, then the package.
pub fn apt_unhold(package: &str) -> (inv: Invocation)
    ensures
        inv@ == plain("apt-mark"@, seq!["unhold"@, package@]),
{
    plain_call("apt-mark", "unhold", package, None)
}

/// How a command ended.
#[derive(Clone, Copy, Debug, PartialEq, Eq)]
pub enum Termination {
    /// It exited, with this status.
    Exited(i32),
    /// This signal ended it.
    Signaled(i32),
    /// Neither a status nor a signal is known.
    Unknown,
}

/// What stands between a command and success, if anything: a status other
/// than zero, a signal, or an end of which nothing is known.
pub open spec fn failure_of(
    command: Seq<char>,
    termination: Termination,
) -> Option<CommandErrorModel> {
    match termination {
        Termination::Exited(code) => if code == 0 {
            None
        } else {
            Some(CommandErrorModel::Status { command, code })
        },
        Termination::Signaled(signal) => Some(CommandErrorModel::Signal { command, signal }),
        Termination::Unknown => Some(CommandErrorModel::Unknown { command }),
    }
}

/// Tells whether the command `cmd` succeeded, and why it did not.
pub fn exit_result(cmd: &str, termination: Termination) -> (r: Result<(), CommandError>)
    ensures
        match failure_of(cmd@, termination) {
            None => r is Ok,
            Some(e) => r matches Err(err) && err@ == e,
        },
{
    match termination {
        Termination::Exited(code) => if code == 0 {
            Ok(())
        } else {
            Err(CommandError::Status { command: cmd.to_owned(), code })
        },
        Termination::Signaled(signal) => Err(
            CommandError::Signal { command: cmd.to_owned(), signal },
        ),
        Termination::Unknown => Err(CommandError::Unknown { command: cmd.to_owned() }),
    }
}

/// Gives the output of the command `cmd` once it has ended. `stdout` is what
/// the command wrote, as text, or nothing where that is no UTF-8. A command
/// that succeeded gives its output, and an error where the output is no text;
/// one that failed gives the reason.
pub fn check_output(
    cmd: &str,
    termination: Termination,
    stdout: Option<String>,
) -> (r: Result<String, CommandError>)
    ensures
        match failure_of(cmd@, termination) {
            Some(e) => r matches Err(err) && err@ == e,
            None => match stdout {
                Some(text) => r == Ok::<String, CommandError>(text),
                None => r matches Err(err) && err@ == (CommandErrorModel::NotUtf8 {
                    command: cmd@,
                }),
            },
        },
{
    match exit_result(cmd, termination) {
        Err(e) => Err(e),
        Ok(()) => match stdout {
            Some(text) => Ok(text),
            None => Err(CommandError::NotUtf8 { command: cmd.to_owned() }),
        },
    }
}

/// What follows one poll of a child whose output is read line by line.
#[derive(Debug, PartialEq, Eq)]
pub enum PollAction {
    /// The child still runs: read the lines that have arrived, sleep for
    /// [`POLL_DELAY`] milliseconds and poll again.
    Drain,
    /// The child has ended: read once more the lines that have arrived,
    /// whatever comes of that reading, then return this.
    Finish(Result<(), CommandError>),
}

/// The mathematical content of a [`PollAction`]. A child that ended well
/// finishes with no failure.
pub ghost enum PollModel {
    Drain,
    Finish(Option<CommandErrorModel>),
}

impl View for PollAction {
    type V = PollModel;

    open spec fn view(&self) -> PollModel {
        match *self {
            PollAction::Drain => PollModel::Drain,
            PollAction::Finish(Ok(_)) => PollModel::Finish(None),
            PollAction::Finish(Err(e)) => PollModel::Finish(Some(e@)),
        }
    }
}

/// The action that follows one poll of the child that runs `command`.
/// `status` is how the child ended, or nothing while it runs.
pub open spec fn poll_step(command: Seq<char>, status: Option<Termination>) -> PollModel {
    match status {
        None => PollModel::Drain,
        Some(termination) => PollModel::Finish(failure_of(command, termination)),
    }
}

/// Decides what follows one poll of the child that runs `cmd`. `status` is how
/// the child ended, or nothing while it runs. A child that has ended is
/// drained once more before its result is returned, so that what it wrote
/// last is not lost; a failure of that last reading does not change the
/// result.
pub fn poll_child(cmd: &str, status: Option<Termination>) -> (action: PollAction)
    ensures
        action@ == poll_step(cmd@, status),
{
    match status {
        None => PollAction::Drain,
        Some(termination) => PollAction::Finish(exit_result(cmd, termination)),
    }
}

} // verus!
