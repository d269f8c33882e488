//! Waiting for the package manager's locks. A lock counts as held while some
//! running process has one of the lock files open. The scanner decides that
//! from a snapshot of the processes' open descriptors; the coordinator decides,
//! check by check, when to tell the observer, when to sleep and when to let
//! the operation run.

use crate::text::{chars_of, same_chars, texts_of, texts_of_chars};
use vstd::prelude::*;

verus! {

/// The lock on the package lists.
pub open spec fn lists_lock() -> Seq<char> {
    "/var/lib/apt/lists/lock"@
}

/// The lock on the package database.
pub open spec fn dpkg_lock() -> Seq<char> {
    "/var/lib/dpkg/lock"@
}

/// The two lock paths that are probed.
pub fn lock_paths() -> (paths: [&'static str; 2])
    ensures
        paths@ =~= seq!["/var/lib/dpkg/lock", "/var/lib/apt/lists/lock"],
        paths[0]@ == dpkg_lock(),
        paths[1]@ == lists_lock(),
{
    ["/var/lib/dpkg/lock", "/var/lib/apt/lists/lock"]
}

/// What an open file descriptor points at.
#[derive(Clone, Debug, PartialEq, Eq)]
pub enum FdTarget {
    /// A file or device, by its path.
    Path(String),
    /// Anything that is no path: a socket, a pipe, or a descriptor that could
    /// not be read.
    Other,
}

/// The open descriptors of one running process.
#[derive(Clone, Debug, PartialEq, Eq)]
pub enum ProcessFds {
    /// The descriptors that could be read.
    Open(Vec<FdTarget>),
    /// The process could not be inspected; it is passed over.
    Unreadable,
}

/// Whether the descriptor points at one of `paths`.
pub open spec fn targets_lock(target: FdTarget, paths: Seq<Seq<char>>) -> bool {
    target matches FdTarget::Path(path) && paths.contains(path@)
}

/// Whether the process has one of `paths` open.
pub open spec fn holds_lock(process: ProcessFds, paths: Seq<Seq<char>>) -> bool {
    process matches ProcessFds::Open(fds) && exists|d: int|
        0 <= d < fds@.len() && targets_lock(#[trigger] fds@[d], paths)
}

/// Whether any process of the snapshot has one of `paths` open.
pub open spec fn lock_held(processes: Seq<ProcessFds>, paths: Seq<Seq<char>>) -> bool {
    exists|p: int| 0 <= p < processes.len() && holds_lock(#[trigger] processes[p], paths)
}

/// Whether the text `path` is among `paths`.
fn is_lock_path(path: &str, paths: &Vec<Vec<char>>) -> (r: bool)
    ensures
        r == texts_of_chars(paths@).contains(path@),
{
    let ghost texts = texts_of_chars(paths@);
    let chars = chars_of(path);
    let mut k: usize = 0;
    while k < paths.len()
        invariant
            k <= paths.len(),
            chars@ == path@,
            texts == texts_of_chars(paths@),
            forall|j: int| 0 <= j < k ==> texts[j] != path@,
        decreases paths.len() - k,
    {
        if same_chars(chars.as_slice(), paths[k].as_slice()) {
            assert(texts[k as int] == path@);
            return true;
        }
        k += 1;
    }
    false
}

/// Whether the process has one of `paths` open.
fn process_holds_lock(process: &ProcessFds, paths: &Vec<Vec<char>>) -> (r: bool)
    ensures
        r == holds_lock(*process, texts_of_chars(paths@)),
{
    let ghost texts = texts_of_chars(paths@);
    match process {
        ProcessFds::Unreadable => false,
        ProcessFds::Open(fds) => {
            let mut d: usize = 0;
            while d < fds.len()
                invariant
                    d <= fds.len(),
                    *process == ProcessFds::Open(*fds),
                    texts == texts_of_chars(paths@),
                    forall|j: int| 0 <= j < d ==> !targets_lock(#[trigger] fds@[j], texts),
                decreases fds.len() - d,
            {
                match &fds[d] {
                    FdTarget::Path(path) => {
                        if is_lock_path(path.as_str(), paths) {
                            assert(targets_lock(fds@[d as int], texts));
                            assert(*process matches ProcessFds::Open(f) && f@ == fds@);
                            assert(holds_lock(*process, texts));
                            return true;
                        }
                    },
                    FdTarget::Other => {},
                }
                d += 1;
            }
            false
        },
    }
}

/// Scans a snapshot of the running processes for one that has any of `paths`
/// open. Processes that could not be inspected count for nothing.
pub fn lock_found(paths: &[&str], processes: &[ProcessFds]) -> (held: bool)
    ensures
        held == lock_held(processes@, texts_of(paths@)),
{
    let mut wanted: Vec<Vec<char>> = Vec::new();
    let mut k: usize = 0;
    while k < paths.len()
        invariant
            k <= paths.len(),
            texts_of_chars(wanted@) == texts_of(paths@).take(k as int),
        decreases paths.len() - k,
    {
        let ghost before = texts_of_chars(wanted@);
        wanted.push(chars_of(paths[k]));
        assert(texts_of_chars(wanted@) =~= before.push(paths@[k as int]@));
        assert(texts_of(paths@).take(k + 1) =~= before.push(paths@[k as int]@));
        k += 1;
    }
    assert(texts_of(paths@).take(k as int) =~= texts_of(paths@));
    let ghost texts = texts_of(paths@);
    let mut p: usize = 0;
    while p < processes.len()
        invariant
            p <= processes.len(),
            texts == texts_of(paths@),
            texts_of_chars(wanted@) == texts,
            forall|j: int| 0 <= j < p ==> !holds_lock(#[trigger] processes@[j], texts),
        decreases processes.len() - p,
    {
        if process_holds_lock(&processes[p], &wanted) {
            return true;
        }
        p += 1;
    }
    false
}

/// Where a wait for the locks stands.
#[derive(Clone, Copy, Debug, PartialEq, Eq)]
pub enum LockState {
    /// No check has been made yet.
    Unchecked,
    /// A check found a lock held, and the observer has been told to wait.
    Waiting,
    /// The locks were found free, and the operation has been let run.
    Ready,
}

/// What the caller does after a check.
#[derive(Clone, Copy, Debug, PartialEq, Eq)]
pub enum LockAction {
    /// Tell the observer `false`, sleep for `millis` milliseconds, check again.
    Announce { millis: u64 },
    /// Sleep for `millis` milliseconds, check again.
    Sleep { millis: u64 },
    /// Tell the observer `true`, then run the operation.
    Run,
    /// Nothing: the operation has been let run before.
    Done,
}

/// The state and the action that follow a check which found the locks `held`.
pub open spec fn lock_step(delay: u64, state: LockState, held: bool) -> (LockState, LockAction) {
    match state {
        LockState::Ready => (LockState::Ready, LockAction::Done),
        LockState::Unchecked => if held {
            (LockState::Waiting, LockAction::Announce { millis: delay })
        } else {
            (LockState::Ready, LockAction::Run)
        },
        LockState::Waiting => if held {
            (LockState::Waiting, LockAction::Sleep { millis: delay })
        } else {
            (LockState::Ready, LockAction::Run)
        },
    }
}

/// The actions that a run of checks brings about, one for each check.
pub open spec fn lock_actions(delay: u64, state: LockState, checks: Seq<bool>) -> Seq<LockAction>
    decreases checks.len(),
{
    if checks.len() == 0 {
        Seq::empty()
    } else {
        seq![lock_step(delay, state, checks[0]).1] + lock_actions(
            delay,
            lock_step(delay, state, checks[0]).0,
            checks.drop_first(),
        )
    }
}

/// What the observer is told in the course of `actions`.
pub open spec fn notifications(actions: Seq<LockAction>) -> Seq<bool>
    decreases actions.len(),
{
    if actions.len() == 0 {
        Seq::empty()
    } else {
        let first = match actions[0] {
            LockAction::Announce { .. } => seq![false],
            LockAction::Run => seq![true],
            _ => Seq::empty(),
        };
        first + notifications(actions.drop_first())
    }
}

/// Decides what follows one check of the locks. The caller starts in
/// [`LockState::Unchecked`], makes a check, hands in what it found, performs
/// the action and goes on from the state that is returned. `delay` is the time
/// between two checks, in milliseconds.
pub fn wait_for_apt_locks(
    delay: u64,
    state: LockState,
    held: bool,
) -> (next: (LockState, LockAction))
    ensures
        next == lock_step(delay, state, held),
{
    match state {
        LockState::Ready => (LockState::Ready, LockAction::Done),
        LockState::Unchecked => if held {
            (LockState::Waiting, LockAction::Announce { millis: delay })
        } else {
            (LockState::Ready, LockAction::Run)
        },
        LockState::Waiting => if held {
            (LockState::Waiting, LockAction::Sleep { millis: delay })
        } else {
            (LockState::Ready, LockAction::Run)
        },
    }
}

/// Every check brings about one action.
pub proof fn lemma_one_action_each(delay: u64, state: LockState, checks: Seq<bool>)
    ensures
        lock_actions(delay, state, checks).len() == checks.len(),
    decreases checks.len(),
{
    if checks.len() > 0 {
        lemma_one_action_each(delay, lock_step(delay, state, checks[0]).0, checks.drop_first());
    }
}

/// A run of `n` checks that all found a lock held.
pub open spec fn held_checks(n: nat) -> Seq<bool> {
    Seq::new(n, |i: int| true)
}

/// Once the operation has been let run, nothing more is done and the observer
/// is told nothing more.
pub proof fn law_nothing_after_run(delay: u64, checks: Seq<bool>)
    ensures
        notifications(lock_actions(delay, LockState::Ready, checks)).len() == 0,
        forall|i: int|
            0 <= i < checks.len() ==> (#[trigger] lock_actions(delay, LockState::Ready, checks)[i])
                == LockAction::Done,
        lock_actions(delay, LockState::Ready, checks).len() == checks.len(),
    decreases checks.len(),
{
    if checks.len() > 0 {
        law_nothing_after_run(delay, checks.drop_first());
        let actions = lock_actions(delay, LockState::Ready, checks);
        assert(actions.drop_first() =~= lock_actions(
            delay,
            LockState::Ready,
            checks.drop_first(),
        ));
    }
}

/// While every check finds a lock held, the caller only sleeps, and the
/// observer, once told to wait, is told nothing more.
pub proof fn law_waiting(delay: u64, n: nat, rest: Seq<bool>)
    ensures
        lock_actions(delay, LockState::Waiting, held_checks(n) + rest) == Seq::new(
            n,
            |i: int| LockAction::Sleep { millis: delay },
        ) + lock_actions(delay, LockState::Waiting, rest),
        notifications(lock_actions(delay, LockState::Waiting, held_checks(n) + rest))
            == notifications(lock_actions(delay, LockState::Waiting, rest)),
    decreases n,
{
    let checks = held_checks(n) + rest;
    if n == 0 {
        assert(checks =~= rest);
        assert(Seq::new(n, |i: int| LockAction::Sleep { millis: delay }) + lock_actions(
            delay,
            LockState::Waiting,
            rest,
        ) =~= lock_actions(delay, LockState::Waiting, rest));
    } else {
        law_waiting(delay, (n - 1) as nat, rest);
        assert(checks.drop_first() =~= held_checks((n - 1) as nat) + rest);
        let tail = lock_actions(delay, LockState::Waiting, checks.drop_first());
        let actions = lock_actions(delay, LockState::Waiting, checks);
        assert(actions == seq![LockAction::Sleep { millis: delay }] + tail);
        assert(actions.drop_first() =~= tail);
        assert(actions =~= Seq::new(n, |i: int| LockAction::Sleep { millis: delay })
            + lock_actions(delay, LockState::Waiting, rest));
    }
}

/// A wait in which `n` checks find a lock held and the next one finds the
/// locks free. Where no check finds a lock held, the observer is told `true`
/// once and nothing else. Otherwise it is told `false` at the first check and
/// `true` at the last, and between them the caller only sleeps. Either way the
/// operation runs at the last check and at no check before it.
pub proof fn law_wait_then_run(delay: u64, n: nat)
    ensures
        ({
            let actions = lock_actions(
                delay,
                LockState::Unchecked,
                held_checks(n) + seq![false],
            );
            &&& actions.len() == n + 1
            &&& actions[n as int] == LockAction::Run
            &&& forall|i: int| 0 <= i < n ==> (#[trigger] actions[i]) != LockAction::Run
            &&& n > 0 ==> actions[0] == (LockAction::Announce { millis: delay })
            &&& forall|i: int|
                1 <= i < n ==> (#[trigger] actions[i]) == (LockAction::Sleep { millis: delay })
            &&& notifications(actions) == if n == 0 {
                seq![true]
            } else {
                seq![false, true]
            }
        }),
{
    let checks = held_checks(n) + seq![false];
    let actions = lock_actions(delay, LockState::Unchecked, checks);
    let last = lock_actions(delay, LockState::Waiting, seq![false]);
    let none = Seq::<bool>::empty();
    assert(seq![false].drop_first() =~= none);
    assert(lock_actions(delay, LockState::Ready, none) =~= Seq::<LockAction>::empty());
    assert(notifications(Seq::<LockAction>::empty()) =~= Seq::<bool>::empty());
    if n == 0 {
        assert(checks =~= seq![false]);
        assert(checks.drop_first() =~= none);
        assert(actions =~= seq![LockAction::Run]);
        assert(actions.drop_first() =~= Seq::<LockAction>::empty());
        assert(notifications(actions) =~= seq![true]);
    } else {
        let m = (n - 1) as nat;
        assert(checks.drop_first() =~= held_checks(m) + seq![false]);
        law_waiting(delay, m, seq![false]);
        let tail = lock_actions(delay, LockState::Waiting, checks.drop_first());
        assert(last =~= seq![LockAction::Run]);
        assert(last.drop_first() =~= Seq::<LockAction>::empty());
        assert(notifications(last) =~= seq![true]);
        assert(actions == seq![LockAction::Announce { millis: delay }] + tail);
        assert(actions.drop_first() =~= tail);
        assert(notifications(actions) =~= seq![false, true]);
    }
}

/// The operation is let run only at a check that found the locks free.
pub proof fn law_run_only_when_free(delay: u64, state: LockState, checks: Seq<bool>, i: int)
    requires
        0 <= i < checks.len(),
        i < lock_actions(delay, state, checks).len(),
        lock_actions(delay, state, checks)[i] == LockAction::Run,
    ensures
        !checks[i],
    decreases checks.len(),
{
    let actions = lock_actions(delay, state, checks);
    lemma_one_action_each(delay, state, checks);
    if i > 0 {
        let tail = lock_actions(delay, lock_step(delay, state, checks[0]).0, checks.drop_first());
        lemma_one_action_each(delay, lock_step(delay, state, checks[0]).0, checks.drop_first());
        assert(actions[i] == tail[i - 1]);
        law_run_only_when_free(
            delay,
            lock_step(delay, state, checks[0]).0,
            checks.drop_first(),
            i - 1,
        );
    }
}

} // verus!
