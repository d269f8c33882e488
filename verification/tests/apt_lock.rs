use apt_cli_wrappers::{
    lock_found, lock_paths, wait_for_apt_locks, FdTarget, LockAction, LockState, ProcessFds,
};

fn path(p: &str) -> FdTarget {
    FdTarget::Path(p.to_string())
}

/// Runs the coordinator over `checks` and gives what the observer was told and
/// whether the operation ran, in the order of the events.
fn run(delay: u64, checks: &[bool]) -> (Vec<bool>, Vec<LockAction>) {
    let mut told = Vec::new();
    let mut actions = Vec::new();
    let mut state = LockState::Unchecked;
    for &held in checks {
        let (next, action) = wait_for_apt_locks(delay, state, held);
        match action {
            LockAction::Announce { .. } => told.push(false),
            LockAction::Run => told.push(true),
            _ => {}
        }
        actions.push(action);
        state = next;
    }
    (told, actions)
}

#[test]
fn the_two_lock_paths() {
    assert_eq!(lock_paths(), ["/var/lib/dpkg/lock", "/var/lib/apt/lists/lock"]);
}

#[test]
fn free_locks_tell_the_observer_true_once() {
    let (told, actions) = run(3000, &[false]);
    assert_eq!(told, vec![true]);
    assert_eq!(actions, vec![LockAction::Run]);
}

#[test]
fn held_then_free_tells_false_then_true() {
    let (told, actions) = run(3000, &[true, false]);
    assert_eq!(told, vec![false, true]);
    assert_eq!(actions, vec![LockAction::Announce { millis: 3000 }, LockAction::Run]);
}

#[test]
fn a_long_wait_announces_once_and_sleeps() {
    let (told, actions) = run(250, &[true, true, true, true, false]);
    assert_eq!(told, vec![false, true]);
    assert_eq!(
        actions,
        vec![
            LockAction::Announce { millis: 250 },
            LockAction::Sleep { millis: 250 },
            LockAction::Sleep { millis: 250 },
            LockAction::Sleep { millis: 250 },
            LockAction::Run
        ]
    );
}

#[test]
fn nothing_follows_the_run() {
    let (told, actions) = run(1, &[false, true, false]);
    assert_eq!(told, vec![true]);
    assert_eq!(actions, vec![LockAction::Run, LockAction::Done, LockAction::Done]);
    assert_eq!(
        wait_for_apt_locks(1, LockState::Ready, true),
        (LockState::Ready, LockAction::Done)
    );
}

#[test]
fn each_state_steps_as_described() {
    assert_eq!(
        wait_for_apt_locks(7, LockState::Unchecked, true),
        (LockState::Waiting, LockAction::Announce { millis: 7 })
    );
    assert_eq!(
        wait_for_apt_locks(7, LockState::Unchecked, false),
        (LockState::Ready, LockAction::Run)
    );
    assert_eq!(
        wait_for_apt_locks(7, LockState::Waiting, true),
        (LockState::Waiting, LockAction::Sleep { millis: 7 })
    );
    assert_eq!(
        wait_for_apt_locks(7, LockState::Waiting, false),
        (LockState::Ready, LockAction::Run)
    );
}

#[test]
fn a_lock_is_found_where_a_process_has_it_open() {
    let paths = lock_paths();
    let processes = vec![
        ProcessFds::Open(vec![path("/dev/null"), FdTarget::Other]),
        ProcessFds::Unreadable,
        ProcessFds::Open(vec![FdTarget::Other, path("/var/lib/apt/lists/lock")]),
    ];
    assert!(lock_found(&paths, &processes));
    let dpkg = vec![ProcessFds::Open(vec![path("/var/lib/dpkg/lock")])];
    assert!(lock_found(&paths, &dpkg));
}

#[test]
fn no_lock_is_found_elsewhere() {
    let paths = lock_paths();
    assert!(!lock_found(&paths, &[]));
    let processes = vec![
        ProcessFds::Open(vec![]),
        ProcessFds::Unreadable,
        ProcessFds::Open(vec![
            path("/var/lib/dpkg/lock-frontend"),
            path("/var/lib/dpkg/loc"),
            path("var/lib/dpkg/lock"),
            path(""),
            FdTarget::Other,
        ]),
    ];
    assert!(!lock_found(&paths, &processes));
    let none: [&str; 0] = [];
    assert!(!lock_found(&none, &[ProcessFds::Open(vec![path("/var/lib/dpkg/lock")])]));
}

#[test]
fn any_of_the_given_paths_counts() {
    let processes = vec![ProcessFds::Open(vec![path("/tmp/b")])];
    assert!(lock_found(&["/tmp/a", "/tmp/b"], &processes));
    assert!(!lock_found(&["/tmp/a", "/tmp/c"], &processes));
}
