//! A front end to the package manager's command line: waiting for its locks,
//! reading its progress output as events, and reading its dependency listings.
//! The library decides and computes; running commands, reading streams and
//! sleeping is left to the caller.

pub mod apt_lock;
pub mod command;
pub mod error;
pub mod event_laws;
pub mod line_pump;
pub mod predepends;
pub mod text;
pub mod upgrade_event;

pub use crate::apt_lock::{
    lock_found, lock_paths, wait_for_apt_locks, FdTarget, LockAction, LockState, ProcessFds,
};
pub use crate::command::{
    apt_autoremove, apt_hold, apt_install, apt_install_fix_broken, apt_noninteractive,
    apt_noninteractive_callback, apt_purge, apt_reinstall, apt_remove, apt_unhold, apt_update,
    apt_upgrade, check_output, dpkg_configure_all, exit_result, poll_child, Invocation,
    PollAction, Termination, LOCK_DELAY, POLL_DELAY,
};
pub use crate::error::{CommandError, ListingError};
pub use crate::line_pump::{non_blocking_line_reading, PumpAction, ReadOutcome};
pub use crate::predepends::{predepends_of, rdepends_candidates, PreDependsIter};
pub use crate::upgrade_event::AptUpgradeEvent;
