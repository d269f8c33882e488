use apt_cli_wrappers::{
    apt_autoremove, apt_hold, apt_install, apt_install_fix_broken, apt_noninteractive,
    apt_noninteractive_callback, apt_purge, apt_reinstall, apt_remove, apt_unhold, apt_update,
    apt_upgrade, check_output, dpkg_configure_all, exit_result, poll_child, CommandError,
    Invocation, PollAction, Termination, LOCK_DELAY, POLL_DELAY,
};

fn strings(list: &[&str]) -> Vec<String> {
    list.iter().map(|s| s.to_string()).collect()
}

fn apt_get(args: &[&str], lock_delay: Option<u64>) -> Invocation {
    Invocation {
        program: "apt-get".to_string(),
        env: vec![("DEBIAN_FRONTEND".to_string(), "noninteractive".to_string())],
        args: strings(args),
        read_lines: false,
        lock_delay,
    }
}

#[test]
fn the_delays() {
    assert_eq!(LOCK_DELAY, 3000);
    assert_eq!(POLL_DELAY, 16);
}

#[test]
fn apt_get_is_made_noninteractive() {
    assert_eq!(
        apt_noninteractive(&["install", "foo"]),
        apt_get(&["-y", "--allow-downgrades", "install", "foo"], None)
    );
    assert_eq!(apt_noninteractive(&[]), apt_get(&["-y", "--allow-downgrades"], None));
}

#[test]
fn a_call_whose_lines_are_read_speaks_c() {
    assert_eq!(
        apt_noninteractive_callback(&["full-upgrade"]),
        Invocation {
            program: "apt-get".to_string(),
            env: vec![
                ("DEBIAN_FRONTEND".to_string(), "noninteractive".to_string()),
                ("LANG".to_string(), "C".to_string())
            ],
            args: strings(&["-y", "--allow-downgrades", "full-upgrade"]),
            read_lines: true,
            lock_delay: None,
        }
    );
}

#[test]
fn the_subcommands_wait_for_the_locks() {
    let base = ["-y", "--allow-downgrades"];
    let with = |rest: &[&str]| apt_get(&[&base[..], rest].concat(), Some(3000));
    assert_eq!(apt_autoremove(), with(&["autoremove"]));
    assert_eq!(apt_install(&["a", "b"]), with(&["install", "a", "b"]));
    assert_eq!(apt_install(&[]), with(&["install"]));
    assert_eq!(apt_install_fix_broken(), with(&["install", "-f"]));
    assert_eq!(apt_purge(&["a"]), with(&["purge", "a"]));
    assert_eq!(apt_reinstall(&["a", "b"]), with(&["install", "--reinstall", "a", "b"]));
    assert_eq!(apt_remove(&["a"]), with(&["remove", "--autoremove", "a"]));
    assert_eq!(apt_update(), with(&["update"]));
}

#[test]
fn the_upgrade_shows_progress() {
    assert_eq!(
        apt_upgrade(),
        Invocation {
            program: "apt-get".to_string(),
            env: vec![
                ("DEBIAN_FRONTEND".to_string(), "noninteractive".to_string()),
                ("LANG".to_string(), "C".to_string())
            ],
            args: strings(&["-y", "--allow-downgrades", "--show-progress", "full-upgrade"]),
            read_lines: true,
            lock_delay: Some(3000),
        }
    );
}

#[test]
fn dpkg_and_apt_mark() {
    assert_eq!(
        dpkg_configure_all(),
        Invocation {
            program: "dpkg".to_string(),
            env: vec![],
            args: strings(&["--configure", "-a"]),
            read_lines: false,
            lock_delay: Some(3000),
        }
    );
    assert_eq!(
        apt_hold("foo"),
        Invocation {
            program: "apt-mark".to_string(),
            env: vec![],
            args: strings(&["hold", "foo"]),
            read_lines: false,
            lock_delay: None,
        }
    );
    assert_eq!(apt_unhold("foo").args, strings(&["unhold", "foo"]));
    assert_eq!(apt_unhold("foo").program, "apt-mark");
}

#[test]
fn only_status_zero_is_success() {
    assert_eq!(exit_result("apt-get", Termination::Exited(0)), Ok(()));
    assert_eq!(
        exit_result("apt-get", Termination::Exited(100)),
        Err(CommandError::Status { command: "apt-get".to_string(), code: 100 })
    );
    assert_eq!(
        exit_result("apt-get", Termination::Signaled(9)),
        Err(CommandError::Signal { command: "apt-get".to_string(), signal: 9 })
    );
    assert_eq!(
        exit_result("apt-get", Termination::Unknown),
        Err(CommandError::Unknown { command: "apt-get".to_string() })
    );
}

#[test]
fn output_is_given_on_success() {
    assert_eq!(
        check_output("apt-cache", Termination::Exited(0), Some("text\n".to_string())),
        Ok("text\n".to_string())
    );
    assert_eq!(
        check_output("apt-cache", Termination::Exited(0), None),
        Err(CommandError::NotUtf8 { command: "apt-cache".to_string() })
    );
    assert_eq!(
        check_output("apt-cache", Termination::Exited(1), Some("text".to_string())),
        Err(CommandError::Status { command: "apt-cache".to_string(), code: 1 })
    );
    assert_eq!(
        check_output("apt-cache", Termination::Signaled(15), None),
        Err(CommandError::Signal { command: "apt-cache".to_string(), signal: 15 })
    );
    assert_eq!(
        check_output("apt-cache", Termination::Unknown, Some(String::new())),
        Err(CommandError::Unknown { command: "apt-cache".to_string() })
    );
}

#[test]
fn messages_name_the_command_and_the_reason() {
    let command = "apt-cache".to_string();
    assert_eq!(
        CommandError::Status { command: command.clone(), code: 100 }.message(),
        "apt-cache exited with status of 100"
    );
    assert_eq!(
        CommandError::Status { command: command.clone(), code: -1 }.message(),
        "apt-cache exited with status of -1"
    );
    assert_eq!(
        CommandError::Status { command: command.clone(), code: i32::MIN }.message(),
        format!("apt-cache exited with status of {}", i32::MIN)
    );
    assert_eq!(
        CommandError::Status { command: command.clone(), code: i32::MAX }.message(),
        "apt-cache exited with status of 2147483647"
    );
    assert_eq!(
        CommandError::Signal { command: command.clone(), signal: 9 }.message(),
        "apt-cache terminated with signal 9"
    );
    assert_eq!(
        CommandError::Unknown { command: command.clone() }.message(),
        "apt-cache status is unknown"
    );
    assert_eq!(
        CommandError::NotUtf8 { command }.message(),
        "apt-cache output was not UTF-8"
    );
}

#[test]
fn a_running_child_is_drained_and_an_ended_one_is_final() {
    assert_eq!(poll_child("apt-get", None), PollAction::Drain);
    assert_eq!(poll_child("apt-get", Some(Termination::Exited(0))), PollAction::Finish(Ok(())));
    assert_eq!(
        poll_child("apt-get", Some(Termination::Exited(2))),
        PollAction::Finish(Err(CommandError::Status { command: "apt-get".to_string(), code: 2 }))
    );
}
