use mcp_wrapper_rs::broker_manager::parse_broker_args;
use mcp_wrapper_rs::cli::{parse, CliMode};
use mcp_wrapper_rs::daemon_manager::{
    begin_stop, broker_meta, broker_status, build_broker_args, daemon_dir, daemon_paths,
    is_relayed, join_path, list_brokers, pid_of, BrokerFacts, BrokerSearch, Termination,
    ConnectEvent, ConnectStep, StopStep, RETRIES,
};
use mcp_wrapper_rs::json::{to_text, Json};
use mcp_wrapper_rs::logging::cmd_hash;

fn base() -> String {
    daemon_dir(Some("/run/user/1000"))
}

fn strings(words: &[&str]) -> Vec<String> {
    words.iter().map(|w| w.to_string()).collect()
}

#[test]
fn daemon_daemon_paths_produces_hash_based_paths() {
    let paths = daemon_paths(&base(), "python3", &["server.py".to_string()]);
    let hash = cmd_hash("python3", &["server.py".to_string()]);
    assert!(paths.socket.contains(&hash));
    assert!(paths.socket.ends_with(".sock"));
    assert!(paths.lock.ends_with(".lock"));
    assert!(paths.pid.ends_with(".pid"));
}

#[test]
fn daemon_daemon_paths_different_args_different_hash() {
    let p1 = daemon_paths(&base(), "python3", &["a.py".to_string()]);
    let p2 = daemon_paths(&base(), "python3", &["b.py".to_string()]);
    assert_ne!(p1.socket, p2.socket);
}

#[test]
fn daemon_manager_tests_daemon_paths_produces_hash_based_paths() {
    let paths = daemon_paths(&base(), "python3", &["server.py".to_string()]);
    let hash = cmd_hash("python3", &["server.py".to_string()]);
    assert!(paths.socket.contains(&hash));
    assert!(paths.socket.ends_with(".sock"));
    assert!(paths.lock.ends_with(".lock"));
    assert!(paths.pid.ends_with(".pid"));
    assert!(paths.meta.ends_with(".meta.json"));
}

#[test]
fn daemon_manager_tests_daemon_paths_different_args_different_hash() {
    let p1 = daemon_paths(&base(), "python3", &["a.py".to_string()]);
    let p2 = daemon_paths(&base(), "python3", &["b.py".to_string()]);
    assert_ne!(p1.socket, p2.socket);
}

#[test]
fn broker_status_is_read_only_for_missing_broker() {
    let paths = daemon_paths(
        &base(),
        "python3",
        &["missing-broker-status".to_string()],
    );
    let status = broker_status(
        &paths,
        BrokerFacts {
            pid: None,
            socket_exists: false,
            lock_exists: false,
            meta_text: None,
            current_exe: None,
        },
    );
    assert!(!status.running);
    assert!(status.pid.is_none());
    assert!(!status.socket_exists);
    assert!(status.meta.is_none());
}

#[test]
fn list_brokers_handles_missing_or_empty_runtime_dir() {
    let brokers = list_brokers(&Vec::new());
    assert!(brokers.iter().all(|hash| !hash.is_empty()));
    assert!(brokers.is_empty());
    let brokers = list_brokers(&strings(&[".sock", ".pid", "notes.txt"]));
    assert!(brokers.iter().all(|hash| !hash.is_empty()));
    assert!(brokers.is_empty());
}

#[test]
fn brokers_are_listed_once() {
    let names = strings(&[
        "ab12.sock",
        "ab12.pid",
        "ab12.lock",
        "cd34.pid",
        "ab12.meta.json",
        "ef56.sock",
    ]);
    assert_eq!(list_brokers(&names), strings(&["ab12", "cd34", "ef56"]));
}

#[test]
fn a_running_broker_has_a_process_and_a_socket() {
    let paths = daemon_paths("/run/x", "cmd", &[]);
    let meta = broker_meta(paths.hash.as_str(), 77, "/usr/bin/wrapper");
    assert_eq!(meta.get("exe"), Some(&Json::text("/usr/bin/wrapper")));
    let facts = |pid, socket_exists, exe: &str| BrokerFacts {
        pid,
        socket_exists,
        lock_exists: true,
        meta_text: Some(to_text(&meta)),
        current_exe: Some(exe.to_string()),
    };
    let status = broker_status(&paths, facts(Some(77), true, "/usr/bin/wrapper"));
    assert!(status.running);
    assert!(status.meta_matches_current_exe);
    assert_eq!(status.meta, Some(meta.copy()));
    assert!(!broker_status(&paths, facts(Some(77), false, "/usr/bin/wrapper")).running);
    assert!(!broker_status(&paths, facts(None, true, "/usr/bin/wrapper")).running);
    assert!(!broker_status(&paths, facts(Some(77), true, "/other")).meta_matches_current_exe);
}

#[test]
fn directories_follow_the_runtime_directory() {
    assert_eq!(daemon_dir(None), "/tmp/mcp-wrapper");
    assert_eq!(daemon_dir(Some("/run/user/7")), "/run/user/7/mcp-wrapper");
    assert_eq!(daemon_dir(Some("/run/user/7/")), "/run/user/7/mcp-wrapper");
    assert_eq!(daemon_dir(Some("")), "mcp-wrapper");
    assert_eq!(join_path("a", "b"), "a/b");
    let paths = daemon_paths("/d", "cmd", &[]);
    assert_eq!(paths.socket, format!("/d/{}.sock", cmd_hash("cmd", &[])));
    assert_eq!(paths.meta, format!("/d/{}.meta.json", cmd_hash("cmd", &[])));
}

#[test]
fn pid_files_hold_a_number() {
    assert_eq!(pid_of("123\n"), Some(123));
    assert_eq!(pid_of("  7 "), Some(7));
    assert_eq!(pid_of("4294967295"), Some(u32::MAX));
    assert_eq!(pid_of("4294967296"), None);
    assert_eq!(pid_of("-1"), None);
    assert_eq!(pid_of(""), None);
}

#[test]
fn blank_lines_are_not_relayed() {
    assert!(is_relayed("{}\n"));
    assert!(!is_relayed(" \t\n"));
    assert!(!is_relayed("\n"));
}

#[test]
fn daemon_broker_uses_cli_init_timeout() {
    let mut line = vec!["mcp-wrapper-rs".to_string()];
    line.extend(build_broker_args("python3", &strings(&["s.py", "--sleep-init"]), 1));
    let rest = match parse(line) {
        Ok(CliMode::BrokerInternal(rest)) => rest,
        _ => panic!("a broker is started"),
    };
    let parsed = parse_broker_args(&rest).expect("a command");
    assert_eq!(parsed.init_timeout_secs, 1);
    assert!(parsed.no_idle_timeout);
    assert_eq!(parsed.cmd, "python3");
    assert_eq!(parsed.args, strings(&["s.py", "--sleep-init"]));
}

#[test]
fn the_search_for_a_broker_uses_what_is_there() {
    let mut search = BrokerSearch::new();
    assert!(matches!(
        search.next(ConnectEvent::Connected),
        ConnectStep::Use
    ));
}

#[test]
fn who_has_the_lock_starts_the_broker() {
    let mut search = BrokerSearch::new();
    assert!(matches!(search.next(ConnectEvent::Refused), ConnectStep::TryLock));
    assert!(matches!(search.next(ConnectEvent::LockTaken), ConnectStep::Connect));
    assert!(matches!(search.next(ConnectEvent::Refused), ConnectStep::ReadPid));
    assert!(matches!(
        search.next(ConnectEvent::Pid(Some(9))),
        ConnectStep::Spawn { kill: Some(9) }
    ));
    assert!(matches!(search.next(ConnectEvent::Done), ConnectStep::Poll));
    assert!(matches!(search.next(ConnectEvent::Refused), ConnectStep::Poll));
    match search.next(ConnectEvent::DeadlinePassed) {
        ConnectStep::Fail(why) => assert_eq!(why, "broker did not become ready in time"),
        _ => panic!("the time is up"),
    }
}

#[test]
fn who_waits_for_the_lock_tries_twenty_times() {
    let mut search = BrokerSearch::new();
    search.next(ConnectEvent::Refused);
    assert!(matches!(search.next(ConnectEvent::LockBusy), ConnectStep::WaitLock));
    assert!(matches!(search.next(ConnectEvent::Done), ConnectStep::Connect));
    for _ in 1..RETRIES {
        assert!(matches!(search.next(ConnectEvent::Refused), ConnectStep::Retry));
    }
    match search.next(ConnectEvent::Refused) {
        ConnectStep::Fail(why) => assert_eq!(why, "broker not reachable after lock wait"),
        _ => panic!("all attempts failed"),
    }
}

#[test]
fn a_failed_step_ends_the_search() {
    let mut search = BrokerSearch::new();
    search.next(ConnectEvent::Refused);
    match search.next(ConnectEvent::Failed("open lock file: denied".to_string())) {
        ConnectStep::Fail(why) => assert_eq!(why, "open lock file: denied"),
        _ => panic!("the step failed"),
    }
}

#[test]
fn a_broker_that_stays_is_killed() {
    assert_eq!(begin_stop(None).0, StopStep::Clean);
    let (step, stop) = begin_stop(Some(5));
    assert_eq!(step, StopStep::Terminate { pid: 5 });
    let mut stop: Termination = stop.unwrap();
    for _ in 0..50 {
        assert_eq!(stop.next(true), StopStep::Wait);
    }
    assert_eq!(stop.next(true), StopStep::Kill { pid: 5 });
    assert_eq!(stop.next(false), StopStep::Clean);
}
