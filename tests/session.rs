use void_term::session::{
    after_read, plan_kill, ProcessManager, PtyFds, ReadOutcome, TermEvent, WaitOutcome,
};

#[test]
fn kill_after_exit_reports_once() {
    let p = plan_kill(WaitOutcome::Exited(Some(3)));
    assert!(!p.signal);
    assert!(!p.fails);
    assert_eq!(p.events, vec![TermEvent::ProcessExit(3)]);
    let p = plan_kill(WaitOutcome::Exited(None));
    assert_eq!(p.events, vec![TermEvent::ProcessExit(-1)]);
}

#[test]
fn kill_running_and_failures() {
    let p = plan_kill(WaitOutcome::Running);
    assert!(p.signal && !p.fails && p.events.is_empty());
    let p = plan_kill(WaitOutcome::WaitFailed);
    assert!(!p.signal && p.fails && p.events.is_empty());
    let p = plan_kill(WaitOutcome::NoChild);
    assert!(!p.signal && !p.fails && p.events.is_empty());
}

#[test]
fn release_closes_each_once() {
    let mut fds = PtyFds::new(5, 6);
    assert_eq!(fds.release(), vec![5, 6]);
    assert!(fds.release().is_empty());
    let mut fds = PtyFds::new(7, 8);
    assert_eq!(fds.take_slave(), Some(8));
    assert_eq!(fds.master(), Some(7));
    assert_eq!(fds.release(), vec![7]);
    assert!(fds.release().is_empty());
}

#[test]
fn read_steps() {
    let s = after_read(ReadOutcome::Data(b"hi".to_vec()));
    assert!(s.keep_reading);
    assert_eq!(s.event, Some(TermEvent::Output(b"hi".to_vec())));
    let s = after_read(ReadOutcome::Data(Vec::new()));
    assert!(!s.keep_reading && s.event.is_none());
    let s = after_read(ReadOutcome::WouldBlock);
    assert!(s.keep_reading && s.event.is_none());
    let s = after_read(ReadOutcome::Failed("EIO".to_string()));
    assert!(!s.keep_reading);
    assert_eq!(
        s.event,
        Some(TermEvent::Error("Error reading from process: EIO".to_string()))
    );
}

#[test]
fn environment_ends_with_term() {
    let mut m = ProcessManager::new("/bin/sh", "/", vec![("A".to_string(), "1".to_string())]);
    m.add_env_var("TERM", "dumb");
    m.set_working_directory("/tmp");
    assert_eq!(m.current_directory(), "/tmp");
    assert_eq!(m.shell_path(), "/bin/sh");
    let env = m.child_environment();
    assert_eq!(
        env,
        vec![
            ("A".to_string(), "1".to_string()),
            ("TERM".to_string(), "dumb".to_string()),
            ("TERM".to_string(), "xterm-256color".to_string()),
        ]
    );
}
