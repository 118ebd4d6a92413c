use usage_widget::startup::{
    asks_again, claim_single_instance, finish, instance_name, launch, opener, refresh_minutes, reg_outcome,
    set_run_at_login, Launch, LoginEvent, LoginStep, MutexReply, Wait,
};
use usage_widget::text::wide;

fn done(step: LoginStep) -> Result<String, String> {
    match step {
        LoginStep::Done(r) => r,
        other => panic!("{other:?}"),
    }
}

fn args(step: LoginStep) -> Vec<String> {
    match step {
        LoginStep::RunReg(a) => a,
        other => panic!("{other:?}"),
    }
}

const KEY: &str = r"HKCU\Software\Microsoft\Windows\CurrentVersion\Run";

#[test]
fn refresh_settings() {
    assert_eq!(refresh_minutes(None), 5);
    assert_eq!(refresh_minutes(Some("1")), 1);
    assert_eq!(refresh_minutes(Some(" 15 ")), 15);
    assert_eq!(refresh_minutes(Some("+2")), 2);
    assert_eq!(refresh_minutes(Some("0")), 5);
    assert_eq!(refresh_minutes(Some("-3")), 5);
    assert_eq!(refresh_minutes(Some("soon")), 5);
    assert_eq!(refresh_minutes(Some("")), 5);
    assert_eq!(refresh_minutes(Some("18446744073709551615")), u64::MAX);
    assert_eq!(refresh_minutes(Some("18446744073709551616")), 5);
}

#[test]
fn worker_goes_on_until_the_widget_is_gone() {
    assert!(asks_again(Wait::Asked));
    assert!(asks_again(Wait::Elapsed));
    assert!(!asks_again(Wait::Gone));
}

#[test]
fn flags_of_the_program() {
    assert!(matches!(launch(None), Launch::Run));
    assert!(matches!(launch(Some("--startup")), Launch::RunAtLogin(true)));
    assert!(matches!(launch(Some("--no-startup")), Launch::RunAtLogin(false)));
    match launch(Some("--help")) {
        Launch::Refuse(message) => {
            assert_eq!(message, "unknown flag --help\n\nusage: usage-widget [--startup | --no-startup]")
        }
        other => panic!("{other:?}"),
    }
}

#[test]
fn reports_of_a_flag() {
    let good = finish(Ok("done".to_string()));
    assert_eq!((good.text.as_str(), good.icon, good.failed), ("done", 0x40, false));
    let bad = finish(Err("no".to_string()));
    assert_eq!((bad.text.as_str(), bad.icon, bad.failed), ("no", 0x10, true));
}

#[test]
fn single_instance() {
    assert!(claim_single_instance(MutexReply::Unsupported));
    assert!(claim_single_instance(MutexReply::Created { handle: 0, last_error: 183 }));
    assert!(claim_single_instance(MutexReply::Created { handle: 7, last_error: 0 }));
    assert!(!claim_single_instance(MutexReply::Created { handle: 7, last_error: 183 }));
    assert_eq!(instance_name(), wide(r"Local\usage-widget-single-instance"));
}

#[test]
fn one_instance_in_a_session() {
    let mut alive: Vec<(u32, bool)> = Vec::new();
    let ask = |alive: &mut Vec<(u32, bool)>, process: u32| {
        let last_error = if alive.is_empty() { 0 } else { 183 };
        let claimed = claim_single_instance(MutexReply::Created { handle: 7, last_error });
        alive.push((process, claimed));
        assert!(alive.iter().filter(|p| p.1).count() <= 1);
        claimed
    };
    assert!(ask(&mut alive, 1));
    assert!(!ask(&mut alive, 2));
    alive.retain(|p| p.0 != 2);
    assert!(!ask(&mut alive, 3));
    alive.retain(|p| p.0 != 1);
    assert!(!ask(&mut alive, 4));
    alive.clear();
    assert!(ask(&mut alive, 5));
}

#[test]
fn link_openers() {
    assert_eq!(opener(true), "open");
    assert_eq!(opener(false), "xdg-open");
}

#[test]
fn login_is_for_windows() {
    let step = set_run_at_login(false, true, LoginEvent::Begin);
    assert_eq!(done(step), Err("--startup is only supported on Windows".to_string()));
    let step = set_run_at_login(false, false, LoginEvent::Begin);
    assert_eq!(done(step), Err("--startup is only supported on Windows".to_string()));
}

#[test]
fn registering() {
    assert!(matches!(set_run_at_login(true, true, LoginEvent::Begin), LoginStep::FindExe));
    let event = LoginEvent::ExePath(Ok(r"C:\bin\usage-widget.exe".to_string()));
    let expected = vec!["add", KEY, "/v", "usage-widget", "/t", "REG_SZ", "/d", r"C:\bin\usage-widget.exe", "/f"];
    assert_eq!(args(set_run_at_login(true, true, event)), expected);
    let event = LoginEvent::Exited { success: true, stderr: vec![] };
    assert_eq!(
        done(set_run_at_login(true, true, event)),
        Ok("usage-widget will start at login.\n\nRun `usage-widget --no-startup` to undo.".to_string())
    );
}

#[test]
fn path_with_a_space_is_quoted() {
    let event = LoginEvent::ExePath(Ok(r"C:\My Tools\w.exe".to_string()));
    assert_eq!(args(set_run_at_login(true, true, event))[7], "\"C:\\My Tools\\w.exe\"");
}

#[test]
fn path_that_was_found_is_registered() {
    for enable in [true, false] {
        let event = LoginEvent::ExePath(Ok(r"C:\w.exe".to_string()));
        let expected = vec!["add", KEY, "/v", "usage-widget", "/t", "REG_SZ", "/d", r"C:\w.exe", "/f"];
        assert_eq!(args(set_run_at_login(true, enable, event)), expected);
    }
}

#[test]
fn path_that_cannot_be_found() {
    let event = LoginEvent::ExePath(Err("gone".to_string()));
    assert_eq!(done(set_run_at_login(true, true, event)), Err("gone".to_string()));
}

#[test]
fn removing() {
    let step = set_run_at_login(true, false, LoginEvent::Begin);
    assert_eq!(args(step), vec!["delete", KEY, "/v", "usage-widget", "/f"]);
    let event = LoginEvent::Exited { success: true, stderr: vec![] };
    assert_eq!(
        done(set_run_at_login(true, false, event)),
        Ok("usage-widget will no longer start at login.".to_string())
    );
}

#[test]
fn registry_tool_missing() {
    let event = LoginEvent::NotRun("not found".to_string());
    assert_eq!(done(set_run_at_login(true, true, event)), Err("could not run reg.exe: not found".to_string()));
}

#[test]
fn registry_tool_failing() {
    let event = LoginEvent::Exited { success: false, stderr: b"  ERROR: Access is denied.\r\n".to_vec() };
    assert_eq!(
        done(set_run_at_login(true, true, event)),
        Err("reg.exe failed: ERROR: Access is denied.".to_string())
    );
}

#[test]
fn nothing_to_remove() {
    let message = "ERROR: The system was unable to find the specified registry key or value.\r\n";
    let event = LoginEvent::Exited { success: false, stderr: message.as_bytes().to_vec() };
    assert_eq!(
        done(set_run_at_login(true, false, event)),
        Ok("usage-widget was not registered to run at login.".to_string())
    );
    assert_eq!(
        reg_outcome(false, false, message),
        Ok("usage-widget was not registered to run at login.".to_string())
    );
    assert_eq!(reg_outcome(true, false, message), Err(format!("reg.exe failed: {}", message.trim())));
}

#[test]
fn broken_bytes_are_replaced() {
    let event = LoginEvent::Exited { success: false, stderr: vec![b'a', 0xFF, b'b', b'\n'] };
    assert_eq!(done(set_run_at_login(true, true, event)), Err("reg.exe failed: a\u{FFFD}b".to_string()));
    let event = LoginEvent::Exited { success: false, stderr: "Größe".as_bytes().to_vec() };
    assert_eq!(done(set_run_at_login(true, true, event)), Err("reg.exe failed: Größe".to_string()));
}
