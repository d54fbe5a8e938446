use capture_gui::daemon::{Daemon, Health, Permissions, Session};
use capture_gui::panel::{poll_state, CaptureApp};

fn daemon() -> Daemon {
    Daemon { endpoint: "http://127.0.0.1:7777".to_string(), token: "t".to_string() }
}

fn health() -> Health {
    Health { ok: true, version: "1.2.0".to_string(), api_version: "1".to_string(), pid: 42 }
}

fn perms() -> Permissions {
    Permissions {
        platform: "macos".to_string(),
        screen_recording: "granted".to_string(),
        microphone: "denied".to_string(),
    }
}

fn sessions() -> Vec<Session> {
    vec![Session { session_id: "s1".to_string(), ..Session::default() }]
}

#[test]
fn answering_daemon_gives_its_state() {
    let r = poll_state(Some(daemon()), true, Ok(health()), Ok(sessions()), Ok(perms()));
    assert_eq!(r.daemon.map(|d| d.endpoint), Some("http://127.0.0.1:7777".to_string()));
    assert_eq!(r.health.map(|h| h.pid), Some(42));
    assert_eq!(r.sessions.len(), 1);
    assert_eq!(r.permissions.microphone, "denied");
}

#[test]
fn failed_answers_read_as_empty() {
    let r = poll_state(
        Some(daemon()),
        true,
        Err("timeout".to_string()),
        Err("500".to_string()),
        Err("500".to_string()),
    );
    assert!(r.daemon.is_some());
    assert!(r.health.is_none());
    assert!(r.sessions.is_empty());
    assert_eq!(r.permissions.platform, "");
    assert_eq!(r.permissions.screen_recording, "");
}

#[test]
fn failed_poll_clears_the_daemon_state() {
    let r = poll_state(Some(daemon()), false, Ok(health()), Ok(sessions()), Ok(perms()));
    assert!(r.daemon.is_none());
    assert!(r.health.is_none());
    assert!(r.sessions.is_empty());
    assert_eq!(r.permissions.microphone, "");
    let r = poll_state(None, true, Ok(health()), Ok(sessions()), Ok(perms()));
    assert!(r.daemon.is_none());
    assert!(r.sessions.is_empty());
}

#[test]
fn only_one_poll_loop_starts() {
    let mut p = CaptureApp::new();
    assert!(!p.polling);
    assert!(p.begin_polling());
    assert!(p.polling);
    assert!(!p.begin_polling());
    p.after_poll(&[], &vec![], &None, &vec![]);
    assert!(p.polling);
}
