use aterm::codec::decode_chunk;
use aterm::session::{event_of, next_event, OutputEvent, SessionManager};
use aterm::pty::PtyReader;

fn drain_session(reader: &mut PtyReader, id: &str) -> Vec<u8> {
    let mut all: Vec<u8> = Vec::new();
    let mut steps = 0usize;
    loop {
        match next_event(reader, id) {
            None => break,
            Some(OutputEvent { channel, payload }) => {
                assert_eq!(channel, format!("pty-output-{}", id));
                let bytes = decode_chunk(payload.as_str()).expect("payload must decode");
                all.extend_from_slice(&bytes);
            }
        }
        steps += 1;
        if steps > 10000 {
            panic!("reader loop did not terminate");
        }
    }
    all
}

#[test]
fn event_of_pins_stop_versus_publish() {
    // An empty read is end-of-stream: no event, the loop stops.
    assert!(event_of(Vec::new(), "s").is_none());
    // A non-empty read yields exactly one event on the session's channel,
    // carrying the chunk's encoding.
    let e = event_of(b"hi".to_vec(), "s").expect("non-empty read yields one event");
    assert_eq!(e.channel, "pty-output-s");
    assert_eq!(e.payload, "aGk=");
}

#[test]
fn spawn_twice_keeps_single_entry() {
    let mut mgr = SessionManager::new("/bin/sh".to_string());
    let r1 = mgr.spawn("dup".to_string(), "/", 80, 24, &None);
    assert!(r1.is_ok());
    let r2 = mgr.spawn("dup".to_string(), "/", 80, 24, &None);
    assert!(r2.is_ok());
    assert_eq!(mgr.count(), 1);
    assert!(mgr.kill("dup").is_ok());
    assert_eq!(mgr.count(), 0);
}

#[test]
fn absent_id_operations_silently_succeed() {
    let mut mgr = SessionManager::new("/bin/sh".to_string());
    assert!(mgr.write("nope", "echo hi\n").is_ok());
    assert!(mgr.resize("nope", 120, 40).is_ok());
    assert!(mgr.kill("nope").is_ok());
    assert_eq!(mgr.count(), 0);
}

#[test]
fn kill_all_empties_registry() {
    let mut mgr = SessionManager::new("/bin/sh".to_string());
    let mut r1 = mgr.spawn("a".to_string(), "/", 80, 24, &None).expect("spawn a");
    let mut r2 = mgr.spawn("b".to_string(), "/", 80, 24, &None).expect("spawn b");
    assert_eq!(mgr.count(), 2);
    assert!(mgr.kill_all().is_ok());
    assert_eq!(mgr.count(), 0);
    // The kill requests close the terminals; both reader loops observe the
    // end of their streams on their own.
    let _ = drain_session(&mut r1, "a");
    let _ = drain_session(&mut r2, "b");
}

#[test]
fn shell_output_round_trips_through_events() {
    let mut mgr = SessionManager::new("/bin/sh".to_string());
    let mut reader = mgr.spawn("echo".to_string(), "/", 80, 24, &None).expect("spawn");
    assert!(mgr.write("echo", "echo marker_zq_42\n").is_ok());
    assert!(mgr.write("echo", "exit\n").is_ok());
    let bytes = drain_session(&mut reader, "echo");
    let text = String::from_utf8_lossy(&bytes);
    assert!(text.contains("marker_zq_42"), "output was: {text}");
    assert!(mgr.kill("echo").is_ok());
}

#[test]
fn spawn_with_command_runs_it_first() {
    let mut mgr = SessionManager::new("/bin/sh".to_string());
    let command = Some("echo started_once_xy; exit".to_string());
    let mut reader = mgr.spawn("cmd".to_string(), "/", 80, 24, &command).expect("spawn");
    // The one-shot command runs, then an interactive shell takes its place;
    // end that shell too so the stream closes.
    assert!(mgr.write("cmd", "exit\n").is_ok());
    let bytes = drain_session(&mut reader, "cmd");
    let text = String::from_utf8_lossy(&bytes);
    assert!(text.contains("started_once_xy"), "output was: {text}");
    assert!(mgr.kill("cmd").is_ok());
}

#[test]
fn resize_changes_reported_dimensions() {
    let mut mgr = SessionManager::new("/bin/sh".to_string());
    let mut reader = mgr.spawn("size".to_string(), "/", 80, 24, &None).expect("spawn");
    assert!(mgr.resize("size", 120, 40).is_ok());
    assert!(mgr.write("size", "stty size\n").is_ok());
    assert!(mgr.write("size", "exit\n").is_ok());
    let bytes = drain_session(&mut reader, "size");
    let text = String::from_utf8_lossy(&bytes);
    assert!(text.contains("40 120"), "output was: {text}");
    assert!(mgr.kill("size").is_ok());
}

#[test]
fn killed_session_stream_ends() {
    let mut mgr = SessionManager::new("/bin/sh".to_string());
    let mut reader = mgr.spawn("gone".to_string(), "/", 80, 24, &None).expect("spawn");
    assert!(mgr.write("gone", "echo pre_kill_mark\n").is_ok());
    assert!(mgr.kill("gone").is_ok());
    assert_eq!(mgr.count(), 0);
    // Trailing chunks after the kill are expected and harmless; the stream
    // must still end.
    let _ = drain_session(&mut reader, "gone");
}

#[test]
fn failed_spawn_registers_nothing() {
    let mut mgr = SessionManager::new("/no/such/shell/anywhere".to_string());
    let r = mgr.spawn("broken".to_string(), "/", 80, 24, &None);
    assert!(r.is_err());
    assert_eq!(mgr.count(), 0);
    assert!(mgr.list().is_empty());
}

#[test]
fn list_reports_live_ids() {
    let mut mgr = SessionManager::new("/bin/sh".to_string());
    let _ra = mgr.spawn("one".to_string(), "/", 80, 24, &None).expect("spawn one");
    let _rb = mgr.spawn("two".to_string(), "/", 80, 24, &None).expect("spawn two");
    let ids = mgr.list();
    assert_eq!(ids.len(), 2);
    assert!(ids.contains(&"one".to_string()));
    assert!(ids.contains(&"two".to_string()));
    assert!(mgr.kill_all().is_ok());
    assert_eq!(mgr.list().len(), 0);
}
