//! End-to-end exercises of the verified daemon core: the framed codec, the
//! attach state machine, the stream pump, the helper-output parser and the
//! message-of-the-day rendering.

use shpool::codec::{decode_frame, encode_frame, encode_u32_le, read_u32_le_at, CodecError};
use shpool::motd::{convert_to_raw, with_noupdate};
use shpool::protocol::AttachStatus;
use shpool::pump::{ExitCause, Phase, Pump, PumpLoop};
use shpool::registry::{AttachDecision, Registry};
use shpool::spawn::{check_helper_output, SpawnError};

#[test]
fn u32_le_bytes_exact() {
    assert_eq!(encode_u32_le(0x12345678), vec![0x78, 0x56, 0x34, 0x12]);
    assert_eq!(encode_u32_le(0), vec![0, 0, 0, 0]);
    assert_eq!(encode_u32_le(u32::MAX), vec![0xff, 0xff, 0xff, 0xff]);
}

#[test]
fn u32_le_round_trip() {
    for n in [0u32, 1, 255, 256, 65535, 0xdeadbeef, u32::MAX] {
        let b = encode_u32_le(n);
        assert_eq!(read_u32_le_at(&b, 0), n);
    }
}

#[test]
fn frame_encodes_prefix_then_payload() {
    let payload = vec![1u8, 2, 3];
    let frame = encode_frame(&payload);
    assert_eq!(frame, vec![3, 0, 0, 0, 1, 2, 3]);
}

#[test]
fn frame_round_trip_with_trailing_bytes() {
    let payload = vec![9u8, 8, 7, 6];
    let mut buf = encode_frame(&payload);
    buf.extend_from_slice(&[0xaa, 0xbb]);
    let (decoded, consumed) = decode_frame(&buf).expect("well-formed frame");
    assert_eq!(decoded, payload);
    assert_eq!(consumed, 8);
}

#[test]
fn frame_empty_payload() {
    let payload: Vec<u8> = vec![];
    let frame = encode_frame(&payload);
    assert_eq!(frame, vec![0, 0, 0, 0]);
    let (decoded, consumed) = decode_frame(&frame).expect("empty frame decodes");
    assert_eq!(decoded, payload);
    assert_eq!(consumed, 4);
}

#[test]
fn truncated_prefix_is_rejected() {
    let buf = vec![3u8, 0, 0];
    assert_eq!(decode_frame(&buf), Err(CodecError::Truncated));
}

#[test]
fn truncated_payload_is_rejected() {
    let buf = vec![5u8, 0, 0, 0, 1, 2];
    assert_eq!(decode_frame(&buf), Err(CodecError::Truncated));
}

fn attach_created(reg: &mut Registry, name: &str, at: i64, conn: u64, proc_id: u64) -> AttachStatus {
    let name = name.to_string();
    reg.apply_attach(&name, at, conn, proc_id)
}

#[test]
fn first_attach_creates_then_reattach_attaches() {
    // Attach("dev") on an empty registry yields Created; after that pump
    // exits (the connection died), a second Attach("dev") yields Attached:
    // lock ownership, not stream liveness, gates reattachment, and the dead
    // stream is simply replaced.
    let mut reg = Registry::new();
    let dev = "dev".to_string();

    let s1 = attach_created(&mut reg, "dev", 1000, 1, 77);
    assert_eq!(s1, AttachStatus::Created);
    let st = reg.get(&dev).expect("registered");
    assert!(st.pump_active);
    assert_eq!(st.client_conn, 1);
    assert_eq!(st.shell_proc, 77);
    assert_eq!(st.started_at_unix_ms, 1000);

    // the pump exits when the connection closes; the lock is released
    reg.release(&dev);
    let st = reg.get(&dev).expect("still registered");
    assert!(!st.pump_active);

    let s2 = attach_created(&mut reg, "dev", 2000, 2, 99);
    assert_eq!(s2, AttachStatus::Attached);
    let st = reg.get(&dev).expect("still registered");
    assert!(st.pump_active);
    assert_eq!(st.client_conn, 2, "the new connection took the session over");
    assert_eq!(st.shell_proc, 77, "the original shell is kept");
    assert_eq!(st.started_at_unix_ms, 1000, "the creation time is kept");
}

#[test]
fn attach_while_pumped_is_busy_and_undisturbed() {
    // Two attaches to the same name where the first is still pumping: the
    // second deterministically gets Busy, without blocking, and the session's
    // state is untouched afterwards.
    let mut reg = Registry::new();
    let dev = "dev".to_string();
    attach_created(&mut reg, "dev", 500, 10, 42);
    let before = reg.get(&dev).expect("registered");

    let d = reg.attach_decision(&dev);
    assert_eq!(d, AttachDecision::Busy);
    assert_eq!(Registry::attach_status(&d), AttachStatus::Busy);

    let after = reg.get(&dev).expect("registered");
    assert_eq!(before, after, "a busy attach mutates nothing");
}

#[test]
fn list_reports_names_and_original_timestamps() {
    let mut reg = Registry::new();
    attach_created(&mut reg, "alpha", 100, 1, 11);
    attach_created(&mut reg, "beta", 200, 2, 22);

    // attach traffic after creation: busy on alpha, reattach on beta
    let alpha = "alpha".to_string();
    let beta = "beta".to_string();
    assert_eq!(reg.attach_decision(&alpha), AttachDecision::Busy);
    reg.release(&beta);
    attach_created(&mut reg, "beta", 999, 3, 33);

    let sessions = reg.list();
    assert_eq!(sessions.len(), 2);
    let mut summary: Vec<(String, i64)> = sessions
        .iter()
        .map(|s| (s.name.clone(), s.started_at_unix_ms))
        .collect();
    summary.sort();
    assert_eq!(
        summary,
        vec![("alpha".to_string(), 100), ("beta".to_string(), 200)],
        "timestamps are the original creation times, attach traffic or not"
    );
}

#[test]
fn pump_delivers_chunk_across_partial_writes() {
    let mut l = PumpLoop::new();
    l.on_read(vec![1, 2, 3, 4, 5]);
    assert!(matches!(l.phase, Phase::Writing));
    assert_eq!(l.remaining(), 5);

    // a partial write leaves the rest pending, in order
    let done = l.on_write(2);
    assert!(!done);
    assert_eq!(l.remaining(), 3);
    assert_eq!(l.pending_bytes(), vec![3, 4, 5]);

    // another partial write, then the tail completes the chunk
    let done = l.on_write(1);
    assert!(!done);
    assert_eq!(l.pending_bytes(), vec![4, 5]);
    let done = l.on_write(2);
    assert!(done, "the chunk must be retried until fully sent");
    assert!(matches!(l.phase, Phase::Reading));
    assert_eq!(l.remaining(), 0);
}

#[test]
fn pump_loop_ends_on_source_eof() {
    let mut l = PumpLoop::new();
    l.on_read(vec![b'h', b'i']);
    assert!(l.on_write(2));
    l.on_read(vec![]);
    assert!(l.is_done());
    assert_eq!(
        l.phase,
        Phase::Done { cause: ExitCause::SourceClosed },
        "an empty read is end-of-stream"
    );
}

#[test]
fn shell_exit_cancels_sibling_mid_write() {
    // The shell closes its output while the client-to-shell loop is
    // mid-write: one supervising poll raises stop, the sibling observes it
    // at its next check point and ends, and the whole pump terminates.
    let mut p = Pump::new();
    p.client_to_shell.on_read(vec![10, 20, 30]);
    assert!(!p.client_to_shell.on_write(1), "mid-write: two bytes pending");

    p.shell_to_client.on_read(vec![]);
    assert!(p.shell_to_client.is_done());
    assert!(!p.stop_requested());

    p.supervise();
    assert!(p.stop_requested(), "stop raised within one supervising poll");

    p.client_to_shell.observe_stop();
    assert!(p.client_to_shell.is_done());
    assert_eq!(p.client_to_shell.phase, Phase::Done { cause: ExitCause::Cancelled });
    assert!(p.finished(), "no loop is left behind: the pump terminates");
    assert!(!p.pump_failed(), "end-of-stream plus cancellation is not an error");
}

#[test]
fn pump_error_is_surfaced() {
    let mut p = Pump::new();
    p.client_to_shell.on_error();
    p.supervise();
    assert!(p.stop_requested());
    p.shell_to_client.observe_stop();
    assert!(p.finished());
    assert!(p.pump_failed(), "the loop's I/O error is the pump's error");
}

#[test]
fn supervise_without_finished_loop_keeps_running() {
    let mut p = Pump::new();
    p.supervise();
    assert!(!p.stop_requested());
    assert!(!p.finished());
}

#[test]
fn helper_output_parses_two_fields() {
    let out = b"/bin/bash|/home/someone\n".to_vec();
    let info = check_helper_output(true, &Vec::new(), &out).expect("well-formed output");
    assert_eq!(info.default_shell, b"/bin/bash".to_vec());
    assert_eq!(info.home_dir, b"/home/someone".to_vec());
}

#[test]
fn helper_bad_status_is_rejected() {
    let out = b"/bin/bash|/home/someone\n".to_vec();
    match check_helper_output(false, &Vec::new(), &out) {
        Err(e) => assert_eq!(e, SpawnError::HelperStatus),
        Ok(_) => panic!("a non-zero status must be rejected"),
    }
}

#[test]
fn helper_stderr_is_rejected() {
    let out = b"/bin/bash|/home/someone\n".to_vec();
    let err = b"oops".to_vec();
    match check_helper_output(true, &err, &out) {
        Err(e) => assert_eq!(e, SpawnError::HelperStderr),
        Ok(_) => panic!("stderr output must be rejected"),
    }
}

#[test]
fn helper_output_without_separator_is_rejected() {
    let out = b"/bin/bash\n".to_vec();
    match check_helper_output(true, &Vec::new(), &out) {
        Err(e) => assert_eq!(e, SpawnError::MalformedOutput),
        Ok(_) => panic!("one field must be rejected"),
    }
}

#[test]
fn helper_output_with_extra_separator_is_rejected() {
    let out = b"/bin/bash|/home/a|b\n".to_vec();
    match check_helper_output(true, &Vec::new(), &out) {
        Err(e) => assert_eq!(e, SpawnError::MalformedOutput),
        Ok(_) => panic!("three fields must be rejected"),
    }
}

#[test]
fn motd_lines_get_carriage_returns() {
    let motd = b"hello\nworld".to_vec();
    let cr = b"\r".to_vec();
    assert_eq!(convert_to_raw(&motd, &cr), b"hello\n\rworld\n\r".to_vec());
}

#[test]
fn motd_empty_message_is_one_line() {
    let motd: Vec<u8> = Vec::new();
    let cr = b"\r".to_vec();
    assert_eq!(convert_to_raw(&motd, &cr), b"\n\r".to_vec());
}

#[test]
fn motd_trailing_newline_makes_empty_last_line() {
    let motd = b"hi\n".to_vec();
    let cr = b"\r".to_vec();
    assert_eq!(convert_to_raw(&motd, &cr), b"hi\n\r\n\r".to_vec());
}

#[test]
fn noupdate_appended_when_absent() {
    let args = vec!["a".to_string(), "b".to_string()];
    assert_eq!(
        with_noupdate(args),
        vec!["a".to_string(), "b".to_string(), "noupdate".to_string()]
    );
}

#[test]
fn noupdate_kept_single_when_present() {
    let args = vec!["a".to_string(), "noupdate".to_string()];
    assert_eq!(
        with_noupdate(args),
        vec!["a".to_string(), "noupdate".to_string()]
    );
}
