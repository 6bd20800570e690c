use wisty_stream::errors::WriteStreamError;
use wisty_stream::state::LaunchArgState;
use wisty_stream::write_stream::cancel_save_file_stream;
use wisty_stream::write_stream::finish_save_file_stream;
use wisty_stream::write_stream::start_save_file_stream;
use wisty_stream::write_stream::write_save_file_chunk;

fn b(s: &str) -> Vec<u8> {
    s.as_bytes().to_vec()
}

#[test]
fn save_session_accounts_for_every_chunk() {
    let mut state = LaunchArgState::new(None);
    let res = start_save_file_stream(&mut state, &b("/tmp/out.txt"), true, true).unwrap();
    assert_eq!(res.stream_id, 1);
    assert_eq!(res.file_path, b("/tmp/out.txt"));
    assert_eq!(res.temp_path, b("/tmp/.out.txt.wisty-save-1.tmp"));
    let w1 = write_save_file_chunk(&mut state, 1, &b("hello ")).unwrap();
    assert_eq!(w1.bytes_written_total, 6);
    let w2 = write_save_file_chunk(&mut state, 1, &b("world")).unwrap();
    assert_eq!(w2.bytes_written_total, 11);
    let fin = finish_save_file_stream(&mut state, 1).unwrap();
    assert_eq!(fin.bytes_written_total, 11);
    assert_eq!(fin.target_path, b("/tmp/out.txt"));
    assert_eq!(fin.temp_path, b("/tmp/.out.txt.wisty-save-1.tmp"));
}

#[test]
fn finished_session_is_gone() {
    let mut state = LaunchArgState::new(None);
    let res = start_save_file_stream(&mut state, &b("/tmp/out.txt"), true, true).unwrap();
    write_save_file_chunk(&mut state, res.stream_id, &b("x")).unwrap();
    finish_save_file_stream(&mut state, res.stream_id).unwrap();
    // a second finish or a late cancel must fail with not-found
    assert_eq!(
        finish_save_file_stream(&mut state, res.stream_id),
        Err(WriteStreamError::SessionNotFound)
    );
    assert_eq!(
        cancel_save_file_stream(&mut state, res.stream_id),
        Err(WriteStreamError::SessionNotFound)
    );
    assert_eq!(
        write_save_file_chunk(&mut state, res.stream_id, &b("x")),
        Err(WriteStreamError::SessionNotFound)
    );
}

#[test]
fn cancelled_session_reports_its_temp_file() {
    let mut state = LaunchArgState::new(None);
    let res = start_save_file_stream(&mut state, &b("/tmp/out.txt"), true, true).unwrap();
    write_save_file_chunk(&mut state, res.stream_id, &b("half a sav")).unwrap();
    let temp = cancel_save_file_stream(&mut state, res.stream_id).unwrap();
    assert_eq!(temp, res.temp_path);
    // the session is consumed: nothing more can reach it
    assert_eq!(
        finish_save_file_stream(&mut state, res.stream_id),
        Err(WriteStreamError::SessionNotFound)
    );
    assert_eq!(
        cancel_save_file_stream(&mut state, res.stream_id),
        Err(WriteStreamError::SessionNotFound)
    );
}

#[test]
fn save_target_must_not_be_blank() {
    let mut state = LaunchArgState::new(None);
    assert_eq!(
        start_save_file_stream(&mut state, &b(""), true, true),
        Err(WriteStreamError::EmptyPath)
    );
    assert_eq!(
        start_save_file_stream(&mut state, &b("  "), true, true),
        Err(WriteStreamError::EmptyPath)
    );
}

#[test]
fn save_target_needs_a_parent_directory() {
    let mut state = LaunchArgState::new(None);
    assert_eq!(
        start_save_file_stream(&mut state, &b("/tmp/out.txt"), false, false),
        Err(WriteStreamError::ParentMissing)
    );
    assert_eq!(
        start_save_file_stream(&mut state, &b("/tmp/out.txt"), true, false),
        Err(WriteStreamError::ParentNotADirectory)
    );
    assert_eq!(
        start_save_file_stream(&mut state, &b("/"), true, true),
        Err(WriteStreamError::NoParent)
    );
}

#[test]
fn failed_start_still_spends_the_identifier() {
    let mut state = LaunchArgState::new(None);
    assert_eq!(
        start_save_file_stream(&mut state, &b("/tmp/out.txt"), false, false),
        Err(WriteStreamError::ParentMissing)
    );
    // the failed attempt consumed identifier 1
    let res = start_save_file_stream(&mut state, &b("/tmp/out.txt"), true, true).unwrap();
    assert_eq!(res.stream_id, 2);
}

#[test]
fn unknown_write_session_reports_not_found() {
    let mut state = LaunchArgState::new(None);
    assert_eq!(
        write_save_file_chunk(&mut state, 5, &b("x")),
        Err(WriteStreamError::SessionNotFound)
    );
    assert_eq!(
        finish_save_file_stream(&mut state, 5),
        Err(WriteStreamError::SessionNotFound)
    );
    assert_eq!(
        cancel_save_file_stream(&mut state, 5),
        Err(WriteStreamError::SessionNotFound)
    );
}

#[test]
fn concurrent_sessions_toward_one_target_use_distinct_temp_files() {
    let mut state = LaunchArgState::new(None);
    let a = start_save_file_stream(&mut state, &b("/tmp/out.txt"), true, true).unwrap();
    let bres = start_save_file_stream(&mut state, &b("/tmp/out.txt"), true, true).unwrap();
    assert_ne!(a.stream_id, bres.stream_id);
    assert_ne!(a.temp_path, bres.temp_path);
    write_save_file_chunk(&mut state, a.stream_id, &b("first")).unwrap();
    write_save_file_chunk(&mut state, bres.stream_id, &b("second!")).unwrap();
    let fa = finish_save_file_stream(&mut state, a.stream_id).unwrap();
    let fb = finish_save_file_stream(&mut state, bres.stream_id).unwrap();
    assert_eq!(fa.bytes_written_total, 5);
    assert_eq!(fb.bytes_written_total, 7);
}
