use wisty_stream::errors::ReadStreamError;
use wisty_stream::launch_arg::FileStat;
use wisty_stream::launch_arg::LaunchFileArg;
use wisty_stream::read_stream::cancel_launch_file_stream;
use wisty_stream::read_stream::clamp_read_size;
use wisty_stream::read_stream::close_launch_file_stream;
use wisty_stream::read_stream::read_launch_file_chunk;
use wisty_stream::read_stream::start_launch_file_stream;
use wisty_stream::read_stream::LaunchFileStreamChunkResult;
use wisty_stream::state::take_launch_file_arg;
use wisty_stream::state::LaunchArgState;

fn b(s: &str) -> Vec<u8> {
    s.as_bytes().to_vec()
}

fn state_with_file(path: &str, size: u64) -> LaunchArgState {
    LaunchArgState::new(Some(LaunchFileArg {
        path: b(path),
        exists: true,
        file_size_bytes: Some(size),
    }))
}

fn start(state: &mut LaunchArgState, path: &str, size: u64) -> u64 {
    let res = start_launch_file_stream(
        state,
        &b(path),
        &FileStat::Regular { size_bytes: size },
    )
    .unwrap();
    assert_eq!(res.file_path, b(path));
    assert_eq!(res.file_size_bytes, size);
    res.stream_id
}

#[test]
fn pending_launch_file_is_taken_once() {
    let mut state = state_with_file("/tmp/a.txt", 5);
    let first = take_launch_file_arg(&mut state);
    assert_eq!(
        first,
        Some(LaunchFileArg {
            path: b("/tmp/a.txt"),
            exists: true,
            file_size_bytes: Some(5),
        })
    );
    assert_eq!(take_launch_file_arg(&mut state), None);
}

#[test]
fn only_the_approved_path_can_be_streamed() {
    let mut state = state_with_file("/tmp/a.txt", 5);
    assert_eq!(
        start_launch_file_stream(
            &mut state,
            &b("/etc/passwd"),
            &FileStat::Regular { size_bytes: 5 }
        ),
        Err(ReadStreamError::PathNotApproved)
    );
    // no pending file approves nothing
    let mut empty = LaunchArgState::new(None);
    assert_eq!(
        start_launch_file_stream(
            &mut empty,
            &b("/tmp/a.txt"),
            &FileStat::Regular { size_bytes: 5 }
        ),
        Err(ReadStreamError::NoLaunchFile)
    );
    // a pending file that does not yet exist approves nothing either
    let mut unborn = LaunchArgState::new(Some(LaunchFileArg {
        path: b("/tmp/new.txt"),
        exists: false,
        file_size_bytes: None,
    }));
    assert_eq!(
        start_launch_file_stream(
            &mut unborn,
            &b("/tmp/new.txt"),
            &FileStat::Regular { size_bytes: 5 }
        ),
        Err(ReadStreamError::NoLaunchFile)
    );
}

#[test]
fn start_needs_a_regular_file() {
    let mut state = state_with_file("/tmp/a.txt", 5);
    assert_eq!(
        start_launch_file_stream(&mut state, &b("/tmp/a.txt"), &FileStat::NotRegular),
        Err(ReadStreamError::NotARegularFile)
    );
    assert_eq!(
        start_launch_file_stream(&mut state, &b("/tmp/a.txt"), &FileStat::Missing),
        Err(ReadStreamError::StatFailed)
    );
}

#[test]
fn stream_ids_count_up_from_one() {
    let mut state = state_with_file("/tmp/a.txt", 5);
    assert_eq!(start(&mut state, "/tmp/a.txt", 5), 1);
    assert_eq!(start(&mut state, "/tmp/a.txt", 5), 2);
    assert_eq!(start(&mut state, "/tmp/a.txt", 5), 3);
}

#[test]
fn chunks_concatenate_to_the_file() {
    // "héllo €" cut at awkward places; every emitted text is whole UTF-8 and
    // the concatenation is exactly the file
    let file = "héllo €1".as_bytes();
    let mut state = state_with_file("/tmp/a.txt", file.len() as u64);
    let id = start(&mut state, "/tmp/a.txt", file.len() as u64);
    let mut total_out: Vec<u8> = Vec::new();
    let cuts = [0usize, 2, 5, 8, file.len()];
    for w in cuts.windows(2) {
        let data = file[w[0]..w[1]].to_vec();
        match read_launch_file_chunk(&mut state, id, &data).unwrap() {
            LaunchFileStreamChunkResult::Chunk { text, .. } => {
                assert!(std::str::from_utf8(&text).is_ok());
                total_out.extend_from_slice(&text);
            }
            LaunchFileStreamChunkResult::Eof { .. } => panic!("eof too early"),
        }
    }
    match read_launch_file_chunk(&mut state, id, &Vec::new()).unwrap() {
        LaunchFileStreamChunkResult::Eof {
            bytes_read_total,
            file_size_bytes,
        } => {
            assert_eq!(bytes_read_total, file.len() as u64);
            assert_eq!(file_size_bytes, file.len() as u64);
        }
        LaunchFileStreamChunkResult::Chunk { .. } => panic!("expected eof"),
    }
    assert_eq!(total_out, file.to_vec());
    assert_eq!(close_launch_file_stream(&mut state, id), Ok(()));
}

#[test]
fn split_scalar_appears_whole_in_one_chunk() {
    // "€" is 0xE2 0x82 0xAC: two bytes in one read, one in the next
    let mut state = state_with_file("/tmp/a.txt", 4);
    let id = start(&mut state, "/tmp/a.txt", 4);
    let first = read_launch_file_chunk(&mut state, id, &vec![0x61, 0xE2, 0x82]).unwrap();
    match first {
        LaunchFileStreamChunkResult::Chunk {
            text,
            bytes_read_total,
            ..
        } => {
            assert_eq!(text, vec![0x61]);
            assert_eq!(bytes_read_total, 3);
        }
        _ => panic!("expected a chunk"),
    }
    let second = read_launch_file_chunk(&mut state, id, &vec![0xAC]).unwrap();
    match second {
        LaunchFileStreamChunkResult::Chunk {
            text,
            bytes_read_total,
            ..
        } => {
            assert_eq!(text, vec![0xE2, 0x82, 0xAC]);
            assert_eq!(bytes_read_total, 4);
        }
        _ => panic!("expected a chunk"),
    }
}

#[test]
fn truncated_scalar_at_eof_is_a_decode_error() {
    // the file's last byte announces a three-byte scalar that never arrives
    let mut state = state_with_file("/tmp/a.txt", 2);
    let id = start(&mut state, "/tmp/a.txt", 2);
    match read_launch_file_chunk(&mut state, id, &vec![0x61, 0xE4]).unwrap() {
        LaunchFileStreamChunkResult::Chunk { text, .. } => assert_eq!(text, vec![0x61]),
        _ => panic!("expected a chunk"),
    }
    assert_eq!(
        read_launch_file_chunk(&mut state, id, &Vec::new()),
        Err(ReadStreamError::InvalidUtf8)
    );
    // the session stays addressable until the caller releases it
    assert_eq!(cancel_launch_file_stream(&mut state, id), Ok(()));
}

#[test]
fn invalid_bytes_fail_immediately() {
    let mut state = state_with_file("/tmp/a.txt", 2);
    let id = start(&mut state, "/tmp/a.txt", 2);
    assert_eq!(
        read_launch_file_chunk(&mut state, id, &vec![0x61, 0xFF]),
        Err(ReadStreamError::InvalidUtf8)
    );
}

#[test]
fn unknown_read_session_reports_not_found() {
    let mut state = state_with_file("/tmp/a.txt", 5);
    assert_eq!(
        read_launch_file_chunk(&mut state, 42, &b("x")),
        Err(ReadStreamError::SessionNotFound)
    );
    let id = start(&mut state, "/tmp/a.txt", 5);
    assert_eq!(close_launch_file_stream(&mut state, id), Ok(()));
    assert_eq!(
        read_launch_file_chunk(&mut state, id, &b("x")),
        Err(ReadStreamError::SessionNotFound)
    );
}

#[test]
fn cancel_and_close_are_idempotent() {
    let mut state = state_with_file("/tmp/a.txt", 5);
    let id = start(&mut state, "/tmp/a.txt", 5);
    assert_eq!(cancel_launch_file_stream(&mut state, id), Ok(()));
    assert_eq!(cancel_launch_file_stream(&mut state, id), Ok(()));
    assert_eq!(close_launch_file_stream(&mut state, id), Ok(()));
    assert_eq!(cancel_launch_file_stream(&mut state, 999), Ok(()));
}

#[test]
fn read_sizes_are_clamped() {
    assert_eq!(clamp_read_size(0), 4 * 1024);
    assert_eq!(clamp_read_size(4095), 4 * 1024);
    assert_eq!(clamp_read_size(4096), 4096);
    assert_eq!(clamp_read_size(65536), 65536);
    assert_eq!(clamp_read_size(1024 * 1024), 1024 * 1024);
    assert_eq!(clamp_read_size(usize::MAX), 1024 * 1024);
}

#[test]
fn chunked_reads_fuzzed_against_whole_file() {
    // a deterministic generator drives random cut points through a fixed
    // mixed-width text; the concatenated output must always equal the file
    let file = "aé€😀z αβγ 漢字 \u{10FFFF} end".as_bytes();
    let mut x: u64 = 0xDEADBEEF;
    let mut next = move |m: usize| {
        x = x.wrapping_mul(6364136223846793005).wrapping_add(1442695040888963407);
        ((x >> 33) as usize) % m
    };
    for _ in 0..200 {
        let mut state = state_with_file("/tmp/a.txt", file.len() as u64);
        let id = start(&mut state, "/tmp/a.txt", file.len() as u64);
        let mut out: Vec<u8> = Vec::new();
        let mut pos = 0usize;
        while pos < file.len() {
            let step = 1 + next(7);
            let end = (pos + step).min(file.len());
            let data = file[pos..end].to_vec();
            match read_launch_file_chunk(&mut state, id, &data).unwrap() {
                LaunchFileStreamChunkResult::Chunk { text, .. } => {
                    assert!(std::str::from_utf8(&text).is_ok());
                    out.extend_from_slice(&text);
                }
                _ => panic!("eof too early"),
            }
            pos = end;
        }
        match read_launch_file_chunk(&mut state, id, &Vec::new()).unwrap() {
            LaunchFileStreamChunkResult::Eof {
                bytes_read_total, ..
            } => assert_eq!(bytes_read_total, file.len() as u64),
            _ => panic!("expected eof"),
        }
        assert_eq!(out, file.to_vec());
    }
}
