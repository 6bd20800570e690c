//! The read-stream engine: opens a session over the one approved launch
//! file, serves bounded text chunks from the bytes the host reads, carries a
//! split multi-byte scalar across chunk boundaries, and releases sessions on
//! close or cancel.  The concatenation of every text a session emits is
//! exactly the bytes it consumed, and every emitted text is well-formed
//! UTF-8 on its own: no chunk ever splits a character.

use vstd::prelude::*;

use vstd::utf8::valid_utf8;
use vstd::utf8::valid_utf8_concat;

use crate::ascii::append_bytes;
use crate::ascii::copy_range;
use crate::errors::ReadStreamError;
use crate::launch_arg::FileStat;
use crate::state::LaunchArgState;
use crate::state::LaunchFileStream;
use crate::utf8::check_utf8;
use crate::utf8::split_utf8_prefix;
use crate::utf8::utf8_split_point;

verus! {

broadcast use vstd::std_specs::hash::group_hash_axioms;

/// The least read size a chunk request is widened to.
pub const READ_CHUNK_MIN_BYTES: usize = 4 * 1024;

/// The greatest read size a chunk request is narrowed to.
pub const READ_CHUNK_MAX_BYTES: usize = 1024 * 1024;

/// Clamps the caller's requested chunk size into the served range, so a
/// hostile or confused request can neither stall the stream nor balloon it.
pub fn clamp_read_size(max_bytes: usize) -> (r: usize)
    ensures
        r == if max_bytes < READ_CHUNK_MIN_BYTES {
            READ_CHUNK_MIN_BYTES
        } else if max_bytes > READ_CHUNK_MAX_BYTES {
            READ_CHUNK_MAX_BYTES
        } else {
            max_bytes
        },
{
    if max_bytes < READ_CHUNK_MIN_BYTES {
        READ_CHUNK_MIN_BYTES
    } else if max_bytes > READ_CHUNK_MAX_BYTES {
        READ_CHUNK_MAX_BYTES
    } else {
        max_bytes
    }
}

/// What starting a read stream returns to the UI.
#[derive(Debug, PartialEq, Eq)]
pub struct LaunchFileStreamStartResult {
    pub stream_id: u64,
    pub file_path: Vec<u8>,
    pub file_size_bytes: u64,
}

/// One answer to a chunk request: a piece of text, or the end of the file.
#[derive(Debug, PartialEq, Eq)]
pub enum LaunchFileStreamChunkResult {
    Chunk { text: Vec<u8>, bytes_read_total: u64, file_size_bytes: u64 },
    Eof { bytes_read_total: u64, file_size_bytes: u64 },
}

/// True when the two states agree on everything a read-stream operation must
/// not touch.
pub open spec fn read_side_frame(a: LaunchArgState, b: LaunchArgState) -> bool {
    &&& a.pending_file == b.pending_file
    &&& a.approved_launch_file_path == b.approved_launch_file_path
    &&& a.save_stream_counter == b.save_stream_counter
    &&& a.active_save_streams@ == b.active_save_streams@
}

proof fn lemma_launch_side_wf(pre: LaunchArgState, post: LaunchArgState, id: u64)
    requires
        pre.wf(),
        post.save_stream_counter == pre.save_stream_counter,
        post.active_save_streams@ == pre.active_save_streams@,
        pre.launch_stream_counter <= post.launch_stream_counter,
        forall|k: u64|
            #![trigger post.active_launch_streams@.contains_key(k)]
            post.active_launch_streams@.contains_key(k) && k != id
                ==> pre.active_launch_streams@.contains_key(k)
                && post.active_launch_streams@[k] == pre.active_launch_streams@[k],
        post.active_launch_streams@.contains_key(id) ==> 1 <= id <= post.launch_stream_counter
            && post.active_launch_streams@[id].wf(),
    ensures
        post.wf(),
{
    assert forall|k: u64| post.active_launch_streams@.contains_key(k) implies {
        &&& (#[trigger] post.active_launch_streams@[k]).wf()
        &&& 1 <= k <= post.launch_stream_counter
    } by {
        if k != id {
            assert(pre.active_launch_streams@.contains_key(k));
        }
    }
}

/// Opens a read stream over `file_path`.  The path must be byte-equal to the
/// approved launch path captured at startup — the stream API can never be
/// aimed at any other file.  `stat` is what the host observed about that
/// approved path just before opening its handle.
pub fn start_launch_file_stream(state: &mut LaunchArgState, file_path: &Vec<u8>, stat: &FileStat)
    -> (r: Result<LaunchFileStreamStartResult, ReadStreamError>)
    requires
        old(state).wf(),
        old(state).launch_stream_counter < u64::MAX,
    ensures
        final(state).wf(),
        read_side_frame(*old(state), *final(state)),
        match r {
            Ok(res) => {
                &&& (match old(state).approved_launch_file_path {
                    Some(a) => a@ == file_path@,
                    None => false,
                })
                &&& (*stat matches FileStat::Regular { size_bytes } && res.file_size_bytes
                    == size_bytes)
                &&& res.stream_id == old(state).launch_stream_counter + 1
                &&& res.file_path@ == file_path@
                &&& final(state).launch_stream_counter == old(state).launch_stream_counter + 1
                &&& !old(state).active_launch_streams@.contains_key(res.stream_id)
                &&& final(state).active_launch_streams@.contains_key(res.stream_id)
                &&& ({
                    let s = final(state).active_launch_streams@[res.stream_id];
                    &&& s.file_path@ == file_path@
                    &&& s.file_size_bytes == res.file_size_bytes
                    &&& s.bytes_read_total == 0
                    &&& s.utf8_carry@ == Seq::<u8>::empty()
                    &&& s.consumed@ == Seq::<u8>::empty()
                    &&& s.delivered@ == Seq::<u8>::empty()
                })
                &&& final(state).active_launch_streams@ == old(
                    state,
                ).active_launch_streams@.insert(
                    res.stream_id,
                    final(state).active_launch_streams@[res.stream_id],
                )
            },
            Err(e) => {
                &&& final(state).active_launch_streams@ == old(state).active_launch_streams@
                &&& final(state).launch_stream_counter == old(state).launch_stream_counter
                &&& (match e {
                    ReadStreamError::NoLaunchFile => old(state).approved_launch_file_path is None,
                    ReadStreamError::PathNotApproved => (match old(
                        state,
                    ).approved_launch_file_path {
                        Some(a) => a@ != file_path@,
                        None => false,
                    }),
                    ReadStreamError::NotARegularFile => (match old(
                        state,
                    ).approved_launch_file_path {
                        Some(a) => a@ == file_path@,
                        None => false,
                    }) && *stat is NotRegular,
                    ReadStreamError::StatFailed => (match old(state).approved_launch_file_path {
                        Some(a) => a@ == file_path@,
                        None => false,
                    }) && (*stat is Missing || *stat is Inaccessible),
                    _ => false,
                })
            },
        },
{
    let approved = match &state.approved_launch_file_path {
        None => {
            return Err(ReadStreamError::NoLaunchFile);
        },
        Some(a) => a,
    };
    if !crate::ascii::bytes_eq(approved, file_path) {
        return Err(ReadStreamError::PathNotApproved);
    }
    let size_bytes = match stat {
        FileStat::Regular { size_bytes } => *size_bytes,
        FileStat::NotRegular => {
            return Err(ReadStreamError::NotARegularFile);
        },
        FileStat::Missing => {
            return Err(ReadStreamError::StatFailed);
        },
        FileStat::Inaccessible => {
            return Err(ReadStreamError::StatFailed);
        },
    };
    state.launch_stream_counter = state.launch_stream_counter + 1;
    let stream_id = state.launch_stream_counter;
    let path_copy = copy_range(file_path, 0, file_path.len());
    proof {
        assert(path_copy@ =~= file_path@);
    }
    let session = LaunchFileStream {
        file_path: path_copy,
        file_size_bytes: size_bytes,
        bytes_read_total: 0,
        utf8_carry: Vec::new(),
        consumed: Ghost(Seq::empty()),
        delivered: Ghost(Seq::empty()),
    };
    state.active_launch_streams.insert(stream_id, session);
    proof {
        let s = state.active_launch_streams@[stream_id];
        assert(s.consumed@ =~= s.delivered@ + s.utf8_carry@);
        lemma_launch_side_wf(*old(state), *state, stream_id);
    }
    let result_path = copy_range(file_path, 0, file_path.len());
    proof {
        assert(result_path@ =~= file_path@);
    }
    Ok(LaunchFileStreamStartResult { stream_id, file_path: result_path, file_size_bytes: size_bytes })
}

/// Serves one chunk request on a session.  `data` is what the host's read
/// call returned on that session's handle — empty exactly at end of file.
///
/// The carried bytes and the fresh bytes are decoded together: the longest
/// well-formed UTF-8 prefix is emitted as one chunk, and the incomplete tail
/// of a split scalar (at most three bytes) is carried for the next call, so
/// no scalar is ever split across emitted chunks.  Malformed bytes fail the
/// call and leave the session registered; the caller decides whether to
/// cancel.  At end of file an empty carry yields `Eof`, whose running total
/// counts every byte the session consumed; a nonempty carry is a truncated
/// scalar, which is a decode error, never silently dropped.
pub fn read_launch_file_chunk(state: &mut LaunchArgState, stream_id: u64, data: &Vec<u8>) -> (r:
    Result<LaunchFileStreamChunkResult, ReadStreamError>)
    requires
        old(state).wf(),
        old(state).active_launch_streams@.contains_key(stream_id) ==> old(
            state,
        ).active_launch_streams@[stream_id].bytes_read_total + data@.len() <= u64::MAX,
    ensures
        final(state).wf(),
        read_side_frame(*old(state), *final(state)),
        final(state).launch_stream_counter == old(state).launch_stream_counter,
        !old(state).active_launch_streams@.contains_key(stream_id) ==> r == Err::<
            LaunchFileStreamChunkResult,
            ReadStreamError,
        >(ReadStreamError::SessionNotFound) && final(state).active_launch_streams@ == old(
            state,
        ).active_launch_streams@,
        old(state).active_launch_streams@.contains_key(stream_id) ==> ({
            let s = old(state).active_launch_streams@[stream_id];
            let m = old(state).active_launch_streams@;
            let m2 = final(state).active_launch_streams@;
            if data@.len() == 0 {
                if s.utf8_carry@.len() == 0 {
                    &&& r == Ok::<LaunchFileStreamChunkResult, ReadStreamError>(
                        LaunchFileStreamChunkResult::Eof {
                            bytes_read_total: s.bytes_read_total,
                            file_size_bytes: s.file_size_bytes,
                        },
                    )
                    &&& s.delivered@ == s.consumed@
                    &&& valid_utf8(s.consumed@)
                    &&& m2 == m
                } else if valid_utf8(s.utf8_carry@) {
                    // unreachable for a well-formed session: the carry is a
                    // strict prefix of one scalar and never valid on its own
                    &&& (match r {
                        Ok(c) => c matches LaunchFileStreamChunkResult::Chunk {
                            text,
                            bytes_read_total,
                            file_size_bytes,
                        } && text@ == s.utf8_carry@ && bytes_read_total == s.bytes_read_total
                            && file_size_bytes == s.file_size_bytes,
                        Err(_) => false,
                    })
                } else {
                    &&& r == Err::<LaunchFileStreamChunkResult, ReadStreamError>(
                        ReadStreamError::InvalidUtf8,
                    )
                    &&& m2 == m
                }
            } else {
                let combined = s.utf8_carry@ + data@;
                match utf8_split_point(combined) {
                    Some(p) => {
                        &&& (match r {
                            Ok(c) => c matches LaunchFileStreamChunkResult::Chunk {
                                text,
                                bytes_read_total,
                                file_size_bytes,
                            } && text@ == combined.take(p) && valid_utf8(text@)
                                && bytes_read_total == s.bytes_read_total + data@.len()
                                && file_size_bytes == s.file_size_bytes,
                            Err(_) => false,
                        })
                        &&& m2 == m.insert(stream_id, m2[stream_id])
                        &&& ({
                            let s2 = m2[stream_id];
                            &&& s2.utf8_carry@ == combined.skip(p)
                            &&& s2.bytes_read_total == s.bytes_read_total + data@.len()
                            &&& s2.consumed@ == s.consumed@ + data@
                            &&& s2.delivered@ == s.delivered@ + combined.take(p)
                            &&& s2.file_path@ == s.file_path@
                            &&& s2.file_size_bytes == s.file_size_bytes
                        })
                    },
                    None => {
                        &&& r == Err::<LaunchFileStreamChunkResult, ReadStreamError>(
                            ReadStreamError::InvalidUtf8,
                        )
                        &&& m2 == m.insert(stream_id, m2[stream_id])
                        &&& ({
                            let s2 = m2[stream_id];
                            &&& s2.utf8_carry@ == s.utf8_carry@
                            &&& s2.bytes_read_total == s.bytes_read_total + data@.len()
                            &&& s2.consumed@ == s.consumed@
                            &&& s2.delivered@ == s.delivered@
                            &&& s2.file_path@ == s.file_path@
                            &&& s2.file_size_bytes == s.file_size_bytes
                        })
                    },
                }
            }
        }),
{
    let ghost m = old(state).active_launch_streams@;
    let mut session = match state.active_launch_streams.remove(&stream_id) {
        None => {
            proof {
                assert(state.active_launch_streams@ =~= m);
            }
            return Err(ReadStreamError::SessionNotFound);
        },
        Some(s) => s,
    };
    let ghost s0 = session;
    if data.len() == 0 {
        if session.utf8_carry.len() == 0 {
            let result = LaunchFileStreamChunkResult::Eof {
                bytes_read_total: session.bytes_read_total,
                file_size_bytes: session.file_size_bytes,
            };
            proof {
                assert(s0.consumed@ =~= s0.delivered@);
            }
            state.active_launch_streams.insert(stream_id, session);
            proof {
                assert(state.active_launch_streams@ =~= m);
                lemma_launch_side_wf(*old(state), *state, stream_id);
            }
            return Ok(result);
        }
        if check_utf8(&session.utf8_carry) {
            let text = copy_range(&session.utf8_carry, 0, session.utf8_carry.len());
            proof {
                assert(text@ =~= s0.utf8_carry@);
            }
            session.utf8_carry = Vec::new();
            session.delivered = Ghost(session.delivered@ + text@);
            proof {
                valid_utf8_concat(s0.delivered@, text@);
                assert(session.consumed@ =~= session.delivered@ + session.utf8_carry@);
            }
            let total = session.bytes_read_total;
            let size = session.file_size_bytes;
            state.active_launch_streams.insert(stream_id, session);
            proof {
                lemma_launch_side_wf(*old(state), *state, stream_id);
            }
            return Ok(
                LaunchFileStreamChunkResult::Chunk {
                    text,
                    bytes_read_total: total,
                    file_size_bytes: size,
                },
            );
        }
        state.active_launch_streams.insert(stream_id, session);
        proof {
            assert(state.active_launch_streams@ =~= m);
            lemma_launch_side_wf(*old(state), *state, stream_id);
        }
        return Err(ReadStreamError::InvalidUtf8);
    }
    let mut combined = copy_range(&session.utf8_carry, 0, session.utf8_carry.len());
    proof {
        assert(combined@ =~= s0.utf8_carry@);
    }
    append_bytes(&mut combined, data);
    session.bytes_read_total = session.bytes_read_total + data.len() as u64;
    match split_utf8_prefix(&combined) {
        Ok(pair) => {
            let text = pair.0;
            session.utf8_carry = pair.1;
            session.consumed = Ghost(session.consumed@ + data@);
            session.delivered = Ghost(session.delivered@ + text@);
            proof {
                valid_utf8_concat(s0.delivered@, text@);
                assert(session.consumed@ =~= session.delivered@ + session.utf8_carry@);
            }
            let total = session.bytes_read_total;
            let size = session.file_size_bytes;
            state.active_launch_streams.insert(stream_id, session);
            proof {
                assert(state.active_launch_streams@ =~= m.insert(
                    stream_id,
                    state.active_launch_streams@[stream_id],
                ));
                lemma_launch_side_wf(*old(state), *state, stream_id);
            }
            Ok(
                LaunchFileStreamChunkResult::Chunk {
                    text,
                    bytes_read_total: total,
                    file_size_bytes: size,
                },
            )
        },
        Err(e) => {
            state.active_launch_streams.insert(stream_id, session);
            proof {
                assert(state.active_launch_streams@ =~= m.insert(
                    stream_id,
                    state.active_launch_streams@[stream_id],
                ));
                lemma_launch_side_wf(*old(state), *state, stream_id);
            }
            Err(e)
        },
    }
}

/// Law: a session that reaches end of file with nothing carried has
/// delivered exactly the bytes it consumed, they are well-formed UTF-8, and
/// (with [`crate::utf8::lemma_decode_concat`] applied chunk by chunk) the
/// concatenation of its emitted texts decodes to exactly the decoding of the
/// whole file.
pub proof fn lemma_completed_session_delivers_file(s: LaunchFileStream)
    requires
        s.wf(),
        s.utf8_carry@.len() == 0,
    ensures
        s.delivered@ == s.consumed@,
        valid_utf8(s.consumed@),
{
    assert(s.delivered@ + s.utf8_carry@ =~= s.delivered@);
}

/// Law: a session that reaches end of file with bytes still carried holds a
/// truncated scalar that no decoding can accept, so the final read reports a
/// decode error rather than a silently truncated success.
pub proof fn lemma_eof_with_carry_fails(s: LaunchFileStream)
    requires
        s.wf(),
        s.utf8_carry@.len() > 0,
    ensures
        !valid_utf8(s.utf8_carry@),
{
    crate::utf8::lemma_incomplete_not_valid(s.utf8_carry@);
}

/// Releases a read session and forgets its identifier.  Cancelling an
/// identifier that is already gone is a no-op: this call never fails.
pub fn cancel_launch_file_stream(state: &mut LaunchArgState, stream_id: u64) -> (r: Result<
    (),
    ReadStreamError,
>)
    requires
        old(state).wf(),
    ensures
        final(state).wf(),
        read_side_frame(*old(state), *final(state)),
        final(state).launch_stream_counter == old(state).launch_stream_counter,
        final(state).active_launch_streams@ == old(state).active_launch_streams@.remove(stream_id),
        r is Ok,
{
    state.active_launch_streams.remove(&stream_id);
    Ok(())
}

/// Closes a read session: the same release as
/// [`cancel_launch_file_stream`], kept as its own operation so a caller can
/// say whether it finished or gave up.
pub fn close_launch_file_stream(state: &mut LaunchArgState, stream_id: u64) -> (r: Result<
    (),
    ReadStreamError,
>)
    requires
        old(state).wf(),
    ensures
        final(state).wf(),
        read_side_frame(*old(state), *final(state)),
        final(state).launch_stream_counter == old(state).launch_stream_counter,
        final(state).active_launch_streams@ == old(state).active_launch_streams@.remove(stream_id),
        r is Ok,
{
    state.active_launch_streams.remove(&stream_id);
    Ok(())
}

} // verus!
