//! The write-stream engine: a save session buffers chunk writes toward a
//! sibling temporary file, and the host commits the save by renaming that
//! file over the target once the session finishes, or deletes it on cancel.
//! The target file is untouched until the rename, so it is either fully old
//! or fully new.  The session accounts for every chunk: the running total a
//! finished session reports counts exactly the bytes of the chunks written.

use vstd::prelude::*;

use crate::ascii::append_bytes;
use crate::ascii::copy_range;
use crate::ascii::dec_digits;
use crate::ascii::is_blank;
use crate::ascii::is_blank_bytes;
use crate::ascii::u64_to_dec;
use crate::errors::WriteStreamError;
use crate::path::is_usable_file_name;
use crate::path::join_path;
use crate::path::join_path_bytes;
use crate::path::split_parent_file;
use crate::path::split_spec;
use crate::path::usable_file_name;
use crate::state::LaunchArgState;
use crate::state::SaveFileStream;

verus! {

broadcast use vstd::std_specs::hash::group_hash_axioms;

/// What starting a write stream returns: the session, the target it will
/// commit to, and the temporary path the host must create (exclusively) and
/// write through.
#[derive(Debug, PartialEq, Eq)]
pub struct SaveFileStreamStartResult {
    pub stream_id: u64,
    pub file_path: Vec<u8>,
    pub temp_path: Vec<u8>,
}

/// The running byte total after one chunk write.
#[derive(Debug, Clone, Copy, PartialEq, Eq, Structural)]
pub struct SaveFileStreamWriteResult {
    pub bytes_written_total: u64,
}

/// What finishing a session returns: the final byte total and the two paths
/// of the commit rename the host must now perform.
#[derive(Debug, PartialEq, Eq)]
pub struct SaveFileStreamFinishResult {
    pub bytes_written_total: u64,
    pub target_path: Vec<u8>,
    pub temp_path: Vec<u8>,
}

/// The marker between the target's file name and the session identifier in a
/// temporary file's name.
pub open spec fn save_infix() -> Seq<u8> {
    seq![0x2eu8, 0x77u8, 0x69u8, 0x73u8, 0x74u8, 0x79u8, 0x2du8, 0x73u8, 0x61u8, 0x76u8, 0x65u8, 0x2du8]
}

/// The suffix of a temporary file's name.
pub open spec fn tmp_suffix() -> Seq<u8> {
    seq![0x2eu8, 0x74u8, 0x6du8, 0x70u8]
}

/// The hidden temporary file name for a save session: a dot, the target's
/// file name, the save marker, the session identifier in decimal, and the
/// suffix.  Since identifiers are process-unique, concurrent sessions toward
/// the same target never share a temporary file.
pub open spec fn temp_file_name(name: Seq<u8>, stream_id: u64) -> Seq<u8> {
    seq![0x2eu8] + name + save_infix() + dec_digits(stream_id as nat) + tmp_suffix()
}

/// What deriving a session's temporary path yields: the target must split
/// into a parent and a usable file name, and the parent must be an existing
/// directory (as the host observed); the temporary file then sits beside the
/// target.
pub open spec fn build_temp_outcome(
    target: Seq<u8>,
    stream_id: u64,
    parent_exists: bool,
    parent_is_dir: bool,
) -> Result<Seq<u8>, WriteStreamError> {
    match split_spec(target) {
        None => Err(WriteStreamError::NoParent),
        Some(pair) => {
            if !parent_exists {
                Err(WriteStreamError::ParentMissing)
            } else if !parent_is_dir {
                Err(WriteStreamError::ParentNotADirectory)
            } else if !usable_file_name(pair.1) {
                Err(WriteStreamError::NoFileName)
            } else {
                Ok(join_path(pair.0, temp_file_name(pair.1, stream_id)))
            }
        },
    }
}

/// Derives the temporary path for a save session, as [`build_temp_outcome`]
/// says.  `parent_exists` and `parent_is_dir` are what the host observed
/// about the target's parent directory.
pub fn build_save_temp_path(
    target_path: &Vec<u8>,
    stream_id: u64,
    parent_exists: bool,
    parent_is_dir: bool,
) -> (r: Result<Vec<u8>, WriteStreamError>)
    ensures
        match r {
            Ok(p) => build_temp_outcome(target_path@, stream_id, parent_exists, parent_is_dir)
                == Ok::<Seq<u8>, WriteStreamError>(p@),
            Err(e) => build_temp_outcome(target_path@, stream_id, parent_exists, parent_is_dir)
                == Err::<Seq<u8>, WriteStreamError>(e),
        },
{
    let pair = match split_parent_file(target_path) {
        None => {
            return Err(WriteStreamError::NoParent);
        },
        Some(pair) => pair,
    };
    if !parent_exists {
        return Err(WriteStreamError::ParentMissing);
    }
    if !parent_is_dir {
        return Err(WriteStreamError::ParentNotADirectory);
    }
    if !is_usable_file_name(&pair.1) {
        return Err(WriteStreamError::NoFileName);
    }
    let mut name: Vec<u8> = Vec::new();
    name.push(0x2e);
    append_bytes(&mut name, &pair.1);
    name.push(0x2e);
    name.push(0x77);
    name.push(0x69);
    name.push(0x73);
    name.push(0x74);
    name.push(0x79);
    name.push(0x2d);
    name.push(0x73);
    name.push(0x61);
    name.push(0x76);
    name.push(0x65);
    name.push(0x2d);
    let digits = u64_to_dec(stream_id);
    append_bytes(&mut name, &digits);
    name.push(0x2e);
    name.push(0x74);
    name.push(0x6d);
    name.push(0x70);
    proof {
        assert(name@ =~= temp_file_name(pair.1@, stream_id));
    }
    Ok(join_path_bytes(&pair.0, &name))
}

/// True when the two states agree on everything a write-stream operation
/// must not touch.
pub open spec fn write_side_frame(a: LaunchArgState, b: LaunchArgState) -> bool {
    &&& a.pending_file == b.pending_file
    &&& a.approved_launch_file_path == b.approved_launch_file_path
    &&& a.launch_stream_counter == b.launch_stream_counter
    &&& a.active_launch_streams@ == b.active_launch_streams@
}

proof fn lemma_save_side_wf(pre: LaunchArgState, post: LaunchArgState, id: u64)
    requires
        pre.wf(),
        post.launch_stream_counter == pre.launch_stream_counter,
        post.active_launch_streams@ == pre.active_launch_streams@,
        pre.save_stream_counter <= post.save_stream_counter,
        forall|k: u64|
            #![trigger post.active_save_streams@.contains_key(k)]
            post.active_save_streams@.contains_key(k) && k != id
                ==> pre.active_save_streams@.contains_key(k) && post.active_save_streams@[k]
                == pre.active_save_streams@[k],
        post.active_save_streams@.contains_key(id) ==> 1 <= id <= post.save_stream_counter
            && post.active_save_streams@[id].wf(),
    ensures
        post.wf(),
{
    assert forall|k: u64| post.active_save_streams@.contains_key(k) implies {
        &&& (#[trigger] post.active_save_streams@[k]).wf()
        &&& 1 <= k <= post.save_stream_counter
    } by {
        if k != id {
            assert(pre.active_save_streams@.contains_key(k));
        }
    }
}

/// Opens a write stream toward `file_path`.  A blank target is refused.  A
/// fresh identifier is allocated, and is spent even when the temporary path
/// cannot be derived.  On success the session is registered; the host must
/// then create the returned temporary path exclusively (failing if a file is
/// already there) before writing any chunk, and must cancel the session if
/// that creation fails.
pub fn start_save_file_stream(
    state: &mut LaunchArgState,
    file_path: &Vec<u8>,
    parent_exists: bool,
    parent_is_dir: bool,
) -> (r: Result<SaveFileStreamStartResult, WriteStreamError>)
    requires
        old(state).wf(),
        old(state).save_stream_counter < u64::MAX,
    ensures
        final(state).wf(),
        write_side_frame(*old(state), *final(state)),
        ({
            let id = old(state).save_stream_counter + 1;
            if is_blank(file_path@) {
                &&& r == Err::<SaveFileStreamStartResult, WriteStreamError>(
                    WriteStreamError::EmptyPath,
                )
                &&& final(state).save_stream_counter == old(state).save_stream_counter
                &&& final(state).active_save_streams@ == old(state).active_save_streams@
            } else {
                &&& final(state).save_stream_counter == id
                &&& match build_temp_outcome(file_path@, id as u64, parent_exists, parent_is_dir) {
                    Err(e) => ({
                        &&& r == Err::<SaveFileStreamStartResult, WriteStreamError>(e)
                        &&& final(state).active_save_streams@ == old(state).active_save_streams@
                    }),
                    Ok(temp) => {
                        &&& (match r {
                            Ok(res) => {
                                &&& res.stream_id == id
                                &&& res.file_path@ == file_path@
                                &&& res.temp_path@ == temp
                            },
                            Err(_) => false,
                        })
                        &&& !old(state).active_save_streams@.contains_key(id as u64)
                        &&& final(state).active_save_streams@.contains_key(id as u64)
                        &&& ({
                            let s = final(state).active_save_streams@[id as u64];
                            &&& s.target_path@ == file_path@
                            &&& s.temp_path@ == temp
                            &&& s.bytes_written_total == 0
                            &&& s.written@ == Seq::<u8>::empty()
                        })
                        &&& final(state).active_save_streams@ == old(
                            state,
                        ).active_save_streams@.insert(
                            id as u64,
                            final(state).active_save_streams@[id as u64],
                        )
                    },
                }
            }
        }),
{
    if is_blank_bytes(file_path) {
        return Err(WriteStreamError::EmptyPath);
    }
    state.save_stream_counter = state.save_stream_counter + 1;
    let stream_id = state.save_stream_counter;
    let temp_path = match build_save_temp_path(file_path, stream_id, parent_exists, parent_is_dir) {
        Err(e) => {
            return Err(e);
        },
        Ok(p) => p,
    };
    let target_copy = copy_range(file_path, 0, file_path.len());
    let temp_copy = copy_range(&temp_path, 0, temp_path.len());
    proof {
        assert(target_copy@ =~= file_path@);
        assert(temp_copy@ =~= temp_path@);
    }
    let session = SaveFileStream {
        target_path: target_copy,
        temp_path: temp_copy,
        bytes_written_total: 0,
        written: Ghost(Seq::empty()),
    };
    state.active_save_streams.insert(stream_id, session);
    proof {
        lemma_save_side_wf(*old(state), *state, stream_id);
    }
    let result_path = copy_range(file_path, 0, file_path.len());
    proof {
        assert(result_path@ =~= file_path@);
    }
    Ok(SaveFileStreamStartResult { stream_id, file_path: result_path, temp_path })
}

/// Accounts for one chunk the host has just appended to the session's
/// writer: the chunk's bytes extend the session's record, and the returned
/// running total counts exactly the bytes written so far.  The host calls
/// this only after its write succeeded; a failed write leaves the session
/// registered and untouched, and the caller decides whether to cancel.
pub fn write_save_file_chunk(state: &mut LaunchArgState, stream_id: u64, text_chunk: &Vec<u8>)
    -> (r: Result<SaveFileStreamWriteResult, WriteStreamError>)
    requires
        old(state).wf(),
        old(state).active_save_streams@.contains_key(stream_id) ==> old(
            state,
        ).active_save_streams@[stream_id].bytes_written_total + text_chunk@.len() <= u64::MAX,
    ensures
        final(state).wf(),
        write_side_frame(*old(state), *final(state)),
        final(state).save_stream_counter == old(state).save_stream_counter,
        !old(state).active_save_streams@.contains_key(stream_id) ==> r == Err::<
            SaveFileStreamWriteResult,
            WriteStreamError,
        >(WriteStreamError::SessionNotFound) && final(state).active_save_streams@ == old(
            state,
        ).active_save_streams@,
        old(state).active_save_streams@.contains_key(stream_id) ==> ({
            let s = old(state).active_save_streams@[stream_id];
            let m2 = final(state).active_save_streams@;
            &&& r == Ok::<SaveFileStreamWriteResult, WriteStreamError>(
                SaveFileStreamWriteResult {
                    bytes_written_total: (s.bytes_written_total + text_chunk@.len()) as u64,
                },
            )
            &&& m2 == old(state).active_save_streams@.insert(stream_id, m2[stream_id])
            &&& ({
                let s2 = m2[stream_id];
                &&& s2.written@ == s.written@ + text_chunk@
                &&& s2.bytes_written_total == s.bytes_written_total + text_chunk@.len()
                &&& s2.target_path@ == s.target_path@
                &&& s2.temp_path@ == s.temp_path@
            })
        }),
{
    let ghost m = old(state).active_save_streams@;
    let mut session = match state.active_save_streams.remove(&stream_id) {
        None => {
            proof {
                assert(state.active_save_streams@ =~= m);
            }
            return Err(WriteStreamError::SessionNotFound);
        },
        Some(s) => s,
    };
    session.bytes_written_total = session.bytes_written_total + text_chunk.len() as u64;
    session.written = Ghost(session.written@ + text_chunk@);
    let total = session.bytes_written_total;
    state.active_save_streams.insert(stream_id, session);
    proof {
        assert(state.active_save_streams@ =~= m.insert(
            stream_id,
            state.active_save_streams@[stream_id],
        ));
        lemma_save_side_wf(*old(state), *state, stream_id);
    }
    Ok(SaveFileStreamWriteResult { bytes_written_total: total })
}

/// Consumes a session for its commit: the session leaves the registry (a
/// second finish or cancel on the same identifier fails with not-found), and
/// the host must now flush its writer and rename the temporary path over the
/// target.  That rename is the only step that ever touches the target file.
/// The reported total counts exactly the bytes of the chunks written.
pub fn finish_save_file_stream(state: &mut LaunchArgState, stream_id: u64) -> (r: Result<
    SaveFileStreamFinishResult,
    WriteStreamError,
>)
    requires
        old(state).wf(),
    ensures
        final(state).wf(),
        write_side_frame(*old(state), *final(state)),
        final(state).save_stream_counter == old(state).save_stream_counter,
        !old(state).active_save_streams@.contains_key(stream_id) ==> r == Err::<
            SaveFileStreamFinishResult,
            WriteStreamError,
        >(WriteStreamError::SessionNotFound) && final(state).active_save_streams@ == old(
            state,
        ).active_save_streams@,
        old(state).active_save_streams@.contains_key(stream_id) ==> ({
            let s = old(state).active_save_streams@[stream_id];
            &&& final(state).active_save_streams@ == old(state).active_save_streams@.remove(
                stream_id,
            )
            &&& (match r {
                Ok(res) => {
                    &&& res.bytes_written_total == s.bytes_written_total
                    &&& res.bytes_written_total == s.written@.len()
                    &&& res.target_path@ == s.target_path@
                    &&& res.temp_path@ == s.temp_path@
                },
                Err(_) => false,
            })
        }),
{
    let ghost m = old(state).active_save_streams@;
    let session = match state.active_save_streams.remove(&stream_id) {
        None => {
            proof {
                assert(state.active_save_streams@ =~= m);
            }
            return Err(WriteStreamError::SessionNotFound);
        },
        Some(s) => s,
    };
    proof {
        lemma_save_side_wf(*old(state), *state, stream_id);
    }
    Ok(
        SaveFileStreamFinishResult {
            bytes_written_total: session.bytes_written_total,
            target_path: session.target_path,
            temp_path: session.temp_path,
        },
    )
}

/// Consumes a session for discard: the session leaves the registry (a later
/// finish or cancel on the same identifier fails with not-found), and the
/// host must drop its writer and delete the returned temporary path — a
/// temporary file that is already gone is no error.  The target file is
/// never touched.
pub fn cancel_save_file_stream(state: &mut LaunchArgState, stream_id: u64) -> (r: Result<
    Vec<u8>,
    WriteStreamError,
>)
    requires
        old(state).wf(),
    ensures
        final(state).wf(),
        write_side_frame(*old(state), *final(state)),
        final(state).save_stream_counter == old(state).save_stream_counter,
        !old(state).active_save_streams@.contains_key(stream_id) ==> r == Err::<
            Vec<u8>,
            WriteStreamError,
        >(WriteStreamError::SessionNotFound) && final(state).active_save_streams@ == old(
            state,
        ).active_save_streams@,
        old(state).active_save_streams@.contains_key(stream_id) ==> ({
            let s = old(state).active_save_streams@[stream_id];
            &&& final(state).active_save_streams@ == old(state).active_save_streams@.remove(
                stream_id,
            )
            &&& (match r {
                Ok(temp) => temp@ == s.temp_path@,
                Err(_) => false,
            })
        }),
{
    let ghost m = old(state).active_save_streams@;
    let session = match state.active_save_streams.remove(&stream_id) {
        None => {
            proof {
                assert(state.active_save_streams@ =~= m);
            }
            return Err(WriteStreamError::SessionNotFound);
        },
        Some(s) => s,
    };
    proof {
        lemma_save_side_wf(*old(state), *state, stream_id);
    }
    Ok(session.temp_path)
}

} // verus!
