//! The session state: one manager object holding the pending launch file,
//! the approved launch path, and the two registries of live stream sessions
//! (read side and write side), each with its monotonically increasing
//! identifier counter.  The host owns the object, guards it with its own
//! lock, and pairs every session with the file handle it keeps for it.

use std::collections::HashMap;

use vstd::prelude::*;

use crate::launch_arg::LaunchFileArg;
use crate::utf8::incomplete_first_scalar;
use vstd::utf8::valid_utf8;

verus! {

broadcast use vstd::std_specs::hash::group_hash_axioms;

/// A live read session over the approved launch file.  The host keeps the
/// open handle; the session accounts for every byte the host feeds in.
pub struct LaunchFileStream {
    pub file_path: Vec<u8>,
    pub file_size_bytes: u64,
    /// Bytes handed in by the host so far, including any whose decoding
    /// failed.
    pub bytes_read_total: u64,
    /// The trailing bytes of the last chunk that start a multi-byte scalar
    /// whose remainder has not arrived yet: at most three bytes.
    pub utf8_carry: Vec<u8>,
    /// Every byte the session has accounted for: emitted as text or carried.
    pub consumed: Ghost<Seq<u8>>,
    /// The concatenation of every text chunk the session has emitted.
    pub delivered: Ghost<Seq<u8>>,
}

impl LaunchFileStream {
    /// The session's accounting always balances: what came in is what went
    /// out plus the carry, what went out is well-formed UTF-8, and the carry
    /// is the incomplete start of one scalar.
    pub open spec fn wf(self) -> bool {
        &&& self.consumed@ == self.delivered@ + self.utf8_carry@
        &&& valid_utf8(self.delivered@)
        &&& self.utf8_carry@.len() <= 3
        &&& (self.utf8_carry@.len() == 0 || incomplete_first_scalar(self.utf8_carry@))
    }
}

/// A live write session toward a target file.  The host keeps the buffered
/// writer over the temporary file; the session accounts for every chunk.
pub struct SaveFileStream {
    pub target_path: Vec<u8>,
    pub temp_path: Vec<u8>,
    pub bytes_written_total: u64,
    /// The concatenation of every chunk written into this session.
    pub written: Ghost<Seq<u8>>,
}

impl SaveFileStream {
    /// The running total counts exactly the bytes of the written chunks.
    pub open spec fn wf(self) -> bool {
        self.bytes_written_total == self.written@.len()
    }
}

/// The manager object owned by the host for the whole process lifetime.
pub struct LaunchArgState {
    /// The validated launch file, until the UI takes it (at most once).
    pub pending_file: Option<LaunchFileArg>,
    /// The only path ever eligible for read-streaming, captured at startup.
    pub approved_launch_file_path: Option<Vec<u8>>,
    pub launch_stream_counter: u64,
    pub active_launch_streams: HashMap<u64, LaunchFileStream>,
    pub save_stream_counter: u64,
    pub active_save_streams: HashMap<u64, SaveFileStream>,
}

impl LaunchArgState {
    /// Every live session is well formed, and no identifier outruns its
    /// counter, so a fresh identifier can never collide.
    pub open spec fn wf(self) -> bool {
        &&& forall|k: u64| self.active_launch_streams@.contains_key(k) ==> {
            &&& (#[trigger] self.active_launch_streams@[k]).wf()
            &&& 1 <= k <= self.launch_stream_counter
        }
        &&& forall|k: u64| self.active_save_streams@.contains_key(k) ==> {
            &&& (#[trigger] self.active_save_streams@[k]).wf()
            &&& 1 <= k <= self.save_stream_counter
        }
    }

    /// Sets up the process state around the validated launch file.  The
    /// approved streaming path is the pending file's path exactly when that
    /// file already exists; it is fixed here and never rederived from a
    /// later request.
    pub fn new(pending_file: Option<LaunchFileArg>) -> (s: Self)
        ensures
            s.wf(),
            s.pending_file == pending_file,
            match pending_file {
                Some(arg) => {
                    if arg.exists {
                        match s.approved_launch_file_path {
                            Some(a) => a@ == arg.path@,
                            None => false,
                        }
                    } else {
                        s.approved_launch_file_path is None
                    }
                },
                None => s.approved_launch_file_path is None,
            },
            s.launch_stream_counter == 0,
            s.save_stream_counter == 0,
            s.active_launch_streams@ == Map::<u64, LaunchFileStream>::empty(),
            s.active_save_streams@ == Map::<u64, SaveFileStream>::empty(),
    {
        let approved: Option<Vec<u8>> = match &pending_file {
            Some(arg) => {
                if arg.exists {
                    let path = crate::ascii::copy_range(&arg.path, 0, arg.path.len());
                    proof {
                        assert(path@ =~= arg.path@);
                    }
                    Some(path)
                } else {
                    None
                }
            },
            None => None,
        };
        LaunchArgState {
            pending_file,
            approved_launch_file_path: approved,
            launch_stream_counter: 0,
            active_launch_streams: HashMap::new(),
            save_stream_counter: 0,
            active_save_streams: HashMap::new(),
        }
    }
}

/// Hands the pending launch file to the UI, at most once: the first call
/// returns it, every later call returns nothing.  Everything else in the
/// state is untouched.
pub fn take_launch_file_arg(state: &mut LaunchArgState) -> (r: Option<LaunchFileArg>)
    ensures
        r == old(state).pending_file,
        final(state).pending_file is None,
        final(state).approved_launch_file_path == old(state).approved_launch_file_path,
        final(state).launch_stream_counter == old(state).launch_stream_counter,
        final(state).active_launch_streams@ == old(state).active_launch_streams@,
        final(state).save_stream_counter == old(state).save_stream_counter,
        final(state).active_save_streams@ == old(state).active_save_streams@,
{
    state.pending_file.take()
}

} // verus!
