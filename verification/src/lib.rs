//! Streaming file I/O core for a desktop text editor shell.
//!
//! The library validates the one file path handed to the process on its
//! command line (path normalization plus a size gate), and runs session-based
//! chunked reading and writing of files.  Reading serves bounded chunks of a
//! single approved launch file while keeping multi-byte UTF-8 sequences whole
//! across chunk boundaries; writing buffers chunks for a sibling temporary
//! file that the host later renames over the target, so the target is either
//! fully old or fully new.
//!
//! All file handles, prompts and other I/O belong to the host process.  The
//! host feeds the bytes it read, the stat results it observed and the prompt
//! answers it collected into these functions, which make every decision and
//! account for every byte.

pub mod ascii;
pub mod errors;
pub mod launch_arg;
pub mod path;
pub mod read_stream;
pub mod size_gate;
pub mod state;
pub mod utf8;
pub mod warn;
pub mod write_stream;
