//! Reporting non-fatal problems from the host's window glue on the process's
//! error stream.

use std::io::Write;

use vstd::prelude::*;

verus! {

/// Relies on the `std::io::Write` implementation of `std::io::Stderr`:
/// writes one prefixed line to the error stream and swallows its result, as
/// best-effort reporting must.
#[verifier::external_body]
fn write_warning_line(message: &str) {
    let _ = writeln!(std::io::stderr(), "warning: {}", message);
}

/// Reports a warning on the error stream.  Best effort: a failure to write
/// is itself not reported anywhere.
pub fn log_warn(message: &str) {
    write_warning_line(message);
}

} // verus!
