//! The size gate: decides whether a candidate file of a given size may be
//! opened, given whether an interactive console is attached and, when one is,
//! what the user answered to the confirmation prompt.  Showing the prompt and
//! reading the answer are the host's side effects; every decision is here.

use vstd::prelude::*;

use crate::ascii::affirmative_answer;
use crate::ascii::dec_digits;
use crate::ascii::is_affirmative_answer;
use crate::ascii::u64_to_dec;
use crate::errors::LaunchArgError;

verus! {

/// Files below this size open silently.
pub const CLI_SOFT_LIMIT_BYTES: u64 = 50 * 1024 * 1024;

/// Files at or above this size are refused unconditionally.
pub const CLI_HARD_LIMIT_BYTES: u64 = 1024 * 1024 * 1024;

/// The view of the host's optional prompt answer.
pub open spec fn answer_view(answer: Option<&Vec<u8>>) -> Option<Seq<u8>> {
    match answer {
        Some(line) => Some(line@),
        None => None,
    }
}

/// What the size gate decides for a file of `size_bytes` bytes:
/// below the soft limit it allows silently; at or above the hard limit it
/// refuses; in between it requires an affirmative console answer, and refuses
/// when there is no console or the answer is anything else (or missing).
pub open spec fn size_gate_outcome(
    size_bytes: u64,
    interactive: bool,
    answer: Option<Seq<u8>>,
) -> Result<(), LaunchArgError> {
    if size_bytes < CLI_SOFT_LIMIT_BYTES {
        Ok(())
    } else if size_bytes >= CLI_HARD_LIMIT_BYTES {
        Err(LaunchArgError::FileTooLarge { size_bytes })
    } else if !interactive {
        Err(LaunchArgError::ConfirmationRequired { size_bytes })
    } else if answer matches Some(line) && affirmative_answer(line) {
        Ok(())
    } else {
        Err(LaunchArgError::OpenCancelled { size_bytes })
    }
}

/// True exactly when the size gate will consult a prompt answer: the host shows
/// the confirmation prompt if and only if this returns true.
pub fn size_gate_needs_prompt(size_bytes: u64, interactive: bool) -> (r: bool)
    ensures
        r == (CLI_SOFT_LIMIT_BYTES <= size_bytes < CLI_HARD_LIMIT_BYTES && interactive),
{
    CLI_SOFT_LIMIT_BYTES <= size_bytes && size_bytes < CLI_HARD_LIMIT_BYTES && interactive
}

/// Applies the size gate to a candidate file.  `answer` is the console line
/// the host read after showing the confirmation prompt, or `None` when no
/// prompt was shown; a missing answer never opens a large file.
pub fn confirm_large_cli_open(size_bytes: u64, interactive: bool, answer: Option<&Vec<u8>>) -> (r:
    Result<(), LaunchArgError>)
    ensures
        r == size_gate_outcome(size_bytes, interactive, answer_view(answer)),
{
    if size_bytes < CLI_SOFT_LIMIT_BYTES {
        Ok(())
    } else if size_bytes >= CLI_HARD_LIMIT_BYTES {
        Err(LaunchArgError::FileTooLarge { size_bytes })
    } else if !interactive {
        Err(LaunchArgError::ConfirmationRequired { size_bytes })
    } else {
        match answer {
            Some(line) => {
                if is_affirmative_answer(line) {
                    Ok(())
                } else {
                    Err(LaunchArgError::OpenCancelled { size_bytes })
                }
            },
            None => Err(LaunchArgError::OpenCancelled { size_bytes }),
        }
    }
}

/// A byte size in whole tenths of a mebibyte, rounded half away from zero.
pub open spec fn mb_tenths(size_bytes: u64) -> int {
    (size_bytes as int * 10 + 524288) / 1048576
}

/// The decimal rendering of a byte size in mebibytes with one decimal digit:
/// the digits of `mb_tenths / 10`, a dot, then the digit `mb_tenths % 10`.
pub open spec fn mb_decimal(size_bytes: u64) -> Seq<u8> {
    dec_digits((mb_tenths(size_bytes) / 10) as nat).push(0x2e).push(
        (0x30 + mb_tenths(size_bytes) % 10) as u8,
    )
}

/// Renders a byte size in mebibytes with one decimal digit, for the size gate's
/// messages (`"40.0"` for 40 MiB).
pub fn format_size_mb(size_bytes: u64) -> (out: Vec<u8>)
    ensures
        out@ == mb_decimal(size_bytes),
{
    let tenths_wide: u128 = (size_bytes as u128 * 10 + 524288) / 1048576;
    proof {
        assert(tenths_wide == mb_tenths(size_bytes));
        assert(tenths_wide < 0x10000000000000000int) by {
            assert((0xffffffffffffffffint * 10 + 524288) / 1048576 < 0x10000000000000000int);
            vstd::arithmetic::div_mod::lemma_div_is_ordered(
                size_bytes as int * 10 + 524288,
                0xffffffffffffffffint * 10 + 524288,
                1048576,
            );
        }
    }
    let tenths = tenths_wide as u64;
    let whole: u64 = tenths / 10;
    let frac: u8 = (tenths % 10) as u8;
    let mut out = u64_to_dec(whole);
    out.push(0x2e);
    out.push(0x30 + frac);
    out
}

} // verus!
