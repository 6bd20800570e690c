//! The launch-arg validator: turns the one positional command-line path into
//! a validated pending launch file, or a startup error.  The host performs
//! the stats, canonicalizations and the confirmation prompt, and feeds their
//! results in as an [`FsProbe`]; every decision is made here.

use vstd::prelude::*;

use crate::ascii::copy_range;
use crate::errors::LaunchArgError;
use crate::path::join_path;
use crate::path::join_path_bytes;
use crate::path::normalize_cli_path;
use crate::path::normalize_outcome;
use crate::path::parse_positional_launch_args;
use crate::path::positionals;
use crate::path::split_parent_file;
use crate::path::split_spec;
use crate::path::is_usable_file_name;
use crate::path::usable_file_name;
use crate::size_gate::confirm_large_cli_open;
use crate::size_gate::size_gate_outcome;

verus! {

/// What the host found when it stat'ed a path.
#[derive(Clone, Copy, Debug, PartialEq, Eq, Structural)]
pub enum FileStat {
    /// Nothing exists at the path.
    Missing,
    /// A regular file of the given size.
    Regular { size_bytes: u64 },
    /// Something exists, but it is not a regular file.
    NotRegular,
    /// The stat itself failed for a reason other than absence.
    Inaccessible,
}

/// Everything the host observed about the candidate path: its stat result,
/// the canonical forms the operating system gave (when it gave one), what
/// the parent directory looks like, whether an interactive console is
/// attached, and the answer line read after the confirmation prompt, when one
/// was shown.
pub struct FsProbe {
    pub stat: FileStat,
    /// `canonicalize` of the path itself, when the path exists and the call
    /// succeeded.
    pub canonical_path: Option<Vec<u8>>,
    pub parent_exists: bool,
    pub parent_is_dir: bool,
    /// `canonicalize` of the parent directory, when it succeeded.
    pub canonical_parent: Option<Vec<u8>>,
    pub interactive: bool,
    pub answer_line: Option<Vec<u8>>,
}

/// The validated launch file: its canonical path, whether it already exists,
/// and its size when it does.  Created once at startup and consumed at most
/// once by the host UI.
#[derive(Debug, PartialEq, Eq)]
pub struct LaunchFileArg {
    pub path: Vec<u8>,
    pub exists: bool,
    pub file_size_bytes: Option<u64>,
}

/// The mathematical image of a [`LaunchFileArg`].
pub struct LaunchFileArgView {
    pub path: Seq<u8>,
    pub exists: bool,
    pub file_size_bytes: Option<u64>,
}

impl View for LaunchFileArg {
    type V = LaunchFileArgView;

    open spec fn view(&self) -> LaunchFileArgView {
        LaunchFileArgView { path: self.path@, exists: self.exists, file_size_bytes: self.file_size_bytes }
    }
}

/// The view of an optional byte vector.
pub open spec fn opt_bytes_view(o: Option<Vec<u8>>) -> Option<Seq<u8>> {
    match o {
        Some(v) => Some(v@),
        None => None,
    }
}

/// What validating a normalized path yields, given the host's probe.  An
/// existing regular file passes the size gate and is returned under its
/// canonical path with its size; something else existing is an error; a
/// missing file is allowed when its parent is an existing directory and its
/// name is usable, and is returned as `canonical parent / name`, not yet
/// existing.
pub open spec fn validate_outcome(path: Seq<u8>, probe: FsProbe) -> Result<
    LaunchFileArgView,
    LaunchArgError,
> {
    match probe.stat {
        FileStat::Regular { size_bytes } => {
            match size_gate_outcome(
                size_bytes,
                probe.interactive,
                opt_bytes_view(probe.answer_line),
            ) {
                Err(e) => Err(e),
                Ok(_) => match opt_bytes_view(probe.canonical_path) {
                    None => Err(LaunchArgError::CanonicalizeFailed),
                    Some(c) => Ok(
                        LaunchFileArgView {
                            path: c,
                            exists: true,
                            file_size_bytes: Some(size_bytes),
                        },
                    ),
                },
            }
        },
        FileStat::NotRegular => Err(LaunchArgError::NotARegularFile),
        FileStat::Inaccessible => Err(LaunchArgError::StatFailed),
        FileStat::Missing => {
            match split_spec(path) {
                None => Err(LaunchArgError::NoParent),
                Some(pair) => {
                    if !probe.parent_exists {
                        Err(LaunchArgError::ParentMissing)
                    } else if !probe.parent_is_dir {
                        Err(LaunchArgError::ParentNotADirectory)
                    } else {
                        match opt_bytes_view(probe.canonical_parent) {
                            None => Err(LaunchArgError::CanonicalizeFailed),
                            Some(cp) => {
                                if !usable_file_name(pair.1) {
                                    Err(LaunchArgError::NoFileName)
                                } else {
                                    Ok(
                                        LaunchFileArgView {
                                            path: join_path(cp, pair.1),
                                            exists: false,
                                            file_size_bytes: None,
                                        },
                                    )
                                }
                            },
                        }
                    }
                },
            }
        },
    }
}

/// Validates one normalized candidate path, as [`validate_outcome`] says.
pub fn validate_launch_file_arg(path: &Vec<u8>, probe: &FsProbe) -> (r: Result<
    LaunchFileArg,
    LaunchArgError,
>)
    ensures
        match r {
            Ok(arg) => validate_outcome(path@, *probe) == Ok::<LaunchFileArgView, LaunchArgError>(
                arg@,
            ),
            Err(e) => validate_outcome(path@, *probe) == Err::<LaunchFileArgView, LaunchArgError>(
                e,
            ),
        },
{
    match probe.stat {
        FileStat::Regular { size_bytes } => {
            let answer = match &probe.answer_line {
                Some(line) => Some(line),
                None => None,
            };
            match confirm_large_cli_open(size_bytes, probe.interactive, answer) {
                Err(e) => Err(e),
                Ok(_) => {
                    match &probe.canonical_path {
                        None => Err(LaunchArgError::CanonicalizeFailed),
                        Some(c) => {
                            let canonical = copy_range(c, 0, c.len());
                            proof {
                                assert(canonical@ =~= c@);
                            }
                            Ok(
                                LaunchFileArg {
                                    path: canonical,
                                    exists: true,
                                    file_size_bytes: Some(size_bytes),
                                },
                            )
                        },
                    }
                },
            }
        },
        FileStat::NotRegular => Err(LaunchArgError::NotARegularFile),
        FileStat::Inaccessible => Err(LaunchArgError::StatFailed),
        FileStat::Missing => {
            match split_parent_file(path) {
                None => Err(LaunchArgError::NoParent),
                Some(pair) => {
                    if !probe.parent_exists {
                        Err(LaunchArgError::ParentMissing)
                    } else if !probe.parent_is_dir {
                        Err(LaunchArgError::ParentNotADirectory)
                    } else {
                        match &probe.canonical_parent {
                            None => Err(LaunchArgError::CanonicalizeFailed),
                            Some(cp) => {
                                if !is_usable_file_name(&pair.1) {
                                    Err(LaunchArgError::NoFileName)
                                } else {
                                    Ok(
                                        LaunchFileArg {
                                            path: join_path_bytes(cp, &pair.1),
                                            exists: false,
                                            file_size_bytes: None,
                                        },
                                    )
                                }
                            },
                        }
                    }
                },
            }
        },
    }
}

/// What resolving the whole command line yields: no positional argument means
/// no launch file; one is normalized and validated; several are an error.
pub open spec fn resolve_outcome(args: Seq<Seq<u8>>, cwd: Seq<u8>, probe: FsProbe) -> Result<
    Option<LaunchFileArgView>,
    LaunchArgError,
> {
    let pos = positionals(args, false);
    if pos.len() > 1 {
        Err(LaunchArgError::TooManyPaths)
    } else if pos.len() == 0 {
        Ok(None)
    } else {
        match normalize_outcome(pos[0], cwd) {
            Err(e) => Err(e),
            Ok(p) => match validate_outcome(p, probe) {
                Err(e) => Err(e),
                Ok(arg) => Ok(Some(arg)),
            },
        }
    }
}

/// Resolves the launch-file argument out of the command line (program name
/// already removed), as [`resolve_outcome`] says.  The host stats the
/// normalized path beforehand and passes what it saw as `probe`.
pub fn resolve_launch_file_arg(args: &Vec<Vec<u8>>, cwd: &Vec<u8>, probe: &FsProbe) -> (r: Result<
    Option<LaunchFileArg>,
    LaunchArgError,
>)
    ensures
        match r {
            Ok(found) => match found {
                Some(arg) => resolve_outcome(args.deep_view(), cwd@, *probe) == Ok::<
                    Option<LaunchFileArgView>,
                    LaunchArgError,
                >(Some(arg@)),
                None => resolve_outcome(args.deep_view(), cwd@, *probe) == Ok::<
                    Option<LaunchFileArgView>,
                    LaunchArgError,
                >(None),
            },
            Err(e) => resolve_outcome(args.deep_view(), cwd@, *probe) == Err::<
                Option<LaunchFileArgView>,
                LaunchArgError,
            >(e),
        },
{
    let raw = match parse_positional_launch_args(args) {
        Err(e) => {
            return Err(e);
        },
        Ok(None) => {
            return Ok(None);
        },
        Ok(Some(raw)) => raw,
    };
    let normalized = match normalize_cli_path(&raw, cwd) {
        Err(e) => {
            return Err(e);
        },
        Ok(p) => p,
    };
    match validate_launch_file_arg(&normalized, probe) {
        Err(e) => Err(e),
        Ok(arg) => Ok(Some(arg)),
    }
}

} // verus!
