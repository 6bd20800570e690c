use wisty_stream::errors::LaunchArgError;
use wisty_stream::launch_arg::resolve_launch_file_arg;
use wisty_stream::launch_arg::validate_launch_file_arg;
use wisty_stream::launch_arg::FileStat;
use wisty_stream::launch_arg::FsProbe;
use wisty_stream::launch_arg::LaunchFileArg;

fn b(s: &str) -> Vec<u8> {
    s.as_bytes().to_vec()
}

fn probe(stat: FileStat) -> FsProbe {
    FsProbe {
        stat,
        canonical_path: None,
        parent_exists: false,
        parent_is_dir: false,
        canonical_parent: None,
        interactive: false,
        answer_line: None,
    }
}

#[test]
fn existing_regular_file_validates_to_its_canonical_path() {
    let mut p = probe(FileStat::Regular { size_bytes: 17 });
    p.canonical_path = Some(b("/real/a.txt"));
    assert_eq!(
        validate_launch_file_arg(&b("/tmp/link-to-a"), &p),
        Ok(LaunchFileArg {
            path: b("/real/a.txt"),
            exists: true,
            file_size_bytes: Some(17),
        })
    );
}

#[test]
fn directory_or_device_is_refused() {
    assert_eq!(
        validate_launch_file_arg(&b("/tmp"), &probe(FileStat::NotRegular)),
        Err(LaunchArgError::NotARegularFile)
    );
    assert_eq!(
        validate_launch_file_arg(&b("/tmp/x"), &probe(FileStat::Inaccessible)),
        Err(LaunchArgError::StatFailed)
    );
}

#[test]
fn large_file_gate_runs_during_validation() {
    let mut p = probe(FileStat::Regular {
        size_bytes: 900 * 1024 * 1024,
    });
    p.canonical_path = Some(b("/real/big.txt"));
    assert_eq!(
        validate_launch_file_arg(&b("/real/big.txt"), &p),
        Err(LaunchArgError::ConfirmationRequired {
            size_bytes: 900 * 1024 * 1024
        })
    );
    p.interactive = true;
    p.answer_line = Some(b("y"));
    assert_eq!(
        validate_launch_file_arg(&b("/real/big.txt"), &p),
        Ok(LaunchFileArg {
            path: b("/real/big.txt"),
            exists: true,
            file_size_bytes: Some(900 * 1024 * 1024),
        })
    );
}

#[test]
fn missing_file_validates_against_its_parent() {
    let mut p = probe(FileStat::Missing);
    p.parent_exists = true;
    p.parent_is_dir = true;
    p.canonical_parent = Some(b("/real/dir"));
    assert_eq!(
        validate_launch_file_arg(&b("/tmp/dir/new.txt"), &p),
        Ok(LaunchFileArg {
            path: b("/real/dir/new.txt"),
            exists: false,
            file_size_bytes: None,
        })
    );
}

#[test]
fn missing_file_needs_an_existing_parent_directory() {
    let mut p = probe(FileStat::Missing);
    assert_eq!(
        validate_launch_file_arg(&b("/nowhere/new.txt"), &p),
        Err(LaunchArgError::ParentMissing)
    );
    p.parent_exists = true;
    assert_eq!(
        validate_launch_file_arg(&b("/nowhere/new.txt"), &p),
        Err(LaunchArgError::ParentNotADirectory)
    );
    p.parent_is_dir = true;
    p.canonical_parent = Some(b("/nowhere"));
    assert_eq!(
        validate_launch_file_arg(&b("/nowhere/.."), &p),
        Err(LaunchArgError::NoFileName)
    );
    assert_eq!(
        validate_launch_file_arg(&b("/"), &p),
        Err(LaunchArgError::NoParent)
    );
}

#[test]
fn resolve_composes_parsing_normalizing_and_validation() {
    let args: Vec<Vec<u8>> = vec![b("-v"), b("doc.txt")];
    let mut p = probe(FileStat::Regular { size_bytes: 3 });
    p.canonical_path = Some(b("/home/user/doc.txt"));
    assert_eq!(
        resolve_launch_file_arg(&args, &b("/home/user"), &p),
        Ok(Some(LaunchFileArg {
            path: b("/home/user/doc.txt"),
            exists: true,
            file_size_bytes: Some(3),
        }))
    );
}

#[test]
fn resolve_without_argument_finds_nothing() {
    let args: Vec<Vec<u8>> = vec![b("--verbose")];
    assert_eq!(
        resolve_launch_file_arg(&args, &b("/home"), &probe(FileStat::Missing)),
        Ok(None)
    );
}

#[test]
fn resolve_refuses_two_paths_or_a_blank_one() {
    let args: Vec<Vec<u8>> = vec![b("a"), b("b")];
    assert_eq!(
        resolve_launch_file_arg(&args, &b("/home"), &probe(FileStat::Missing)),
        Err(LaunchArgError::TooManyPaths)
    );
    let blank: Vec<Vec<u8>> = vec![b(" ")];
    assert_eq!(
        resolve_launch_file_arg(&blank, &b("/home"), &probe(FileStat::Missing)),
        Err(LaunchArgError::EmptyPath)
    );
}
