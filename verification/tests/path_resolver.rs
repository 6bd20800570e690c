use wisty_stream::errors::LaunchArgError;
use wisty_stream::errors::WriteStreamError;
use wisty_stream::path::join_path_bytes;
use wisty_stream::path::normalize_cli_path;
use wisty_stream::path::parse_positional_launch_args;
use wisty_stream::path::split_parent_file;
use wisty_stream::write_stream::build_save_temp_path;

fn b(s: &str) -> Vec<u8> {
    s.as_bytes().to_vec()
}

fn args(list: &[&str]) -> Vec<Vec<u8>> {
    list.iter().map(|s| b(s)).collect()
}

#[test]
fn no_argument_resolves_to_none() {
    assert_eq!(parse_positional_launch_args(&args(&[])), Ok(None));
    assert_eq!(parse_positional_launch_args(&args(&["-v", "--log=x"])), Ok(None));
}

#[test]
fn one_positional_argument_is_found() {
    assert_eq!(
        parse_positional_launch_args(&args(&["notes.txt"])),
        Ok(Some(b("notes.txt")))
    );
    assert_eq!(
        parse_positional_launch_args(&args(&["-v", "notes.txt"])),
        Ok(Some(b("notes.txt")))
    );
}

#[test]
fn separator_makes_dashed_tokens_positional() {
    assert_eq!(
        parse_positional_launch_args(&args(&["--", "-dashed-name"])),
        Ok(Some(b("-dashed-name")))
    );
    // the first separator is consumed; later ones are positional tokens
    assert_eq!(
        parse_positional_launch_args(&args(&["--", "--"])),
        Ok(Some(b("--")))
    );
}

#[test]
fn two_positional_arguments_are_refused() {
    assert_eq!(
        parse_positional_launch_args(&args(&["a.txt", "b.txt"])),
        Err(LaunchArgError::TooManyPaths)
    );
    assert_eq!(
        parse_positional_launch_args(&args(&["--", "-x", "-y"])),
        Err(LaunchArgError::TooManyPaths)
    );
}

#[test]
fn normalize_rejects_blank_and_bare_scheme() {
    assert_eq!(
        normalize_cli_path(&b(""), &b("/home")),
        Err(LaunchArgError::EmptyPath)
    );
    assert_eq!(
        normalize_cli_path(&b("  \t"), &b("/home")),
        Err(LaunchArgError::EmptyPath)
    );
    assert_eq!(
        normalize_cli_path(&b("file://"), &b("/home")),
        Err(LaunchArgError::EmptyFileUri)
    );
}

#[test]
fn normalize_strips_file_scheme() {
    assert_eq!(
        normalize_cli_path(&b("file:///tmp/x.txt"), &b("/home")),
        Ok(b("/tmp/x.txt"))
    );
}

#[test]
fn normalize_keeps_absolute_and_joins_relative() {
    assert_eq!(
        normalize_cli_path(&b("/tmp/x.txt"), &b("/home")),
        Ok(b("/tmp/x.txt"))
    );
    assert_eq!(
        normalize_cli_path(&b("x.txt"), &b("/home")),
        Ok(b("/home/x.txt"))
    );
    assert_eq!(
        normalize_cli_path(&b("x.txt"), &b("/home/")),
        Ok(b("/home/x.txt"))
    );
    // a relative scheme path is joined too
    assert_eq!(
        normalize_cli_path(&b("file://x.txt"), &b("/home")),
        Ok(b("/home/x.txt"))
    );
}

#[test]
fn join_path_bytes_inserts_one_separator() {
    assert_eq!(join_path_bytes(&b("/a"), &b("b")), b("/a/b"));
    assert_eq!(join_path_bytes(&b("/a/"), &b("b")), b("/a/b"));
    assert_eq!(join_path_bytes(&b(""), &b("b")), b("b"));
}

#[test]
fn split_parent_file_cases() {
    assert_eq!(split_parent_file(&b("/a/b")), Some((b("/a"), b("b"))));
    assert_eq!(split_parent_file(&b("/a/b/")), Some((b("/a"), b("b"))));
    assert_eq!(split_parent_file(&b("/a")), Some((b("/"), b("a"))));
    assert_eq!(split_parent_file(&b("name")), Some((b(""), b("name"))));
    assert_eq!(split_parent_file(&b("/")), None);
    assert_eq!(split_parent_file(&b("")), None);
}

#[test]
fn temp_path_is_a_hidden_sibling_named_by_session() {
    assert_eq!(
        build_save_temp_path(&b("/tmp/out.txt"), 3, true, true),
        Ok(b("/tmp/.out.txt.wisty-save-3.tmp"))
    );
    assert_eq!(
        build_save_temp_path(&b("/tmp/out.txt"), 12, true, true),
        Ok(b("/tmp/.out.txt.wisty-save-12.tmp"))
    );
}

#[test]
fn temp_path_needs_an_existing_parent_directory() {
    assert_eq!(
        build_save_temp_path(&b("/"), 1, true, true),
        Err(WriteStreamError::NoParent)
    );
    assert_eq!(
        build_save_temp_path(&b("/tmp/out.txt"), 1, false, false),
        Err(WriteStreamError::ParentMissing)
    );
    assert_eq!(
        build_save_temp_path(&b("/tmp/out.txt"), 1, true, false),
        Err(WriteStreamError::ParentNotADirectory)
    );
    assert_eq!(
        build_save_temp_path(&b("/tmp/.."), 1, true, true),
        Err(WriteStreamError::NoFileName)
    );
}
