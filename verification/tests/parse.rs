use virli::parse::{parse_args, Args, ParseError};

fn strings(args: &[&str]) -> Vec<String> {
    args.iter().map(|s| s.to_string()).collect()
}

fn run(args: &[String]) -> Args<'_> {
    match parse_args(args) {
        Ok(Some(a)) => a,
        Ok(None) => panic!("help instead of a run"),
        Err(e) => panic!("refused: {}", e.message()),
    }
}

fn refused(args: &[&str]) -> ParseError {
    let args = strings(args);
    match parse_args(&args) {
        Err(e) => e,
        Ok(_) => panic!("accepted {:?}", args),
    }
}

#[test]
fn help_flag_asks_for_usage() {
    let args = strings(&["-h"]);
    assert!(matches!(parse_args(&args), Ok(None)));
    let args = strings(&["-I", "alpine", "-h", "sh"]);
    assert!(matches!(parse_args(&args), Ok(None)));
}

#[test]
fn image_and_command() {
    let args = strings(&["-I", "library/node:19-alpine", "/bin/sh", "-c", "echo hi"]);
    let a = run(&args);
    assert_eq!(a.image, Some("library/node:19-alpine"));
    assert_eq!(a.rootfs, None);
    assert_eq!(a.volume, None);
    assert_eq!(a.command, &args[2..]);
}

#[test]
fn rootfs_and_volume() {
    let args = strings(&["-v", "/home/me/work", "-R", "/srv/root", "ls", "-l"]);
    let a = run(&args);
    assert_eq!(a.rootfs.as_deref(), Some("/srv/root"));
    assert_eq!(a.volume.as_deref(), Some("/home/me/work"));
    assert_eq!(a.image, None);
    assert_eq!(a.command, &args[4..]);
}

#[test]
fn rootfs_and_image_exclude_each_other() {
    assert_eq!(refused(&["-R", "/r", "-I", "alpine", "sh"]), ParseError::ConflictingSources);
    assert_eq!(refused(&["-I", "alpine", "-v", "/w", "-R", "/r", "sh"]), ParseError::ConflictingSources);
    assert_eq!(
        ParseError::ConflictingSources.message(),
        "A rootfs path and -I <image> exclude each other"
    );
}

#[test]
fn later_option_replaces_earlier() {
    let args = strings(&["-I", "a", "-I", "b", "sh"]);
    assert_eq!(run(&args).image, Some("b"));
}

#[test]
fn flags_after_command_belong_to_it() {
    let args = strings(&["-R", "/r", "sh", "-h", "-v"]);
    let a = run(&args);
    assert_eq!(a.command, &args[2..]);
}

#[test]
fn option_value_may_look_like_a_flag() {
    let args = strings(&["-v", "-h", "-R", "/r", "x"]);
    let a = run(&args);
    assert_eq!(a.volume.as_deref(), Some("-h"));
}

#[test]
fn missing_option_values() {
    assert_eq!(refused(&["-v"]), ParseError::MissingVolumeValue);
    assert_eq!(refused(&["-R", "/r", "-I"]), ParseError::MissingImageValue);
    assert_eq!(refused(&["-R"]), ParseError::MissingRootfsValue);
}

#[test]
fn command_needs_a_source() {
    assert_eq!(refused(&["ls"]), ParseError::MissingSource);
    assert_eq!(refused(&["-v", "/w", "ls"]), ParseError::MissingSource);
}

#[test]
fn command_is_required() {
    assert_eq!(refused(&[]), ParseError::MissingCommand);
    assert_eq!(refused(&["-I", "alpine"]), ParseError::MissingCommand);
}

#[test]
fn parse_error_messages() {
    assert_eq!(ParseError::MissingVolumeValue.message(), "Missing value for -v");
    assert_eq!(ParseError::MissingImageValue.message(), "Missing value for -I");
    assert_eq!(ParseError::MissingRootfsValue.message(), "Missing value for -R");
    assert_eq!(
        ParseError::MissingSource.message(),
        "You must provide a rootfs path or use -I <image>"
    );
    assert_eq!(ParseError::MissingCommand.message(), "You must provide a command to execute");
}

#[test]
fn accepted_lines_have_source_and_command() {
    let lines: Vec<Vec<&str>> = vec![
        vec!["-I", "x", "a"],
        vec!["-R", "r", "-v", "v", "a", "b"],
        vec!["-v", "v", "-I", "i", "c"],
    ];
    for line in lines {
        let args = strings(&line);
        let a = run(&args);
        assert!(a.rootfs.is_some() != a.image.is_some());
        assert!(!a.command.is_empty());
        assert_eq!(a.command.last(), args.last());
    }
}

#[test]
fn help_counts_only_where_an_option_is_expected() {
    let yes: Vec<Vec<&str>> = vec![vec!["-h"], vec!["-v", "w", "-h"], vec!["-R", "r", "-I", "i", "-h", "x"]];
    for line in yes {
        let args = strings(&line);
        assert!(matches!(parse_args(&args), Ok(None)), "{:?}", line);
    }
    let no: Vec<Vec<&str>> = vec![vec!["-v", "-h"], vec!["-R", "r", "sh", "-h"], vec!["x", "-h"]];
    for line in no {
        let args = strings(&line);
        assert!(!matches!(parse_args(&args), Ok(None)), "{:?}", line);
    }
}

#[test]
fn accepted_line_holds_last_option_values() {
    let args = strings(&["-v", "a", "-I", "i", "-v", "b", "run", "-v", "c"]);
    let a = run(&args);
    assert_eq!(a.volume.as_deref(), Some("b"));
    assert_eq!(a.image, Some("i"));
    assert_eq!(a.command, &args[6..]);
}
