use clap::{Arg, ArgAction, Command};
use rmesg::select::{Backend, Options};

fn command() -> Command {
    Command::new("rmesg")
        .version("0.2.0")
        .about("Reads (and prints) the kernel log buffer.")
        .arg(Arg::new("follow").short('f').num_args(0).action(ArgAction::SetTrue))
        .arg(Arg::new("clear").short('c').num_args(0).action(ArgAction::SetTrue))
        .arg(Arg::new("raw").short('r').num_args(0).action(ArgAction::SetTrue))
        .arg(
            Arg::new("backend")
                .short('b')
                .num_args(1)
                .value_parser(["klogctl", "devkmsg"]),
        )
}

fn parse_args_from(args: &[&str]) -> Options {
    let matches = command().try_get_matches_from(args).unwrap();
    let backend = matches.get_one::<String>("backend").map(|s| s.as_str());
    Options::from_flags(
        matches.get_flag("follow"),
        matches.get_flag("clear"),
        matches.get_flag("raw"),
        backend,
    )
    .unwrap()
}

#[test]
fn test_default_options() {
    let opts = parse_args_from(&["rmesg"]);
    assert!(!opts.follow);
    assert!(!opts.clear);
    assert!(!opts.raw);
    assert!(matches!(opts.backend, Backend::Default));
}

#[test]
fn test_follow_flag() {
    let opts = parse_args_from(&["rmesg", "-f"]);
    assert!(opts.follow);
    assert!(!opts.clear);
    assert!(!opts.raw);
    assert!(matches!(opts.backend, Backend::Default));
}

#[test]
fn test_clear_flag() {
    let opts = parse_args_from(&["rmesg", "-c"]);
    assert!(!opts.follow);
    assert!(opts.clear);
    assert!(!opts.raw);
    assert!(matches!(opts.backend, Backend::Default));
}

#[test]
fn test_raw_flag() {
    let opts = parse_args_from(&["rmesg", "-r"]);
    assert!(!opts.follow);
    assert!(!opts.clear);
    assert!(opts.raw);
    assert!(matches!(opts.backend, Backend::Default));
}

#[test]
fn test_klogctl_backend() {
    let opts = parse_args_from(&["rmesg", "-b", "klogctl"]);
    assert!(!opts.follow);
    assert!(!opts.clear);
    assert!(!opts.raw);
    assert!(matches!(opts.backend, Backend::KLogCtl));
}

#[test]
fn test_devkmsg_backend() {
    let opts = parse_args_from(&["rmesg", "-b", "devkmsg"]);
    assert!(!opts.follow);
    assert!(!opts.clear);
    assert!(!opts.raw);
    assert!(matches!(opts.backend, Backend::DevKMsg));
}

#[test]
fn test_all_flags_together() {
    let opts = parse_args_from(&["rmesg", "-f", "-c", "-r", "-b", "klogctl"]);
    assert!(opts.follow);
    assert!(opts.clear);
    assert!(opts.raw);
    assert!(matches!(opts.backend, Backend::KLogCtl));
}

#[test]
#[should_panic]
fn test_invalid_backend() {
    parse_args_from(&["rmesg", "-b", "invalid"]);
}

#[test]
fn unknown_backend_name_is_refused() {
    assert_eq!(Options::from_flags(false, false, false, Some("invalid")), None);
    assert_eq!(
        Options::from_flags(true, false, true, Some("devkmsg")),
        Some(Options { follow: true, clear: false, raw: true, backend: Backend::DevKMsg })
    );
}
