use clap::{Args, FromArgMatches};
use clap_verbosity_flag::{Verbosity as LogVerbosity, WarnLevel};
use tryke::{LogLevel, Verbosity};

fn level_from(args: &[&str]) -> Option<LogLevel> {
    let command = LogVerbosity::<WarnLevel>::augment_args(clap::Command::new("tryke"));
    let matches = command.try_get_matches_from(args).unwrap();
    let flags = LogVerbosity::<WarnLevel>::from_arg_matches(&matches).unwrap();
    flags.log_level().map(|level| match level {
        log::Level::Error => LogLevel::Error,
        log::Level::Warn => LogLevel::Warn,
        log::Level::Info => LogLevel::Info,
        log::Level::Debug => LogLevel::Debug,
        log::Level::Trace => LogLevel::Trace,
    })
}

#[test]
fn test_verbose_flag_drives_verbose_output() {
    let verbosity = Verbosity::from_log_level(level_from(&["tryke", "-v"]));
    assert!(matches!(verbosity, Verbosity::Verbose));
}

#[test]
fn test_quiet_flag_drives_quiet_output() {
    let verbosity = Verbosity::from_log_level(level_from(&["tryke", "-q"]));
    assert!(matches!(verbosity, Verbosity::Quiet));
}

#[test]
fn verbosity_for_every_level() {
    assert_eq!(Verbosity::from_log_level(None), Verbosity::Quiet);
    assert_eq!(Verbosity::from_log_level(Some(LogLevel::Error)), Verbosity::Quiet);
    assert_eq!(Verbosity::from_log_level(Some(LogLevel::Warn)), Verbosity::Normal);
    assert_eq!(Verbosity::from_log_level(Some(LogLevel::Info)), Verbosity::Verbose);
    assert_eq!(Verbosity::from_log_level(Some(LogLevel::Debug)), Verbosity::Verbose);
    assert_eq!(Verbosity::from_log_level(Some(LogLevel::Trace)), Verbosity::Verbose);
    assert_eq!(Verbosity::default(), Verbosity::Normal);
    assert_eq!(Verbosity::from_log_level(level_from(&["tryke"])), Verbosity::Normal);
    assert_eq!(Verbosity::from_log_level(level_from(&["tryke", "-vvv"])), Verbosity::Verbose);
    assert_eq!(Verbosity::from_log_level(level_from(&["tryke", "-qq"])), Verbosity::Quiet);
}
