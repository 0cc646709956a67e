use pixel_pipeline::cargo::{verbosity, Cargo, CommandLine, LogLevel, Options, OutputOptions};
use pixel_pipeline::color::ColorMode;

fn options(release: bool) -> Options {
    Options { release, cargo_path: "/usr/bin/cargo".to_string() }
}

fn output(color: ColorMode, log: Option<LogLevel>) -> OutputOptions {
    OutputOptions { color, log }
}

fn strings(words: &[&str]) -> Vec<String> {
    words.iter().map(|w| w.to_string()).collect()
}

#[test]
fn color_mode_words() {
    assert_eq!(ColorMode::Auto.as_str(), "auto");
    assert_eq!(ColorMode::Always.as_str(), "always");
    assert_eq!(ColorMode::Never.as_str(), "never");
}

#[test]
fn color_mode_decides_whether_to_color() {
    assert!(ColorMode::Always.should_color(false));
    assert!(ColorMode::Always.should_color(true));
    assert!(!ColorMode::Never.should_color(false));
    assert!(!ColorMode::Never.should_color(true));
    assert!(ColorMode::Auto.should_color(true));
    assert!(!ColorMode::Auto.should_color(false));
}

#[test]
fn verbosity_follows_the_default_level() {
    assert_eq!(verbosity(Some(LogLevel::Trace)), 2);
    assert_eq!(verbosity(Some(LogLevel::Debug)), 1);
    assert_eq!(verbosity(Some(LogLevel::Info)), 0);
    assert_eq!(verbosity(Some(LogLevel::Warn)), 0);
    assert_eq!(verbosity(Some(LogLevel::Error)), 0);
    assert_eq!(verbosity(Some(LogLevel::Off)), 0);
    assert_eq!(verbosity(None), 0);
}

#[test]
fn run_builds_the_plain_command_line() {
    let opts = options(false);
    let line = Cargo::run("backend", &opts, &output(ColorMode::Auto, Some(LogLevel::Info))).into_cmd();
    assert_eq!(
        line,
        CommandLine {
            program: "/usr/bin/cargo".to_string(),
            args: strings(&["run", "-p", "backend"]),
            envs: vec![("CARGO_TERM_COLOR".to_string(), "auto".to_string())],
        }
    );
}

#[test]
fn release_adds_its_flag() {
    let opts = options(true);
    let line = Cargo::run("backend", &opts, &output(ColorMode::Never, None)).into_cmd();
    assert_eq!(line.args, strings(&["run", "-p", "backend", "--release"]));
    assert_eq!(line.envs, vec![("CARGO_TERM_COLOR".to_string(), "never".to_string())]);
}

#[test]
fn verbosity_adds_one_flag_of_as_many_letters() {
    let opts = options(false);
    let line = Cargo::run("backend", &opts, &output(ColorMode::Always, Some(LogLevel::Debug))).into_cmd();
    assert_eq!(line.args, strings(&["run", "-p", "backend", "-v"]));
    let line = Cargo::run("backend", &opts, &output(ColorMode::Always, Some(LogLevel::Trace))).into_cmd();
    assert_eq!(line.args, strings(&["run", "-p", "backend", "-vv"]));
    assert_eq!(line.envs, vec![("CARGO_TERM_COLOR".to_string(), "always".to_string())]);
}

#[test]
fn release_comes_before_verbosity() {
    let opts = options(true);
    let line = Cargo::new("build", "frontend", &opts, &output(ColorMode::Auto, Some(LogLevel::Trace))).into_cmd();
    assert_eq!(line.program, "/usr/bin/cargo");
    assert_eq!(line.args, strings(&["build", "-p", "frontend", "--release", "-vv"]));
}

#[test]
fn child_output_is_kept_only_when_debugging() {
    assert!(!output(ColorMode::Auto, Some(LogLevel::Debug)).silences_child());
    assert!(!output(ColorMode::Auto, Some(LogLevel::Trace)).silences_child());
    assert!(output(ColorMode::Auto, Some(LogLevel::Info)).silences_child());
    assert!(output(ColorMode::Auto, Some(LogLevel::Warn)).silences_child());
    assert!(output(ColorMode::Auto, Some(LogLevel::Error)).silences_child());
    assert!(output(ColorMode::Auto, Some(LogLevel::Off)).silences_child());
    assert!(output(ColorMode::Auto, None).silences_child());
}
