//! The command line by which the development loop runs a crate of the
//! workspace through `cargo`.

use vstd::prelude::*;
use vstd::string::StringExecFns;
use crate::color::ColorMode;

verus! {

/// How much a log filter lets through, from nothing to everything.
#[derive(Copy, Clone, Debug, PartialEq, Eq, Structural)]
pub enum LogLevel {
    Off,
    Error,
    Warn,
    Info,
    Debug,
    Trace,
}

impl LogLevel {
    /// The place of the level among the six, `Off` first.
    pub open spec fn rank(self) -> nat {
        match self {
            LogLevel::Off => 0,
            LogLevel::Error => 1,
            LogLevel::Warn => 2,
            LogLevel::Info => 3,
            LogLevel::Debug => 4,
            LogLevel::Trace => 5,
        }
    }
}

/// The number of `v` that `cargo` is given for a default log level: two for
/// `Trace`, one for `Debug`, none otherwise.
pub open spec fn verbosity_of(level: Option<LogLevel>) -> u8 {
    match level {
        Some(LogLevel::Trace) => 2,
        Some(LogLevel::Debug) => 1,
        _ => 0,
    }
}

/// The number of `v` that `cargo` is given for a default log level.
pub fn verbosity(level: Option<LogLevel>) -> (count: u8)
    ensures
        count == verbosity_of(level),
{
    match level {
        Some(LogLevel::Trace) => 2,
        Some(LogLevel::Debug) => 1,
        _ => 0,
    }
}

/// How to build: in release mode or not, and with which `cargo`.
#[derive(Debug, Clone)]
pub struct Options {
    /// Build with optimizations.
    pub release: bool,
    /// The path of the `cargo` executable.
    pub cargo_path: String,
}

/// How to report: whether in colour, and the default level of the log
/// filter, if it has one.
#[derive(Debug, Clone)]
pub struct OutputOptions {
    pub color: ColorMode,
    pub log: Option<LogLevel>,
}

impl OutputOptions {
    /// Whether the output of a child process is thrown away: it is, unless
    /// the default log level, `Info` where there is none, is `Debug` or
    /// `Trace`.
    pub fn silences_child(&self) -> (silent: bool)
        ensures
            silent == (match self.log {
                Some(level) => level.rank() < LogLevel::Debug.rank(),
                None => true,
            }),
    {
        match self.log {
            Some(LogLevel::Debug) => false,
            Some(LogLevel::Trace) => false,
            _ => true,
        }
    }
}

/// A call of `cargo` on one crate of the workspace.
pub struct Cargo<'a> {
    cmd: &'a str,
    cargo_path: &'a str,
    verbosity: u8,
    release: bool,
    color_mode: ColorMode,
    krate: &'a str,
}

/// What a call of `cargo` holds.
pub struct CargoView {
    pub cmd: Seq<char>,
    pub cargo_path: Seq<char>,
    pub verbosity: u8,
    pub release: bool,
    pub color_mode: ColorMode,
    pub krate: Seq<char>,
}

impl<'a> View for Cargo<'a> {
    type V = CargoView;

    closed spec fn view(&self) -> CargoView {
        CargoView {
            cmd: self.cmd@,
            cargo_path: self.cargo_path@,
            verbosity: self.verbosity,
            release: self.release,
            color_mode: self.color_mode,
            krate: self.krate@,
        }
    }
}

/// A program with its arguments and the environment variables set for it.
#[derive(Debug, Clone, PartialEq, Eq)]
pub struct CommandLine {
    pub program: String,
    pub args: Vec<String>,
    pub envs: Vec<(String, String)>,
}

/// The characters of each string.
pub open spec fn texts(strings: Seq<String>) -> Seq<Seq<char>> {
    Seq::new(strings.len(), |i: int| strings[i]@)
}

/// The flag that asks `cargo` for more output: a hyphen and `count` times
/// `v`.
pub open spec fn verbose_flag(count: nat) -> Seq<char> {
    seq!['-'] + Seq::new(count, |i: int| 'v')
}

/// The arguments of a call: the subcommand, `-p` and the crate, then
/// `--release` in release mode, then the verbose flag where there is any
/// verbosity.
pub open spec fn arguments(call: CargoView) -> Seq<Seq<char>> {
    seq![call.cmd, "-p"@, call.krate] + (if call.release {
        seq!["--release"@]
    } else {
        Seq::<Seq<char>>::empty()
    }) + (if call.verbosity > 0 {
        seq![verbose_flag(call.verbosity as nat)]
    } else {
        Seq::<Seq<char>>::empty()
    })
}

/// The flag that asks `cargo` for more output.
fn verbose_flag_text(count: u8) -> (flag: String)
    ensures
        flag@ == verbose_flag(count as nat),
{
    let mut flag = "-".to_owned();
    proof {
        reveal_strlit("-");
        reveal_strlit("v");
        assert(flag@ =~= verbose_flag(0));
    }
    let mut i: u8 = 0;
    while i < count
        invariant
            i <= count,
            flag@ == verbose_flag(i as nat),
        decreases count - i,
    {
        flag.append("v");
        i += 1;
        proof {
            reveal_strlit("v");
            assert(flag@ =~= verbose_flag(i as nat));
        }
    }
    flag
}

impl<'a> Cargo<'a> {
    /// A call of the subcommand `cmd` on the crate `krate`, as verbose as the
    /// default log level asks.
    pub fn new(cmd: &'a str, krate: &'a str, opts: &'a Options, output: &OutputOptions) -> (call:
        Self)
        ensures
            call@ == (CargoView {
                cmd: cmd@,
                cargo_path: opts.cargo_path@,
                verbosity: verbosity_of(output.log),
                release: opts.release,
                color_mode: output.color,
                krate: krate@,
            }),
    {
        Cargo {
            cmd,
            cargo_path: opts.cargo_path.as_str(),
            verbosity: verbosity(output.log),
            release: opts.release,
            color_mode: output.color,
            krate,
        }
    }

    /// A call of `cargo run` on the crate `krate`.
    pub fn run(krate: &'a str, opts: &'a Options, output: &OutputOptions) -> (call: Self)
        ensures
            call@ == (CargoView {
                cmd: "run"@,
                cargo_path: opts.cargo_path@,
                verbosity: verbosity_of(output.log),
                release: opts.release,
                color_mode: output.color,
                krate: krate@,
            }),
    {
        Cargo::new("run", krate, opts, output)
    }

    /// The command line of the call: the `cargo` executable, the arguments,
    /// and `CARGO_TERM_COLOR` set to the colour mode.
    pub fn into_cmd(self) -> (line: CommandLine)
        ensures
            line.program@ == self@.cargo_path,
            texts(line.args@) == arguments(self@),
            line.envs@.len() == 1,
            line.envs@[0].0@ == "CARGO_TERM_COLOR"@,
            line.envs@[0].1@ == self@.color_mode.name(),
    {
        let mut args: Vec<String> = Vec::new();
        args.push(self.cmd.to_owned());
        args.push("-p".to_owned());
        args.push(self.krate.to_owned());
        if self.release {
            args.push("--release".to_owned());
        }
        if self.verbosity > 0 {
            args.push(verbose_flag_text(self.verbosity));
        }
        let mut envs: Vec<(String, String)> = Vec::new();
        envs.push(("CARGO_TERM_COLOR".to_owned(), self.color_mode.as_str().to_owned()));
        assert(texts(args@) =~= arguments(self@));
        CommandLine { program: self.cargo_path.to_owned(), args, envs }
    }
}

} // verus!
