//! Whether a build tool should colour its output.

use vstd::prelude::*;

verus! {

/// When to colour output.
#[derive(Copy, Clone, Debug, PartialEq, Eq, Structural)]
pub enum ColorMode {
    /// Colour when the error stream is a terminal.
    Auto,
    /// Always colour.
    Always,
    /// Never colour.
    Never,
}

impl ColorMode {
    /// The word by which the mode is written on a command line.
    pub open spec fn name(self) -> Seq<char> {
        match self {
            ColorMode::Auto => "auto"@,
            ColorMode::Always => "always"@,
            ColorMode::Never => "never"@,
        }
    }

    /// The word by which the mode is written on a command line and in
    /// `CARGO_TERM_COLOR`.
    pub fn as_str(&self) -> (s: &'static str)
        ensures
            s@ == self.name(),
    {
        match self {
            ColorMode::Auto => "auto",
            ColorMode::Always => "always",
            ColorMode::Never => "never",
        }
    }

    /// Whether to colour, given whether the error stream is a terminal.
    pub fn should_color(self, stderr_is_terminal: bool) -> (colored: bool)
        ensures
            colored == match self {
                ColorMode::Auto => stderr_is_terminal,
                ColorMode::Always => true,
                ColorMode::Never => false,
            },
    {
        match self {
            ColorMode::Auto => stderr_is_terminal,
            ColorMode::Always => true,
            ColorMode::Never => false,
        }
    }
}

/// The three words are different, so a word names at most one mode.
pub proof fn lemma_names_differ(a: ColorMode, b: ColorMode)
    ensures
        a.name() == b.name() <==> a == b,
{
    reveal_strlit("auto");
    reveal_strlit("always");
    reveal_strlit("never");
    if a != b {
        assert(a.name().len() != b.name().len() || a.name()[1] != b.name()[1]);
    }
}

} // verus!
