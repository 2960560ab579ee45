//! How the command line renders: the output mode chosen from the flags and the terminal,
//! and which kinds of output each mode shows. Writing to the terminal is the caller's.

use vstd::prelude::*;

verus! {

/// How the CLI renders output.
#[derive(Debug, Clone, Copy, PartialEq, Eq, Structural)]
pub enum OutputMode {
    /// Colored tables, spinners, status indicators (TTY default).
    Human,
    /// Simplified JSON matching MCP tool responses (non-TTY default or `--json`).
    Json,
    /// Full JMAP response for debugging (`--raw`).
    Raw,
}

/// The mode the flags and the terminal call for. Precedence: `--raw` > `--json` >
/// auto-detect (a terminal is `Human`, a pipe `Json`).
pub open spec fn mode_for(json: bool, raw: bool, stdout_is_terminal: bool) -> OutputMode {
    if raw {
        OutputMode::Raw
    } else if json {
        OutputMode::Json
    } else if stdout_is_terminal {
        OutputMode::Human
    } else {
        OutputMode::Json
    }
}

impl OutputMode {
    /// Detect the output mode from the flags and whether stdout is a terminal (see
    /// `mode_for`).
    pub fn detect(json: bool, raw: bool, stdout_is_terminal: bool) -> (r: OutputMode)
        ensures
            r == mode_for(json, raw, stdout_is_terminal),
    {
        if raw {
            OutputMode::Raw
        } else if json {
            OutputMode::Json
        } else if stdout_is_terminal {
            OutputMode::Human
        } else {
            OutputMode::Json
        }
    }
}

/// Centralized output for CLI commands: the mode decides what is shown. In JSON and Raw
/// mode, status messages (progress, success, warnings, hints, separators) are
/// suppressed; only data and errors are shown.
#[derive(Debug)]
pub struct Io {
    mode: OutputMode,
}

impl Io {
    /// The mode this output renders in.
    pub closed spec fn mode_view(self) -> OutputMode {
        self.mode
    }

    pub fn new(mode: OutputMode) -> (r: Io)
        ensures
            r.mode_view() == mode,
    {
        Io { mode }
    }

    pub fn mode(&self) -> (r: OutputMode)
        ensures
            r == self.mode_view(),
    {
        self.mode
    }

    /// Whether status output (spinners, `✓`, `⚠`, `→` lines, separators) is shown: only
    /// in `Human` mode.
    pub fn shows_status(&self) -> (r: bool)
        ensures
            r == (self.mode_view() == OutputMode::Human),
    {
        match self.mode {
            OutputMode::Human => true,
            _ => false,
        }
    }
}

} // verus!
