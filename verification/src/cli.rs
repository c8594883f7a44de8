//! The command line: its global options and its subcommands, as plain values.
use vstd::prelude::*;

use crate::edition::Edition;

verus! {

/// The command line of the program.
pub struct Cli {
    /// Game edition
    pub edition: EditionArg,
    pub command: Command,
}

pub enum Command {
    /// List available versions and download manifests (game + voiceover packages)
    List,
    /// Download and install the full game. Already valid files are skipped
    Download {
        dest: String,
        threads: usize,
        temp: Option<String>,
        voice: Vec<String>,
        no_free_space_check: bool,
    },
    /// Update an existing installation via diff patches (falls back to a full download)
    Update {
        dest: String,
        threads: usize,
        temp: Option<String>,
        voice: Vec<String>,
        no_free_space_check: bool,
    },
    /// Pre-download chunks of the upcoming version without applying them
    Predownload {
        dest: String,
        threads: usize,
        temp: Option<String>,
        voice: Vec<String>,
        no_free_space_check: bool,
    },
    /// Verify and repair an existing installation, re-downloading broken regions only
    Repair {
        dest: String,
        threads: usize,
        temp: Option<String>,
        voice: Vec<String>,
        no_free_space_check: bool,
    },
    /// Interactive terminal user interface
    Tui,
}

/// The edition option of the command line.
#[derive(Clone, Copy, Debug, PartialEq, Eq, Structural)]
pub enum EditionArg {
    Global,
    China,
}

impl Default for EditionArg {
    fn default() -> (arg: Self)
        ensures
            arg == EditionArg::Global,
    {
        EditionArg::Global
    }
}

/// The edition an edition option selects.
pub open spec fn edition_of_arg(arg: EditionArg) -> Edition {
    match arg {
        EditionArg::Global => Edition::Global,
        EditionArg::China => Edition::China,
    }
}

impl From<EditionArg> for Edition {
    fn from(value: EditionArg) -> (e: Self) {
        match value {
            EditionArg::Global => Edition::Global,
            EditionArg::China => Edition::China,
        }
    }
}

impl vstd::std_specs::convert::FromSpecImpl<EditionArg> for Edition {
    open spec fn obeys_from_spec() -> bool {
        true
    }

    open spec fn from_spec(v: EditionArg) -> Edition {
        edition_of_arg(v)
    }
}

} // verus!
