use vstd::prelude::*;
use crate::music::MusicHandler;

verus! {

/// The command line of the tool: one subcommand.
pub struct FunCli {
    pub command: Commands,
}

/// The subcommands of the tool.
pub enum Commands {
    /// Look for a song, show its spectrum and maybe play it.
    Music(MusicHandler),
}

} // verus!
