//! What the program was asked to do, once its arguments are parsed.

use vstd::prelude::*;

verus! {

/// The parsed command line.
#[derive(Debug, Clone, PartialEq, Eq)]
pub struct Cli {
    /// The subcommand, where one was given.
    pub command: Option<Command>,
    /// Whether debugging output is wanted.
    pub debug: bool,
}

/// The subcommands.
#[derive(Debug, Clone, Copy, PartialEq, Eq, Structural)]
pub enum Command {
    /// Start the bot.
    Start,
    /// Run the scrape task.
    Scrape,
}

} // verus!
