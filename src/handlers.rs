use vstd::prelude::*;

use crate::command_handler::{CommandHandler, CommandResult};

verus! {

/// Ready-made handler that ends the session.
#[derive(Debug, Default)]
pub struct Quit {}

impl<W> CommandHandler<W> for Quit {
    /// Asks the loop to stop, whatever the arguments, and writes nothing.
    fn execute(&self, output: &mut W, args: &[&str]) -> (r: Result<CommandResult, std::io::Error>)
        ensures
            r matches Ok(CommandResult::Break),
            *final(output) == *old(output),
    {
        Ok(CommandResult::Break)
    }
}

} // verus!
