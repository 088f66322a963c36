use vstd::prelude::*;

verus! {

/// Declares `std::io::Error` so that it can be carried through verified code; it stays opaque.
#[verifier::external_type_specification]
#[verifier::external_body]
pub struct ExIoError(std::io::Error);

/// What a handler tells the dispatch loop once it has run.
#[derive(Clone, Copy, Debug, PartialEq, Eq, Structural)]
pub enum CommandResult {
    /// Go on: prompt for the next line.
    Continue,
    /// End the session.
    Break,
}

/// A command that the interpreter can dispatch to.
///
/// `W` is the output sink that the interpreter owns and lends to the handler for the call.
pub trait CommandHandler<W> {
    /// Runs the command with the arguments that followed its name on the line.
    ///
    /// A write to `output` that fails is handed back as the error: it ends the session,
    /// and the interpreter's caller receives it as it is.
    fn execute(&self, output: &mut W, args: &[&str]) -> Result<CommandResult, std::io::Error>;
}

/// Any closure with the shape of `execute` is a handler.
impl<F, W> CommandHandler<W> for F where
    F: Fn(&mut W, &[&str]) -> Result<CommandResult, std::io::Error>,
 {
    /// Calls the closure on the same sink and arguments, and returns what it returned:
    /// where the closure's precondition held, its postcondition holds of the result.
    fn execute(&self, output: &mut W, args: &[&str]) -> (r: Result<CommandResult, std::io::Error>)
        ensures
            self.requires((old(output), args)) ==> self.ensures((old(output), args), r),
    {
        let call = (output, args);
        call_closure(self, call)
    }
}

/// Relies on `Fn::call`: runs the closure on the sink and the arguments, and returns
/// what the closure returned. A plain Rust closure can be called on any arguments, so
/// none are excluded here; where the closure states a precondition and it held, the
/// result is one that the closure's postcondition allows, and otherwise nothing is
/// promised of it.
#[verifier::external_body]
fn call_closure<W, F>(f: &F, call: (&mut W, &[&str])) -> (r: Result<
    CommandResult,
    std::io::Error,
>) where
    F: Fn(&mut W, &[&str]) -> Result<CommandResult, std::io::Error>,

    ensures
        f.requires(call) ==> f.ensures(call, r),
 {
    f(call.0, call.1)
}

} // verus!
