//! The terminal side of the workflow: colours, and what the workflow asks of
//! the program that runs it.
pub mod color;

use vstd::prelude::*;

use crate::commit::AiResponse;

verus! {

/// The program around the library: the terminal the workflow talks to, and
/// the JSON decoding of the model's answer.
pub trait Host {
    /// Prints one line.
    fn say(&self, line: &str);

    /// Prints one line on the error output.
    fn warn(&self, line: &str);

    /// Prints `prompt` and reads one line of answer (empty when nothing can
    /// be read).
    fn ask(&self, prompt: &str) -> String;

    /// Starts the progress indicator of a slow step.
    fn begin_progress(&self, msg: &str);

    /// Stops the progress indicator and reports the step as done.
    fn end_progress(&self, msg: &str);

    /// Decodes the model's answer as a JSON commit response; `None` when it
    /// does not decode.
    fn decode_response(&self, text: &str) -> Option<AiResponse>;
}

} // verus!
