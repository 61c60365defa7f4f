//! What a tool call answers.
use crate::json::{Json, JsonTree};
use vstd::prelude::*;

verus! {

/// The answer of a tool: text for reading, and the same as data.
pub struct ToolOutput {
    pub text: String,
    pub structured: Json,
}

/// What a [`ToolOutput`] says.
pub struct ToolOutputView {
    pub text: Seq<char>,
    pub structured: JsonTree,
}

impl View for ToolOutput {
    type V = ToolOutputView;

    open spec fn view(&self) -> ToolOutputView {
        ToolOutputView { text: self.text@, structured: self.structured@ }
    }
}

/// What a tool call comes to: an answer, or the message of its failure.
pub open spec fn outcome(r: Result<ToolOutput, String>) -> Result<ToolOutputView, Seq<char>> {
    match r {
        Ok(out) => Ok(out@),
        Err(m) => Err(m@),
    }
}

} // verus!
