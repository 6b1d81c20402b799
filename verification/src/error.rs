//! The one way in which this library's operations fail.

use vstd::prelude::*;
use vstd::string::StringExecFns;

verus! {

/// Failure of an operation of this library. Segmentation itself never
/// fails; only obtaining a model can.
#[derive(Debug)]
pub enum BudouXError {
    /// No model could be loaded: its source could not be read, or what was
    /// read does not have the shape of a model. Holds the description of the
    /// underlying cause.
    ModelLoadError(String),
}

impl BudouXError {
    /// The description of the underlying cause, as it was given.
    pub open spec fn cause(self) -> Seq<char> {
        match self {
            BudouXError::ModelLoadError(cause) => cause@,
        }
    }

    /// The error as a line for the user: a fixed introduction followed by the
    /// description of the cause.
    pub fn message(&self) -> (text: String)
        ensures
            text@ == "Failed to load model: "@ + self.cause(),
    {
        match self {
            BudouXError::ModelLoadError(cause) => {
                let mut text = String::from_str("Failed to load model: ");
                text.append(cause.as_str());
                text
            },
        }
    }
}

} // verus!
