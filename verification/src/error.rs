//! What can go wrong in an operation.

use vstd::prelude::*;

verus! {

#[verifier::external_type_specification]
#[verifier::external_body]
pub struct ExErrorKind(bincode::ErrorKind);

/// The failures that an operation reports.
#[derive(Debug)]
pub enum ContractError {
    /// No task of the list has the id that was asked for.
    TaskNotFound {},
    /// The list could not be encoded; `source` is the encoder's own failure.
    SerializationError { source: Box<bincode::ErrorKind> },
}

/// `format!` on the encoder's failure: a fixed heading, then the failure's
/// `Debug` text, of which nothing is claimed.
#[verifier::external_body]
fn serialization_message(source: &bincode::ErrorKind) -> (text: String)
    ensures
        "Serialization error: "@.is_prefix_of(text@),
{
    format!("Serialization error: {:?}", source)
}

impl ContractError {
    /// The text shown for this failure.
    pub fn message(&self) -> (text: String)
        ensures
            self is TaskNotFound ==> text@ == "Task not found"@,
            self is SerializationError ==> "Serialization error: "@.is_prefix_of(text@),
    {
        match self {
            ContractError::TaskNotFound {  } => "Task not found".to_owned(),
            ContractError::SerializationError { source } => serialization_message(source),
        }
    }
}

} // verus!
