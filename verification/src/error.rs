//! The ways a translation fails.

use vstd::prelude::*;

verus! {

/// Why a line is not recognized or a command is not generated.
#[derive(Clone, Copy, Debug, PartialEq, Eq, Structural)]
pub enum TranslateError {
    /// A line that has the shape of no command.
    MalformedCommand,
    /// A command that lacks the number it needs.
    MissingArgument,
    /// A segment and index that no addressing rule covers.
    UnsupportedOperandCombination,
}

impl TranslateError {
    /// The text of `message`.
    pub open spec fn spec_message(self) -> Seq<char> {
        match self {
            TranslateError::MalformedCommand => "Invalid command!!"@,
            TranslateError::MissingArgument => "Not available"@,
            TranslateError::UnsupportedOperandCombination => "Unsupported operand combination"@,
        }
    }

    /// What to tell the user.
    pub fn message(&self) -> (text: String)
        ensures
            text@ == self.spec_message(),
    {
        match self {
            TranslateError::MalformedCommand => String::from_str("Invalid command!!"),
            TranslateError::MissingArgument => String::from_str("Not available"),
            TranslateError::UnsupportedOperandCombination => String::from_str(
                "Unsupported operand combination",
            ),
        }
    }
}

} // verus!
