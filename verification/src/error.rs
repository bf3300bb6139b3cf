//! The ways in which an operation of this library fails.

use vstd::prelude::*;
use vstd::string::*;

use crate::text::opt_text;

verus! {

#[derive(Debug)]
pub enum ScafalraError {
    /// The text is no repository reference. Holds the text.
    ParseError(String),
    /// No personal access token is configured.
    NoToken,
    /// The metadata service could not be reached, answered with something
    /// unreadable, or reported an error of its own. Holds the service's first
    /// message where it sent one.
    ApiError(Option<String>),
    /// The file system refused an operation. Holds what it said.
    IoError(String),
    /// The archive unpacked to nothing.
    EmptyArchive,
    /// A command was given arguments it cannot work with. Holds the advice
    /// for the user.
    InvalidArguments(String),
    /// No template is stored under the wanted name. Holds that name and,
    /// where one is close enough, the stored name that resembles it most.
    NoSuchTemplate(String, Option<String>),
}

/// The sentence that tells a user about `error`.
pub open spec fn error_text(error: ScafalraError) -> Seq<char> {
    match error {
        ScafalraError::ParseError(input) => "Could not parse the input: `"@ + input@ + "`"@,
        ScafalraError::NoToken => "No GitHub personal access token configured"@,
        ScafalraError::ApiError(Some(message)) => "Call to GitHub api error: "@ + message@,
        ScafalraError::ApiError(None) => "Call to GitHub api error"@,
        ScafalraError::IoError(message) => message@,
        ScafalraError::EmptyArchive => "Empty directory"@,
        ScafalraError::InvalidArguments(advice) => advice@,
        ScafalraError::NoSuchTemplate(target, similar) => missing_template_text(
            target@,
            opt_text(similar),
        ),
    }
}

/// What a user is told when no template is called `target`, with the closest
/// stored name where there is one.
pub open spec fn missing_template_text(target: Seq<char>, similar: Option<Seq<char>>) -> Seq<char> {
    match similar {
        Some(name) => "No such template `"@ + target + "`"@ + "\nA similar template is `"@ + name
            + "`"@,
        None => "No such template `"@ + target + "`"@,
    }
}

/// Writes out what a user is told when no template is called `target`.
pub fn missing_template_message(target: &str, similar: Option<&str>) -> (text: String)
    ensures
        text@ == missing_template_text(
            target@,
            match similar {
                Some(name) => Some(name@),
                None => None,
            },
        ),
{
    let mut text = String::from_str("No such template `");
    text.append(target);
    text.append("`");
    match similar {
        Some(name) => {
            text.append("\nA similar template is `");
            text.append(name);
            text.append("`");
        },
        None => {},
    }
    text
}

impl ScafalraError {
    /// The sentence that tells a user about this error.
    pub fn message(&self) -> (text: String)
        ensures
            text@ == error_text(*self),
    {
        match self {
            ScafalraError::ParseError(input) => {
                let mut text = String::from_str("Could not parse the input: `");
                text.append(input.as_str());
                text.append("`");
                text
            },
            ScafalraError::NoToken => String::from_str("No GitHub personal access token configured"),
            ScafalraError::ApiError(Some(message)) => {
                let mut text = String::from_str("Call to GitHub api error: ");
                text.append(message.as_str());
                text
            },
            ScafalraError::ApiError(None) => String::from_str("Call to GitHub api error"),
            ScafalraError::IoError(message) => message.clone(),
            ScafalraError::EmptyArchive => String::from_str("Empty directory"),
            ScafalraError::InvalidArguments(advice) => advice.clone(),
            ScafalraError::NoSuchTemplate(target, similar) => {
                match similar {
                    Some(name) => missing_template_message(target.as_str(), Some(name.as_str())),
                    None => missing_template_message(target.as_str(), None),
                }
            },
        }
    }
}

} // verus!
