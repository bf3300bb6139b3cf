//! What is sent to a GraphQL service and what comes back.

use vstd::pervasive::unreached;
use vstd::prelude::*;
use vstd::string::*;

use crate::error::ScafalraError;

verus! {

/// A query and the values of its variables, the latter written as a JSON
/// object.
#[derive(Debug)]
pub struct GraphQLQuery {
    pub query: &'static str,
    pub variables: String,
}

/// An answer: the data asked for, or the errors that the service reports.
#[derive(Debug)]
pub struct GraphQLResponse<T> {
    pub data: Option<T>,
    pub errors: Option<Vec<GraphQLError>>,
}

#[derive(Debug)]
pub struct GraphQLError {
    pub message: String,
}

/// The text that stands for the string `text` in a JSON document, quotation
/// marks included.
pub uninterp spec fn json_string(text: Seq<char>) -> Seq<char>;

#[verifier::external_type_specification]
#[verifier::external_body]
pub struct ExJsonError(serde_json::Error);

/// Writes `text` as a JSON string, with `serde_json::to_string`. That
/// function writes a string into a buffer in memory, which takes whatever is
/// written: it succeeds on every string. What it writes depends on the string
/// alone, and is the text that `json_string` names.
#[verifier::external_body]
pub(crate) fn to_json_string(text: &str) -> (json: Result<String, serde_json::Error>)
    ensures
        json is Ok,
        json matches Ok(written) ==> written@ == json_string(text@),
{
    serde_json::to_string(text)
}

/// `text` written as a JSON string.
pub(crate) fn json_of(text: &str) -> (json: String)
    ensures
        json@ == json_string(text@),
{
    match to_json_string(text) {
        Ok(written) => written,
        Err(_) => unreached(),
    }
}

/// The JSON document that a service is sent for a query with the text `query`
/// and the variables `variables`: an object of the two.
pub open spec fn body_text(query: Seq<char>, variables: Seq<char>) -> Seq<char> {
    "{\"query\":"@ + json_string(query) + ",\"variables\":"@ + variables + "}"@
}

/// Puts together the document for a query whose text, written as a JSON
/// string, is `query_json`.
pub fn frame_body(query_json: &str, variables: &str) -> (body: String)
    ensures
        body@ == "{\"query\":"@ + query_json@ + ",\"variables\":"@ + variables@ + "}"@,
{
    let mut body = String::from_str("{\"query\":");
    body.append(query_json);
    body.append(",\"variables\":");
    body.append(variables);
    body.append("}");
    body
}

impl GraphQLQuery {
    /// The document to send.
    pub fn body(&self) -> (body: String)
        ensures
            body@ == body_text(self.query@, self.variables@),
    {
        let query_json = json_of(self.query);
        frame_body(query_json.as_str(), self.variables.as_str())
    }
}

/// The first message of a list of errors, where it has one.
pub open spec fn first_message(errors: Seq<GraphQLError>) -> Option<Seq<char>> {
    if errors.len() > 0 {
        Some(errors[0].message@)
    } else {
        None
    }
}

impl<T> GraphQLResponse<T> {
    /// The data of the answer. An answer that reports errors fails with
    /// `ApiError`, which holds the first of their messages; so does one that
    /// has neither errors nor data.
    pub fn into_data(self) -> (data: Result<T, ScafalraError>)
        ensures
            match data {
                Ok(value) => self.errors is None && self.data == Some(value),
                Err(error) => {
                    &&& error matches ScafalraError::ApiError(message)
                    &&& match self.errors {
                        Some(errors) => crate::text::opt_text(message) == first_message(errors@),
                        None => self.data is None && crate::text::opt_text(message) == Some(
                            "No response data"@,
                        ),
                    }
                },
            },
    {
        match self.errors {
            Some(errors) => {
                if errors.len() > 0 {
                    Err(ScafalraError::ApiError(Some(errors[0].message.clone())))
                } else {
                    Err(ScafalraError::ApiError(None))
                }
            },
            None => match self.data {
                Some(value) => Ok(value),
                None => Err(ScafalraError::ApiError(Some(String::from_str("No response data")))),
            },
        }
    }
}

} // verus!
