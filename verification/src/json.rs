//! Files that hold a value written as JSON.

use vstd::prelude::*;

verus! {

/// What to do with the file that a value is kept in, before the value is
/// used.
#[derive(Debug)]
pub enum Load {
    /// Read the value from what the file holds.
    Read,
    /// Take the default value, and write the file with it.
    WriteDefault,
}

/// What to do with a file that holds `content`, or that does not exist where
/// `content` is `None`. A file that holds something is read; one that is
/// missing or empty is written anew, so that the file exists from the first
/// use on.
pub fn load(content: Option<&str>) -> (action: Load)
    ensures
        action is Read <==> (content matches Some(text) && text@.len() > 0),
{
    match content {
        Some(text) => if text.is_empty() {
            Load::WriteDefault
        } else {
            Load::Read
        },
        None => Load::WriteDefault,
    }
}

} // verus!
