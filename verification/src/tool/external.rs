//! Tools that are programs of their own.
use crate::text;
use vstd::prelude::*;
use vstd::string::*;

verus! {

/// A program that is a tool: it reads its arguments as JSON, and writes its result
/// as JSON.
#[derive(Debug, PartialEq)]
pub struct ExternalTool {
    pub name: String,
    pub path: String,
}

impl ExternalTool {
    pub fn new(name: String, path: String) -> (result: Self)
        ensures
            result.name@ == name@,
            result.path@ == path@,
    {
        ExternalTool { name, path }
    }

    /// What is said of a program that failed, given how it ended and what it
    /// complained about.
    pub fn failure(&self, status: &str, complaints: &str) -> (error: String)
        ensures
            error@ == "external tool "@ + self.name@ + " exited with "@ + status@ + ": "@
                + complaints@,
    {
        let mut error = text::join_three("external tool ", self.name.as_str(), " exited with ");
        error.append(status);
        error.append(": ");
        error.append(complaints);
        error
    }
}

/// Whether a file in a directory of tools is one: the name of the tool, or what is
/// wrong with it. A name that is not UTF-8 is given as none.
pub fn external_name(
    is_file: bool,
    executable: bool,
    name: Option<String>,
) -> (result: Result<Option<String>, String>)
    ensures
        match result {
            Ok(None) => !is_file || !executable,
            Ok(Some(found)) => {
                &&& is_file && executable
                &&& name.deep_view() == Some(found@)
                &&& found@.len() > 0
            },
            Err(error) => {
                &&& is_file && executable
                &&& match name.deep_view() {
                    None => error@ == "tool name is not UTF-8"@,
                    Some(name) => name.len() == 0 && error@ == "external tool has an empty name"@,
                }
            },
        },
{
    if !is_file || !executable {
        return Ok(None);
    }
    match name {
        None => Err("tool name is not UTF-8".to_owned()),
        Some(name) => if name.as_str().is_empty() {
            Err("external tool has an empty name".to_owned())
        } else {
            Ok(Some(name))
        },
    }
}

} // verus!
