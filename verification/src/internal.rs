//! Crate-level error values shared by the components.

use vstd::prelude::*;

verus! {

/// Crate errors.
#[derive(Debug)]
pub enum XErr {
    /// A configuration value is malformed or missing.
    Config(String),
    /// A background job failed or does not exist.
    Jobs(String),
    /// An internal endpoint was requested that does not exist.
    InternalUri(String),
}

impl XErr {
    /// A configuration error carrying the given message.
    pub fn config(message: &str) -> (r: Self)
        ensures
            r matches XErr::Config(m) && m@ == message@,
    {
        XErr::Config(message.to_owned())
    }

    /// A jobs error carrying the given message.
    pub fn jobs(message: &str) -> (r: Self)
        ensures
            r matches XErr::Jobs(m) && m@ == message@,
    {
        XErr::Jobs(message.to_owned())
    }

    /// An internal URI error carrying the offending URI.
    pub fn internal_uri(uri: &str) -> (r: Self)
        ensures
            r matches XErr::InternalUri(m) && m@ == uri@,
    {
        XErr::InternalUri(uri.to_owned())
    }

    /// The error's message text.
    pub fn message(&self) -> (r: &String)
        ensures
            match self {
                XErr::Config(m) => r == m,
                XErr::Jobs(m) => r == m,
                XErr::InternalUri(m) => r == m,
            },
    {
        match self {
            XErr::Config(m) => m,
            XErr::Jobs(m) => m,
            XErr::InternalUri(m) => m,
        }
    }
}

} // verus!
