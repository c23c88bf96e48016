//! The error taxonomy of the library: filesystem, network, parse, storage
//! and domain failures. The callers that do the actual I/O translate the
//! errors of the crates they use into these variants.
use vstd::prelude::*;

verus! {

/// One failure class per collaborator: filesystem, HTTP fetch, config
/// (de)serialization, feed XML parsing, the relational store, URL parsing
/// and publish-date parsing. `Empty` stands for a failure with no detail.
#[derive(Debug, Clone, Copy, PartialEq, Eq, Structural)]
pub enum CustomError {
    IOError,
    ReqwestError,
    SerdeJsonError,
    XmlError,
    SqlError,
    ParseError,
    TimeParseError,
    Empty,
}

impl CustomError {
    /// A short, fixed description of the failure class.
    pub fn describe(&self) -> (r: &'static str)
        ensures
            r@ == match self {
                CustomError::IOError => "filesystem error"@,
                CustomError::ReqwestError => "network error"@,
                CustomError::SerdeJsonError => "config serialization error"@,
                CustomError::XmlError => "feed parse error"@,
                CustomError::SqlError => "storage error"@,
                CustomError::ParseError => "url parse error"@,
                CustomError::TimeParseError => "date parse error"@,
                CustomError::Empty => "unspecified error"@,
            },
    {
        match self {
            CustomError::IOError => "filesystem error",
            CustomError::ReqwestError => "network error",
            CustomError::SerdeJsonError => "config serialization error",
            CustomError::XmlError => "feed parse error",
            CustomError::SqlError => "storage error",
            CustomError::ParseError => "url parse error",
            CustomError::TimeParseError => "date parse error",
            CustomError::Empty => "unspecified error",
        }
    }
}

} // verus!
