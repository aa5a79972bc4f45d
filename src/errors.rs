//! The errors of the library: a byte buffer of the wrong length, a text that is no address, and a
//! number that is no mask.
use vstd::prelude::*;

verus! {

/// A byte buffer that does not have the length of an address.
#[derive(Debug, PartialEq, Eq, Structural)]
pub struct MalformedAddress;

impl MalformedAddress {
    /// Human readable message of the error.
    pub fn to_string(&self) -> (r: String)
        ensures
            r@ == "malformed IP address"@,
    {
        String::from_str("malformed IP address")
    }

    /// Short description of the error.
    pub fn description(&self) -> (r: &'static str)
        ensures
            r@ == "malformed IP address"@,
    {
        "malformed IP address"
    }
}

/// A string that cannot be parsed as an address, a mask or a network. It holds the offending
/// string.
#[derive(Debug)]
pub struct ParsingFailed(pub String);

impl ParsingFailed {
    /// Human readable message of the error, quoting the offending string.
    pub fn to_string(&self) -> (r: String)
        ensures
            r@ == "malformed address: \""@ + self.0@ + "\""@,
    {
        String::from_str("malformed address: \"").concat(self.0.as_str()).concat("\"")
    }

    /// Short description of the error.
    pub fn description(&self) -> (r: &'static str)
        ensures
            r@ == "the string cannot be parsed as an IP address"@,
    {
        "the string cannot be parsed as an IP address"
    }
}

/// An integer or an address that is not a valid network mask.
#[derive(Debug, PartialEq, Eq, Structural)]
pub struct InvalidMask;

impl InvalidMask {
    /// Human readable message of the error.
    pub fn to_string(&self) -> (r: String)
        ensures
            r@ == "invalid mask"@,
    {
        String::from_str("invalid mask")
    }

    /// Short description of the error.
    pub fn description(&self) -> (r: &'static str)
        ensures
            r@ == "not a valid mask"@,
    {
        "not a valid mask"
    }
}

} // verus!
