use vstd::prelude::*;

verus! {

/// Why a parse or an update of configuration text failed.
#[derive(Debug, Clone, Copy, PartialEq, Eq, Structural)]
pub enum ConfigError {
    /// A value that should be a quoted string is not one.
    MalformedLiteral,
    /// A value that should be a number is not one, or is out of range.
    InvalidNumber,
    /// A value that should be `true` or `false` is neither.
    InvalidBoolean,
    /// An update changed no line of the text.
    NoMatchingKeys,
}

impl ConfigError {
    /// A sentence that describes the error.
    pub fn message(&self) -> (r: String)
        ensures
            r@ == (match self {
                ConfigError::MalformedLiteral => "Malformed string literal"@,
                ConfigError::InvalidNumber => "Invalid number"@,
                ConfigError::InvalidBoolean => "Invalid boolean"@,
                ConfigError::NoMatchingKeys => "No matching configuration keys found to update"@,
            }),
    {
        match self {
            ConfigError::MalformedLiteral => String::from_str("Malformed string literal"),
            ConfigError::InvalidNumber => String::from_str("Invalid number"),
            ConfigError::InvalidBoolean => String::from_str("Invalid boolean"),
            ConfigError::NoMatchingKeys => String::from_str(
                "No matching configuration keys found to update",
            ),
        }
    }
}

} // verus!
