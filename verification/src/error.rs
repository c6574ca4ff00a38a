use vstd::prelude::*;

verus! {

/// A failure while turning a transport token into a recipe document.
///
/// Every variant is a client-side fault: the token itself was unusable.
/// The variants mirror the stages of decoding, in the order the stages run.
#[derive(Clone, Copy, Debug, PartialEq, Eq, Structural)]
pub enum RecipeParseError {
    /// The token holds no `=` separator between its name and its value.
    MalformedToken,
    /// The value part of the token is not valid standard base64.
    EncodingError,
    /// The base64 payload is not a well-formed JSON document.
    FormatError,
    /// The JSON document lacks a `recipe` or a `pantry` object field.
    SchemaError,
}

impl RecipeParseError {
    /// A short human-readable description of the failure.
    pub fn describe(&self) -> (s: &'static str)
        ensures
            s@.len() > 0,
    {
        let s = match self {
            RecipeParseError::MalformedToken => "token has no name=value separator",
            RecipeParseError::EncodingError => "token value is not valid base64",
            RecipeParseError::FormatError => "payload is not valid JSON",
            RecipeParseError::SchemaError => "document lacks recipe and pantry objects",
        };
        proof {
            reveal_strlit("token has no name=value separator");
            reveal_strlit("token value is not valid base64");
            reveal_strlit("payload is not valid JSON");
            reveal_strlit("document lacks recipe and pantry objects");
        }
        s
    }
}

} // verus!
