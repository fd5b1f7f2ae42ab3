//! Fields whose JSON form varies with the block's era: a big integer arrives
//! as a JSON number in early blocks and as a decimal string later.
use crate::result::Error;
use vstd::prelude::*;

verus! {

/// The JSON value of one field, as far as the schema reads it.
#[derive(Clone, Debug, PartialEq, Eq)]
pub enum JsonField {
    /// A JSON number, with its text as it appears in the document.
    Number(String),
    /// A JSON string.
    Text(String),
    /// `null`, or a field that is absent.
    Null,
    /// Any other JSON value (a boolean, an array, an object).
    Other,
}

/// Reads a required number-or-string field as decimal text.
pub fn number_or_string(v: JsonField) -> (r: Result<String, Error>)
    ensures
        v matches JsonField::Number(n) ==> r == Ok::<String, Error>(n),
        v matches JsonField::Text(s) ==> r == Ok::<String, Error>(s),
        (v is Null || v is Other) ==> r == Err::<String, Error>(Error::Decode),
{
    match v {
        JsonField::Number(n) => Ok(n),
        JsonField::Text(s) => Ok(s),
        _ => Err(Error::Decode),
    }
}

/// Reads an optional number-or-string field as decimal text; `null`, an
/// absent field and the empty string all read as absent.
pub fn option_number_or_string(v: JsonField) -> (r: Result<Option<String>, Error>)
    ensures
        v matches JsonField::Number(n) ==> r == Ok::<Option<String>, Error>(Some(n)),
        v matches JsonField::Text(s) ==> r == (if s@.len() == 0 {
            Ok::<Option<String>, Error>(None)
        } else {
            Ok::<Option<String>, Error>(Some(s))
        }),
        v is Null ==> r == Ok::<Option<String>, Error>(None),
        v is Other ==> r == Err::<Option<String>, Error>(Error::Decode),
{
    match v {
        JsonField::Number(n) => Ok(Some(n)),
        JsonField::Text(s) => {
            if s.as_str().unicode_len() == 0 {
                Ok(None)
            } else {
                Ok(Some(s))
            }
        },
        JsonField::Null => Ok(None),
        JsonField::Other => Err(Error::Decode),
    }
}

} // verus!
