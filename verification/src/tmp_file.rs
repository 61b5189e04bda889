use vstd::prelude::*;

use crate::error::Error;
use crate::strutil::{parse_i64_chars, parse_ok, parse_value, string_to_chars, trim_chars, trim_spec};

verus! {

// Interpreting stored temporary data.  Reading and writing the file
// itself is the caller's work; parsing what was read is done here.

/// Interpret stored temporary data as a decimal integer: no stored data
/// is no value; a string that, with surrounding whitespace removed, is an
/// optionally signed decimal integer within the range of the type is its
/// value; and anything else is a format error carrying the stored text.
pub fn load_tmp_as_i64(content: Option<String>) -> (r: Result<Option<i64>, Error>)
    ensures
        ({
            match content {
                Option::None => r == Ok::<Option<i64>, Error>(Option::None),
                Option::Some(s) => {
                    if parse_ok(trim_spec(s@)) {
                        (r matches Ok(v) && v matches Some(x) && x == parse_value(trim_spec(s@)))
                    } else {
                        (r matches Err(e) && e matches Error::TmpDataFormat(t) && t@ == s@)
                    }
                },
            }
        }),
{
    let s = match content {
        Some(s) => s,
        None => {
            return Ok(None);
        },
    };
    let chars = string_to_chars(s.as_str());
    let trimmed = trim_chars(&chars);
    match parse_i64_chars(&trimmed) {
        Some(v) => Ok(Some(v)),
        None => Err(Error::TmpDataFormat(s)),
    }
}

} // verus!
