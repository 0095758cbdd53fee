//! Names of accounts and pools.
//!
//! An account label names a directory and a pool id names a table of the
//! configuration file, so both are kept to a small, safe alphabet.

use crate::text::chars_of;
use crate::text::is_ascii_alphanumeric;
use crate::text::is_ascii_alphanumeric_spec;
use vstd::prelude::*;

verus! {

/// Longest label or pool id, in bytes.
pub const LABEL_MAX_LEN: usize = 64;

/// Why a name was refused.
#[derive(Debug, Clone, Copy, PartialEq, Eq, Structural)]
pub enum NameError {
    /// The name is empty.
    Empty,
    /// The name is longer than [`LABEL_MAX_LEN`] bytes.
    TooLong,
    /// The name is `.` or `..`.
    Reserved,
    /// The name holds a character outside ASCII letters, digits, `-`, `_`
    /// and `.`, or begins with `.`.
    Invalid,
}

/// The characters that a name may hold.
pub open spec fn is_name_char(c: char) -> bool {
    is_ascii_alphanumeric_spec(c) || c == '-' || c == '_' || c == '.'
}

/// Whether `name` is `.` or `..`.
pub open spec fn is_dot_name(name: Seq<char>) -> bool {
    (name.len() == 1 && name[0] == '.') || (name.len() == 2 && name[0] == '.' && name[1] == '.')
}

/// The verdict on a name whose UTF-8 encoding has `byte_len` bytes.
pub open spec fn validate_name_spec(name: Seq<char>, byte_len: int) -> Result<(), NameError> {
    if name.len() == 0 {
        Err(NameError::Empty)
    } else if byte_len > LABEL_MAX_LEN {
        Err(NameError::TooLong)
    } else if is_dot_name(name) {
        Err(NameError::Reserved)
    } else if (forall|i: int| 0 <= i < name.len() ==> is_name_char(#[trigger] name[i])) && name[0]
        != '.' {
        Ok(())
    } else {
        Err(NameError::Invalid)
    }
}

#[verifier::loop_isolation(false)]
fn validate_name(name: &str) -> (r: Result<(), NameError>)
    ensures
        r == validate_name_spec(name@, crate::codec::utf8(name@).len() as int),
{
    let chars = chars_of(name);
    if chars.len() == 0 {
        return Err(NameError::Empty);
    }
    if name.as_bytes().len() > LABEL_MAX_LEN {
        return Err(NameError::TooLong);
    }
    if chars[0] == '.' && (chars.len() == 1 || (chars.len() == 2 && chars[1] == '.')) {
        return Err(NameError::Reserved);
    }
    let mut i: usize = 0;
    while i < chars.len()
        invariant
            i <= chars.len(),
            forall|j: int| 0 <= j < i ==> is_name_char(#[trigger] chars@[j]),
        decreases chars.len() - i,
    {
        let c = chars[i];
        if !(is_ascii_alphanumeric(c) || c == '-' || c == '_' || c == '.') {
            assert(!is_name_char(chars@[i as int]));
            return Err(NameError::Invalid);
        }
        i += 1;
    }
    if chars[0] == '.' {
        Err(NameError::Invalid)
    } else {
        Ok(())
    }
}

/// Checks an account label: not empty, at most 64 bytes, not `.` or `..`,
/// made of ASCII letters, digits, `-`, `_` and `.`, and not beginning with
/// `.`. The first rule that is broken, in this order, decides the error.
pub fn validate_label(label: &str) -> (r: Result<(), NameError>)
    ensures
        r == validate_name_spec(label@, crate::codec::utf8(label@).len() as int),
{
    validate_name(label)
}

/// Checks a pool id by the rules of [`validate_label`].
pub fn validate_pool_id(pool_id: &str) -> (r: Result<(), NameError>)
    ensures
        r == validate_name_spec(pool_id@, crate::codec::utf8(pool_id@).len() as int),
{
    validate_name(pool_id)
}

} // verus!
