//! Input rules for usernames and post bodies.
use vstd::prelude::*;

verus! {

/// Shortest accepted username, in bytes.
pub const MIN_USERNAME_LEN: usize = 3;
/// Longest accepted username, in bytes.
pub const MAX_USERNAME_LEN: usize = 32;
/// Shortest accepted post body, in bytes.
pub const MIN_CONTENT_LEN: usize = 1;
/// Longest accepted post body, in bytes.
pub const MAX_CONTENT_LEN: usize = 280;

/// Why a username was refused.
#[derive(Debug, Clone, Copy, PartialEq, Eq, Structural)]
pub enum UsernameError {
    TooShort,
    TooLong,
    InvalidCharacter,
}

/// Why a post body was refused.
#[derive(Debug, Clone, Copy, PartialEq, Eq, Structural)]
pub enum ContentError {
    Empty,
    TooLong,
}

/// A byte that may appear in a username: an ASCII letter, an ASCII digit or `_`.
pub open spec fn is_username_byte(c: u8) -> bool {
    ||| 0x30 <= c <= 0x39
    ||| 0x41 <= c <= 0x5a
    ||| 0x61 <= c <= 0x7a
    ||| c == 0x5f
}

/// The verdict on a username: its length is checked first, then its bytes.
pub open spec fn username_verdict(name: Seq<u8>) -> Result<(), UsernameError> {
    if name.len() < MIN_USERNAME_LEN {
        Err(UsernameError::TooShort)
    } else if name.len() > MAX_USERNAME_LEN {
        Err(UsernameError::TooLong)
    } else if exists|i: int| 0 <= i < name.len() && !is_username_byte(#[trigger] name[i]) {
        Err(UsernameError::InvalidCharacter)
    } else {
        Ok(())
    }
}

/// The verdict on a post body: only its length matters.
pub open spec fn content_verdict(content: Seq<u8>) -> Result<(), ContentError> {
    if content.len() < MIN_CONTENT_LEN {
        Err(ContentError::Empty)
    } else if content.len() > MAX_CONTENT_LEN {
        Err(ContentError::TooLong)
    } else {
        Ok(())
    }
}

/// Tells whether one byte may appear in a username.
pub fn is_username_char(c: u8) -> (r: bool)
    ensures
        r == is_username_byte(c),
{
    (0x30 <= c && c <= 0x39) || (0x41 <= c && c <= 0x5a) || (0x61 <= c && c <= 0x7a) || c == 0x5f
}

/// Checks a username: 3 to 32 bytes, each an ASCII letter, digit or underscore.
pub fn validate_username(name: &[u8]) -> (r: Result<(), UsernameError>)
    ensures
        r == username_verdict(name@),
{
    let len = name.len();
    if len < MIN_USERNAME_LEN {
        return Err(UsernameError::TooShort);
    }
    if len > MAX_USERNAME_LEN {
        return Err(UsernameError::TooLong);
    }
    let mut i: usize = 0;
    while i < len
        invariant
            len == name@.len(),
            MIN_USERNAME_LEN <= len <= MAX_USERNAME_LEN,
            i <= len,
            forall|j: int| 0 <= j < i ==> is_username_byte(#[trigger] name@[j]),
        decreases len - i,
    {
        if !is_username_char(name[i]) {
            assert(!is_username_byte(name@[i as int]));
            return Err(UsernameError::InvalidCharacter);
        }
        i = i + 1;
    }
    Ok(())
}

/// Checks a post body: 1 to 280 bytes.
pub fn validate_content(content: &[u8]) -> (r: Result<(), ContentError>)
    ensures
        r == content_verdict(content@),
{
    let len = content.len();
    if len < MIN_CONTENT_LEN {
        Err(ContentError::Empty)
    } else if len > MAX_CONTENT_LEN {
        Err(ContentError::TooLong)
    } else {
        Ok(())
    }
}

} // verus!
