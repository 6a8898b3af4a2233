//! The options of the command line that need more than a parser: the
//! delimiter of a CSV file.

use vstd::prelude::*;

use crate::chars::chars_of;

verus! {

/// Why an argument of `--delimiter` is not a delimiter.
#[derive(Clone, Copy, Debug, PartialEq, Eq, Structural)]
pub enum DelimiterError {
    /// The argument holds no character.
    Empty,
    /// The argument holds more than one character, and it is no name of a
    /// delimiter.
    TooLong,
}

/// The delimiter that an argument gives: the word `tab`, the two characters
/// `\t` or the letter `t` give a tab, the word `space` gives a space, and each
/// other argument must be one character.
pub open spec fn delimiter_of(s: Seq<char>) -> Result<char, DelimiterError> {
    if s == "tab"@ || s == "\\t"@ || s == "t"@ {
        Ok('\t')
    } else if s == "space"@ {
        Ok(' ')
    } else if s.len() == 0 {
        Err(DelimiterError::Empty)
    } else if s.len() > 1 {
        Err(DelimiterError::TooLong)
    } else {
        Ok(s[0])
    }
}

/// Reads the argument of the option `--delimiter`.
///
/// The function accepts the word `tab`, the two characters `\t`, the word
/// `space`, or one character.
pub fn parse_delimiter(s: &str) -> (r: Result<char, DelimiterError>)
    ensures
        r == delimiter_of(s@),
{
    let cs = chars_of(s);
    if crate::chars::same_text(&cs, "tab") || crate::chars::same_text(&cs, "\\t")
        || crate::chars::same_text(&cs, "t") {
        return Ok('\t');
    }
    if crate::chars::same_text(&cs, "space") {
        return Ok(' ');
    }
    if cs.len() == 0 {
        return Err(DelimiterError::Empty);
    }
    if cs.len() > 1 {
        return Err(DelimiterError::TooLong);
    }
    Ok(cs[0])
}

} // verus!
