//! Dial strings: what `slmodemd` may ask to be dialled.

use vstd::prelude::*;
use vstd::string::StrSliceExecFns;

use crate::dial_wait::{dialled_number_is_clean, scan, LineView};
use crate::text::{
    all_white, clean_at_its_ends, trim, trimmed, trimmed_is_clean, trimming_undoes_padding,
};

verus! {

/// Dial strings are shorter than this many characters. What is longer is
/// garbled.
pub const DIAL_STRING_LIMIT: usize = 128;

/// Why some text is no dial string.
#[derive(Debug, Clone, Copy, PartialEq, Eq, Structural)]
pub enum DialStringError {
    /// There is nothing but white space.
    Empty,
    /// There are too many characters.
    TooLong,
}

/// The dial string in some text: the text without the white space around it,
/// if that is neither empty nor too long.
pub open spec fn dial_string(text: Seq<char>) -> Result<Seq<char>, DialStringError> {
    let inner = trimmed(text);
    if inner.len() == 0 {
        Err(DialStringError::Empty)
    } else if inner.len() >= DIAL_STRING_LIMIT {
        Err(DialStringError::TooLong)
    } else {
        Ok(inner)
    }
}

/// Text that is a dial string.
#[derive(Debug)]
pub struct DialString {
    text: String,
}

impl View for DialString {
    type V = Seq<char>;

    closed spec fn view(&self) -> Seq<char> {
        self.text@
    }
}

impl DialString {
    #[verifier::type_invariant]
    spec fn well_formed(self) -> bool {
        dial_string(self@) == Ok::<Seq<char>, DialStringError>(self@)
    }

    /// Finds the dial string in some text.
    pub fn parse(text: &str) -> (result: Result<Self, DialStringError>)
        ensures
            match result {
                Ok(dial) => dial_string(text@) == Ok::<Seq<char>, DialStringError>(dial@),
                Err(error) => dial_string(text@) == Err::<Seq<char>, DialStringError>(error),
            },
    {
        let inner: &str = trim(text);
        if inner.is_empty() {
            return Err(DialStringError::Empty);
        }
        if inner.unicode_len() >= DIAL_STRING_LIMIT {
            return Err(DialStringError::TooLong);
        }
        proof {
            trimmed_is_clean(text@);
        }
        Ok(Self { text: inner.to_owned() })
    }

    /// The dial string as text. It is a dial string by itself.
    pub fn as_str(&self) -> (text: &str)
        ensures
            text@ == self@,
            dial_string(text@) == Ok::<Seq<char>, DialStringError>(text@),
    {
        proof {
            use_type_invariant(self);
        }
        self.text.as_str()
    }
}

/// A dial string is found again in itself.
pub proof fn dial_string_is_stable(text: Seq<char>)
    ensures
        dial_string(text) matches Ok(dial) ==> dial_string(dial) == Ok::<
            Seq<char>,
            DialStringError,
        >(dial),
{
    trimmed_is_clean(text);
}

/// A number that `slmodemd` asked for is dialled as it was read, unless it is
/// too long: it is never empty, and nothing of it is trimmed.
pub proof fn number_read_is_dialled(line: LineView, bytes: Seq<u8>)
    ensures
        scan(line, bytes).dial matches Some(number) ==> dial_string(number) == (if number.len()
            < DIAL_STRING_LIMIT {
            Ok::<Seq<char>, DialStringError>(number)
        } else {
            Err::<Seq<char>, DialStringError>(DialStringError::TooLong)
        }),
{
    dialled_number_is_clean(line, bytes);
    if let Some(number) = scan(line, bytes).dial {
        assert(trimmed(number) == number);
    }
}

/// The dial string is what stands between the white space around it, whole and
/// unchanged: fewer than 128 characters, and at least one.
pub proof fn dial_string_stands_between_white_space(
    before: Seq<char>,
    inner: Seq<char>,
    after: Seq<char>,
)
    requires
        all_white(before),
        all_white(after),
        clean_at_its_ends(inner),
    ensures
        ({
            let found = dial_string(before + inner + after);
            &&& inner.len() == 0 ==> found == Err::<Seq<char>, DialStringError>(
                DialStringError::Empty,
            )
            &&& 0 < inner.len() < 128 ==> found == Ok::<Seq<char>, DialStringError>(inner)
            &&& inner.len() >= 128 ==> found == Err::<Seq<char>, DialStringError>(
                DialStringError::TooLong,
            )
        }),
{
    trimming_undoes_padding(before, inner, after);
}

} // verus!
