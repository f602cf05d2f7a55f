//! Text: strings and their characters, numbers in decimal, word lists as
//! they are quoted, and what an error has to say.

use crate::config::Error;
use vstd::prelude::*;

verus! {

/// The characters of a word, in order.
pub fn chars_of(word: &str) -> (chars: Vec<char>)
    ensures
        chars@ == word@,
{
    broadcast use vstd::string::axiom_spec_iter;

    let mut chars: Vec<char> = Vec::new();
    for c in it: word.chars()
        invariant
            it.seq() == word@,
            chars@ == word@.take(it.index()),
    {
        assert(word@.take(it.index()).push(c) =~= word@.take(it.index() + 1));
        chars.push(c);
    }
    assert(word@.take(word@.len() as int) =~= word@);
    chars
}

/// Collects characters into a string.
///
/// Trusted: `Iterator::collect` into a `String`, which appends the
/// characters in the order the iterator gives them, here the vector's.
#[verifier::external_body]
pub(crate) fn string_of(chars: &Vec<char>) -> (text: String)
    ensures
        text@ == chars@,
{
    chars.iter().collect()
}

/// The character of a decimal digit.
pub open spec fn digit(d: nat) -> char {
    ((48 + d) as u8) as char
}

/// A number written in decimal, without leading zeros.
pub open spec fn decimal(n: nat) -> Seq<char>
    decreases n,
{
    if n < 10 {
        seq![digit(n)]
    } else {
        decimal(n / 10).push(digit(n % 10))
    }
}

/// A list of words as `std` quotes it for debugging: its `Debug` text.
pub uninterp spec fn quoted(words: Seq<Seq<char>>) -> Seq<char>;

/// The words, each by its characters.
pub open spec fn texts(words: Seq<String>) -> Seq<Seq<char>> {
    Seq::new(words.len(), |i: int| words[i]@)
}

/// What is said of a grid that is too small for its words.
pub open spec fn too_small_text(num_rows: nat, num_columns: nat, listed: Seq<char>) -> Seq<char> {
    "Grid dimensions "@ + decimal(num_rows) + " rows x "@ + decimal(num_columns)
        + " columns is too small for word list "@ + listed
}

impl<'a> Error<'a> {
    /// What the error has to say.
    pub open spec fn text(self) -> Seq<char> {
        match self {
            Error::DimensionsTooSmall(num_rows, num_columns, words) => too_small_text(
                num_rows as nat,
                num_columns as nat,
                quoted(texts(words@)),
            ),
            Error::NoGivenLettersToUseInGrid => {
                "Word search was configured to only use the letters from the given word list to fill the grid, but no words were provided"@
            },
            Error::AttemptLimitReached => {
                "No place was found for every word within the allowed number of attempts"@
            },
        }
    }

    /// The error as a message for the reader.
    pub fn message(&self) -> (message: String)
        ensures
            message@ == self.text(),
    {
        match self {
            Error::DimensionsTooSmall(num_rows, num_columns, words) => {
                let listed = debug_words(words);
                too_small_message(*num_rows, *num_columns, listed.as_str())
            },
            Error::NoGivenLettersToUseInGrid => {
                "Word search was configured to only use the letters from the given word list to fill the grid, but no words were provided".to_owned()
            },
            Error::AttemptLimitReached => {
                "No place was found for every word within the allowed number of attempts".to_owned()
            },
        }
    }
}

/// Quotes a list of words as `std` does for debugging.
///
/// Trusted: `format!` with `{:?}` on the slice, that is the `Debug` text of
/// `[String]`. The text is a function of the words alone; the contract
/// gives it a name and claims nothing else of it.
#[verifier::external_body]
pub(crate) fn debug_words(words: &[String]) -> (listed: String)
    ensures
        listed@ == quoted(texts(words@)),
{
    format!("{:?}", words)
}

/// Appends `n`, written in decimal, to `out`.
pub fn push_decimal(out: &mut Vec<char>, n: usize)
    ensures
        final(out)@ == old(out)@ + decimal(n as nat),
    decreases n,
{
    if n >= 10 {
        push_decimal(out, n / 10);
    }
    let d: u8 = (n % 10) as u8;
    out.push((48 + d) as char);
    assert(out@ =~= old(out)@ + decimal(n as nat));
}

/// The message for a grid of the given dimensions that is too small for
/// the words listed in `listed`.
pub fn too_small_message(num_rows: usize, num_columns: usize, listed: &str) -> (message: String)
    ensures
        message@ == too_small_text(num_rows as nat, num_columns as nat, listed@),
{
    let mut rows: Vec<char> = Vec::new();
    push_decimal(&mut rows, num_rows);
    let mut columns: Vec<char> = Vec::new();
    push_decimal(&mut columns, num_columns);
    let mut message = "Grid dimensions ".to_owned();
    message.append(string_of(&rows).as_str());
    message.append(" rows x ");
    message.append(string_of(&columns).as_str());
    message.append(" columns is too small for word list ");
    message.append(listed);
    assert(rows@ =~= decimal(num_rows as nat));
    assert(columns@ =~= decimal(num_columns as nat));
    message
}

} // verus!
