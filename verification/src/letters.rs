//! The letters that fill the cells no word covers, and the lengths of the
//! words.

use crate::text::chars_of;
use vstd::prelude::*;

verus! {

/// The twenty-six lowercase letters, from `a` to `z`.
pub open spec fn lowercase_letters() -> Seq<char> {
    Seq::new(26, |i: int| ((97 + i) as u8) as char)
}

/// The lowercase letters are the characters from `a` to `z`, each once.
pub proof fn lemma_lowercase_letters(c: char)
    ensures
        lowercase_letters().contains(c) <==> 'a' <= c <= 'z',
        lowercase_letters().no_duplicates(),
        lowercase_letters().len() == 26,
{
    if 'a' <= c <= 'z' {
        let i = c as int - 97;
        assert(lowercase_letters()[i] == c);
    }
}

/// Whether the character `c` appears in one of `words`.
pub open spec fn occurs_in(words: Seq<String>, c: char) -> bool {
    exists|i: int, k: int|
        0 <= i < words.len() && 0 <= k < words[i]@.len() && (#[trigger] words[i]@[k]) == c
}

/// The number of characters of each word, in the order of the words.
pub fn word_lengths(words: &[String]) -> (lengths: Vec<usize>)
    ensures
        lengths@.len() == words@.len(),
        forall|i: int| 0 <= i < words@.len() ==> lengths@[i] == words@[i]@.len(),
{
    let mut lengths: Vec<usize> = Vec::with_capacity(words.len());
    let mut i: usize = 0;
    while i < words.len()
        invariant
            i <= words@.len(),
            lengths@.len() == i,
            forall|k: int| 0 <= k < i ==> lengths@[k] == words@[k]@.len(),
        decreases words@.len() - i,
    {
        lengths.push(words[i].as_str().unicode_len());
        i = i + 1;
    }
    lengths
}

/// The largest of `lengths`, or nothing where there is none.
pub fn longest(lengths: &[usize]) -> (longest: Option<usize>)
    ensures
        longest is None <==> lengths@.len() == 0,
        longest is Some ==> lengths@.contains(longest->0) && forall|i: int|
            0 <= i < lengths@.len() ==> lengths@[i] <= longest->0,
{
    if lengths.len() == 0 {
        return None;
    }
    let mut best: usize = lengths[0];
    let mut i: usize = 1;
    while i < lengths.len()
        invariant
            1 <= i <= lengths@.len(),
            lengths@.contains(best),
            forall|k: int| 0 <= k < i ==> lengths@[k] <= best,
        decreases lengths@.len() - i,
    {
        if lengths[i] > best {
            best = lengths[i];
        }
        i = i + 1;
    }
    Some(best)
}

/// The lowercase alphabet, the filler letters of a grid by default.
pub fn alphabet() -> (letters: Vec<char>)
    ensures
        letters@ == lowercase_letters(),
{
    let mut letters: Vec<char> = Vec::with_capacity(26);
    let mut code: u8 = 97;
    while code < 123
        invariant
            97 <= code <= 123,
            letters@.len() == code - 97,
            forall|k: int| 0 <= k < letters@.len() ==> letters@[k] == ((97 + k) as u8) as char,
        decreases 123 - code,
    {
        letters.push(code as char);
        code = code + 1;
    }
    assert(letters@ =~= lowercase_letters());
    letters
}

/// The distinct characters of `words`, each listed once.
pub fn letters_of(words: &[String]) -> (letters: Vec<char>)
    ensures
        letters@.no_duplicates(),
        forall|c: char| letters@.contains(c) <==> occurs_in(words@, c),
{
    let mut letters: Vec<char> = Vec::new();
    let mut i: usize = 0;
    while i < words.len()
        invariant
            i <= words@.len(),
            letters@.no_duplicates(),
            forall|c: char| letters@.contains(c) <==> occurs_in(words@.take(i as int), c),
        decreases words@.len() - i,
    {
        let chars = chars_of(words[i].as_str());
        let mut k: usize = 0;
        while k < chars.len()
            invariant
                i < words@.len(),
                k <= chars@.len(),
                chars@ == words@[i as int]@,
                letters@.no_duplicates(),
                forall|c: char|
                    letters@.contains(c) <==> occurs_in(words@.take(i as int), c) || chars@.take(
                        k as int,
                    ).contains(c),
            decreases chars@.len() - k,
        {
            let ch = chars[k];
            let ghost before = letters@;
            if !has_letter(&letters, ch) {
                letters.push(ch);
            }
            proof {
                lemma_take_push_contains(chars@, k as int);
                assert forall|c: char|
                    letters@.contains(c) <==> occurs_in(words@.take(i as int), c) || chars@.take(
                        k + 1,
                    ).contains(c) by {
                    if before.contains(ch) {
                        assert(letters@ == before);
                    } else {
                        assert(letters@ == before.push(ch));
                        lemma_push_contains(before, ch, c);
                    }
                }
            }
            k = k + 1;
        }
        proof {
            assert(chars@.take(chars@.len() as int) =~= chars@);
            lemma_occurs_in_next(words@, i as int);
        }
        i = i + 1;
    }
    assert(words@.take(words@.len() as int) =~= words@);
    letters
}

/// Whether `letters` holds the character `c`.
pub fn has_letter(letters: &Vec<char>, c: char) -> (found: bool)
    ensures
        found == letters@.contains(c),
{
    let mut i: usize = 0;
    while i < letters.len()
        invariant
            i <= letters@.len(),
            forall|k: int| 0 <= k < i ==> letters@[k] != c,
        decreases letters@.len() - i,
    {
        if letters[i] == c {
            return true;
        }
        i = i + 1;
    }
    false
}

/// A sequence with `x` appended holds what it held before, and `x`.
proof fn lemma_push_contains(s: Seq<char>, x: char, c: char)
    ensures
        s.push(x).contains(c) <==> s.contains(c) || c == x,
{
    if s.contains(c) {
        let k = choose|k: int| 0 <= k < s.len() && s[k] == c;
        assert(s.push(x)[k] == c);
    }
    if c == x {
        assert(s.push(x)[s.len() as int] == c);
    }
}

/// The first `k + 1` elements hold what the first `k` hold, and the element
/// at `k`.
proof fn lemma_take_push_contains(s: Seq<char>, k: int)
    requires
        0 <= k < s.len(),
    ensures
        forall|c: char| s.take(k + 1).contains(c) <==> s.take(k).contains(c) || c == s[k],
{
    assert(s.take(k + 1) =~= s.take(k).push(s[k]));
    assert forall|c: char| s.take(k + 1).contains(c) <==> s.take(k).contains(c) || c == s[k] by {
        lemma_push_contains(s.take(k), s[k], c);
    }
}

/// A character appears in the first `i + 1` words exactly if it appears in
/// the first `i` or in the word at `i`.
proof fn lemma_occurs_in_next(words: Seq<String>, i: int)
    requires
        0 <= i < words.len(),
    ensures
        forall|c: char|
            occurs_in(words.take(i + 1), c) <==> occurs_in(words.take(i), c) || words[i]@.contains(
                c,
            ),
{
    let shorter = words.take(i);
    let longer = words.take(i + 1);
    assert forall|c: char|
        occurs_in(longer, c) <==> occurs_in(shorter, c) || words[i]@.contains(c) by {
        if occurs_in(longer, c) {
            let (w, k) = choose|w: int, k: int|
                0 <= w < longer.len() && 0 <= k < longer[w]@.len() && (#[trigger] longer[w]@[k])
                    == c;
            if w < i {
                assert(shorter[w]@[k] == c);
            } else {
                assert(words[i]@[k] == c);
            }
        }
        if occurs_in(shorter, c) {
            let (w, k) = choose|w: int, k: int|
                0 <= w < shorter.len() && 0 <= k < shorter[w]@.len() && (
                #[trigger] shorter[w]@[k]) == c;
            assert(longer[w]@[k] == c);
        }
        if words[i]@.contains(c) {
            let k = choose|k: int| 0 <= k < words[i]@.len() && words[i]@[k] == c;
            assert(longer[i]@[k] == c);
        }
    }
}

} // verus!
