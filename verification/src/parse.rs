//! Small parsing utilities: turning a string into its character
//! sequence and splitting a character slice at a separator.

use vstd::prelude::*;

verus! {

/// The index of the first occurrence of `separator` in `s`, if any.
pub open spec fn find_index(s: Seq<char>, separator: char) -> Option<int>
    decreases s.len(),
{
    if s.len() == 0 {
        None
    } else if s[0] == separator {
        Some(0int)
    } else {
        match find_index(s.drop_first(), separator) {
            None => None,
            Some(i) => Some(i + 1),
        }
    }
}

/// What `find_index` finds is the first occurrence: everything
/// before it differs from the separator, and a `None` means the
/// separator does not occur at all.
pub proof fn lemma_find_index_first(s: Seq<char>, separator: char)
    ensures
        match find_index(s, separator) {
            Some(i) => 0 <= i < s.len() && s[i] == separator && (forall|j: int|
                0 <= j < i ==> s[j] != separator),
            None => forall|j: int| 0 <= j < s.len() ==> s[j] != separator,
        },
    decreases s.len(),
{
    if s.len() > 0 && s[0] != separator {
        lemma_find_index_first(s.drop_first(), separator);
        match find_index(s.drop_first(), separator) {
            Some(i) => {
                assert(s[i + 1] == s.drop_first()[i]);
                assert forall|j: int| 0 <= j < i + 1 implies s[j] != separator by {
                    if j > 0 {
                        assert(s[j] == s.drop_first()[j - 1]);
                    }
                }
            },
            None => {
                assert forall|j: int| 0 <= j < s.len() implies s[j] != separator by {
                    if j > 0 {
                        assert(s[j] == s.drop_first()[j - 1]);
                    }
                }
            },
        }
    }
}

/// The characters of `text`, as a vector of Unicode scalar values.
pub(crate) fn chars_of(text: &str) -> (v: Vec<char>)
    ensures
        v@ == text@,
{
    let mut v: Vec<char> = Vec::new();
    for c in it: text.chars()
        invariant
            it.seq() == text@,
            v@ == it.seq().take(it.index() as int),
    {
        v.push(c);
    }
    proof {
        assert(v@ =~= text@);
    }
    v
}

/// Split `chars` at the first occurrence of `separator`, returning
/// the characters before it and the characters after it (the
/// separator itself removed), or `None` if the separator does not
/// occur.
pub fn split_at<'a>(chars: &'a [char], separator: char) -> (r: Option<(&'a [char], &'a [char])>)
    ensures
        r is Some <==> find_index(chars@, separator) is Some,
        r matches Some((before, after)) ==> (find_index(chars@, separator) matches Some(i)
            && before@ == chars@.take(i) && after@ == chars@.skip(i + 1)),
{
    proof {
        lemma_find_index_first(chars@, separator);
    }
    let mut idx: usize = 0;
    while idx < chars.len()
        invariant
            0 <= idx <= chars@.len(),
            forall|j: int| 0 <= j < idx ==> chars@[j] != separator,
        decreases chars@.len() - idx,
    {
        if chars[idx] == separator {
            proof {
                lemma_find_index_unique(chars@, separator, idx as int);
            }
            let before = vstd::slice::slice_subrange(chars, 0, idx);
            let after = vstd::slice::slice_subrange(chars, idx + 1, chars.len());
            return Some((before, after));
        }
        idx = idx + 1;
    }
    None
}

/// A position whose earlier positions all miss the separator, and
/// which holds the separator, is exactly what `find_index` returns.
proof fn lemma_find_index_unique(s: Seq<char>, separator: char, i: int)
    requires
        0 <= i < s.len(),
        s[i] == separator,
        forall|j: int| 0 <= j < i ==> s[j] != separator,
    ensures
        find_index(s, separator) == Some(i),
    decreases s.len(),
{
    if s[0] != separator {
        assert(forall|j: int|
            0 <= j < i - 1 ==> s.drop_first()[j] == s[j + 1] && s[j + 1] != separator);
        lemma_find_index_unique(s.drop_first(), separator, i - 1);
    }
}

} // verus!
