//! Text primitives for `key=value` entries.
//!
//! An entry is split at its first `=`: what stands before it is the key, what
//! follows it (further `=` signs included) is the value.

use vstd::prelude::*;
use vstd::string::*;

verus! {

/// `i` is the position of the first `=` in `s`.
pub open spec fn is_split_point(s: Seq<char>, i: int) -> bool {
    &&& 0 <= i < s.len()
    &&& s[i] == '='
    &&& forall|j: int| 0 <= j < i ==> s[j] != '='
}

/// `s` holds an `=`, so it reads as `key=value`.
pub open spec fn has_equals(s: Seq<char>) -> bool {
    exists|i: int| is_split_point(s, i)
}

/// The position of the first `=` in `s`; arbitrary where `s` holds none.
pub open spec fn split_point(s: Seq<char>) -> int {
    choose|i: int| is_split_point(s, i)
}

/// The part of `s` before its first `=`.
pub open spec fn key_of(s: Seq<char>) -> Seq<char> {
    s.subrange(0, split_point(s))
}

/// The part of `s` after its first `=`.
pub open spec fn value_of(s: Seq<char>) -> Seq<char> {
    s.subrange(split_point(s) + 1, s.len() as int)
}

/// `key=value` written out as one entry.
pub open spec fn entry(key: Seq<char>, value: Seq<char>) -> Seq<char> {
    key + seq!['='] + value
}

/// A text has at most one first `=`.
pub proof fn lemma_split_point_unique(s: Seq<char>, i: int, j: int)
    requires
        is_split_point(s, i),
        is_split_point(s, j),
    ensures
        i == j,
{
    if i < j {
        assert(s[i] != '=');
    } else if j < i {
        assert(s[j] != '=');
    }
}

/// Once the first `=` is found at `i`, the key and the value are the two
/// sides of it.
pub proof fn lemma_split_at(s: Seq<char>, i: int)
    requires
        is_split_point(s, i),
    ensures
        has_equals(s),
        split_point(s) == i,
        key_of(s) == s.subrange(0, i),
        value_of(s) == s.subrange(i + 1, s.len() as int),
{
    lemma_split_point_unique(s, i, split_point(s));
}

/// A text without any `=` has no split point.
pub proof fn lemma_no_equals(s: Seq<char>)
    requires
        forall|j: int| 0 <= j < s.len() ==> s[j] != '=',
    ensures
        !has_equals(s),
{
    if has_equals(s) {
        let i = split_point(s);
        assert(s[i] == '=');
    }
}

/// Splitting a written-out entry gives back its key and value, as long as the
/// key itself holds no `=`.
pub proof fn lemma_entry_splits(key: Seq<char>, value: Seq<char>)
    requires
        forall|j: int| 0 <= j < key.len() ==> key[j] != '=',
    ensures
        has_equals(entry(key, value)),
        key_of(entry(key, value)) == key,
        value_of(entry(key, value)) == value,
{
    let s = entry(key, value);
    let i = key.len() as int;
    assert(s[i] == '=');
    assert forall|j: int| 0 <= j < i implies s[j] != '=' by {
        assert(s[j] == key[j]);
    }
    lemma_split_at(s, i);
    assert(s.subrange(0, i) =~= key);
    assert(s.subrange(i + 1, s.len() as int) =~= value);
}

/// Whether two texts hold the same characters.
pub fn same_text(a: &str, b: &str) -> (same: bool)
    ensures
        same == (a@ == b@),
{
    let n: usize = a.unicode_len();
    if b.unicode_len() != n {
        return false;
    }
    let mut i: usize = 0;
    while i < n
        invariant
            i <= n,
            n == a@.len(),
            n == b@.len(),
            forall|j: int| 0 <= j < i ==> a@[j] == b@[j],
        decreases n - i,
    {
        if a.get_char(i) != b.get_char(i) {
            return false;
        }
        i += 1;
    }
    assert(a@ =~= b@);
    true
}

/// Splits an entry at its first `=` into key and value; `None` where the text
/// holds no `=`.
pub fn split_entry(line: &str) -> (parts: Option<(&str, &str)>)
    ensures
        parts is Some <==> has_equals(line@),
        parts matches Some((key, value)) ==> key@ == key_of(line@) && value@ == value_of(line@),
{
    let n: usize = line.unicode_len();
    let mut i: usize = 0;
    while i < n
        invariant
            i <= n,
            n == line@.len(),
            forall|j: int| 0 <= j < i ==> line@[j] != '=',
        decreases n - i,
    {
        if line.get_char(i) == '=' {
            proof {
                lemma_split_at(line@, i as int);
            }
            let key = line.substring_char(0, i);
            let value = line.substring_char(i + 1, n);
            return Some((key, value));
        }
        i += 1;
    }
    proof {
        lemma_no_equals(line@);
    }
    None
}

} // verus!
