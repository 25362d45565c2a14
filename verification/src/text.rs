//! Character sequences: building strings one character at a time, reading
//! a string's characters, and counting the occurrences of a value.
use vstd::prelude::*;
use vstd::string::*;

verus! {

/// `String::push`, which std documents as appending the character to the end
/// of the string. Claimed: the new contents are the old ones followed by `c`.
#[verifier::external_body]
pub(crate) fn push_char(s: &mut String, c: char)
    ensures
        final(s)@ == old(s)@.push(c),
{
    s.push(c);
}

/// A string holding exactly the given characters, in order.
pub(crate) fn string_of(chars: &Vec<char>) -> (r: String)
    ensures
        r@ == chars@,
{
    let mut s = String::new();
    let mut i: usize = 0;
    while i < chars.len()
        invariant
            i <= chars@.len(),
            s@ == chars@.subrange(0, i as int),
        decreases chars.len() - i,
    {
        push_char(&mut s, chars[i]);
        assert(chars@.subrange(0, i + 1) =~= chars@.subrange(0, i as int).push(chars@[i as int]));
        i += 1;
    }
    assert(chars@.subrange(0, chars@.len() as int) =~= chars@);
    s
}

/// The characters of a string slice, one per element.
pub(crate) fn chars_of(s: &str) -> (r: Vec<char>)
    ensures
        r@ == s@,
{
    let n = s.unicode_len();
    let mut v: Vec<char> = Vec::new();
    let mut i: usize = 0;
    while i < n
        invariant
            n == s@.len(),
            i <= n,
            v@ == s@.subrange(0, i as int),
        decreases n - i,
    {
        v.push(s.get_char(i));
        assert(s@.subrange(0, i + 1) =~= s@.subrange(0, i as int).push(s@[i as int]));
        i += 1;
    }
    assert(s@.subrange(0, n as int) =~= s@);
    v
}

/// How many times `v` occurs in `s`.
pub open spec fn count_of<T>(s: Seq<T>, v: T) -> nat
    decreases s.len(),
{
    if s.len() == 0 {
        0
    } else {
        count_of(s.drop_last(), v) + if s.last() == v {
            1nat
        } else {
            0nat
        }
    }
}

/// Replacing one element changes the count by what left and what came in.
pub proof fn lemma_count_update<T>(s: Seq<T>, i: int, x: T, v: T)
    requires
        0 <= i < s.len(),
    ensures
        count_of(s.update(i, x), v) + (if s[i] == v { 1int } else { 0int }) == count_of(s, v) + (
        if x == v {
            1int
        } else {
            0int
        }),
    decreases s.len(),
{
    let t = s.update(i, x);
    if i == s.len() - 1 {
        assert(t.drop_last() =~= s.drop_last());
    } else {
        assert(t.drop_last() =~= s.drop_last().update(i, x));
        lemma_count_update(s.drop_last(), i, x, v);
    }
}

/// A value that no element equals occurs zero times.
pub proof fn lemma_count_absent<T>(s: Seq<T>, v: T)
    requires
        forall|i: int| 0 <= i < s.len() ==> s[i] != v,
    ensures
        count_of(s, v) == 0,
    decreases s.len(),
{
    if s.len() > 0 {
        lemma_count_absent(s.drop_last(), v);
    }
}

} // verus!
