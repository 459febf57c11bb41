//! Small string utilities shared by the whole crate: character counting,
//! character-exact equality, conversions between `String` and `Vec<char>`,
//! and the percent-encoding of colons used when building request paths.

use vstd::prelude::*;
use vstd::string::*;

verus! {

/// Appends one character to a `String`.
/// Relies on `String::push` from std: it appends the given `char` to the
/// end of the string.
#[verifier::external_body]
pub fn push_char(s: &mut String, c: char)
    ensures
        final(s)@ == old(s)@.push(c),
{
    s.push(c);
}

/// Character-for-character equality of two string slices.
pub fn str_eq(a: &str, b: &str) -> (r: bool)
    ensures
        r == (a@ == b@),
{
    let a_len: usize = a.unicode_len();
    let b_len: usize = b.unicode_len();
    if a_len != b_len {
        return false;
    }
    let mut i: usize = 0;
    while i < a_len
        invariant
            a_len == a@.len(),
            b_len == b@.len(),
            a_len == b_len,
            i <= a_len,
            forall|j: int| 0 <= j < i ==> a@[j] == b@[j],
        decreases a_len - i,
    {
        if a.get_char(i) != b.get_char(i) {
            return false;
        }
        i += 1;
    }
    proof {
        assert(a@ =~= b@);
    }
    true
}

/// Whether one of the strings of `v` holds the characters of `s`.
pub fn contains_str(v: &Vec<String>, s: &str) -> (r: bool)
    ensures
        r == v@.map_values(|x: String| x@).contains(s@),
{
    let ghost ids = v@.map_values(|x: String| x@);
    let mut i: usize = 0;
    while i < v.len()
        invariant
            i <= v@.len(),
            ids == v@.map_values(|x: String| x@),
            ids.len() == v@.len(),
            forall|j: int| 0 <= j < i ==> ids[j] != s@,
        decreases v@.len() - i,
    {
        assert(ids[i as int] == v@[i as int]@);
        if str_eq(v[i].as_str(), s) {
            assert(ids.contains(s@)) by {
                assert(ids[i as int] == s@);
            }
            return true;
        }
        i += 1;
    }
    assert(!ids.contains(s@));
    false
}

/// The number of occurrences of `c` in `s`.
pub open spec fn count_matches(s: Seq<char>, c: char) -> nat
    decreases s.len(),
{
    if s.len() == 0 {
        0
    } else {
        count_matches(s.drop_last(), c) + if s.last() == c {
            1nat
        } else {
            0nat
        }
    }
}

/// Counts the occurrences of `c` in a character buffer.
pub fn count_char(v: &Vec<char>, c: char) -> (n: usize)
    ensures
        n == count_matches(v@, c),
{
    let mut i: usize = 0;
    let mut n: usize = 0;
    while i < v.len()
        invariant
            i <= v@.len(),
            n <= i,
            n == count_matches(v@.take(i as int), c),
        decreases v@.len() - i,
    {
        proof {
            assert(v@.take(i + 1).drop_last() =~= v@.take(i as int));
        }
        if v[i] == c {
            n += 1;
        }
        i += 1;
    }
    proof {
        assert(v@.take(v@.len() as int) =~= v@);
    }
    n
}

/// Counts the occurrences of `c` in a string slice.
pub fn count_char_str(s: &str, c: char) -> (n: usize)
    ensures
        n == count_matches(s@, c),
{
    let len: usize = s.unicode_len();
    let mut i: usize = 0;
    let mut n: usize = 0;
    while i < len
        invariant
            len == s@.len(),
            i <= len,
            n <= i,
            n == count_matches(s@.take(i as int), c),
        decreases len - i,
    {
        proof {
            assert(s@.take(i + 1).drop_last() =~= s@.take(i as int));
        }
        if s.get_char(i) == c {
            n += 1;
        }
        i += 1;
    }
    proof {
        assert(s@.take(len as int) =~= s@);
    }
    n
}

/// Builds a `String` out of a character buffer.
pub fn chars_to_string(v: &Vec<char>) -> (s: String)
    ensures
        s@ == v@,
{
    let mut s = String::new();
    let mut i: usize = 0;
    while i < v.len()
        invariant
            i <= v@.len(),
            s@ == v@.take(i as int),
        decreases v@.len() - i,
    {
        proof {
            assert(v@.take(i + 1) =~= v@.take(i as int).push(v@[i as int]));
        }
        push_char(&mut s, v[i]);
        i += 1;
    }
    proof {
        assert(v@.take(v@.len() as int) =~= v@);
    }
    s
}

/// Collects the characters of a string slice into a buffer.
pub fn str_to_chars(s: &str) -> (v: Vec<char>)
    ensures
        v@ == s@,
{
    let len: usize = s.unicode_len();
    let mut v: Vec<char> = Vec::new();
    let mut i: usize = 0;
    while i < len
        invariant
            len == s@.len(),
            i <= len,
            v@ == s@.take(i as int),
        decreases len - i,
    {
        proof {
            assert(s@.take(i + 1) =~= s@.take(i as int).push(s@[i as int]));
        }
        v.push(s.get_char(i));
        i += 1;
    }
    proof {
        assert(s@.take(len as int) =~= s@);
    }
    v
}

/// Appends a string slice to a `String`.
pub fn append_str(s: &mut String, other: &str)
    ensures
        final(s)@ == old(s)@ + other@,
{
    s.append(other);
}

/// The percent-encoding of the colons of `s`: every `':'` becomes `"%3A"`,
/// every other character stays as it is.
pub open spec fn encode_colons_spec(s: Seq<char>) -> Seq<char>
    decreases s.len(),
{
    if s.len() == 0 {
        Seq::empty()
    } else {
        encode_colons_spec(s.drop_last()) + if s.last() == ':' {
            seq!['%', '3', 'A']
        } else {
            seq![s.last()]
        }
    }
}

/// Percent-encodes the colons of a string slice, as request paths demand.
pub fn encode_colons(s: &str) -> (r: String)
    ensures
        r@ == encode_colons_spec(s@),
{
    let len: usize = s.unicode_len();
    let mut r = String::new();
    let mut i: usize = 0;
    while i < len
        invariant
            len == s@.len(),
            i <= len,
            r@ == encode_colons_spec(s@.take(i as int)),
        decreases len - i,
    {
        proof {
            assert(s@.take(i + 1).drop_last() =~= s@.take(i as int));
            assert(s@.take(i + 1).last() == s@[i as int]);
        }
        let c = s.get_char(i);
        if c == ':' {
            proof {
                reveal_strlit("%3A");
            }
            append_str(&mut r, "%3A");
            proof {
                assert("%3A"@ =~= seq!['%', '3', 'A']);
            }
        } else {
            push_char(&mut r, c);
            proof {
                assert(r@ =~= encode_colons_spec(s@.take(i as int)) + seq![c]);
            }
        }
        i += 1;
    }
    proof {
        assert(s@.take(len as int) =~= s@);
    }
    r
}

} // verus!
