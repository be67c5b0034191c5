use vstd::prelude::*;

verus! {

/// The characters of `s`, in order.
pub fn chars_of(s: &str) -> (r: Vec<char>)
    ensures
        r@ == s@,
{
    let mut r: Vec<char> = Vec::new();
    for c in it: s.chars()
        invariant
            r@ == it.seq().take(it.index() as int),
    {
        r.push(c);
    }
    r
}

/// `s` reads exactly `expected`.
pub fn same_chars(s: &str, expected: &Vec<char>) -> (r: bool)
    ensures
        r == (s@ == expected@),
{
    let cs = chars_of(s);
    if cs.len() != expected.len() {
        return false;
    }
    for i in 0..cs.len()
        invariant
            cs@ == s@,
            cs.len() == expected.len(),
            forall|j: int| 0 <= j < i ==> cs@[j] == expected@[j],
    {
        if cs[i] != expected[i] {
            return false;
        }
    }
    assert(cs@ =~= expected@);
    true
}

/// Relies on std's `FromIterator<&char>` for `String`: the characters in order.
#[verifier::external_body]
pub fn string_of(v: &[char]) -> (r: String)
    ensures
        r@ == v@,
{
    v.iter().collect()
}

} // verus!
