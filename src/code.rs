//! Random codes handed to a person to read back, such as a verification code.
use vstd::prelude::*;
use rand::distributions::Alphanumeric;
use rand::{thread_rng, Rng};
use crate::chars::string_of;

verus! {

/// The longest code there is.
pub const MAX_CODE_LENGTH: usize = 64;

/// `c` is an ASCII letter or digit.
pub open spec fn is_alphanumeric(c: char) -> bool {
    ('A' <= c && c <= 'Z') || ('a' <= c && c <= 'z') || ('0' <= c && c <= '9')
}

/// Relies on rand's `thread_rng` sampling `Alphanumeric`: `n` characters, each
/// drawn from `A-Z`, `a-z` and `0-9`.
#[verifier::external_body]
fn random_alphanumeric(n: usize) -> (r: Vec<char>)
    ensures
        r@.len() == n,
        forall|i: int| 0 <= i < n ==> is_alphanumeric(#[trigger] r@[i]),
{
    thread_rng().sample_iter(&Alphanumeric).take(n).map(char::from).collect()
}

/// How many dashes a code of `len` characters gets: one for each multiple of
/// four, from four on, below `len + len / 4`.
pub open spec fn dash_count(len: int) -> int {
    if len + len / 4 >= 1 {
        (len + len / 4 - 1) / 4
    } else {
        0
    }
}

/// `s` with dashes: a dash at positions 4, 8, 12 and so on, as many as
/// `dash_count` gives, and the characters of `s` in order at the others.
pub open spec fn dashed(s: Seq<char>) -> Seq<char> {
    let m = dash_count(s.len() as int);
    Seq::new(
        (s.len() + m) as nat,
        |p: int|
            if p > 0 && p % 4 == 0 && p / 4 <= m {
                '-'
            } else {
                s[p - (if p / 4 < m { p / 4 } else { m })]
            },
    )
}

/// A random code of `characters` letters and digits, at most
/// `MAX_CODE_LENGTH` of them; with `dashes`, broken up by dashes as `dashed`
/// says.
pub fn generate_unique_code(characters: usize, dashes: bool) -> (r: String)
    ensures
        ({
            let n = if characters > MAX_CODE_LENGTH { MAX_CODE_LENGTH as int } else { characters as int };
            exists|s: Seq<char>|
                {
                    &&& s.len() == n
                    &&& forall|i: int| 0 <= i < n ==> is_alphanumeric(#[trigger] s[i])
                    &&& r@ == if dashes { dashed(s) } else { s }
                }
        }),
{
    let n: usize = if characters > MAX_CODE_LENGTH { MAX_CODE_LENGTH } else { characters };
    let s = random_alphanumeric(n);
    if !dashes {
        return string_of(s.as_slice());
    }
    let m: usize = if n + n / 4 >= 1 { (n + n / 4 - 1) / 4 } else { 0 };
    assert(m as int == dash_count(n as int));
    assert(n >= 1 ==> 3 * m + 1 <= n);
    let ghost target = dashed(s@);
    let mut out: Vec<char> = Vec::new();
    for p in 0..n + m
        invariant
            n <= MAX_CODE_LENGTH,
            s@.len() == n,
            m as int == dash_count(n as int),
            n >= 1 ==> 3 * m + 1 <= n,
            target == dashed(s@),
            out@ == target.take(p as int),
    {
        if p > 0 && p % 4 == 0 && p / 4 <= m {
            out.push('-');
        } else {
            let d: usize = if p / 4 < m { p / 4 } else { m };
            assert(p - d < n);
            out.push(s[p - d]);
        }
        assert(out@ =~= target.take(p + 1));
    }
    assert(out@ =~= target);
    string_of(out.as_slice())
}

} // verus!
