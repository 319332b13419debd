//! Unicode normalization and case mapping, which come from the
//! `unicode-normalization` crate and from `char::to_lowercase`.
use vstd::prelude::*;

use unicode_normalization::UnicodeNormalization as _;

verus! {

/// The Normalization Form KC of `s`, as the `unicode-normalization` crate
/// computes it.
pub uninterp spec fn nfkc_of(s: Seq<char>) -> Seq<char>;

/// The characters that `char::to_lowercase` maps `c` to.
pub uninterp spec fn lowercase_of(c: char) -> Seq<char>;

/// Calls `UnicodeNormalization::nfkc` of the `unicode-normalization` crate on
/// `s` and collects the characters it yields.
///
/// Trusted: the result is a function of `s` alone, named `nfkc_of`; nothing
/// further about NFKC is stated.
#[verifier::external_body]
pub(crate) fn nfkc(s: &str) -> (r: Vec<char>)
    ensures
        r@ == nfkc_of(s@),
{
    s.nfkc().collect()
}

/// Calls `char::to_lowercase` on `c` and collects the characters it yields.
///
/// Trusted: the result is a function of `c` alone, named `lowercase_of`;
/// nothing further about the Unicode case tables is stated.
#[verifier::external_body]
pub(crate) fn char_to_lowercase(c: char) -> (r: Vec<char>)
    ensures
        r@ == lowercase_of(c),
{
    c.to_lowercase().collect()
}

/// Every character of `s` mapped through `char::to_lowercase`, the results
/// joined in order.
pub open spec fn lowercase_seq(s: Seq<char>) -> Seq<char>
    decreases s.len(),
{
    if s.len() == 0 {
        Seq::empty()
    } else {
        lowercase_seq(s.drop_last()) + lowercase_of(s.last())
    }
}

/// `s` mapped to lower case character by character, as
/// `chars().flat_map(char::to_lowercase)` does.
pub fn to_lowercase(s: &Vec<char>) -> (r: Vec<char>)
    ensures
        r@ == lowercase_seq(s@),
{
    let mut out: Vec<char> = Vec::new();
    let n = s.len();
    for i in 0..n
        invariant
            n == s@.len(),
            out@ == lowercase_seq(s@.take(i as int)),
    {
        let mut lower = char_to_lowercase(s[i]);
        proof {
            assert(s@.take(i + 1).drop_last() =~= s@.take(i as int));
        }
        out.append(&mut lower);
    }
    proof {
        assert(s@.take(n as int) =~= s@);
    }
    out
}

} // verus!
