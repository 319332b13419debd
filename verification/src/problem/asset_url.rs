//! Turning the object keys of problem assets into URLs that players can load.
use vstd::prelude::*;

use crate::text::{concat_str, from_chars, to_chars};

verus! {

/// An asset's URL could not be made.
#[derive(Clone, Copy, Debug, PartialEq, Eq, Structural)]
pub struct AssetUrlResolveError;

/// Makes the URL of an asset from its object key.
pub trait AssetUrlResolver {
    /// Whether `url` may be the URL of the asset stored under `object_key`;
    /// a resolver that states nothing of its URLs admits every one.
    open spec fn resolves_to(&self, object_key: Seq<char>, url: Seq<char>) -> bool {
        true
    }

    /// Whether `resolve` is bound to make a URL for `object_key`; a resolver
    /// that states nothing of it promises no success.
    open spec fn succeeds_for(&self, object_key: Seq<char>) -> bool {
        false
    }

    /// Whether `resolve` is bound to fail for `object_key`; a resolver that
    /// states nothing of it promises no failure.
    open spec fn fails_for(&self, object_key: Seq<char>) -> bool {
        false
    }

    /// The URL of the asset stored under `object_key`.
    fn resolve(&self, object_key: &str) -> (r: Result<String, AssetUrlResolveError>)
        ensures
            r matches Ok(url) ==> self.resolves_to(object_key@, url@),
            self.succeeds_for(object_key@) ==> r is Ok,
            self.fails_for(object_key@) ==> r is Err,
    ;
}

/// `s` without the copies of `c` at its end.
pub open spec fn trim_end_char(s: Seq<char>, c: char) -> Seq<char>
    decreases s.len(),
{
    if s.len() > 0 && s.last() == c {
        trim_end_char(s.drop_last(), c)
    } else {
        s
    }
}

/// `s` without the copies of `c` at its start.
pub open spec fn trim_start_char(s: Seq<char>, c: char) -> Seq<char>
    decreases s.len(),
{
    if s.len() > 0 && s[0] == c {
        trim_start_char(s.drop_first(), c)
    } else {
        s
    }
}

/// `s` without the slashes at its end.
fn trim_end_slashes(s: &str) -> (r: String)
    ensures
        r@ == trim_end_char(s@, '/'),
{
    let chars = to_chars(s);
    let mut end = chars.len();
    assert(chars@.take(end as int) =~= chars@);
    while end > 0 && chars[end - 1] == '/'
        invariant
            end <= chars@.len(),
            trim_end_char(chars@, '/') == trim_end_char(chars@.take(end as int), '/'),
        decreases end,
    {
        assert(chars@.take(end as int).drop_last() =~= chars@.take(end - 1));
        end -= 1;
    }
    let mut out: Vec<char> = Vec::new();
    for i in 0..end
        invariant
            end <= chars@.len(),
            out@ == chars@.take(i as int),
    {
        out.push(chars[i]);
        assert(out@ =~= chars@.take(i + 1));
    }
    from_chars(&out)
}

/// `s` without the slashes at its start.
fn trim_start_slashes(s: &str) -> (r: String)
    ensures
        r@ == trim_start_char(s@, '/'),
{
    let chars = to_chars(s);
    let n = chars.len();
    let mut start: usize = 0;
    assert(chars@.subrange(0, n as int) =~= chars@);
    while start < n && chars[start] == '/'
        invariant
            n == chars@.len(),
            start <= n,
            trim_start_char(chars@, '/') == trim_start_char(chars@.subrange(start as int, n as int), '/'),
        decreases n - start,
    {
        assert(chars@.subrange(start as int, n as int).drop_first() =~= chars@.subrange(
            start + 1,
            n as int,
        ));
        start += 1;
    }
    let rest = crate::text::chars_from(&chars, start);
    from_chars(&rest)
}

/// Makes asset URLs by joining a public base URL and the object key.
#[derive(Clone, Debug, PartialEq, Eq)]
pub struct PublicBaseAssetUrlResolver {
    base_url: String,
}

impl PublicBaseAssetUrlResolver {
    /// The base URL, without trailing slashes.
    pub closed spec fn base(&self) -> Seq<char> {
        self.base_url@
    }

    /// A resolver for the public base URL `base_url`; its trailing slashes
    /// are dropped.
    pub fn new(base_url: String) -> (r: PublicBaseAssetUrlResolver)
        ensures
            r.base() == trim_end_char(base_url@, '/'),
    {
        PublicBaseAssetUrlResolver { base_url: trim_end_slashes(base_url.as_str()) }
    }
}

impl AssetUrlResolver for PublicBaseAssetUrlResolver {
    open spec fn resolves_to(&self, object_key: Seq<char>, url: Seq<char>) -> bool {
        url == self.base() + "/"@ + trim_start_char(object_key, '/')
    }

    open spec fn succeeds_for(&self, object_key: Seq<char>) -> bool {
        true
    }

    /// The base URL, a slash, and the object key without its leading slashes.
    fn resolve(&self, object_key: &str) -> (r: Result<String, AssetUrlResolveError>)
        ensures
            r matches Ok(url) && url@ == self.base() + "/"@ + trim_start_char(object_key@, '/'),
    {
        let head = concat_str(self.base_url.as_str(), "/");
        let key = trim_start_slashes(object_key);
        Ok(concat_str(head.as_str(), key.as_str()))
    }
}

/// The resolver used while no public base URL is configured: it makes no
/// URLs.
#[derive(Clone, Copy, Debug, PartialEq, Eq, Structural)]
pub struct UnconfiguredAssetUrlResolver;

impl AssetUrlResolver for UnconfiguredAssetUrlResolver {
    open spec fn resolves_to(&self, object_key: Seq<char>, url: Seq<char>) -> bool {
        false
    }

    open spec fn fails_for(&self, object_key: Seq<char>) -> bool {
        true
    }

    /// Always fails.
    fn resolve(&self, object_key: &str) -> (r: Result<String, AssetUrlResolveError>)
        ensures
            r is Err,
    {
        Err(AssetUrlResolveError)
    }
}

} // verus!
