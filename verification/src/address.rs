//! Request addresses: a base address, a path joined onto it, and query pairs
//! appended in order, as the `url` crate builds and writes them.

use vstd::prelude::*;

use crate::hls::media::opt_str;
use crate::player::api::pair_views;

verus! {

/// The text of the address that `url` builds from `base`: `path` joined onto
/// it, then each pair appended to its query, in order; none when `base` is
/// no valid absolute address or the join fails.
pub uninterp spec fn joined_url(
    base: Seq<char>,
    path: Seq<char>,
    pairs: Seq<(Seq<char>, Seq<char>)>,
) -> Option<Seq<char>>;

/// Builds an address with the `url` crate.
///
/// Parses `base` with `url::Url::parse`, joins `path` with `Url::join`,
/// appends each pair with `query_pairs_mut().append_pair` (one call per pair,
/// none when there are none) and writes the result with `to_string`. The
/// contract only names the result: it is `joined_url` of the arguments, the
/// text of the address, or none when parsing or joining fails.
#[verifier::external_body]
pub(crate) fn join_url(base: &str, path: &str, pairs: &Vec<(String, String)>) -> (r: Option<String>)
    ensures
        opt_str(r) == joined_url(base@, path@, pair_views(pairs@)),
{
    let mut url = url::Url::parse(base).ok()?.join(path).ok()?;
    for (key, value) in pairs.iter() {
        url.query_pairs_mut().append_pair(key, value);
    }
    Some(url.to_string())
}


/// The path of the address `u` as `url` reads it; none when `u` is no
/// valid absolute address.
pub uninterp spec fn url_path(u: Seq<char>) -> Option<Seq<char>>;

/// The path of an address.
///
/// Parses `u` with `url::Url::parse` and gives `Url::path` of the result;
/// the contract only names the result (`url_path` of `u`), none when parsing
/// fails.
#[verifier::external_body]
pub(crate) fn path_of_url(u: &str) -> (r: Option<String>)
    ensures
        opt_str(r) == url_path(u@),
{
    Some(url::Url::parse(u).ok()?.path().to_string())
}

/// The text of the address `u` with its path set to `p`, as `url` writes
/// it; none when `u` is no valid absolute address.
pub uninterp spec fn url_with_path(u: Seq<char>, p: Seq<char>) -> Option<Seq<char>>;

/// Replaces the path of an address.
///
/// Parses `u` with `url::Url::parse`, sets the path with `Url::set_path` and
/// writes the result with `to_string`; the contract only names the result
/// (`url_with_path` of the arguments), none when parsing fails.
#[verifier::external_body]
pub(crate) fn replace_url_path(u: &str, p: &str) -> (r: Option<String>)
    ensures
        opt_str(r) == url_with_path(u@, p@),
{
    let mut url = url::Url::parse(u).ok()?;
    url.set_path(p);
    Some(url.to_string())
}

} // verus!
