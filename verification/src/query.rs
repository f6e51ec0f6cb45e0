//! The query of a URL, read with the `url` crate.
use vstd::prelude::*;
use url::Url;

verus! {

/// The decoded `(key, value)` pairs of the query of `url`, in order, as
/// `Url::query_pairs` yields them; `None` when `Url::parse` rejects `url`.
pub uninterp spec fn url_query_pairs(url: Seq<char>) -> Option<Seq<(Seq<char>, Seq<char>)>>;

/// `Url::parse`, then `query_pairs().into_owned()` collected. The contract
/// only names the result.
#[verifier::external_body]
pub fn query_pairs(url: &str) -> (res: Option<Vec<(String, String)>>)
    ensures
        res.deep_view() == url_query_pairs(url@),
{
    match Url::parse(url) {
        Ok(parsed) => Some(parsed.query_pairs().into_owned().collect()),
        Err(_) => None,
    }
}

} // verus!
