//! What each paper archive's URL says: the paper's identifier and the
//! addresses of its abstract page, PDF and translations.
use vstd::prelude::*;
use crate::text::{
    after_last, before_first, chars_of, drop_last_chars, ends_with, last_index,
    last_index_before, lemma_last_index, replace_first, seq_ends_with, seq_replace_first,
    string_from, string_of, text_after_last, text_before_first, text_eq,
};
use crate::query::{query_pairs, url_query_pairs};

verus! {

/// The address under which Google Translate shows the English page `url`
/// in Japanese.
pub open spec fn translation_url(url: Seq<char>) -> Seq<char> {
    "https://translate.google.co.jp/translate?sl=en&tl=ja&js=y&prev=_t&hl=ja&ie=UTF-8&u="@ + url
        + "&edit-text=&act=url"@
}

/// The address under which Google Translate shows `url` in Japanese.
pub fn convert_google_translation_url(url: &str) -> (res: String)
    ensures
        res@ == translation_url(url@),
{
    let mut res = string_from(
        "https://translate.google.co.jp/translate?sl=en&tl=ja&js=y&prev=_t&hl=ja&ie=UTF-8&u=",
    );
    res.append(url);
    res.append("&edit-text=&act=url");
    res
}

// ---------------------------------------------------------------------------
// arXiv
// ---------------------------------------------------------------------------

/// The abstract page of an arXiv URL: its first `/pdf/` becomes `/abs/`.
pub open spec fn arxiv_abs_link(url: Seq<char>) -> Seq<char> {
    seq_replace_first(url, "/pdf/"@, "/abs/"@)
}

/// The PDF of an arXiv paper: the first `/abs/` of its abstract page becomes `/pdf/`.
pub open spec fn arxiv_pdf_link(url: Seq<char>) -> Seq<char> {
    seq_replace_first(arxiv_abs_link(url), "/abs/"@, "/pdf/"@)
}

/// The abstract page of the arXiv paper at `url`.
pub fn arxiv_abs(url: &str) -> (res: String)
    ensures
        res@ == arxiv_abs_link(url@),
{
    replace_first(url, "/pdf/", "/abs/")
}

/// The PDF of the arXiv paper whose abstract page is `abs_link`.
pub fn arxiv_pdf(abs_link: &str) -> (res: String)
    ensures
        res@ == seq_replace_first(abs_link@, "/abs/"@, "/pdf/"@),
{
    replace_first(abs_link, "/abs/", "/pdf/")
}

/// The arXiv Vanity rendering of the arXiv paper `id`.
pub open spec fn arxiv_vanity_link(id: Seq<char>) -> Seq<char> {
    "https://www.arxiv-vanity.com/papers/"@ + id + "/"@
}

pub fn arxiv_vanity(id: &str) -> (res: String)
    ensures
        res@ == arxiv_vanity_link(id@),
{
    let mut res = string_from("https://www.arxiv-vanity.com/papers/");
    res.append(id);
    res.append("/");
    res
}

// ---------------------------------------------------------------------------
// Query parameters (OpenReview, ACM)
// ---------------------------------------------------------------------------

/// The value of the last pair with key `key`: the one that a map built from
/// the pairs in order keeps.
pub open spec fn last_value(pairs: Seq<(Seq<char>, Seq<char>)>, key: Seq<char>) -> Option<
    Seq<char>,
>
    decreases pairs.len(),
{
    if pairs.len() == 0 {
        None
    } else if pairs.last().0 == key {
        Some(pairs.last().1)
    } else {
        last_value(pairs.drop_last(), key)
    }
}

/// The value of the query parameter `key` of `url`.
pub open spec fn query_value(url: Seq<char>, key: Seq<char>) -> Option<Seq<char>> {
    match url_query_pairs(url) {
        Some(pairs) => last_value(pairs, key),
        None => None,
    }
}

/// The value of the query parameter `key` of `url`; where the key occurs more
/// than once, the last value, as a map collected from the pairs keeps it.
pub fn query_parameter(url: &str, key: &str) -> (res: Option<String>)
    ensures
        res.deep_view() == query_value(url@, key@),
{
    let pairs = match query_pairs(url) {
        Some(p) => p,
        None => return None,
    };
    let ghost pv = pairs.deep_view();
    let mut i = pairs.len();
    assert(pv.subrange(0, i as int) =~= pv);
    while i > 0
        invariant
            i <= pairs.len(),
            pv == pairs.deep_view(),
            url_query_pairs(url@) == Some(pv),
            last_value(pv, key@) == last_value(pv.subrange(0, i as int), key@),
        decreases i,
    {
        let ghost sub = pv.subrange(0, i as int);
        assert(sub.drop_last() =~= pv.subrange(0, i - 1));
        assert(sub.last() == pv[i - 1]);
        if text_eq(pairs[i - 1].0.as_str(), key) {
            return Some(string_from(pairs[i - 1].1.as_str()));
        }
        i = i - 1;
    }
    None
}

/// The `id` query parameter of an OpenReview or ACM URL.
pub open spec fn id_parameter(url: Seq<char>) -> Option<Seq<char>> {
    query_value(url, "id"@)
}

pub open spec fn openreview_forum_link(id: Seq<char>) -> Seq<char> {
    "https://openreview.net/forum?id="@ + id
}

pub open spec fn openreview_pdf_link(id: Seq<char>) -> Seq<char> {
    "https://openreview.net/pdf?id="@ + id
}

pub open spec fn acm_citation_link(id: Seq<char>) -> Seq<char> {
    "https://dl.acm.org/citation.cfm?id="@ + id
}

// ---------------------------------------------------------------------------
// ACL Anthology
// ---------------------------------------------------------------------------

/// The ACL Anthology identifier in a URL: its last path segment up to the
/// first `.` (`/P18/P18-1001.pdf` gives `P18-1001`).
pub open spec fn aclweb_id(url: Seq<char>) -> Seq<char> {
    before_first(after_last(url, '/'), '.')
}

pub fn aclweb_id_of(url: &str) -> (res: String)
    ensures
        res@ == aclweb_id(url@),
{
    let last = text_after_last(url, '/');
    text_before_first(last.as_str(), '.')
}

pub open spec fn aclweb_abs_link(upper: Seq<char>, lower: Seq<char>) -> Seq<char> {
    "https://aclanthology.info/papers/"@ + upper + "/"@ + lower
}

pub open spec fn aclweb_pdf_link(upper: Seq<char>) -> Seq<char> {
    "http://aclweb.org/anthology/"@ + upper
}

// ---------------------------------------------------------------------------
// Path segments (NIPS, PMLR)
// ---------------------------------------------------------------------------

/// The segment between the last two `c` of `s`, or from the start of `s`
/// to its last `c` when there is only one: the second item of
/// `s.rsplitn(3, c)`.
pub open spec fn segment_before_last(s: Seq<char>, c: char) -> Seq<char> {
    match last_index_before(s, c, s.len() as int) {
        Some(k1) => match last_index_before(s, c, k1) {
            Some(k2) => s.subrange(k2 + 1, k1),
            None => s.subrange(0, k1),
        },
        None => seq![],
    }
}

/// `s` holds `c`.
pub open spec fn has_char(s: Seq<char>, c: char) -> bool {
    last_index_before(s, c, s.len() as int) is Some
}

pub fn text_segment_before_last(s: &str, c: char) -> (res: String)
    requires
        has_char(s@, c),
    ensures
        res@ == segment_before_last(s@, c),
{
    let sc = chars_of(s);
    proof {
        lemma_last_index(sc@, c, sc.len() as int);
    }
    let k1 = match last_index(&sc, c, sc.len()) {
        Some(k) => k,
        None => return String::new(),
    };
    proof {
        lemma_last_index(sc@, c, k1 as int);
    }
    match last_index(&sc, c, k1) {
        Some(k2) => string_of(&sc, k2 + 1, k1),
        None => string_of(&sc, 0, k1),
    }
}

pub fn text_has_char(s: &str, c: char) -> (res: bool)
    ensures
        res == has_char(s@, c),
{
    let sc = chars_of(s);
    match last_index(&sc, c, sc.len()) {
        Some(_) => true,
        None => false,
    }
}

// ---------------------------------------------------------------------------
// NIPS Proceedings
// ---------------------------------------------------------------------------

/// The NIPS URLs that name a paper: a `/bibtex` page needs a segment before it.
pub open spec fn nips_url_ok(url: Seq<char>) -> bool {
    after_last(url, '/') != "bibtex"@ || has_char(url, '/')
}

/// The `NNNN-title` segment of a NIPS URL: the last path segment, or the one
/// before `/bibtex`, without a `.pdf` ending.
pub open spec fn nips_id_title(url: Seq<char>) -> Seq<char> {
    let last = after_last(url, '/');
    let seg = if last == "bibtex"@ {
        segment_before_last(url, '/')
    } else {
        last
    };
    if seq_ends_with(seg, ".pdf"@) {
        seg.subrange(0, seg.len() - 4)
    } else {
        seg
    }
}

/// The NIPS paper number: the `NNNN` of `NNNN-title`.
pub open spec fn nips_id(url: Seq<char>) -> Seq<char> {
    before_first(nips_id_title(url), '-')
}

pub open spec fn nips_abs_link(url: Seq<char>) -> Seq<char> {
    "http://papers.nips.cc/paper/"@ + nips_id_title(url)
}

pub fn nips_id_title_of(url: &str) -> (res: String)
    requires
        nips_url_ok(url@),
    ensures
        res@ == nips_id_title(url@),
{
    let last = text_after_last(url, '/');
    let seg = if text_eq(last.as_str(), "bibtex") {
        text_segment_before_last(url, '/')
    } else {
        last
    };
    proof {
        reveal_strlit(".pdf");
    }
    if ends_with(seg.as_str(), ".pdf") {
        drop_last_chars(seg.as_str(), 4)
    } else {
        seg
    }
}

// ---------------------------------------------------------------------------
// PMLR
// ---------------------------------------------------------------------------

/// A PMLR URL without its `.pdf` or `.html` ending.
pub open spec fn pmlr_base(url: Seq<char>) -> Seq<char> {
    if seq_ends_with(url, ".pdf"@) {
        url.subrange(0, url.len() - 4)
    } else if seq_ends_with(url, ".html"@) {
        url.subrange(0, url.len() - 5)
    } else {
        url
    }
}

/// The PMLR URLs that name a paper: the volume comes before a `/`.
pub open spec fn pmlr_url_ok(url: Seq<char>) -> bool {
    has_char(pmlr_base(url), '/')
}

/// The PMLR paper identifier `volume/paper`.
pub open spec fn pmlr_id(url: Seq<char>) -> Seq<char> {
    let base = pmlr_base(url);
    segment_before_last(base, '/') + "/"@ + after_last(base, '/')
}

pub open spec fn pmlr_abs_link(url: Seq<char>) -> Seq<char> {
    "http://proceedings.mlr.press/"@ + pmlr_id(url)
}

pub fn pmlr_base_of(url: &str) -> (res: String)
    ensures
        res@ == pmlr_base(url@),
{
    proof {
        reveal_strlit(".pdf");
        reveal_strlit(".html");
    }
    if ends_with(url, ".pdf") {
        drop_last_chars(url, 4)
    } else if ends_with(url, ".html") {
        drop_last_chars(url, 5)
    } else {
        string_from(url)
    }
}

pub fn pmlr_id_of(url: &str) -> (res: String)
    requires
        pmlr_url_ok(url@),
    ensures
        res@ == pmlr_id(url@),
{
    let base = pmlr_base_of(url);
    let mut res = text_segment_before_last(base.as_str(), '/');
    res.append("/");
    let last = text_after_last(base.as_str(), '/');
    res.append(last.as_str());
    res
}

} // verus!
