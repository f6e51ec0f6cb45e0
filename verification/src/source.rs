//! The paper archives the bot knows, told apart by the domain of a link.
use vstd::prelude::*;
use crate::article::{
    aclweb_article, acm_article, arxiv_article, nips_article, openreview_article, pmlr_article,
    viewed, Article, ArticleView,
};
use crate::links::{
    aclweb_abs_link, aclweb_id, aclweb_id_of, acm_citation_link, arxiv_abs, arxiv_abs_link,
    id_parameter, nips_abs_link, nips_id_title_of, nips_url_ok, openreview_forum_link,
    pmlr_abs_link, pmlr_base_of, pmlr_id_of, pmlr_url_ok, query_parameter, text_has_char,
};
use crate::pages::concat3;
use crate::text::{concat, lower_text, text_eq, to_lower, to_upper, upper_text};

verus! {

/// A paper archive.
#[derive(Clone, Copy, Debug, PartialEq, Eq, Structural)]
pub enum Source {
    Arxiv,
    OpenReview,
    AclWeb,
    Acm,
    Nips,
    Pmlr,
}

/// The archive that serves the domain `d`.
pub open spec fn source_of_domain(d: Seq<char>) -> Option<Source> {
    if d == "arxiv.org"@ {
        Some(Source::Arxiv)
    } else if d == "openreview.net"@ {
        Some(Source::OpenReview)
    } else if d == "aclweb.org"@ || d == "aclanthology.coli.uni-saarland.de"@ || d
        == "aclanthology.info"@ {
        Some(Source::AclWeb)
    } else if d == "dl.acm.org"@ || d == "delivery.acm.org"@ {
        Some(Source::Acm)
    } else if d == "papers.nips.cc"@ {
        Some(Source::Nips)
    } else if d == "proceedings.mlr.press"@ {
        Some(Source::Pmlr)
    } else {
        None
    }
}

/// The URLs of an archive that name a paper.
pub open spec fn url_ok(s: Source, url: Seq<char>) -> bool {
    match s {
        Source::Nips => nips_url_ok(url),
        Source::Pmlr => pmlr_url_ok(url),
        _ => true,
    }
}

/// The page that describes the paper at `url`; `None` when the URL names no
/// paper.
pub open spec fn page_link(s: Source, url: Seq<char>) -> Option<Seq<char>> {
    match s {
        Source::Arxiv => Some(arxiv_abs_link(url)),
        Source::OpenReview => match id_parameter(url) {
            Some(id) => Some(openreview_forum_link(id)),
            None => None,
        },
        Source::AclWeb => Some(
            aclweb_abs_link(upper_text(aclweb_id(url)), lower_text(aclweb_id(url))),
        ),
        Source::Acm => match id_parameter(url) {
            Some(id) => Some(acm_citation_link(id)),
            None => None,
        },
        Source::Nips => if nips_url_ok(url) {
            Some(nips_abs_link(url))
        } else {
            None
        },
        Source::Pmlr => if pmlr_url_ok(url) {
            Some(pmlr_abs_link(url))
        } else {
            None
        },
    }
}

/// The paper at `url` of the archive `s` whose page reads `page`.
pub open spec fn page_article(s: Source, url: Seq<char>, page: Seq<char>, now: i64) -> Option<
    ArticleView,
> {
    match s {
        Source::Arxiv => arxiv_article(url, page, now),
        Source::OpenReview => openreview_article(url, page, now),
        Source::AclWeb => aclweb_article(url, page),
        Source::Acm => acm_article(url, page, now),
        Source::Nips => if nips_url_ok(url) {
            nips_article(url, page)
        } else {
            None
        },
        Source::Pmlr => if pmlr_url_ok(url) {
            pmlr_article(url, page, now)
        } else {
            None
        },
    }
}

impl Source {
    /// The archive that serves `domain`.
    pub fn for_domain(domain: &str) -> (res: Option<Source>)
        ensures
            res == source_of_domain(domain@),
    {
        if text_eq(domain, "arxiv.org") {
            Some(Source::Arxiv)
        } else if text_eq(domain, "openreview.net") {
            Some(Source::OpenReview)
        } else if text_eq(domain, "aclweb.org") || text_eq(
            domain,
            "aclanthology.coli.uni-saarland.de",
        ) || text_eq(domain, "aclanthology.info") {
            Some(Source::AclWeb)
        } else if text_eq(domain, "dl.acm.org") || text_eq(domain, "delivery.acm.org") {
            Some(Source::Acm)
        } else if text_eq(domain, "papers.nips.cc") {
            Some(Source::Nips)
        } else if text_eq(domain, "proceedings.mlr.press") {
            Some(Source::Pmlr)
        } else {
            None
        }
    }

    /// Whether `url` names a paper of this archive.
    pub fn accepts(&self, url: &str) -> (res: bool)
        ensures
            res == url_ok(*self, url@),
    {
        match self {
            Source::Nips => {
                let last = crate::text::text_after_last(url, '/');
                !text_eq(last.as_str(), "bibtex") || text_has_char(url, '/')
            },
            Source::Pmlr => {
                let base = pmlr_base_of(url);
                text_has_char(base.as_str(), '/')
            },
            _ => true,
        }
    }

    /// The page that describes the paper at `url`: what the bot fetches.
    pub fn page_url(&self, url: &str) -> (res: Option<String>)
        ensures
            res.deep_view() == page_link(*self, url@),
    {
        match self {
            Source::Arxiv => Some(arxiv_abs(url)),
            Source::OpenReview => match query_parameter(url, "id") {
                Some(id) => Some(concat("https://openreview.net/forum?id=", id.as_str())),
                None => None,
            },
            Source::AclWeb => {
                let id = aclweb_id_of(url);
                let upper = to_upper(id.as_str());
                let lower = to_lower(id.as_str());
                let mut link = concat3("https://aclanthology.info/papers/", upper.as_str(), "/");
                link.append(lower.as_str());
                Some(link)
            },
            Source::Acm => match query_parameter(url, "id") {
                Some(id) => Some(concat("https://dl.acm.org/citation.cfm?id=", id.as_str())),
                None => None,
            },
            Source::Nips => {
                if self.accepts(url) {
                    let id_title = nips_id_title_of(url);
                    Some(concat("http://papers.nips.cc/paper/", id_title.as_str()))
                } else {
                    None
                }
            },
            Source::Pmlr => {
                if self.accepts(url) {
                    let id = pmlr_id_of(url);
                    Some(concat("http://proceedings.mlr.press/", id.as_str()))
                } else {
                    None
                }
            },
        }
    }
}

impl Article {
    /// The paper at `url` of the archive `source` whose page (fetched from
    /// [`Source::page_url`]) reads `page`; `None` also when the URL names no
    /// paper. `now` is the date given to a paper whose date has another shape.
    pub fn from_page(source: Source, url: &str, page: &str, now: i64) -> (res: Option<Article>)
        ensures
            viewed(res) == page_article(source, url@, page@, now),
    {
        match source {
            Source::Arxiv => Article::from_arxiv(url, page, now),
            Source::OpenReview => Article::from_openreview(url, page, now),
            Source::AclWeb => Article::from_aclweb(url, page),
            Source::Acm => Article::from_acm(url, page, now),
            Source::Nips => {
                if source.accepts(url) {
                    Article::from_nips(url, page)
                } else {
                    None
                }
            },
            Source::Pmlr => {
                if source.accepts(url) {
                    Article::from_pmlr(url, page, now)
                } else {
                    None
                }
            },
        }
    }
}

} // verus!
