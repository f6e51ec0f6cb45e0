//! A paper as the bot describes it, and how each archive's abstract page
//! yields one.
use vstd::prelude::*;
use crate::dates::{citation_date, citation_timestamp, year_date, year_timestamp, DateOrder};
use crate::html::{first_text, html_first_text};
use crate::links::{
    aclweb_abs_link, aclweb_id, aclweb_id_of, aclweb_pdf_link, acm_citation_link, arxiv_abs,
    arxiv_abs_link, arxiv_pdf, arxiv_pdf_link, arxiv_vanity, arxiv_vanity_link,
    convert_google_translation_url, id_parameter, nips_abs_link, nips_id, nips_id_title,
    nips_id_title_of, nips_url_ok, openreview_forum_link, openreview_pdf_link, pmlr_abs_link,
    pmlr_id, pmlr_id_of, pmlr_url_ok, query_parameter, translation_url,
};
use crate::pages::{
    concat3, meta_content, meta_contents, page_meta, page_meta_all, split_trimmed, strip_label,
    trimmed_pieces, without_label,
};
use crate::text::{
    concat, lower_text, seq_trim, string_from, text_before_first, text_eq, to_lower, to_upper,
    trim, upper_text,
};

verus! {

/// A paper: where it is kept, what it is, and where to read it.
#[derive(Debug)]
pub struct Article {
    /// The archive that keeps the paper (`arXiv`, `OpenReview`, ...).
    pub preserver: String,
    pub id: String,
    pub title: String,
    /// The proceedings or journal it appeared in.
    pub volume: Option<String>,
    /// The abstract page.
    pub url: String,
    /// The abstract page in Japanese.
    pub url_ja: Option<String>,
    pub authors: Vec<String>,
    /// The abstract.
    pub abst: Option<String>,
    pub pdf_en_link: Option<String>,
    pub pdf_ja_link: Option<String>,
    pub html_en_link: Option<String>,
    pub html_ja_link: Option<String>,
    pub bib_link: Option<String>,
    /// The publication date: seconds since 1970-01-01 00:00 UTC.
    pub date: i64,
}

/// The value of an [`Article`].
#[verifier::ext_equal]
pub struct ArticleView {
    pub preserver: Seq<char>,
    pub id: Seq<char>,
    pub title: Seq<char>,
    pub volume: Option<Seq<char>>,
    pub url: Seq<char>,
    pub url_ja: Option<Seq<char>>,
    pub authors: Seq<Seq<char>>,
    pub abst: Option<Seq<char>>,
    pub pdf_en_link: Option<Seq<char>>,
    pub pdf_ja_link: Option<Seq<char>>,
    pub html_en_link: Option<Seq<char>>,
    pub html_ja_link: Option<Seq<char>>,
    pub bib_link: Option<Seq<char>>,
    pub date: i64,
}

impl View for Article {
    type V = ArticleView;

    open spec fn view(&self) -> ArticleView {
        ArticleView {
            preserver: self.preserver@,
            id: self.id@,
            title: self.title@,
            volume: self.volume.deep_view(),
            url: self.url@,
            url_ja: self.url_ja.deep_view(),
            authors: self.authors.deep_view(),
            abst: self.abst.deep_view(),
            pdf_en_link: self.pdf_en_link.deep_view(),
            pdf_ja_link: self.pdf_ja_link.deep_view(),
            html_en_link: self.html_en_link.deep_view(),
            html_ja_link: self.html_ja_link.deep_view(),
            bib_link: self.bib_link.deep_view(),
            date: self.date,
        }
    }
}

/// The value of an optional article.
pub open spec fn viewed(a: Option<Article>) -> Option<ArticleView> {
    match a {
        Some(a) => Some(a@),
        None => None,
    }
}

// ---------------------------------------------------------------------------
// What each archive's page yields
// ---------------------------------------------------------------------------

/// The arXiv paper at `url` whose abstract page reads `page`; `None` when the
/// page lacks its title, identifier, authors, abstract or date, or the date
/// names no day. `now` stands for a date of another shape.
pub open spec fn arxiv_article(url: Seq<char>, page: Seq<char>, now: i64) -> Option<ArticleView> {
    let abs_link = arxiv_abs_link(url);
    let pdf_en = arxiv_pdf_link(url);
    match (
        meta_content(page, "citation_title"@),
        meta_content(page, "citation_arxiv_id"@),
        html_first_text(page, ".authors"@),
        html_first_text(page, ".abstract"@),
        meta_content(page, "citation_date"@),
    ) {
        (Some(title), Some(id), Some(authors_text), Some(abst_text), Some(date_text)) => {
            match citation_date(date_text, DateOrder::YearMonthDay, now) {
                Some(date) => Some(
                    ArticleView {
                        preserver: "arXiv"@,
                        id,
                        title,
                        volume: None,
                        url: abs_link,
                        url_ja: Some(translation_url(abs_link)),
                        authors: trimmed_pieces(without_label(authors_text, "Authors: "@), ", "@),
                        abst: Some(seq_trim(without_label(abst_text, "Abstract: "@))),
                        pdf_en_link: Some(pdf_en),
                        pdf_ja_link: Some(translation_url(pdf_en)),
                        html_en_link: Some(arxiv_vanity_link(id)),
                        html_ja_link: Some(translation_url(arxiv_vanity_link(id))),
                        bib_link: None,
                        date,
                    },
                ),
                None => None,
            }
        },
        _ => None,
    }
}

/// The OpenReview paper at `url` whose forum page reads `page`; `None` when
/// the URL has no `id` parameter, or the page lacks its title, an author's
/// name, its abstract or date, or the date names no day.
pub open spec fn openreview_article(url: Seq<char>, page: Seq<char>, now: i64) -> Option<
    ArticleView,
> {
    match id_parameter(url) {
        Some(id) => {
            let abs_link = openreview_forum_link(id);
            let pdf_en = openreview_pdf_link(id);
            match (
                meta_content(page, "citation_title"@),
                meta_contents(page, "citation_author"@),
                html_first_text(page, ".note-content-value"@),
                meta_content(page, "citation_online_date"@),
            ) {
                (Some(title), Some(authors), Some(abst_text), Some(date_text)) => {
                    match citation_date(date_text, DateOrder::YearMonthDay, now) {
                        Some(date) => Some(
                            ArticleView {
                                preserver: "OpenReview"@,
                                id,
                                title,
                                volume: None,
                                url: abs_link,
                                url_ja: Some(translation_url(abs_link)),
                                authors,
                                abst: Some(seq_trim(abst_text)),
                                pdf_en_link: Some(pdf_en),
                                pdf_ja_link: Some(translation_url(pdf_en)),
                                html_en_link: None,
                                html_ja_link: None,
                                bib_link: None,
                                date,
                            },
                        ),
                        None => None,
                    }
                },
                _ => None,
            }
        },
        None => None,
    }
}

/// The ACL Anthology paper at `url` whose page reads `page`; `None` when the
/// page lacks its title, volume, an author's name or year, or the year is
/// not a number that names a year.
pub open spec fn aclweb_article(url: Seq<char>, page: Seq<char>) -> Option<ArticleView> {
    let id = aclweb_id(url);
    let upper = upper_text(id);
    let lower = lower_text(id);
    let abs_link = aclweb_abs_link(upper, lower);
    let pdf_en = aclweb_pdf_link(upper);
    match (
        meta_content(page, "citation_title"@),
        meta_content(page, "citation_journal_title"@),
        meta_contents(page, "citation_author"@),
        meta_content(page, "citation_publication_date"@),
    ) {
        (Some(title), Some(volume), Some(authors), Some(year)) => {
            match year_date(year) {
                Some(date) => Some(
                    ArticleView {
                        preserver: "ACL Anthology"@,
                        id: upper,
                        title,
                        volume: Some(volume),
                        url: abs_link,
                        url_ja: None,
                        authors,
                        abst: None,
                        pdf_en_link: Some(pdf_en),
                        pdf_ja_link: Some(translation_url(pdf_en)),
                        html_en_link: None,
                        html_ja_link: None,
                        bib_link: Some(abs_link + ".bib"@),
                        date,
                    },
                ),
                None => None,
            }
        },
        _ => None,
    }
}

/// The ACM paper at `url` whose citation page reads `page`; `None` when the
/// URL has no `id` parameter, or the page lacks its PDF address, title,
/// authors or date, or the date names no day.
pub open spec fn acm_article(url: Seq<char>, page: Seq<char>, now: i64) -> Option<ArticleView> {
    match id_parameter(url) {
        Some(id) => {
            let abs_link = acm_citation_link(id);
            match (
                meta_content(page, "citation_pdf_url"@),
                meta_content(page, "citation_title"@),
                meta_content(page, "citation_authors"@),
                meta_content(page, "citation_date"@),
            ) {
                (Some(pdf_en), Some(title), Some(authors_text), Some(date_text)) => {
                    match citation_date(date_text, DateOrder::MonthDayYear, now) {
                        Some(date) => Some(
                            ArticleView {
                                preserver: "ACM"@,
                                id,
                                title,
                                volume: None,
                                url: abs_link,
                                url_ja: Some(translation_url(abs_link)),
                                authors: trimmed_pieces(authors_text, "; "@),
                                abst: None,
                                pdf_en_link: Some(pdf_en),
                                pdf_ja_link: Some(translation_url(pdf_en)),
                                html_en_link: None,
                                html_ja_link: None,
                                bib_link: None,
                                date,
                            },
                        ),
                        None => None,
                    }
                },
                _ => None,
            }
        },
        None => None,
    }
}

/// The NIPS paper at `url` whose page reads `page`; `None` when the page
/// lacks its title, volume, an author's name, abstract or year, or the year
/// is not a number that names a year.
pub open spec fn nips_article(url: Seq<char>, page: Seq<char>) -> Option<ArticleView> {
    let abs_link = nips_abs_link(url);
    let pdf_en = abs_link + ".pdf"@;
    match (
        meta_content(page, "citation_title"@),
        meta_content(page, "citation_conference_title"@),
        meta_contents(page, "citation_author"@),
        html_first_text(page, ".abstract"@),
        meta_content(page, "citation_publication_date"@),
    ) {
        (Some(title), Some(volume), Some(authors), Some(abst), Some(year)) => {
            match year_date(year) {
                Some(date) => Some(
                    ArticleView {
                        preserver: "NIPS Proceedings"@,
                        id: nips_id(url),
                        title,
                        volume: Some(volume),
                        url: abs_link,
                        url_ja: Some(translation_url(abs_link)),
                        authors,
                        abst: Some(abst),
                        pdf_en_link: Some(pdf_en),
                        pdf_ja_link: Some(translation_url(pdf_en)),
                        html_en_link: None,
                        html_ja_link: None,
                        bib_link: Some(abs_link + "/bibtex"@),
                        date,
                    },
                ),
                None => None,
            }
        },
        _ => None,
    }
}

/// The PMLR paper at `url` whose page reads `page`; `None` when the page
/// lacks its title, volume, an author's name, abstract or date, or the date
/// names no day.
pub open spec fn pmlr_article(url: Seq<char>, page: Seq<char>, now: i64) -> Option<ArticleView> {
    let abs_link = pmlr_abs_link(url);
    let pdf_en = abs_link + ".pdf"@;
    match (
        meta_content(page, "citation_title"@),
        meta_content(page, "citation_conference_title"@),
        meta_contents(page, "citation_author"@),
        html_first_text(page, ".abstract"@),
        meta_content(page, "citation_publication_date"@),
    ) {
        (Some(title), Some(volume), Some(authors), Some(abst_text), Some(date_text)) => {
            match citation_date(date_text, DateOrder::YearMonthDay, now) {
                Some(date) => Some(
                    ArticleView {
                        preserver: "PMLR"@,
                        id: pmlr_id(url),
                        title,
                        volume: Some(volume),
                        url: abs_link,
                        url_ja: Some(translation_url(abs_link)),
                        authors,
                        abst: Some(seq_trim(abst_text)),
                        pdf_en_link: Some(pdf_en),
                        pdf_ja_link: Some(translation_url(pdf_en)),
                        html_en_link: None,
                        html_ja_link: None,
                        bib_link: None,
                        date,
                    },
                ),
                None => None,
            }
        },
        _ => None,
    }
}

/// `a` with the abstract, Japanese abstract page and HTML renderings that it
/// lacks taken from `arxiv`.
pub open spec fn merged_with_arxiv(a: ArticleView, arxiv: ArticleView) -> ArticleView {
    ArticleView {
        abst: if a.abst is None {
            arxiv.abst
        } else {
            a.abst
        },
        url_ja: if a.url_ja is None {
            arxiv.url_ja
        } else {
            a.url_ja
        },
        html_en_link: if a.html_en_link is None {
            arxiv.html_en_link
        } else {
            a.html_en_link
        },
        html_ja_link: if a.html_ja_link is None {
            arxiv.html_ja_link
        } else {
            a.html_ja_link
        },
        ..a
    }
}

/// The arXiv API query that searches for a paper by its title.
pub open spec fn arxiv_query(title: Seq<char>) -> Seq<char> {
    "http://export.arxiv.org/api/query?search_query=ti:"@ + title + "&max_results=1"@
}

fn copy_text(o: &Option<String>) -> (res: Option<String>)
    ensures
        res.deep_view() == o.deep_view(),
{
    match o {
        Some(s) => Some(s.clone()),
        None => None,
    }
}

fn copy_texts(v: &Vec<String>) -> (res: Vec<String>)
    ensures
        res.deep_view() == v.deep_view(),
{
    let mut res: Vec<String> = Vec::new();
    let mut i: usize = 0;
    while i < v.len()
        invariant
            i <= v.len(),
            res.deep_view() == v.deep_view().subrange(0, i as int),
        decreases v.len() - i,
    {
        let ghost before = res.deep_view();
        res.push(v[i].clone());
        assert(res.deep_view() =~= before.push(v[i as int]@));
        i = i + 1;
        assert(res.deep_view() =~= v.deep_view().subrange(0, i as int));
    }
    assert(v.deep_view().subrange(0, i as int) =~= v.deep_view());
    res
}

impl Article {
    /// A copy of this article.
    pub fn copy(&self) -> (res: Article)
        ensures
            res@ == self@,
    {
        let res = Article {
            preserver: self.preserver.clone(),
            id: self.id.clone(),
            title: self.title.clone(),
            volume: copy_text(&self.volume),
            url: self.url.clone(),
            url_ja: copy_text(&self.url_ja),
            authors: copy_texts(&self.authors),
            abst: copy_text(&self.abst),
            pdf_en_link: copy_text(&self.pdf_en_link),
            pdf_ja_link: copy_text(&self.pdf_ja_link),
            html_en_link: copy_text(&self.html_en_link),
            html_ja_link: copy_text(&self.html_ja_link),
            bib_link: copy_text(&self.bib_link),
            date: self.date,
        };
        assert(res@ =~= self@);
        res
    }

    /// The arXiv paper at `url` (an abstract or PDF address) whose abstract
    /// page, fetched from [`crate::links::arxiv_abs`] of `url`, reads `page`.
    /// `now` is the date given to a paper whose date has another shape.
    pub fn from_arxiv(url: &str, page: &str, now: i64) -> (res: Option<Article>)
        ensures
            viewed(res) == arxiv_article(url@, page@, now),
    {
        proof {
            reveal_strlit(", ");
        }
        let abs_link = arxiv_abs(url);
        let pdf_en_link = arxiv_pdf(abs_link.as_str());
        let title = match page_meta(page, "citation_title") {
            Some(v) => v,
            None => return None,
        };
        let id = match page_meta(page, "citation_arxiv_id") {
            Some(v) => v,
            None => return None,
        };
        let authors_text = match first_text(page, ".authors") {
            Some(v) => v,
            None => return None,
        };
        let abst_text = match first_text(page, ".abstract") {
            Some(v) => v,
            None => return None,
        };
        let date_text = match page_meta(page, "citation_date") {
            Some(v) => v,
            None => return None,
        };
        let date = match citation_timestamp(date_text.as_str(), DateOrder::YearMonthDay, now) {
            Some(d) => d,
            None => return None,
        };
        let html_en_link = arxiv_vanity(id.as_str());
        let html_ja_link = convert_google_translation_url(html_en_link.as_str());
        let authors_line = strip_label(authors_text.as_str(), "Authors: ");
        let authors = split_trimmed(authors_line.as_str(), ", ");
        let abst_line = strip_label(abst_text.as_str(), "Abstract: ");
        let abst = trim(abst_line.as_str());
        let url_ja = convert_google_translation_url(abs_link.as_str());
        let pdf_ja_link = convert_google_translation_url(pdf_en_link.as_str());
        let article = Article {
            preserver: string_from("arXiv"),
            id,
            title,
            volume: None,
            url: abs_link,
            url_ja: Some(url_ja),
            authors,
            abst: Some(abst),
            pdf_en_link: Some(pdf_en_link),
            pdf_ja_link: Some(pdf_ja_link),
            html_en_link: Some(html_en_link),
            html_ja_link: Some(html_ja_link),
            bib_link: None,
            date,
        };
        assert(article@ =~= arxiv_article(url@, page@, now).unwrap());
        Some(article)
    }

    /// The OpenReview paper at `url` whose forum page reads `page`.
    pub fn from_openreview(url: &str, page: &str, now: i64) -> (res: Option<Article>)
        ensures
            viewed(res) == openreview_article(url@, page@, now),
    {
        let id = match query_parameter(url, "id") {
            Some(v) => v,
            None => return None,
        };
        let abs_link = concat("https://openreview.net/forum?id=", id.as_str());
        let pdf_en_link = concat("https://openreview.net/pdf?id=", id.as_str());
        let title = match page_meta(page, "citation_title") {
            Some(v) => v,
            None => return None,
        };
        let authors = match page_meta_all(page, "citation_author") {
            Some(v) => v,
            None => return None,
        };
        let abst_text = match first_text(page, ".note-content-value") {
            Some(v) => v,
            None => return None,
        };
        let date_text = match page_meta(page, "citation_online_date") {
            Some(v) => v,
            None => return None,
        };
        let date = match citation_timestamp(date_text.as_str(), DateOrder::YearMonthDay, now) {
            Some(d) => d,
            None => return None,
        };
        let url_ja = convert_google_translation_url(abs_link.as_str());
        let pdf_ja_link = convert_google_translation_url(pdf_en_link.as_str());
        let abst = trim(abst_text.as_str());
        let article = Article {
            preserver: string_from("OpenReview"),
            id,
            title,
            volume: None,
            url: abs_link,
            url_ja: Some(url_ja),
            authors,
            abst: Some(abst),
            pdf_en_link: Some(pdf_en_link),
            pdf_ja_link: Some(pdf_ja_link),
            html_en_link: None,
            html_ja_link: None,
            bib_link: None,
            date,
        };
        assert(article@ =~= openreview_article(url@, page@, now).unwrap());
        Some(article)
    }

    /// The ACL Anthology paper at `url` whose page reads `page`.
    pub fn from_aclweb(url: &str, page: &str) -> (res: Option<Article>)
        ensures
            viewed(res) == aclweb_article(url@, page@),
    {
        let id = aclweb_id_of(url);
        let id_upper = to_upper(id.as_str());
        let id_lower = to_lower(id.as_str());
        let abs_link = concat3(
            "https://aclanthology.info/papers/",
            id_upper.as_str(),
            "/",
        );
        let mut abs_link = abs_link;
        abs_link.append(id_lower.as_str());
        let pdf_en_link = concat("http://aclweb.org/anthology/", id_upper.as_str());
        let pdf_ja_link = convert_google_translation_url(pdf_en_link.as_str());
        let bib_link = concat(abs_link.as_str(), ".bib");
        let title = match page_meta(page, "citation_title") {
            Some(v) => v,
            None => return None,
        };
        let volume = match page_meta(page, "citation_journal_title") {
            Some(v) => v,
            None => return None,
        };
        let authors = match page_meta_all(page, "citation_author") {
            Some(v) => v,
            None => return None,
        };
        let year = match page_meta(page, "citation_publication_date") {
            Some(v) => v,
            None => return None,
        };
        let date = match year_timestamp(year.as_str()) {
            Some(d) => d,
            None => return None,
        };
        let article = Article {
            preserver: string_from("ACL Anthology"),
            id: id_upper,
            title,
            volume: Some(volume),
            url: abs_link,
            url_ja: None,
            authors,
            abst: None,
            pdf_en_link: Some(pdf_en_link),
            pdf_ja_link: Some(pdf_ja_link),
            html_en_link: None,
            html_ja_link: None,
            bib_link: Some(bib_link),
            date,
        };
        assert(article@ =~= aclweb_article(url@, page@).unwrap());
        Some(article)
    }

    /// The ACM paper at `url` whose citation page reads `page`.
    pub fn from_acm(url: &str, page: &str, now: i64) -> (res: Option<Article>)
        ensures
            viewed(res) == acm_article(url@, page@, now),
    {
        proof {
            reveal_strlit("; ");
        }
        let id = match query_parameter(url, "id") {
            Some(v) => v,
            None => return None,
        };
        let abs_link = concat("https://dl.acm.org/citation.cfm?id=", id.as_str());
        let pdf_en_link = match page_meta(page, "citation_pdf_url") {
            Some(v) => v,
            None => return None,
        };
        let title = match page_meta(page, "citation_title") {
            Some(v) => v,
            None => return None,
        };
        let authors_text = match page_meta(page, "citation_authors") {
            Some(v) => v,
            None => return None,
        };
        let date_text = match page_meta(page, "citation_date") {
            Some(v) => v,
            None => return None,
        };
        let date = match citation_timestamp(date_text.as_str(), DateOrder::MonthDayYear, now) {
            Some(d) => d,
            None => return None,
        };
        let pdf_ja_link = convert_google_translation_url(pdf_en_link.as_str());
        let authors = split_trimmed(authors_text.as_str(), "; ");
        let url_ja = convert_google_translation_url(abs_link.as_str());
        let article = Article {
            preserver: string_from("ACM"),
            id,
            title,
            volume: None,
            url: abs_link,
            url_ja: Some(url_ja),
            authors,
            abst: None,
            pdf_en_link: Some(pdf_en_link),
            pdf_ja_link: Some(pdf_ja_link),
            html_en_link: None,
            html_ja_link: None,
            bib_link: None,
            date,
        };
        assert(article@ =~= acm_article(url@, page@, now).unwrap());
        Some(article)
    }

    /// The NIPS paper at `url` (its page, its PDF or its BibTeX) whose page
    /// reads `page`.
    pub fn from_nips(url: &str, page: &str) -> (res: Option<Article>)
        requires
            nips_url_ok(url@),
        ensures
            viewed(res) == nips_article(url@, page@),
    {
        let id_title = nips_id_title_of(url);
        let id = text_before_first(id_title.as_str(), '-');
        let abs_link = concat("http://papers.nips.cc/paper/", id_title.as_str());
        let pdf_en_link = concat(abs_link.as_str(), ".pdf");
        let pdf_ja_link = convert_google_translation_url(pdf_en_link.as_str());
        let bib_link = concat(abs_link.as_str(), "/bibtex");
        let title = match page_meta(page, "citation_title") {
            Some(v) => v,
            None => return None,
        };
        let volume = match page_meta(page, "citation_conference_title") {
            Some(v) => v,
            None => return None,
        };
        let authors = match page_meta_all(page, "citation_author") {
            Some(v) => v,
            None => return None,
        };
        let abst = match first_text(page, ".abstract") {
            Some(v) => v,
            None => return None,
        };
        let year = match page_meta(page, "citation_publication_date") {
            Some(v) => v,
            None => return None,
        };
        let date = match year_timestamp(year.as_str()) {
            Some(d) => d,
            None => return None,
        };
        let url_ja = convert_google_translation_url(abs_link.as_str());
        let article = Article {
            preserver: string_from("NIPS Proceedings"),
            id,
            title,
            volume: Some(volume),
            url: abs_link,
            url_ja: Some(url_ja),
            authors,
            abst: Some(abst),
            pdf_en_link: Some(pdf_en_link),
            pdf_ja_link: Some(pdf_ja_link),
            html_en_link: None,
            html_ja_link: None,
            bib_link: Some(bib_link),
            date,
        };
        assert(article@ =~= nips_article(url@, page@).unwrap());
        Some(article)
    }

    /// The PMLR paper at `url` (its page or its PDF) whose page reads `page`.
    pub fn from_pmlr(url: &str, page: &str, now: i64) -> (res: Option<Article>)
        requires
            pmlr_url_ok(url@),
        ensures
            viewed(res) == pmlr_article(url@, page@, now),
    {
        let id = pmlr_id_of(url);
        let abs_link = concat("http://proceedings.mlr.press/", id.as_str());
        let pdf_en_link = concat(abs_link.as_str(), ".pdf");
        let pdf_ja_link = convert_google_translation_url(pdf_en_link.as_str());
        let title = match page_meta(page, "citation_title") {
            Some(v) => v,
            None => return None,
        };
        let volume = match page_meta(page, "citation_conference_title") {
            Some(v) => v,
            None => return None,
        };
        let authors = match page_meta_all(page, "citation_author") {
            Some(v) => v,
            None => return None,
        };
        let abst_text = match first_text(page, ".abstract") {
            Some(v) => v,
            None => return None,
        };
        let date_text = match page_meta(page, "citation_publication_date") {
            Some(v) => v,
            None => return None,
        };
        let date = match citation_timestamp(date_text.as_str(), DateOrder::YearMonthDay, now) {
            Some(d) => d,
            None => return None,
        };
        let abst = trim(abst_text.as_str());
        let url_ja = convert_google_translation_url(abs_link.as_str());
        let article = Article {
            preserver: string_from("PMLR"),
            id,
            title,
            volume: Some(volume),
            url: abs_link,
            url_ja: Some(url_ja),
            authors,
            abst: Some(abst),
            pdf_en_link: Some(pdf_en_link),
            pdf_ja_link: Some(pdf_ja_link),
            html_en_link: None,
            html_ja_link: None,
            bib_link: None,
            date,
        };
        assert(article@ =~= pmlr_article(url@, page@, now).unwrap());
        Some(article)
    }

    /// Whether the bot looks the paper up on arXiv: whenever its archive is
    /// not named `arxiv` (which no archive's name is written as).
    pub fn needs_arxiv_lookup(&self) -> (res: bool)
        ensures
            res == (self.preserver@ != "arxiv"@),
    {
        !text_eq(self.preserver.as_str(), "arxiv")
    }

    /// The arXiv API query that searches for this paper's title.
    pub fn arxiv_query_url(&self) -> (res: String)
        ensures
            res@ == arxiv_query(self.title@),
    {
        concat3(
            "http://export.arxiv.org/api/query?search_query=ti:",
            self.title.as_str(),
            "&max_results=1",
        )
    }

    /// This paper, with the abstract, Japanese abstract page and HTML
    /// renderings that it lacks taken from the same paper on arXiv.
    pub fn merge_arxiv(&self, arxiv: Article) -> (res: Article)
        ensures
            res@ == merged_with_arxiv(self@, arxiv@),
    {
        let mut article = self.copy();
        if article.abst.is_none() {
            article.abst = arxiv.abst;
        }
        if article.url_ja.is_none() {
            article.url_ja = arxiv.url_ja;
        }
        if article.html_en_link.is_none() {
            article.html_en_link = arxiv.html_en_link;
        }
        if article.html_ja_link.is_none() {
            article.html_ja_link = arxiv.html_ja_link;
        }
        assert(article@ =~= merged_with_arxiv(self@, arxiv@));
        article
    }
}

} // verus!
