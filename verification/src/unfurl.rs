//! The steps that turn one shared link into an attachment: which page to
//! fetch next, and what to do with what came back. The caller does the
//! fetching and the sending.
use vstd::prelude::*;
use crate::article::{arxiv_article, arxiv_query, merged_with_arxiv, viewed, Article, ArticleView};
use crate::attachment::{attachment_of, Attachment, AttachmentView};
use crate::feed::{lookup_of, xml_feed_events, Lookup, LookupView};
use crate::links::{arxiv_abs, arxiv_abs_link};
use crate::source::{page_article, page_link, source_of_domain, Source};
use crate::text::string_from;

verus! {

/// What the caller does next.
#[derive(Debug)]
pub enum Action {
    /// Fetch this address and hand its body to [`Unfurl::advance`].
    Fetch(String),
    /// Send this attachment for the link; the link is done.
    Send(Attachment),
    /// The link is not a paper of a known archive; nothing to send.
    Skip,
    /// The page did not describe the paper as expected; stop handling links.
    Abort,
}

/// How far a link has come.
#[derive(Debug)]
pub enum Unfurl {
    /// Waiting for the page that describes the paper at `url`.
    AwaitPage { source: Source, url: String },
    /// Waiting for the arXiv API's search for the paper's title.
    AwaitFeed { article: Article },
    /// Waiting for the abstract page of the same paper on arXiv.
    AwaitArxivPage { article: Article, link: String },
    /// Nothing left to do.
    Finished,
}

pub enum ActionView {
    Fetch(Seq<char>),
    Send(AttachmentView),
    Skip,
    Abort,
}

pub enum UnfurlView {
    AwaitPage { source: Source, url: Seq<char> },
    AwaitFeed { article: ArticleView },
    AwaitArxivPage { article: ArticleView, link: Seq<char> },
    Finished,
}

impl View for Action {
    type V = ActionView;

    open spec fn view(&self) -> ActionView {
        match self {
            Action::Fetch(u) => ActionView::Fetch(u@),
            Action::Send(a) => ActionView::Send(a@),
            Action::Skip => ActionView::Skip,
            Action::Abort => ActionView::Abort,
        }
    }
}

impl View for Unfurl {
    type V = UnfurlView;

    open spec fn view(&self) -> UnfurlView {
        match self {
            Unfurl::AwaitPage { source, url } => UnfurlView::AwaitPage { source: *source, url: url@ },
            Unfurl::AwaitFeed { article } => UnfurlView::AwaitFeed { article: article@ },
            Unfurl::AwaitArxivPage { article, link } => UnfurlView::AwaitArxivPage {
                article: article@,
                link: link@,
            },
            Unfurl::Finished => UnfurlView::Finished,
        }
    }
}

/// The first step for a link to `url` on `domain`: fetch the paper's page.
pub open spec fn begin_spec(domain: Seq<char>, url: Seq<char>) -> (UnfurlView, ActionView) {
    match source_of_domain(domain) {
        Some(s) => match page_link(s, url) {
            Some(p) => (UnfurlView::AwaitPage { source: s, url }, ActionView::Fetch(p)),
            None => (UnfurlView::Finished, ActionView::Abort),
        },
        None => (UnfurlView::Finished, ActionView::Skip),
    }
}

/// With the paper's page: look the paper up on arXiv, unless its archive is
/// named `arxiv`, in which case its attachment is sent.
pub open spec fn after_page(a: Option<ArticleView>) -> (UnfurlView, ActionView) {
    match a {
        Some(a) => if a.preserver != "arxiv"@ {
            (UnfurlView::AwaitFeed { article: a }, ActionView::Fetch(arxiv_query(a.title)))
        } else {
            (UnfurlView::Finished, ActionView::Send(attachment_of(a)))
        },
        None => (UnfurlView::Finished, ActionView::Abort),
    }
}

/// With the same paper's arXiv page: send the paper's attachment, with
/// what it lacks taken from arXiv.
pub open spec fn after_arxiv_page(a: ArticleView, arxiv: Option<ArticleView>) -> (
    UnfurlView,
    ActionView,
) {
    match arxiv {
        Some(x) => (UnfurlView::Finished, ActionView::Send(attachment_of(merged_with_arxiv(a, x)))),
        None => (UnfurlView::Finished, ActionView::Abort),
    }
}

/// The step taken on the arXiv API's answer for the paper `a`: when the
/// feed names the same paper, fetch the arXiv page it links; when it names
/// another, send the paper's own attachment; when it cannot be read, stop.
pub open spec fn after_feed(a: ArticleView, lookup: LookupView) -> (UnfurlView, ActionView) {
    match lookup {
        LookupView::Found(link) => (
            UnfurlView::AwaitArxivPage { article: a, link },
            ActionView::Fetch(arxiv_abs_link(link)),
        ),
        LookupView::NotFound => (UnfurlView::Finished, ActionView::Send(attachment_of(a))),
        LookupView::Unreadable => (UnfurlView::Finished, ActionView::Abort),
    }
}

impl Unfurl {
    /// The first step for a link to `url` on `domain`.
    pub fn begin(domain: &str, url: &str) -> (res: (Unfurl, Action))
        ensures
            (res.0@, res.1@) == begin_spec(domain@, url@),
    {
        match Source::for_domain(domain) {
            Some(source) => match source.page_url(url) {
                Some(page) => (
                    Unfurl::AwaitPage { source, url: string_from(url) },
                    Action::Fetch(page),
                ),
                None => (Unfurl::Finished, Action::Abort),
            },
            None => (Unfurl::Finished, Action::Skip),
        }
    }

    /// The next step, given the body of the page that the last
    /// [`Action::Fetch`] asked for. `now` is the date given to a paper whose
    /// date has an unexpected shape.
    pub fn advance(self, body: &str, now: i64) -> (res: (Unfurl, Action))
        ensures
            match self@ {
                UnfurlView::AwaitPage { source, url } => (res.0@, res.1@) == after_page(
                    page_article(source, url, body@, now),
                ),
                UnfurlView::AwaitFeed { article } => (res.0@, res.1@) == after_feed(
                    article,
                    lookup_of(article.title, article.authors, xml_feed_events(body@)),
                ),
                UnfurlView::AwaitArxivPage { article, link } => (res.0@, res.1@)
                    == after_arxiv_page(article, arxiv_article(link, body@, now)),
                UnfurlView::Finished => res.0@ == UnfurlView::Finished && res.1@
                    == ActionView::Skip,
            },
    {
        match self {
            Unfurl::AwaitPage { source, url } => {
                match Article::from_page(source, url.as_str(), body, now) {
                    Some(article) => {
                        if article.needs_arxiv_lookup() {
                            let query = article.arxiv_query_url();
                            (Unfurl::AwaitFeed { article }, Action::Fetch(query))
                        } else {
                            (Unfurl::Finished, Action::Send(Attachment::new(article)))
                        }
                    },
                    None => (Unfurl::Finished, Action::Abort),
                }
            },
            Unfurl::AwaitFeed { article } => {
                match article.arxiv_link_in_feed(body) {
                    Lookup::Found(link) => {
                        let page = arxiv_abs(link.as_str());
                        (Unfurl::AwaitArxivPage { article, link }, Action::Fetch(page))
                    },
                    Lookup::NotFound => {
                        (Unfurl::Finished, Action::Send(Attachment::new(article)))
                    },
                    Lookup::Unreadable => (Unfurl::Finished, Action::Abort),
                }
            },
            Unfurl::AwaitArxivPage { article, link } => {
                match Article::from_arxiv(link.as_str(), body, now) {
                    Some(arxiv) => {
                        let merged = article.merge_arxiv(arxiv);
                        (Unfurl::Finished, Action::Send(Attachment::new(merged)))
                    },
                    None => (Unfurl::Finished, Action::Abort),
                }
            },
            Unfurl::Finished => (Unfurl::Finished, Action::Skip),
        }
    }
}

} // verus!
