use paper_unfurl::article::Article;
use paper_unfurl::attachment::{shorten_abstract, Attachment};
use paper_unfurl::feed::{read_feed, resolve_reference, FeedEvent, FeedSummary, Lookup};
use paper_unfurl::links::convert_google_translation_url;
use paper_unfurl::unfurl::{Action, Unfurl};

fn paper(preserver: &str) -> Article {
    Article {
        preserver: preserver.to_string(),
        id: "3730".to_string(),
        title: "Streaming Pointwise Mutual Information".to_string(),
        volume: Some("NIPS 22".to_string()),
        url: "http://papers.nips.cc/paper/3730-spmi".to_string(),
        url_ja: None,
        authors: vec!["Benjamin V. Durme".to_string(), "Ashwin Lall".to_string()],
        abst: Some("Short abstract.".to_string()),
        pdf_en_link: Some("http://papers.nips.cc/paper/3730-spmi.pdf".to_string()),
        pdf_ja_link: None,
        html_en_link: None,
        html_ja_link: None,
        bib_link: Some("http://papers.nips.cc/paper/3730-spmi/bibtex".to_string()),
        date: 1230768000,
    }
}

#[test]
fn attachment_describes_the_paper() {
    let a = Attachment::new(paper("NIPS Proceedings"));
    assert_eq!(
        a.text,
        "<http://papers.nips.cc/paper/3730-spmi.pdf|pdf> | <http://papers.nips.cc/paper/3730-spmi/bibtex|bib>"
    );
    assert_eq!(a.author_name, "Benjamin V. Durme, Ashwin Lall");
    assert_eq!(a.title, "[3730] Streaming Pointwise Mutual Information");
    assert_eq!(a.title_link, "http://papers.nips.cc/paper/3730-spmi");
    assert_eq!(a.color, "#F1652D");
    assert_eq!(a.footer, "NIPS Proceedings");
    assert_eq!(a.footer_icon, Some("https://www.google.com/s2/favicons?domain=papers.nips.cc".to_string()));
    assert_eq!(a.ts, 1230768000);
    assert_eq!(a.fields.len(), 2);
    assert_eq!(a.fields[0].title, "Abstract");
    assert_eq!(a.fields[0].value, "Short abstract.");
    assert!(!a.fields[0].short);
    assert_eq!(a.fields[1].title, "Volume");
    assert_eq!(a.fields[1].value, "NIPS 22");
}

#[test]
fn attachment_link_order() {
    let mut p = paper("arXiv");
    p.url_ja = Some("J".to_string());
    p.pdf_ja_link = Some("PJ".to_string());
    p.html_en_link = Some("H".to_string());
    p.html_ja_link = Some("HJ".to_string());
    p.pdf_en_link = Some("P".to_string());
    p.bib_link = Some("B".to_string());
    let a = Attachment::new(p);
    assert_eq!(a.text, "<J|abstract (ja)> | <P|pdf> | <PJ|pdf (ja)> | <H|html> | <HJ|html (ja)> | <B|bib>");
    assert_eq!(a.color, "#B22121");
    assert_eq!(a.footer_icon, Some("http://i.imgur.com/8NYocT8.gif".to_string()));
}

#[test]
fn attachment_styles() {
    let styles = [
        ("OpenReview", "#8B211A", None),
        ("ACL Anthology", "#FD0003", Some("http://aclweb.org/anthology/images/acl-logo.gif")),
        ("ACM", "#638F36", Some("https://www.google.com/s2/favicons?domain=dl.acm.org")),
        ("PMLR", "#112567", Some("http://proceedings.mlr.press/img/favicon.ico")),
        ("Elsewhere", "#DDDDDD", None),
    ];
    for (name, color, icon) in styles {
        let mut p = paper(name);
        p.abst = None;
        p.volume = None;
        p.pdf_en_link = None;
        p.bib_link = None;
        let a = Attachment::new(p);
        assert_eq!(a.color, color);
        assert_eq!(a.footer_icon, icon.map(|s| s.to_string()));
        assert_eq!(a.text, "");
        assert!(a.fields.is_empty());
    }
}

#[test]
fn long_abstract_is_cut_to_forty_words() {
    let words: Vec<String> = (1..=45).map(|i| format!("w{}", i)).collect();
    let abst = words.join(" ");
    let short = shorten_abstract(&abst);
    assert_eq!(short, format!("{} ...", words[..39].join(" ")));
    assert_eq!(short.split(' ').count(), 40);
    let forty = words[..40].join(" ");
    assert_eq!(shorten_abstract(&forty), forty);
    let forty_one = words[..41].join(" ");
    assert_eq!(shorten_abstract(&forty_one).split(' ').count(), 40);
}

#[test]
fn translation_address() {
    assert_eq!(
        convert_google_translation_url("http://x.org/a"),
        "https://translate.google.co.jp/translate?sl=en&tl=ja&js=y&prev=_t&hl=ja&ie=UTF-8&u=http://x.org/a&edit-text=&act=url"
    );
}

const FEED: &str = r#"<?xml version="1.0" encoding="UTF-8"?>
<feed xmlns="http://www.w3.org/2005/Atom">
  <link href="http://arxiv.org/api/query?search_query=ti" rel="self" type="application/atom+xml"/>
  <title type="html">ArXiv Query: search_query=ti</title>
  <entry>
    <title>Questions &amp; Answers on the Web</title>
    <author>
      <name>Alon Talmor</name>
    </author>
    <author>
      <name>Jonathan Berant</name>
    </author>
    <link href="http://arxiv.org/abs/1803.06643v1" rel="alternate" type="text/html"/>
    <link title="pdf" href="http://arxiv.org/pdf/1803.06643v1" rel="related" type="application/pdf"/>
  </entry>
</feed>
"#;

#[test]
fn feed_summary() {
    let events = read_feed(FEED).unwrap();
    let summary = FeedSummary::from_events(&events).unwrap();
    assert_eq!(summary.title, "Questions & Answers on the Web");
    assert_eq!(summary.authors, vec!["Alon Talmor".to_string(), "Jonathan Berant".to_string()]);
    assert_eq!(summary.link, "http://arxiv.org/pdf/1803.06643v1");
}

#[test]
fn feed_references() {
    assert_eq!(resolve_reference("amp"), Some("&".to_string()));
    assert_eq!(resolve_reference("lt"), Some("<".to_string()));
    assert_eq!(resolve_reference("#x41"), Some("A".to_string()));
    assert_eq!(resolve_reference("#66"), Some("B".to_string()));
    assert_eq!(resolve_reference("nbsp"), None);
    let events = read_feed("<title>a &nbsp; b</title>").unwrap();
    assert!(FeedSummary::from_events(&events).is_none());
    let events = read_feed("<feed><title>\n  A &lt;B&gt; &#67;  \n</title></feed>").unwrap();
    assert_eq!(FeedSummary::from_events(&events).unwrap().title, "A <B> C");
    assert!(read_feed("<a><b></a>").is_none());
}

#[test]
fn feed_link_without_href() {
    let events = read_feed("<feed><link rel=\"self\"/></feed>").unwrap();
    assert!(FeedSummary::from_events(&events).is_none());
    let events = vec![FeedEvent::Eof];
    assert!(FeedSummary::from_events(&events).is_none());
}

#[test]
fn same_paper_on_arxiv() {
    let mut p = paper("ACM");
    p.title = "Questions & Answers on the Web".to_string();
    p.authors = vec!["Alon Talmor".to_string(), "Jonathan Berant".to_string()];
    match p.arxiv_link_in_feed(FEED) {
        Lookup::Found(link) => assert_eq!(link, "http://arxiv.org/pdf/1803.06643v1"),
        other => panic!("expected the arXiv link, got {:?}", other),
    }
    p.authors.reverse();
    assert!(matches!(p.arxiv_link_in_feed(FEED), Lookup::NotFound));
    assert!(matches!(p.arxiv_link_in_feed("<a><b></a>"), Lookup::Unreadable));
    assert!(matches!(p.arxiv_link_in_feed("<feed><link/></feed>"), Lookup::Unreadable));
    assert_eq!(p.arxiv_query_url(), "http://export.arxiv.org/api/query?search_query=ti:Questions & Answers on the Web&max_results=1");
}

#[test]
fn merge_takes_only_what_is_missing() {
    let p = paper("NIPS Proceedings");
    let mut x = paper("arXiv");
    x.abst = Some("Long abstract.".to_string());
    x.url_ja = Some("J".to_string());
    x.html_en_link = Some("H".to_string());
    x.html_ja_link = Some("HJ".to_string());
    x.pdf_en_link = Some("other".to_string());
    let m = p.merge_arxiv(x);
    assert_eq!(m.abst, Some("Short abstract.".to_string()));
    assert_eq!(m.url_ja, Some("J".to_string()));
    assert_eq!(m.html_en_link, Some("H".to_string()));
    assert_eq!(m.html_ja_link, Some("HJ".to_string()));
    assert_eq!(m.pdf_en_link, Some("http://papers.nips.cc/paper/3730-spmi.pdf".to_string()));
    assert_eq!(m.preserver, "NIPS Proceedings");
}

#[test]
fn every_paper_is_looked_up() {
    for name in ["arXiv", "OpenReview", "ACL Anthology", "ACM", "NIPS Proceedings", "PMLR"] {
        assert!(paper(name).needs_arxiv_lookup());
    }
    assert!(!paper("arxiv").needs_arxiv_lookup());
}

#[test]
fn unfurl_skips_unknown_domains() {
    let (state, action) = Unfurl::begin("example.com", "http://example.com/x");
    assert!(matches!(action, Action::Skip));
    let (_, action) = state.advance("", 0);
    assert!(matches!(action, Action::Skip));
}

#[test]
fn unfurl_aborts_on_a_page_without_paper() {
    let (state, action) = Unfurl::begin("arxiv.org", "https://arxiv.org/pdf/1803.06643v1");
    match action {
        Action::Fetch(url) => assert_eq!(url, "https://arxiv.org/abs/1803.06643v1"),
        _ => panic!("expected a fetch"),
    }
    let (_, action) = state.advance("<html></html>", 0);
    assert!(matches!(action, Action::Abort));
    let (_, action) = Unfurl::begin("papers.nips.cc", "bibtex");
    assert!(matches!(action, Action::Abort));
}

#[test]
fn unfurl_without_arxiv_match() {
    let page = "<html><head><meta name=\"citation_pdf_url\" content=\"http://dl.acm.org/p.pdf\"><meta name=\"citation_title\" content=\"T\"><meta name=\"citation_authors\" content=\"A; B\"><meta name=\"citation_date\" content=\"05/27/2003\"></head></html>";
    let (state, action) = Unfurl::begin("dl.acm.org", "https://dl.acm.org/citation.cfm?id=7");
    assert!(matches!(action, Action::Fetch(ref u) if u == "https://dl.acm.org/citation.cfm?id=7"));
    let (state, action) = state.advance(page, 0);
    assert!(matches!(action, Action::Fetch(ref u) if u == "http://export.arxiv.org/api/query?search_query=ti:T&max_results=1"));
    let (state, action) = state.advance(FEED, 0);
    match action {
        Action::Send(a) => {
            assert_eq!(a.title, "[7] T");
            assert_eq!(a.author_name, "A, B");
            assert_eq!(a.ts, 1053993600);
        },
        _ => panic!("expected an attachment"),
    }
    assert!(matches!(state, Unfurl::Finished));
}

#[test]
fn unfurl_with_arxiv_match() {
    let page = "<html><head><meta name=\"citation_pdf_url\" content=\"http://dl.acm.org/p.pdf\"><meta name=\"citation_title\" content=\"Questions &amp; Answers on the Web\"><meta name=\"citation_authors\" content=\"Alon Talmor; Jonathan Berant\"><meta name=\"citation_date\" content=\"05/27/2003\"></head></html>";
    let arxiv_page = "<html><head><meta name=\"citation_title\" content=\"Questions &amp; Answers on the Web\"><meta name=\"citation_arxiv_id\" content=\"1803.06643\"><meta name=\"citation_date\" content=\"2018/03/18\"></head><body><div class=\"authors\">Authors: Alon Talmor, Jonathan Berant</div><blockquote class=\"abstract\">Abstract: An abstract.</blockquote></body></html>";
    let (state, _) = Unfurl::begin("delivery.acm.org", "https://dl.acm.org/citation.cfm?id=7");
    let (state, _) = state.advance(page, 0);
    let (state, action) = state.advance(FEED, 0);
    assert!(matches!(action, Action::Fetch(ref u) if u == "http://arxiv.org/abs/1803.06643v1"));
    let (state, action) = state.advance(arxiv_page, 0);
    match action {
        Action::Send(a) => {
            assert_eq!(a.footer, "ACM");
            assert_eq!(a.fields[0].value, "An abstract.");
            assert!(a.text.contains("<https://www.arxiv-vanity.com/papers/1803.06643/|html>"));
        },
        _ => panic!("expected an attachment"),
    }
    assert!(matches!(state, Unfurl::Finished));
}

#[test]
fn unfurl_aborts_on_an_unreadable_feed() {
    let page = "<html><head><meta name=\"citation_pdf_url\" content=\"p\"><meta name=\"citation_title\" content=\"T\"><meta name=\"citation_authors\" content=\"A\"><meta name=\"citation_date\" content=\"x\"></head></html>";
    let (state, _) = Unfurl::begin("dl.acm.org", "https://dl.acm.org/citation.cfm?id=7");
    let (state, _) = state.advance(page, 0);
    let (state, action) = state.advance("<feed><title>T</feed>", 0);
    assert!(matches!(action, Action::Abort));
    assert!(matches!(state, Unfurl::Finished));
}
