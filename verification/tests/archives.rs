use paper_unfurl::article::Article;
use paper_unfurl::source::Source;

const ARXIV_ABSTRACT: &str = "Answering complex questions is a time-consuming activity for humans that requires reasoning and integration of information. Recent work on reading comprehension made headway in answering simple questions, but tackling complex questions is still an ongoing research challenge. Conversely, semantic parsers have been successful at handling compositionality, but only when the information resides in a target knowledge-base. In this paper, we present a novel framework for answering broad and complex questions, assuming answering simple questions is possible using a search engine and a reading comprehension model. We propose to decompose complex questions into a sequence of simple questions, and compute the final answer from the sequence of answers. To illustrate the viability of our approach, we create a new dataset of complex questions, ComplexWebQuestions, and present a model that decomposes questions and interacts with the web to compute an answer. We empirically demonstrate that question decomposition improves performance from 20.8 precision@1 to 27.5 precision@1 on this new dataset.";

const OPENREVIEW_ABSTRACT: &str = "Generative models provide a way to model structure in complex distributions and have been shown to be useful for many tasks of practical interest. However, current techniques for training generative models require access to fully-observed samples. In many settings, it is expensive or even impossible to obtain fully-observed samples, but economical to obtain partial, noisy observations. We consider the task of learning an implicit generative model given only lossy measurements of samples from the distribution of interest. We show that the true underlying distribution can be provably recovered even in the presence of per-sample information loss for a class of measurement models. Based on this, we propose a new method of training Generative Adversarial Networks (GANs) which we call AmbientGAN. On three benchmark datasets, and for various measurement models, we demonstrate substantial qualitative and quantitative improvements. Generative models trained with our method can obtain $2$-$4$x higher inception scores than the baselines.";

const NIPS_ABSTRACT: &str = "Recent work has led to the ability to perform space efﬁcient, approximate counting  over large vocabularies in a streaming context. Motivated by the existence of data  structures of this type, we explore the computation of associativity scores, other-  wise known as pointwise mutual information (PMI), in a streaming context. We  give theoretical bounds showing the impracticality of perfect online PMI compu-  tation, and detail an algorithm with high expected accuracy. Experiments on news  articles show our approach gives high accuracy on real world data.";

const PMLR_ABSTRACT: &str = r#"Crowdsourcing is a very popular means of obtaining the large amounts of labeled data that modern machine learning methods require. Although cheap and fast to obtain, crowdsourced labels suffer from significant amounts of error, thereby degrading the performance of downstream machine learning tasks. With the goal of improving the quality of the labeled data, we seek to mitigate the many errors that occur due to silly mistakes or inadvertent errors by crowdsourcing workers. We propose a two-stage setting for crowdsourcing where the worker first answers the questions, and is then allowed to change her answers after looking at a (noisy) reference answer. We mathematically formulate this process and develop mechanisms to incentivize workers to act appropriately. Our mathematical guarantees show that our mechanism incentivizes the workers to answer honestly in both stages, and refrain from answering randomly in the first stage or simply copying in the second. Numerical experiments reveal a significant boost in performance that such "self-correction" can provide when using crowdsourcing to train machine learning algorithms."#;

fn escape(text: &str) -> String {
    text.replace('&', "&amp;").replace('"', "&quot;").replace('<', "&lt;")
}

fn meta(name: &str, content: &str) -> String {
    format!("<meta name=\"{}\" content=\"{}\">\n", name, escape(content))
}

fn arxiv_page() -> String {
    format!(
        "<html><head>{}{}{}</head><body>\n<div class=\"authors\"><span class=\"descriptor\">Authors:</span>\n<a href=\"/a/talmor_a_1\">Alon Talmor</a>, <a href=\"/a/berant_j_1\">Jonathan Berant</a></div>\n<blockquote class=\"abstract\">\n<span class=\"descriptor\">Abstract:</span> {}\n</blockquote></body></html>",
        meta("citation_title", "The Web as a Knowledge-base for Answering Complex Questions"),
        meta("citation_arxiv_id", "1803.06643"),
        meta("citation_date", "2018/03/18"),
        escape(ARXIV_ABSTRACT),
    )
}

fn openreview_page() -> String {
    format!(
        "<html><head>{}{}{}{}{}</head><body><span class=\"note-content-value\">\n  {}  \n</span></body></html>",
        meta("citation_title", "AmbientGAN: Generative models from lossy measurements"),
        meta("citation_author", "Ashish Bora"),
        meta("citation_author", "Eric Price"),
        meta("citation_author", "Alexandros G. Dimakis"),
        meta("citation_online_date", "2018/02/15"),
        escape(OPENREVIEW_ABSTRACT),
    )
}

fn acm_page() -> String {
    format!(
        "<html><head>{}{}{}{}</head><body></body></html>",
        meta("citation_pdf_url", "http://dl.acm.org/ft_gateway.cfm?id=1073465&type=pdf"),
        meta("citation_title", "Automatic evaluation of summaries using N-gram co-occurrence statistics"),
        meta("citation_authors", "Lin, Chin-Yew; Hovy, Eduard"),
        meta("citation_date", "05/27/2003"),
    )
}

fn nips_page() -> String {
    format!(
        "<html><head>{}{}{}{}{}</head><body><p class=\"abstract\">{}</p></body></html>",
        meta("citation_title", "Streaming Pointwise Mutual Information"),
        meta("citation_conference_title", "Advances in Neural Information Processing Systems 22"),
        meta("citation_author", "Benjamin V. Durme"),
        meta("citation_author", "Ashwin Lall"),
        meta("citation_publication_date", "2009"),
        escape(NIPS_ABSTRACT),
    )
}

fn pmlr_page() -> String {
    format!(
        "<html><head>{}{}{}{}{}</head><body><div id=\"abstract\" class=\"abstract\">\n        {}\n    </div></body></html>",
        meta("citation_title", "No Oops, You Won’t Do It Again: Mechanisms for Self-correction in Crowdsourcing"),
        meta("citation_conference_title", "International Conference on Machine Learning"),
        meta("citation_author", "Nihar Shah"),
        meta("citation_author", "Dengyong Zhou"),
        meta("citation_publication_date", "2016/06/11"),
        escape(PMLR_ABSTRACT),
    )
}

#[test]
fn test_arxiv() {
    let url = "https://arxiv.org/abs/1803.06643v1";
    assert_eq!(Source::Arxiv.page_url(url), Some("https://arxiv.org/abs/1803.06643v1".to_string()));
    let article = Article::from_arxiv(url, &arxiv_page(), 0).unwrap();
    assert_eq!(article.id, "1803.06643".to_string());
    assert_eq!(article.title, "The Web as a Knowledge-base for Answering Complex Questions".to_string());
    assert_eq!(article.url, "https://arxiv.org/abs/1803.06643v1".to_string());
    assert_eq!(article.authors, vec!["Alon Talmor".to_string(), "Jonathan Berant".to_string()]);
    assert_eq!(article.abst, Some(ARXIV_ABSTRACT.to_string()));
    assert_eq!(article.pdf_en_link, Some("https://arxiv.org/pdf/1803.06643v1".to_string()));
}

#[test]
fn test_openreview() {
    let url = "https://openreview.net/forum?id=Hy7fDog0b";
    assert_eq!(Source::OpenReview.page_url(url), Some("https://openreview.net/forum?id=Hy7fDog0b".to_string()));
    let article = Article::from_openreview(url, &openreview_page(), 0).unwrap();
    assert_eq!(article.id, "Hy7fDog0b".to_string());
    assert_eq!(article.title, "AmbientGAN: Generative models from lossy measurements".to_string());
    assert_eq!(article.url, "https://openreview.net/forum?id=Hy7fDog0b".to_string());
    assert_eq!(article.authors, vec!["Ashish Bora".to_string(), "Eric Price".to_string(), "Alexandros G. Dimakis".to_string()]);
    assert_eq!(article.abst, Some(OPENREVIEW_ABSTRACT.to_string()));
    assert_eq!(article.pdf_en_link, Some("https://openreview.net/pdf?id=Hy7fDog0b".to_string()));
}

#[test]
fn test_acm() {
    let url = "https://dl.acm.org/citation.cfm?id=1073465";
    assert_eq!(Source::Acm.page_url(url), Some("https://dl.acm.org/citation.cfm?id=1073465".to_string()));
    let article = Article::from_acm(url, &acm_page(), 0).unwrap();
    assert_eq!(article.id, "1073465".to_string());
    assert_eq!(article.title, "Automatic evaluation of summaries using N-gram co-occurrence statistics".to_string());
    assert_eq!(article.authors, vec!["Lin, Chin-Yew".to_string(), "Hovy, Eduard".to_string()]);
    assert_eq!(article.abst, None);
    assert_eq!(article.pdf_en_link, Some("http://dl.acm.org/ft_gateway.cfm?id=1073465&type=pdf".to_string()));
}

fn check_nips(url: &str) {
    assert_eq!(
        Source::Nips.page_url(url),
        Some("http://papers.nips.cc/paper/3730-streaming-pointwise-mutual-information".to_string())
    );
    let article = Article::from_nips(url, &nips_page()).unwrap();
    assert_eq!(article.id, "3730".to_string());
    assert_eq!(article.title, "Streaming Pointwise Mutual Information".to_string());
    assert_eq!(article.url, "http://papers.nips.cc/paper/3730-streaming-pointwise-mutual-information".to_string());
    assert_eq!(article.authors, vec!["Benjamin V. Durme".to_string(), "Ashwin Lall".to_string()]);
    assert_eq!(article.abst, Some(NIPS_ABSTRACT.to_string()));
    assert_eq!(article.pdf_en_link, Some("http://papers.nips.cc/paper/3730-streaming-pointwise-mutual-information.pdf".to_string()));
}

#[test]
fn test_nips() {
    check_nips("http://papers.nips.cc/paper/3730-streaming-pointwise-mutual-information");
    check_nips("http://papers.nips.cc/paper/3730-streaming-pointwise-mutual-information.pdf");
    check_nips("http://papers.nips.cc/paper/3730-streaming-pointwise-mutual-information/bibtex");
}

fn check_pmlr(url: &str) {
    assert_eq!(Source::Pmlr.page_url(url), Some("http://proceedings.mlr.press/v48/shaha16".to_string()));
    let article = Article::from_pmlr(url, &pmlr_page(), 0).unwrap();
    assert_eq!(article.id, "v48/shaha16".to_string());
    assert_eq!(article.title, "No Oops, You Won’t Do It Again: Mechanisms for Self-correction in Crowdsourcing".to_string());
    assert_eq!(article.url, "http://proceedings.mlr.press/v48/shaha16".to_string());
    assert_eq!(article.authors, vec!["Nihar Shah".to_string(), "Dengyong Zhou".to_string()]);
    assert_eq!(article.abst, Some(PMLR_ABSTRACT.to_string()));
    assert_eq!(article.pdf_en_link, Some("http://proceedings.mlr.press/v48/shaha16.pdf".to_string()));
}

#[test]
fn test_pmlr() {
    check_pmlr("http://proceedings.mlr.press/v48/shaha16.html");
    check_pmlr("http://proceedings.mlr.press/v48/shaha16.pdf");
}

#[test]
fn arxiv_other_fields_and_date() {
    let article = Article::from_arxiv("https://arxiv.org/pdf/1803.06643v1", &arxiv_page(), 7).unwrap();
    assert_eq!(article.preserver, "arXiv");
    assert_eq!(article.url, "https://arxiv.org/abs/1803.06643v1");
    assert_eq!(article.date, 1521331200);
    assert_eq!(article.volume, None);
    assert_eq!(article.bib_link, None);
    assert_eq!(article.html_en_link, Some("https://www.arxiv-vanity.com/papers/1803.06643/".to_string()));
    assert_eq!(
        article.html_ja_link,
        Some("https://translate.google.co.jp/translate?sl=en&tl=ja&js=y&prev=_t&hl=ja&ie=UTF-8&u=https://www.arxiv-vanity.com/papers/1803.06643/&edit-text=&act=url".to_string())
    );
    assert_eq!(
        article.url_ja,
        Some("https://translate.google.co.jp/translate?sl=en&tl=ja&js=y&prev=_t&hl=ja&ie=UTF-8&u=https://arxiv.org/abs/1803.06643v1&edit-text=&act=url".to_string())
    );
}

#[test]
fn openreview_date_and_links() {
    let article = Article::from_openreview("https://openreview.net/forum?id=Hy7fDog0b", &openreview_page(), 0).unwrap();
    assert_eq!(article.preserver, "OpenReview");
    assert_eq!(article.date, 1518652800);
    assert_eq!(article.html_en_link, None);
    assert_eq!(
        article.pdf_ja_link,
        Some("https://translate.google.co.jp/translate?sl=en&tl=ja&js=y&prev=_t&hl=ja&ie=UTF-8&u=https://openreview.net/pdf?id=Hy7fDog0b&edit-text=&act=url".to_string())
    );
}

#[test]
fn acm_date_is_month_day_year() {
    let article = Article::from_acm("https://dl.acm.org/citation.cfm?id=1073465", &acm_page(), 0).unwrap();
    assert_eq!(article.date, 1053993600);
    assert_eq!(article.preserver, "ACM");
}

#[test]
fn nips_year_and_bibtex() {
    let article = Article::from_nips("http://papers.nips.cc/paper/3730-streaming-pointwise-mutual-information", &nips_page()).unwrap();
    assert_eq!(article.date, 1230768000);
    assert_eq!(article.bib_link, Some("http://papers.nips.cc/paper/3730-streaming-pointwise-mutual-information/bibtex".to_string()));
    assert_eq!(article.volume, Some("Advances in Neural Information Processing Systems 22".to_string()));
}

#[test]
fn pmlr_date() {
    let article = Article::from_pmlr("http://proceedings.mlr.press/v48/shaha16.html", &pmlr_page(), 0).unwrap();
    assert_eq!(article.date, 1465603200);
    assert_eq!(article.preserver, "PMLR");
}

#[test]
fn aclweb_from_pdf_address() {
    let page = format!(
        "<html><head>{}{}{}{}{}</head></html>",
        meta("citation_title", "A Paper"),
        meta("citation_journal_title", "Proceedings of ACL"),
        meta("citation_author", "Ann Author"),
        meta("citation_author", "Bob Writer"),
        meta("citation_publication_date", "2018"),
    );
    let url = "http://aclweb.org/anthology/p18-1001.pdf";
    assert_eq!(Source::AclWeb.page_url(url), Some("https://aclanthology.info/papers/P18-1001/p18-1001".to_string()));
    let article = Article::from_aclweb(url, &page).unwrap();
    assert_eq!(article.id, "P18-1001");
    assert_eq!(article.url, "https://aclanthology.info/papers/P18-1001/p18-1001");
    assert_eq!(article.pdf_en_link, Some("http://aclweb.org/anthology/P18-1001".to_string()));
    assert_eq!(article.bib_link, Some("https://aclanthology.info/papers/P18-1001/p18-1001.bib".to_string()));
    assert_eq!(article.authors, vec!["Ann Author".to_string(), "Bob Writer".to_string()]);
    assert_eq!(article.volume, Some("Proceedings of ACL".to_string()));
    assert_eq!(article.url_ja, None);
    assert_eq!(article.date, 1514764800);
}

#[test]
fn odd_date_shape_gives_now() {
    let page = arxiv_page().replace("2018/03/18", "2018-03-18");
    let article = Article::from_arxiv("https://arxiv.org/abs/1803.06643v1", &page, 42).unwrap();
    assert_eq!(article.date, 42);
}

#[test]
fn impossible_date_gives_no_article() {
    let page = arxiv_page().replace("2018/03/18", "2018/13/18");
    assert!(Article::from_arxiv("https://arxiv.org/abs/1803.06643v1", &page, 0).is_none());
    let page = arxiv_page().replace("2018/03/18", "2018/xx/18");
    assert!(Article::from_arxiv("https://arxiv.org/abs/1803.06643v1", &page, 0).is_none());
}

#[test]
fn missing_title_gives_no_article() {
    let page = "<html><head></head><body></body></html>";
    assert!(Article::from_arxiv("https://arxiv.org/abs/1", page, 0).is_none());
    assert!(Article::from_openreview("https://openreview.net/forum?id=x", page, 0).is_none());
    assert!(Article::from_acm("https://dl.acm.org/citation.cfm?id=1", page, 0).is_none());
    assert!(Article::from_nips("http://papers.nips.cc/paper/1-x", page).is_none());
    assert!(Article::from_pmlr("http://proceedings.mlr.press/v1/x.html", page, 0).is_none());
    assert!(Article::from_aclweb("http://aclweb.org/anthology/P18-1001.pdf", page).is_none());
}

#[test]
fn author_without_name_gives_no_article() {
    let page = nips_page().replace("<meta name=\"citation_author\" content=\"Ashwin Lall\">", "<meta name=\"citation_author\">");
    assert!(Article::from_nips("http://papers.nips.cc/paper/3730-x", &page).is_none());
}

#[test]
fn openreview_without_id_gives_no_article() {
    assert!(Article::from_openreview("https://openreview.net/forum?paper=1", &openreview_page(), 0).is_none());
    assert_eq!(Source::OpenReview.page_url("https://openreview.net/forum?paper=1"), None);
    assert_eq!(Source::OpenReview.page_url("not a url"), None);
}

#[test]
fn query_keeps_the_last_id() {
    assert_eq!(
        Source::Acm.page_url("https://dl.acm.org/citation.cfm?id=1&id=2"),
        Some("https://dl.acm.org/citation.cfm?id=2".to_string())
    );
}

#[test]
fn domains_choose_archives() {
    assert_eq!(Source::for_domain("arxiv.org"), Some(Source::Arxiv));
    assert_eq!(Source::for_domain("openreview.net"), Some(Source::OpenReview));
    assert_eq!(Source::for_domain("aclweb.org"), Some(Source::AclWeb));
    assert_eq!(Source::for_domain("aclanthology.coli.uni-saarland.de"), Some(Source::AclWeb));
    assert_eq!(Source::for_domain("aclanthology.info"), Some(Source::AclWeb));
    assert_eq!(Source::for_domain("dl.acm.org"), Some(Source::Acm));
    assert_eq!(Source::for_domain("delivery.acm.org"), Some(Source::Acm));
    assert_eq!(Source::for_domain("papers.nips.cc"), Some(Source::Nips));
    assert_eq!(Source::for_domain("proceedings.mlr.press"), Some(Source::Pmlr));
    assert_eq!(Source::for_domain("ieeexplore.ieee.org"), None);
}

#[test]
fn urls_that_name_no_paper() {
    assert!(!Source::Nips.accepts("bibtex"));
    assert!(Source::Nips.accepts("a/bibtex"));
    assert!(!Source::Pmlr.accepts("shaha16.html"));
    assert_eq!(Source::Pmlr.page_url("shaha16.html"), None);
    assert!(Article::from_page(Source::Pmlr, "shaha16.pdf", &pmlr_page(), 0).is_none());
    let article = Article::from_page(Source::Pmlr, "http://proceedings.mlr.press/v48/shaha16.pdf", &pmlr_page(), 0).unwrap();
    assert_eq!(article.id, "v48/shaha16");
}

#[test]
fn aclweb_case_variants_give_one_article() {
    let page = format!(
        "<html><head>{}{}{}{}</head></html>",
        meta("citation_title", "A Paper"),
        meta("citation_journal_title", "Proceedings of ACL"),
        meta("citation_author", "Ann Author"),
        meta("citation_publication_date", "2018"),
    );
    let a = Article::from_aclweb("http://aclweb.org/anthology/P18-1001.pdf", &page).unwrap();
    let b = Article::from_aclweb("https://aclanthology.info/papers/P18-1001/p18-1001", &page).unwrap();
    assert_eq!(format!("{:?}", a), format!("{:?}", b));
    assert_eq!(a.id, "P18-1001");
}

#[test]
fn nips_forms_give_one_article() {
    let base = "http://papers.nips.cc/paper/3730-streaming-pointwise-mutual-information";
    let plain = Article::from_nips(base, &nips_page()).unwrap();
    let pdf = Article::from_nips(&format!("{}.pdf", base), &nips_page()).unwrap();
    let bib = Article::from_nips(&format!("{}/bibtex", base), &nips_page()).unwrap();
    assert_eq!(format!("{:?}", plain), format!("{:?}", pdf));
    assert_eq!(format!("{:?}", plain), format!("{:?}", bib));
    assert_eq!(plain.url, base);
}
