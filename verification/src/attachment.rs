//! The message attachment that unfurls a paper's link in a chat.
use vstd::prelude::*;
use crate::article::{Article, ArticleView};
use crate::pages::concat3;
use crate::text::{concat, join, seq_join, seq_split, split, string_from, text_eq};

verus! {

/// One titled field of an attachment.
#[derive(Debug)]
pub struct AttachmentField {
    pub title: String,
    pub value: String,
    pub short: bool,
}

/// The value of an [`AttachmentField`].
#[verifier::ext_equal]
pub struct FieldView {
    pub title: Seq<char>,
    pub value: Seq<char>,
    pub short: bool,
}

impl View for AttachmentField {
    type V = FieldView;

    open spec fn view(&self) -> FieldView {
        FieldView { title: self.title@, value: self.value@, short: self.short }
    }
}

/// A message attachment describing a paper.
#[derive(Debug)]
pub struct Attachment {
    /// Links to the paper's versions, `<address|label>` joined by ` | `.
    pub text: String,
    pub color: String,
    pub author_name: String,
    pub title: String,
    pub title_link: String,
    pub fields: Vec<AttachmentField>,
    pub footer: String,
    pub footer_icon: Option<String>,
    /// The paper's date: seconds since 1970-01-01 00:00 UTC.
    pub ts: i64,
}

/// The value of an [`Attachment`].
#[verifier::ext_equal]
pub struct AttachmentView {
    pub text: Seq<char>,
    pub color: Seq<char>,
    pub author_name: Seq<char>,
    pub title: Seq<char>,
    pub title_link: Seq<char>,
    pub fields: Seq<FieldView>,
    pub footer: Seq<char>,
    pub footer_icon: Option<Seq<char>>,
    pub ts: i64,
}

impl View for Attachment {
    type V = AttachmentView;

    open spec fn view(&self) -> AttachmentView {
        AttachmentView {
            text: self.text@,
            color: self.color@,
            author_name: self.author_name@,
            title: self.title@,
            title_link: self.title_link@,
            fields: self.fields@.map_values(|f: AttachmentField| f@),
            footer: self.footer@,
            footer_icon: self.footer_icon.deep_view(),
            ts: self.ts,
        }
    }
}

/// A chat link to `link` that reads `label`.
pub open spec fn link_label(label: Seq<char>, link: Seq<char>) -> Seq<char> {
    "<"@ + link + "|"@ + label + ">"@
}

/// `acc` and, when there is a link, its chat link.
pub open spec fn with_link(acc: Seq<Seq<char>>, label: Seq<char>, link: Option<Seq<char>>) -> Seq<
    Seq<char>,
> {
    match link {
        Some(l) => acc.push(link_label(label, l)),
        None => acc,
    }
}

/// The chat links to the versions of the paper that it has, in the order
/// Japanese abstract, PDF, Japanese PDF, HTML, Japanese HTML, BibTeX.
pub open spec fn link_labels(a: ArticleView) -> Seq<Seq<char>> {
    with_link(
        with_link(
            with_link(
                with_link(
                    with_link(with_link(seq![], "abstract (ja)"@, a.url_ja), "pdf"@, a.pdf_en_link),
                    "pdf (ja)"@,
                    a.pdf_ja_link,
                ),
                "html"@,
                a.html_en_link,
            ),
            "html (ja)"@,
            a.html_ja_link,
        ),
        "bib"@,
        a.bib_link,
    )
}

/// The words of an abstract: its pieces between single spaces.
pub open spec fn words(abst: Seq<char>) -> Seq<Seq<char>> {
    seq_split(abst, " "@)
}

/// An abstract of more than 40 words is cut to its first 39 and ` ...`.
pub open spec fn shortened(abst: Seq<char>) -> Seq<char> {
    if words(abst).len() > 40 {
        seq_join(words(abst).subrange(0, 39), " "@) + " ..."@
    } else {
        abst
    }
}

/// A field that is not short.
pub open spec fn long_field(title: Seq<char>, value: Seq<char>) -> FieldView {
    FieldView { title, value, short: false }
}

/// The fields of the attachment: the (shortened) abstract, then the volume,
/// each where the paper has one.
pub open spec fn attachment_fields(a: ArticleView) -> Seq<FieldView> {
    let with_abst = match a.abst {
        Some(abst) => seq![long_field("Abstract"@, shortened(abst))],
        None => seq![],
    };
    match a.volume {
        Some(volume) => with_abst.push(long_field("Volume"@, volume)),
        None => with_abst,
    }
}

/// The colour of an archive's attachments.
pub open spec fn archive_color(preserver: Seq<char>) -> Seq<char> {
    if preserver == "arXiv"@ {
        "#B22121"@
    } else if preserver == "OpenReview"@ {
        "#8B211A"@
    } else if preserver == "ACL Anthology"@ {
        "#FD0003"@
    } else if preserver == "ACM"@ {
        "#638F36"@
    } else if preserver == "NIPS Proceedings"@ {
        "#F1652D"@
    } else if preserver == "PMLR"@ {
        "#112567"@
    } else {
        "#DDDDDD"@
    }
}

/// The icon of an archive, where it has one.
pub open spec fn archive_icon(preserver: Seq<char>) -> Option<Seq<char>> {
    if preserver == "arXiv"@ {
        Some("http://i.imgur.com/8NYocT8.gif"@)
    } else if preserver == "OpenReview"@ {
        None
    } else if preserver == "ACL Anthology"@ {
        Some("http://aclweb.org/anthology/images/acl-logo.gif"@)
    } else if preserver == "ACM"@ {
        Some("https://www.google.com/s2/favicons?domain=dl.acm.org"@)
    } else if preserver == "NIPS Proceedings"@ {
        Some("https://www.google.com/s2/favicons?domain=papers.nips.cc"@)
    } else if preserver == "PMLR"@ {
        Some("http://proceedings.mlr.press/img/favicon.ico"@)
    } else {
        None
    }
}

/// The attachment that describes the paper `a`.
pub open spec fn attachment_of(a: ArticleView) -> AttachmentView {
    AttachmentView {
        text: seq_join(link_labels(a), " | "@),
        color: archive_color(a.preserver),
        author_name: seq_join(a.authors, ", "@),
        title: "["@ + a.id + "] "@ + a.title,
        title_link: a.url,
        fields: attachment_fields(a),
        footer: a.preserver,
        footer_icon: archive_icon(a.preserver),
        ts: a.date,
    }
}

fn push_link(acc: &mut Vec<String>, label: &str, link: &Option<String>)
    ensures
        final(acc).deep_view() == with_link(old(acc).deep_view(), label@, link.deep_view()),
{
    match link {
        Some(l) => {
            let ghost before = acc.deep_view();
            let mut item = concat3("<", l.as_str(), "|");
            item.append(label);
            item.append(">");
            acc.push(item);
            assert(acc.deep_view() =~= before.push(link_label(label@, l@)));
        },
        None => {},
    }
}

/// The first `n` parts joined with `sep`.
fn join_first(parts: &Vec<String>, n: usize, sep: &str) -> (res: String)
    requires
        n <= parts.len(),
    ensures
        res@ == seq_join(parts.deep_view().subrange(0, n as int), sep@),
{
    let mut first: Vec<String> = Vec::new();
    let mut i: usize = 0;
    while i < n
        invariant
            i <= n <= parts.len(),
            first.deep_view() == parts.deep_view().subrange(0, i as int),
        decreases n - i,
    {
        let ghost before = first.deep_view();
        first.push(parts[i].clone());
        assert(first.deep_view() =~= before.push(parts[i as int]@));
        i = i + 1;
        assert(first.deep_view() =~= parts.deep_view().subrange(0, i as int));
    }
    join(&first, sep)
}

/// The abstract, cut to its first 39 words and ` ...` when it has more than 40.
pub fn shorten_abstract(abst: &str) -> (res: String)
    ensures
        res@ == shortened(abst@),
{
    proof {
        reveal_strlit(" ");
    }
    let words = split(abst, " ");
    if words.len() > 40 {
        let mut res = join_first(&words, 39, " ");
        res.append(" ...");
        res
    } else {
        string_from(abst)
    }
}

/// The colour and icon of an archive's attachments.
fn archive_style(preserver: &str) -> (res: (String, Option<String>))
    ensures
        res.0@ == archive_color(preserver@),
        res.1.deep_view() == archive_icon(preserver@),
{
    if text_eq(preserver, "arXiv") {
        (string_from("#B22121"), Some(string_from("http://i.imgur.com/8NYocT8.gif")))
    } else if text_eq(preserver, "OpenReview") {
        (string_from("#8B211A"), None)
    } else if text_eq(preserver, "ACL Anthology") {
        (
            string_from("#FD0003"),
            Some(string_from("http://aclweb.org/anthology/images/acl-logo.gif")),
        )
    } else if text_eq(preserver, "ACM") {
        (
            string_from("#638F36"),
            Some(string_from("https://www.google.com/s2/favicons?domain=dl.acm.org")),
        )
    } else if text_eq(preserver, "NIPS Proceedings") {
        (
            string_from("#F1652D"),
            Some(string_from("https://www.google.com/s2/favicons?domain=papers.nips.cc")),
        )
    } else if text_eq(preserver, "PMLR") {
        (string_from("#112567"), Some(string_from("http://proceedings.mlr.press/img/favicon.ico")))
    } else {
        (string_from("#DDDDDD"), None)
    }
}

impl Attachment {
    /// The attachment that describes `article`.
    pub fn new(article: Article) -> (res: Attachment)
        ensures
            res@ == attachment_of(article@),
    {
        let ghost a = article@;
        let mut labels: Vec<String> = Vec::new();
        assert(labels.deep_view() =~= Seq::<Seq<char>>::empty());
        push_link(&mut labels, "abstract (ja)", &article.url_ja);
        push_link(&mut labels, "pdf", &article.pdf_en_link);
        push_link(&mut labels, "pdf (ja)", &article.pdf_ja_link);
        push_link(&mut labels, "html", &article.html_en_link);
        push_link(&mut labels, "html (ja)", &article.html_ja_link);
        push_link(&mut labels, "bib", &article.bib_link);
        let text = join(&labels, " | ");
        let author_name = join(&article.authors, ", ");
        let mut title = concat3("[", article.id.as_str(), "] ");
        title.append(article.title.as_str());
        let mut fields: Vec<AttachmentField> = Vec::new();
        match &article.abst {
            Some(abst) => {
                fields.push(
                    AttachmentField {
                        title: string_from("Abstract"),
                        value: shorten_abstract(abst.as_str()),
                        short: false,
                    },
                );
            },
            None => {},
        }
        let ghost with_abst = fields@.map_values(|f: AttachmentField| f@);
        match &article.volume {
            Some(volume) => {
                fields.push(
                    AttachmentField {
                        title: string_from("Volume"),
                        value: string_from(volume.as_str()),
                        short: false,
                    },
                );
            },
            None => {},
        }
        assert(fields@.map_values(|f: AttachmentField| f@) =~= attachment_fields(a));
        let (color, footer_icon) = archive_style(article.preserver.as_str());
        let res = Attachment {
            text,
            color,
            author_name,
            title,
            title_link: article.url,
            fields,
            footer: article.preserver,
            footer_icon,
            ts: article.date,
        };
        assert(res@ =~= attachment_of(a));
        res
    }
}

} // verus!
