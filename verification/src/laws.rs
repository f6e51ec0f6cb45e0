//! Properties that hold across the library's operations.
use vstd::prelude::*;
use crate::article::{aclweb_article, merged_with_arxiv, nips_article, ArticleView};
use crate::links::{
    arxiv_abs_link, arxiv_pdf_link, has_char, last_value, nips_abs_link, nips_id, nips_id_title,
    nips_url_ok, pmlr_base, pmlr_id, segment_before_last, aclweb_id, id_parameter,
};
use crate::source::{page_article, page_link, Source};
use crate::attachment::{attachment_of, shortened, words, FieldView};
use crate::links::translation_url;
use crate::pages::{meta_content, meta_contents};
use crate::text::{
    after_last, ascii_lower, ascii_upper, free_of, is_ascii_text, lower_text, upper_text, last_index_before, lemma_last_index, lemma_split_join, lemma_split_pieces_free, seq_ends_with, seq_find, seq_join,
    seq_replace_first, seq_split,
};

use crate::feed::{
    flushed, lookup_of, scan, scan_step, xml_trim, FeedEventView, HrefView, ScanState,
};

verus! {

/// The abstract page and the PDF of an arXiv paper lead to the same links:
/// for `a = p + "/abs/" + q` and `b = p + "/pdf/" + q`, where the `/abs/`
/// after `p` is the first in `a`, `a` holds no `/pdf/`, and the `/pdf/` after
/// `p` is the first in `b`, both give `a` as abstract page and `b` as PDF.
pub proof fn arxiv_abs_and_pdf_agree(p: Seq<char>, q: Seq<char>)
    requires
        seq_find(p + "/abs/"@ + q, "/abs/"@, 0) == Some(p.len() as int),
        seq_find(p + "/abs/"@ + q, "/pdf/"@, 0) is None,
        seq_find(p + "/pdf/"@ + q, "/pdf/"@, 0) == Some(p.len() as int),
    ensures
        arxiv_abs_link(p + "/abs/"@ + q) == p + "/abs/"@ + q,
        arxiv_abs_link(p + "/pdf/"@ + q) == p + "/abs/"@ + q,
        arxiv_pdf_link(p + "/abs/"@ + q) == p + "/pdf/"@ + q,
        arxiv_pdf_link(p + "/pdf/"@ + q) == p + "/pdf/"@ + q,
{
    reveal_strlit("/abs/");
    reveal_strlit("/pdf/");
    let a = p + "/abs/"@ + q;
    let b = p + "/pdf/"@ + q;
    let n = p.len() as int;
    assert(b.subrange(0, n) =~= p);
    assert(b.subrange(n + 5, b.len() as int) =~= q);
    assert(a.subrange(0, n) =~= p);
    assert(a.subrange(n + 5, a.len() as int) =~= q);
    assert(seq_replace_first(b, "/pdf/"@, "/abs/"@) =~= a);
    assert(seq_replace_first(a, "/abs/"@, "/pdf/"@) =~= b);
}

/// A PMLR paper's page named with `.html`, with `.pdf`, or bare gives the
/// same paper identifier.
pub proof fn pmlr_forms_agree(base: Seq<char>)
    requires
        !seq_ends_with(base, ".pdf"@),
        !seq_ends_with(base, ".html"@),
    ensures
        pmlr_base(base + ".html"@) == base,
        pmlr_base(base + ".pdf"@) == base,
        pmlr_base(base) == base,
        pmlr_id(base + ".html"@) == pmlr_id(base),
        pmlr_id(base + ".pdf"@) == pmlr_id(base),
{
    reveal_strlit(".html");
    reveal_strlit(".pdf");
    let h = base + ".html"@;
    let d = base + ".pdf"@;
    let n = base.len() as int;
    assert(h.subrange(h.len() - 4, h.len() as int)[0] == 'h');
    assert(h.subrange(h.len() - 5, h.len() as int) =~= ".html"@);
    assert(h.subrange(0, h.len() - 5) =~= base);
    assert(d.subrange(d.len() - 4, d.len() as int) =~= ".pdf"@);
    assert(d.subrange(0, d.len() - 4) =~= base);
}

/// A query parameter's value is that of the last pair with its key, as a
/// map collected from the pairs keeps it; a key that no pair has gives none.
pub proof fn query_value_is_last_pair(pairs: Seq<(Seq<char>, Seq<char>)>, key: Seq<char>)
    ensures
        last_value(pairs, key) is None <==> forall|i: int|
            0 <= i < pairs.len() ==> #[trigger] pairs[i].0 != key,
        forall|v: Seq<char>|
            last_value(pairs, key) == Some(v) <==> exists|i: int|
                0 <= i < pairs.len() && #[trigger] pairs[i] == (key, v) && forall|j: int|
                    i < j < pairs.len() ==> #[trigger] pairs[j].0 != key,
    decreases pairs.len(),
{
    if pairs.len() > 0 {
        let rest = pairs.drop_last();
        query_value_is_last_pair(rest, key);
        let n = pairs.len() - 1;
        assert(forall|i: int| 0 <= i < n ==> rest[i] == pairs[i]);
        if pairs.last().0 == key {
            assert forall|v: Seq<char>|
                last_value(pairs, key) == Some(v) implies exists|i: int|
                    0 <= i < pairs.len() && #[trigger] pairs[i] == (key, v) && forall|j: int|
                        i < j < pairs.len() ==> #[trigger] pairs[j].0 != key by {
                assert(pairs[n] == (key, v));
            }
            assert forall|v: Seq<char>|
                (exists|i: int|
                    0 <= i < pairs.len() && #[trigger] pairs[i] == (key, v) && forall|j: int|
                        i < j < pairs.len() ==> #[trigger] pairs[j].0 != key) implies last_value(
                pairs,
                key,
            ) == Some(v) by {
                let i = choose|i: int|
                    0 <= i < pairs.len() && #[trigger] pairs[i] == (key, v) && forall|j: int|
                        i < j < pairs.len() ==> #[trigger] pairs[j].0 != key;
                if i < n {
                    assert(pairs[n].0 != key);
                }
            }
        } else {
            assert forall|v: Seq<char>|
                last_value(pairs, key) == Some(v) implies exists|i: int|
                    0 <= i < pairs.len() && #[trigger] pairs[i] == (key, v) && forall|j: int|
                        i < j < pairs.len() ==> #[trigger] pairs[j].0 != key by {
                let i = choose|i: int|
                    0 <= i < rest.len() && #[trigger] rest[i] == (key, v) && forall|j: int|
                        i < j < rest.len() ==> #[trigger] rest[j].0 != key;
                assert(pairs[i] == (key, v));
                assert forall|j: int| i < j < pairs.len() implies #[trigger] pairs[j].0 != key by {
                    if j < n {
                        assert(rest[j].0 != key);
                    }
                }
            }
            assert forall|v: Seq<char>|
                (exists|i: int|
                    0 <= i < pairs.len() && #[trigger] pairs[i] == (key, v) && forall|j: int|
                        i < j < pairs.len() ==> #[trigger] pairs[j].0 != key) implies last_value(
                pairs,
                key,
            ) == Some(v) by {
                let i = choose|i: int|
                    0 <= i < pairs.len() && #[trigger] pairs[i] == (key, v) && forall|j: int|
                        i < j < pairs.len() ==> #[trigger] pairs[j].0 != key;
                assert(i < n);
                assert(rest[i] == (key, v));
                assert forall|j: int| i < j < rest.len() implies #[trigger] rest[j].0 != key by {
                    assert(pairs[j].0 != key);
                }
            }
            if last_value(pairs, key) is None {
                assert forall|i: int| 0 <= i < pairs.len() implies #[trigger] pairs[i].0
                    != key by {
                    if i < n {
                        assert(rest[i].0 != key);
                    }
                }
            }
            if forall|i: int| 0 <= i < pairs.len() ==> #[trigger] pairs[i].0 != key {
                assert forall|i: int| 0 <= i < rest.len() implies #[trigger] rest[i].0 != key by {
                    assert(pairs[i].0 != key);
                }
            }
        }
    }
}

/// Taking what a paper lacks from its arXiv version never replaces what it
/// has, leaves everything but the abstract, Japanese abstract page and HTML
/// renderings as they were, and doing it twice changes nothing more.
pub proof fn merge_keeps_what_the_paper_has(a: ArticleView, arxiv: ArticleView)
    ensures
        ({
            let m = merged_with_arxiv(a, arxiv);
            &&& a.abst is Some ==> m.abst == a.abst
            &&& a.url_ja is Some ==> m.url_ja == a.url_ja
            &&& a.html_en_link is Some ==> m.html_en_link == a.html_en_link
            &&& a.html_ja_link is Some ==> m.html_ja_link == a.html_ja_link
            &&& a.abst is None ==> m.abst == arxiv.abst
            &&& a.url_ja is None ==> m.url_ja == arxiv.url_ja
            &&& a.html_en_link is None ==> m.html_en_link == arxiv.html_en_link
            &&& a.html_ja_link is None ==> m.html_ja_link == arxiv.html_ja_link
            &&& m.preserver == a.preserver && m.id == a.id && m.title == a.title
            &&& m.volume == a.volume && m.url == a.url && m.authors == a.authors
            &&& m.pdf_en_link == a.pdf_en_link && m.pdf_ja_link == a.pdf_ja_link
            &&& m.bib_link == a.bib_link && m.date == a.date
            &&& merged_with_arxiv(m, arxiv) == m
        }),
{
    let m = merged_with_arxiv(a, arxiv);
    assert(merged_with_arxiv(m, arxiv) =~= m);
}

/// Every paper read from an archive's page has an archive name other than
/// `arxiv`, so the bot always looks it up on arXiv.
pub proof fn papers_are_always_looked_up(s: Source, url: Seq<char>, page: Seq<char>, now: i64)
    ensures
        page_article(s, url, page, now) matches Some(a) ==> a.preserver != "arxiv"@,
{
    reveal_strlit("arxiv");
    reveal_strlit("arXiv");
    reveal_strlit("OpenReview");
    reveal_strlit("ACL Anthology");
    reveal_strlit("ACM");
    reveal_strlit("NIPS Proceedings");
    reveal_strlit("PMLR");
    if let Some(a) = page_article(s, url, page, now) {
        assert(a.preserver.len() != 5 || a.preserver[1] != "arxiv"@[1] || a.preserver[2]
            != "arxiv"@[2]);
    }
}

/// The abstract shown in an attachment has at most 40 words: one of more
/// than 40 words is shown as its first 39 words and `...`; a shorter one as
/// it is.
pub proof fn shortened_abstract_has_at_most_40_words(abst: Seq<char>)
    ensures
        words(shortened(abst)).len() <= 40,
        words(abst).len() > 40 ==> words(shortened(abst)) == words(abst).subrange(0, 39).push(
            "..."@,
        ),
        words(abst).len() <= 40 ==> shortened(abst) == abst,
{
    reveal_strlit(" ");
    reveal_strlit(" ...");
    reveal_strlit("...");
    let ws = words(abst);
    if ws.len() > 40 {
        assert(" "@ =~= seq![' ']);
        lemma_split_pieces_free(abst, ' ', 0);
        let first = ws.subrange(0, 39);
        let parts = first.push("..."@);
        assert forall|k: int| 0 <= k < parts.len() implies free_of(#[trigger] parts[k], ' ') by {
            if k < 39 {
                assert(parts[k] == ws[k]);
                assert(free_of(ws[k], ' '));
            } else {
                assert(parts[k] == "..."@);
            }
        }
        assert(parts.drop_last() =~= first);
        assert(seq_join(parts, " "@) == seq_join(first, " "@) + " "@ + "..."@);
        assert(seq_join(first, " "@) + " ..."@ =~= seq_join(first, " "@) + " "@ + "..."@);
        lemma_split_join(parts, ' ');
        assert(words(shortened(abst)) == seq_split(seq_join(parts, seq![' ']), seq![' ']));
    }
}

/// Looking for the last `c` before `j` in `s + t` sees only `s` when `j`
/// lies within `s`.
proof fn lemma_last_index_prefix(s: Seq<char>, t: Seq<char>, c: char, j: int)
    requires
        0 <= j <= s.len(),
    ensures
        last_index_before(s + t, c, j) == last_index_before(s, c, j),
    decreases j,
{
    if j > 0 {
        assert((s + t)[j - 1] == s[j - 1]);
        lemma_last_index_prefix(s, t, c, j - 1);
    }
}

/// The first `k` characters of `t` hold no `c`, so looking before
/// `s.len() + k` in `s + t` finds what looking before `s.len()` finds.
proof fn lemma_last_index_skip(s: Seq<char>, t: Seq<char>, c: char, k: int)
    requires
        0 <= k <= t.len(),
        forall|i: int| 0 <= i < k ==> t[i] != c,
    ensures
        last_index_before(s + t, c, s.len() + k) == last_index_before(s + t, c, s.len() as int),
    decreases k,
{
    if k > 0 {
        assert((s + t)[s.len() + k - 1] == t[k - 1]);
        lemma_last_index_skip(s, t, c, k - 1);
    }
}

/// A NIPS paper's page, its PDF (`.pdf`) and its BibTeX page (`/bibtex`)
/// name the same paper: the same identifier, abstract page and PDF, taken
/// from the last path segment of the page's address.
pub proof fn nips_forms_agree(base: Seq<char>)
    requires
        has_char(base, '/'),
        after_last(base, '/') != "bibtex"@,
        !seq_ends_with(after_last(base, '/'), ".pdf"@),
    ensures
        nips_url_ok(base),
        nips_url_ok(base + ".pdf"@),
        nips_url_ok(base + "/bibtex"@),
        nips_id_title(base) == after_last(base, '/'),
        nips_id_title(base + ".pdf"@) == after_last(base, '/'),
        nips_id_title(base + "/bibtex"@) == after_last(base, '/'),
        nips_id(base + ".pdf"@) == nips_id(base),
        nips_id(base + "/bibtex"@) == nips_id(base),
        nips_abs_link(base + ".pdf"@) == nips_abs_link(base),
        nips_abs_link(base + "/bibtex"@) == nips_abs_link(base),
{
    reveal_strlit(".pdf");
    reveal_strlit("/bibtex");
    reveal_strlit("bibtex");
    let n = base.len() as int;
    let last = after_last(base, '/');
    lemma_last_index(base, '/', n);
    let k = last_index_before(base, '/', n).unwrap();
    assert(last == base.subrange(k + 1, n));

    // The `.pdf` form.
    let d = base + ".pdf"@;
    lemma_last_index_skip(base, ".pdf"@, '/', 4);
    lemma_last_index_prefix(base, ".pdf"@, '/', n);
    assert(last_index_before(d, '/', d.len() as int) == Some(k));
    let dl = after_last(d, '/');
    assert(dl =~= last + ".pdf"@);
    if dl == "bibtex"@ {
        assert(dl.len() == 6);
        assert(dl[2] == '.');
        assert("bibtex"@[2] == 'b');
    }
    assert(dl.subrange(dl.len() - 4, dl.len() as int) =~= ".pdf"@);
    assert(dl.subrange(0, dl.len() - 4) =~= last);
    assert(has_char(d, '/'));

    // The `/bibtex` form.
    let b = base + "/bibtex"@;
    let b1 = base + seq!['/'];
    assert(b =~= b1 + "bibtex"@);
    lemma_last_index_skip(b1, "bibtex"@, '/', 6);
    assert(b1.len() == n + 1);
    assert(b[n] == '/');
    assert(last_index_before(b, '/', n + 1) == Some(n));
    assert(last_index_before(b, '/', b.len() as int) == Some(n));
    assert(after_last(b, '/') =~= "bibtex"@);
    lemma_last_index_prefix(base, "/bibtex"@, '/', n);
    assert(segment_before_last(b, '/') =~= last);
    assert(has_char(b, '/'));
}

/// The plain, `.pdf` and `/bibtex` forms of a NIPS paper's address give the
/// same article for the same page.
pub proof fn nips_forms_give_the_same_article(base: Seq<char>, page: Seq<char>)
    requires
        has_char(base, '/'),
        after_last(base, '/') != "bibtex"@,
        !seq_ends_with(after_last(base, '/'), ".pdf"@),
    ensures
        nips_article(base + ".pdf"@, page) == nips_article(base, page),
        nips_article(base + "/bibtex"@, page) == nips_article(base, page),
{
    nips_forms_agree(base);
}

/// Two ASCII characters with the same lowercase have the same uppercase.
proof fn ascii_char_case_agrees(x: char, y: char)
    requires
        (x as u32) < 128,
        (y as u32) < 128,
        ascii_lower(x) == ascii_lower(y),
    ensures
        ascii_upper(x) == ascii_upper(y),
{
    let xi = x as u32 as int;
    let yi = y as u32 as int;
    let lx = ascii_lower(x) as u32 as int;
    let ly = ascii_lower(y) as u32 as int;
    assert(lx == if 65 <= xi <= 90 { xi + 32 } else { xi });
    assert(ly == if 65 <= yi <= 90 { yi + 32 } else { yi });
    assert(ascii_upper(x) as u32 as int == if 97 <= xi <= 122 { xi - 32 } else { xi });
    assert(ascii_upper(y) as u32 as int == if 97 <= yi <= 122 { yi - 32 } else { yi });
}

/// ASCII text that agrees up to case has the same uppercase.
proof fn ascii_case_agrees(a: Seq<char>, b: Seq<char>)
    requires
        is_ascii_text(a),
        is_ascii_text(b),
        lower_text(a) == lower_text(b),
    ensures
        upper_text(a) == upper_text(b),
{
    let la = a.map_values(|c: char| ascii_lower(c));
    let lb = b.map_values(|c: char| ascii_lower(c));
    assert(a.len() == la.len() && b.len() == lb.len());
    assert forall|i: int| 0 <= i < a.len() implies ascii_upper(a[i]) == ascii_upper(b[i]) by {
        assert(la[i] == lb[i]);
        assert((a[i] as u32) < 128);
        assert((b[i] as u32) < 128);
        ascii_char_case_agrees(a[i], b[i]);
    }
    assert(a.map_values(|c: char| ascii_upper(c)) =~= b.map_values(|c: char| ascii_upper(c)));
}

/// Two ACL Anthology addresses whose paper identifiers are ASCII and agree up
/// to case give the same article for the same page.
pub proof fn aclweb_case_variants_agree(u1: Seq<char>, u2: Seq<char>, page: Seq<char>)
    requires
        is_ascii_text(aclweb_id(u1)),
        is_ascii_text(aclweb_id(u2)),
        lower_text(aclweb_id(u1)) == lower_text(aclweb_id(u2)),
    ensures
        aclweb_article(u1, page) == aclweb_article(u2, page),
{
    ascii_case_agrees(aclweb_id(u1), aclweb_id(u2));
}

/// An empty element other than `link` takes no part in what the feed says
/// of a paper: whatever its `href` (present, missing or unreadable), reading
/// it only ends the character data before it, as any markup does.
pub proof fn other_empty_elements_are_ignored(st: ScanState, name: Seq<char>, href: HrefView)
    requires
        name != "link"@,
    ensures
        scan_step(st, FeedEventView::Empty { name, href }) == Some(flushed(st)),
        scan_step(st, FeedEventView::Empty { name, href }) == scan_step(st, FeedEventView::Other),
{
}

/// An empty `link` element with a readable `href` makes that `href` the
/// feed's link; one without a readable `href` makes the feed unreadable.
pub proof fn link_elements_give_the_link(st: ScanState, href: HrefView)
    ensures
        match href {
            HrefView::Value(v) => scan_step(st, FeedEventView::Empty { name: "link"@, href })
                matches Some(next) && next.link == v,
            _ => scan_step(st, FeedEventView::Empty { name: "link"@, href }) is None,
        },
{
}

/// After markup (or at the start) no character data waits.
proof fn nothing_pending_after_markup(before: Seq<FeedEventView>)
    requires
        before.len() == 0 || is_markup(before.last()),
    ensures
        scan(before) matches Some(st) ==> st.pending.len() == 0,
{
}

/// Markup events: those that end the character data before them.
pub open spec fn is_markup(e: FeedEventView) -> bool {
    e is Start || e is End || e is Empty || e is Other
}

/// Two event sequences that scan alike still scan alike with the same
/// events after them.
proof fn scans_agree_after(a: Seq<FeedEventView>, b: Seq<FeedEventView>, rest: Seq<FeedEventView>)
    requires
        scan(a) == scan(b),
    ensures
        scan(a + rest) == scan(b + rest),
    decreases rest.len(),
{
    if rest.len() == 0 {
        assert(a + rest =~= a);
        assert(b + rest =~= b);
    } else {
        scans_agree_after(a, b, rest.drop_last());
        assert((a + rest).drop_last() =~= a + rest.drop_last());
        assert((b + rest).drop_last() =~= b + rest.drop_last());
        assert((a + rest).last() == rest.last());
        assert((b + rest).last() == rest.last());
    }
}

/// Inserting an empty element other than `link` after markup (or at the
/// start) of a feed changes nothing that the feed says of any paper: the
/// lookup gives the same answer with it as without it.
pub proof fn other_empty_element_leaves_the_lookup(
    title: Seq<char>,
    authors: Seq<Seq<char>>,
    before: Seq<FeedEventView>,
    after: Seq<FeedEventView>,
    name: Seq<char>,
    href: HrefView,
)
    requires
        name != "link"@,
        before.len() == 0 || is_markup(before.last()),
    ensures
        lookup_of(title, authors, Some(before + seq![FeedEventView::Empty { name, href }] + after))
            == lookup_of(title, authors, Some(before + after)),
{
    let e = FeedEventView::Empty { name, href };
    let with = before.push(e);
    nothing_pending_after_markup(before);
    assert(with.drop_last() =~= before);
    match scan(before) {
        Some(st) => {
            assert(xml_trim(st.pending) =~= Seq::<char>::empty());
            assert(flushed(st) =~= st);
        },
        None => {},
    }
    assert(scan(with) == scan(before));
    scans_agree_after(with, before, after);
    assert(before + seq![e] + after =~= with + after);
}

/// A paper read from an archive's page is titled by the page's
/// `citation_title`.
pub proof fn title_is_the_citation_title(s: Source, url: Seq<char>, page: Seq<char>, now: i64)
    ensures
        page_article(s, url, page, now) matches Some(a) ==> Some(a.title) == meta_content(
            page,
            "citation_title"@,
        ),
{
}

/// The volume of a paper is the journal of an ACL Anthology page and the
/// conference of a NIPS or PMLR page; papers of the other archives have
/// none.
pub proof fn volume_is_the_journal_or_conference(
    s: Source,
    url: Seq<char>,
    page: Seq<char>,
    now: i64,
)
    ensures
        page_article(s, url, page, now) matches Some(a) ==> a.volume == match s {
            Source::AclWeb => meta_content(page, "citation_journal_title"@),
            Source::Nips | Source::Pmlr => meta_content(page, "citation_conference_title"@),
            _ => None,
        },
{
}

/// The authors of a paper read from an OpenReview, ACL Anthology, NIPS or
/// PMLR page are the page's `citation_author` entries, in order.
pub proof fn authors_are_the_citation_authors(
    s: Source,
    url: Seq<char>,
    page: Seq<char>,
    now: i64,
)
    requires
        s == Source::OpenReview || s == Source::AclWeb || s == Source::Nips || s == Source::Pmlr,
    ensures
        page_article(s, url, page, now) matches Some(a) ==> Some(a.authors) == meta_contents(
            page,
            "citation_author"@,
        ),
{
}

/// Every paper has a PDF, and its Japanese PDF is the Google translation of
/// that PDF; its Japanese HTML rendering is the translation of its HTML
/// rendering; its Japanese abstract page, where it has one (all archives but
/// the ACL Anthology), is the translation of its abstract page.
pub proof fn japanese_links_translate_english_ones(
    s: Source,
    url: Seq<char>,
    page: Seq<char>,
    now: i64,
)
    ensures
        page_article(s, url, page, now) matches Some(a) ==> {
            &&& a.pdf_en_link is Some
            &&& a.pdf_ja_link == Some(translation_url(a.pdf_en_link->0))
            &&& a.html_ja_link == match a.html_en_link {
                Some(h) => Some(translation_url(h)),
                None => None,
            }
            &&& a.url_ja == if s == Source::AclWeb {
                None
            } else {
                Some(translation_url(a.url))
            }
        },
{
    match s {
        Source::Arxiv => {},
        Source::OpenReview => {},
        Source::AclWeb => {},
        Source::Acm => {},
        Source::Nips => {},
        Source::Pmlr => {},
    }
}

/// The abstract page a paper names is the page the bot fetches for its
/// address; only ACL Anthology and ACM papers come without an abstract.
pub proof fn paper_names_the_fetched_page(s: Source, url: Seq<char>, page: Seq<char>, now: i64)
    ensures
        page_article(s, url, page, now) matches Some(a) ==> {
            &&& page_link(s, url) == Some(a.url)
            &&& (a.abst is None <==> (s == Source::AclWeb || s == Source::Acm))
        },
{
}

/// The attachment's fields are the shortened abstract, where the paper has
/// one, then the volume, where it has one; each holds its value whatever the
/// other is.
pub proof fn attachment_fields_show_abstract_and_volume(a: ArticleView)
    ensures
        attachment_of(a).fields.len() == (if a.abst is Some { 1int } else { 0int }) + (
        if a.volume is Some {
            1int
        } else {
            0int
        }),
        a.abst matches Some(x) ==> attachment_of(a).fields[0] == (FieldView {
            title: "Abstract"@,
            value: shortened(x),
            short: false,
        }),
        a.volume matches Some(v) ==> attachment_of(a).fields.last() == (FieldView {
            title: "Volume"@,
            value: v,
            short: false,
        }),
{
}

/// The attachment is titled `[id] title`, links to the paper's abstract
/// page, names its authors joined by `, ` and its archive, and carries its
/// date.
pub proof fn attachment_describes_the_paper(a: ArticleView)
    ensures
        attachment_of(a).title == "["@ + a.id + "] "@ + a.title,
        attachment_of(a).title_link == a.url,
        attachment_of(a).author_name == seq_join(a.authors, ", "@),
        attachment_of(a).footer == a.preserver,
        attachment_of(a).ts == a.date,
{
}

/// A paper read from an archive's page names that archive and carries the
/// identifier that the archive gives it: arXiv's from the page, OpenReview's
/// and ACM's from the address's `id` parameter, the ACL Anthology's as the
/// uppercase of the address's last segment, NIPS's and PMLR's from the
/// address's path.
pub proof fn paper_names_its_archive_and_identifier(
    s: Source,
    url: Seq<char>,
    page: Seq<char>,
    now: i64,
)
    ensures
        page_article(s, url, page, now) matches Some(a) ==> match s {
            Source::Arxiv => a.preserver == "arXiv"@ && Some(a.id) == meta_content(
                page,
                "citation_arxiv_id"@,
            ),
            Source::OpenReview => a.preserver == "OpenReview"@ && Some(a.id) == id_parameter(url),
            Source::AclWeb => a.preserver == "ACL Anthology"@ && a.id == upper_text(aclweb_id(url)),
            Source::Acm => a.preserver == "ACM"@ && Some(a.id) == id_parameter(url),
            Source::Nips => a.preserver == "NIPS Proceedings"@ && a.id == nips_id(url),
            Source::Pmlr => a.preserver == "PMLR"@ && a.id == pmlr_id(url),
        },
{
    match s {
        Source::Arxiv => {},
        Source::OpenReview => {},
        Source::AclWeb => {},
        Source::Acm => {},
        Source::Nips => {},
        Source::Pmlr => {},
    }
}

} // verus!
