//! Values read out of an archive's abstract page.
use vstd::prelude::*;
use crate::html::{all_attrs, first_attr, html_all_attrs, html_first_attr};
use crate::text::{
    concat, replace_char, replace_first, seq_replace_char, seq_replace_first, seq_split, seq_trim,
    split, string_from, trim,
};

verus! {

/// The CSS selector of the `<meta>` element named `name`.
pub open spec fn meta_selector(name: Seq<char>) -> Seq<char> {
    "meta[name=\""@ + name + "\"]"@
}

/// The `content` of the first `<meta name="{name}">` of `page`.
pub open spec fn meta_content(page: Seq<char>, name: Seq<char>) -> Option<Seq<char>> {
    html_first_attr(page, meta_selector(name), "content"@)
}

/// The `content` of every `<meta name="{name}">` of `page`, when each has one.
pub open spec fn meta_contents(page: Seq<char>, name: Seq<char>) -> Option<Seq<Seq<char>>> {
    all_present(html_all_attrs(page, meta_selector(name), "content"@))
}

/// The values themselves when none is missing.
pub open spec fn all_present(items: Seq<Option<Seq<char>>>) -> Option<Seq<Seq<char>>>
    decreases items.len(),
{
    if items.len() == 0 {
        Some(seq![])
    } else {
        match (all_present(items.drop_last()), items.last()) {
            (Some(rest), Some(x)) => Some(rest.push(x)),
            _ => None,
        }
    }
}

/// The pieces of `s` between the occurrences of `sep`, each trimmed.
pub open spec fn trimmed_pieces(s: Seq<char>, sep: Seq<char>) -> Seq<Seq<char>> {
    seq_split(s, sep).map_values(|p: Seq<char>| seq_trim(p))
}

/// `text` on one line (line breaks become spaces) without its first `label`.
pub open spec fn without_label(text: Seq<char>, label: Seq<char>) -> Seq<char> {
    seq_replace_first(seq_replace_char(text, '\n', ' '), label, ""@)
}

fn meta_selector_of(name: &str) -> (res: String)
    ensures
        res@ == meta_selector(name@),
{
    let mut res = string_from("meta[name=\"");
    res.append(name);
    res.append("\"]");
    res
}

/// The `content` of the first `<meta name="{name}">` of `page`.
pub fn page_meta(page: &str, name: &str) -> (res: Option<String>)
    ensures
        res.deep_view() == meta_content(page@, name@),
{
    let selector = meta_selector_of(name);
    first_attr(page, selector.as_str(), "content")
}

/// The `content` of every `<meta name="{name}">` of `page`; `None` when one
/// of them has none.
pub fn page_meta_all(page: &str, name: &str) -> (res: Option<Vec<String>>)
    ensures
        res.deep_view() == meta_contents(page@, name@),
{
    let selector = meta_selector_of(name);
    let items = all_attrs(page, selector.as_str(), "content");
    let ghost iv = items.deep_view();
    let mut out: Vec<String> = Vec::new();
    let mut i: usize = 0;
    while i < items.len()
        invariant
            i <= items.len(),
            iv == items.deep_view(),
            iv == html_all_attrs(page@, meta_selector(name@), "content"@),
            all_present(iv.subrange(0, i as int)) == Some(out.deep_view()),
        decreases items.len() - i,
    {
        let ghost sub = iv.subrange(0, i + 1);
        assert(sub.drop_last() =~= iv.subrange(0, i as int));
        match &items[i] {
            Some(v) => {
                let ghost before = out.deep_view();
                out.push(string_from(v.as_str()));
                assert(out.deep_view() =~= before.push(v@));
            },
            None => {
                proof {
                    lemma_all_present_prefix(iv, i + 1);
                }
                return None;
            },
        }
        i = i + 1;
    }
    assert(iv.subrange(0, i as int) =~= iv);
    Some(out)
}

/// Once an item is missing, every longer prefix misses one.
proof fn lemma_all_present_prefix(items: Seq<Option<Seq<char>>>, k: int)
    requires
        0 <= k <= items.len(),
        all_present(items.subrange(0, k)) is None,
    ensures
        all_present(items) is None,
    decreases items.len() - k,
{
    if k < items.len() {
        let sub = items.subrange(0, k + 1);
        assert(sub.drop_last() =~= items.subrange(0, k));
        lemma_all_present_prefix(items, k + 1);
    } else {
        assert(items.subrange(0, k) =~= items);
    }
}

/// The pieces of `s` between the occurrences of `sep`, each trimmed.
pub fn split_trimmed(s: &str, sep: &str) -> (res: Vec<String>)
    requires
        sep@.len() > 0,
    ensures
        res.deep_view() == trimmed_pieces(s@, sep@),
{
    let pieces = split(s, sep);
    let ghost pv = pieces.deep_view();
    let mut res: Vec<String> = Vec::new();
    let mut i: usize = 0;
    while i < pieces.len()
        invariant
            i <= pieces.len(),
            pv == pieces.deep_view(),
            pv == seq_split(s@, sep@),
            res.deep_view() == pv.subrange(0, i as int).map_values(|p: Seq<char>| seq_trim(p)),
        decreases pieces.len() - i,
    {
        let ghost before = res.deep_view();
        assert(pv[i as int] == pieces[i as int]@);
        let t = trim(pieces[i].as_str());
        res.push(t);
        assert(res.deep_view() =~= before.push(seq_trim(pv[i as int])));
        i = i + 1;
        assert(res.deep_view() =~= pv.subrange(0, i as int).map_values(
            |p: Seq<char>| seq_trim(p),
        ));
    }
    assert(pv.subrange(0, i as int) =~= pv);
    res
}

/// `text` on one line without its first `label`.
pub fn strip_label(text: &str, label: &str) -> (res: String)
    ensures
        res@ == without_label(text@, label@),
{
    let one_line = replace_char(text, '\n', ' ');
    replace_first(one_line.as_str(), label, "")
}

/// `a`, `b` and `c` one after the other.
pub fn concat3(a: &str, b: &str, c: &str) -> (res: String)
    ensures
        res@ == a@ + b@ + c@,
{
    let mut res = concat(a, b);
    res.append(c);
    res
}

} // verus!
