//! The arXiv API's Atom feed: read with `quick_xml`, and the title, authors
//! and last link that it gives.
use vstd::prelude::*;
use quick_xml::escape::{resolve_xml_entity, unescape};
use quick_xml::events::{BytesRef, BytesStart, Event};
use quick_xml::Reader;
use crate::article::Article;
use crate::text::{chars_of, string_from, string_of, text_eq};

verus! {

/// `quick_xml::Reader`, opaque to Verus.
#[verifier::external_type_specification]
#[verifier::external_body]
#[verifier::reject_recursive_types(R)]
pub struct ExFeedReader<R>(Reader<R>);

/// The `href` attribute of an empty element.
#[derive(Debug)]
pub enum Href {
    Value(String),
    Missing,
    Malformed,
}

/// The value of an [`Href`].
pub enum HrefView {
    Value(Seq<char>),
    Missing,
    Malformed,
}

impl View for Href {
    type V = HrefView;

    open spec fn view(&self) -> HrefView {
        match self {
            Href::Value(v) => HrefView::Value(v@),
            Href::Missing => HrefView::Missing,
            Href::Malformed => HrefView::Malformed,
        }
    }
}

/// One event of an XML document, as the feed logic sees it.
#[derive(Debug)]
pub enum FeedEvent {
    /// An opening tag, by name.
    Start(String),
    /// A closing tag, by name.
    End(String),
    /// An element without content, by name, with its `href`.
    Empty { name: String, href: Href },
    /// Character data.
    Text(String),
    /// An entity or character reference, by name (`amp`, `#x30`).
    Reference(String),
    /// Any other markup (declarations, comments, CDATA, ...).
    Other,
    /// The end of the document.
    Eof,
    /// Markup that is not well-formed.
    Malformed,
}

/// The value of a [`FeedEvent`].
pub enum FeedEventView {
    Start(Seq<char>),
    End(Seq<char>),
    Empty { name: Seq<char>, href: HrefView },
    Text(Seq<char>),
    Reference(Seq<char>),
    Other,
    Eof,
    Malformed,
}

impl View for FeedEvent {
    type V = FeedEventView;

    open spec fn view(&self) -> FeedEventView {
        match self {
            FeedEvent::Start(n) => FeedEventView::Start(n@),
            FeedEvent::End(n) => FeedEventView::End(n@),
            FeedEvent::Empty { name, href } => FeedEventView::Empty { name: name@, href: href@ },
            FeedEvent::Text(t) => FeedEventView::Text(t@),
            FeedEvent::Reference(n) => FeedEventView::Reference(n@),
            FeedEvent::Other => FeedEventView::Other,
            FeedEvent::Eof => FeedEventView::Eof,
            FeedEvent::Malformed => FeedEventView::Malformed,
        }
    }
}

impl DeepView for FeedEvent {
    type V = FeedEventView;

    open spec fn deep_view(&self) -> FeedEventView {
        self@
    }
}

/// The event that the `k`-th call (from 0) of `Reader::read_event` yields on
/// a reader made by `Reader::from_str(body)`, converted as [`FeedCursor::next`]
/// converts it. A fresh reader's events depend on `body` alone.
pub uninterp spec fn xml_event_at(body: Seq<char>, k: nat) -> FeedEventView;

/// A `quick_xml` reader over a document, with the document and the number
/// of events read so far.
struct FeedCursor<'a> {
    reader: Reader<&'a [u8]>,
    body: Ghost<Seq<char>>,
    count: Ghost<nat>,
}

impl<'a> FeedCursor<'a> {
    /// The document that the cursor reads.
    spec fn body(&self) -> Seq<char> {
        self.body@
    }

    /// How many events have been read.
    spec fn count(&self) -> nat {
        self.count@
    }

    /// `Reader::from_str(body)`: a reader of `body` that keeps text as it
    /// stands (the scan trims each text whole, references included), having
    /// read nothing.
    #[verifier::external_body]
    fn open(body: &'a str) -> (res: FeedCursor<'a>)
        ensures
            res.body() == body@,
            res.count() == 0,
    {
        FeedCursor { reader: Reader::from_str(body), body: Ghost(body@), count: Ghost(0) }
    }

    /// `Reader::read_event`, converted: the next event of the document,
    /// which is the one with the number of events read so far.
    #[verifier::external_body]
    fn next(&mut self) -> (res: FeedEvent)
        ensures
            final(self).body() == old(self).body(),
            final(self).count() == old(self).count() + 1,
            res@ == xml_event_at(old(self).body(), old(self).count()),
    {
        match self.reader.read_event() {
            Ok(Event::Start(e)) => FeedEvent::Start(String::from(e.name().as_ref())),
            Ok(Event::End(e)) => FeedEvent::End(String::from(e.name().as_ref())),
            Ok(Event::Empty(e)) => {
                FeedEvent::Empty { name: String::from(e.name().as_ref()), href: href_attribute(&e) }
            },
            Ok(Event::Text(e)) => FeedEvent::Text(String::from(&*e)),
            Ok(Event::GeneralRef(e)) => FeedEvent::Reference(e.into_inner().into_owned()),
            Ok(Event::Eof) => FeedEvent::Eof,
            Ok(_) => FeedEvent::Other,
            Err(_) => FeedEvent::Malformed,
        }
    }
}

/// `quick_xml::events::BytesStart`, opaque to Verus.
#[verifier::external_type_specification]
#[verifier::external_body]
pub struct ExBytesStart<'a>(BytesStart<'a>);

/// `BytesStart::try_get_attribute("href")` with the value unescaped by
/// `quick_xml::escape::unescape`; what comes of it is stated as part of
/// [`FeedCursor::next`]'s event.
#[verifier::external_body]
fn href_attribute(e: &BytesStart) -> Href {
    match e.try_get_attribute("href") {
        Ok(Some(a)) => match unescape(&a.value) {
            Ok(v) => Href::Value(v.into_owned()),
            Err(_) => Href::Malformed,
        },
        Ok(None) => Href::Missing,
        Err(_) => Href::Malformed,
    }
}

/// The five entities that XML predefines.
pub open spec fn predefined_entity(name: Seq<char>) -> Option<Seq<char>> {
    if name == "lt"@ {
        Some("<"@)
    } else if name == "gt"@ {
        Some(">"@)
    } else if name == "amp"@ {
        Some("&"@)
    } else if name == "apos"@ {
        Some("'"@)
    } else if name == "quot"@ {
        Some("\""@)
    } else {
        None
    }
}

/// `quick_xml::escape::resolve_xml_entity`, which maps exactly the five
/// predefined entities.
#[verifier::external_body]
fn xml_entity(name: &str) -> (res: Option<String>)
    ensures
        res.deep_view() == predefined_entity(name@),
{
    match resolve_xml_entity(name) {
        Some(text) => Some(String::from(text)),
        None => None,
    }
}

/// The character that the character reference `name` (`#49`, `#x30`) stands
/// for, as `BytesRef::resolve_char_ref` reads it; `None` when it reads none.
pub uninterp spec fn xml_char_reference(name: Seq<char>) -> Option<char>;

/// `BytesRef::resolve_char_ref` on a reference named `name`, an error read
/// as `None`. The contract only names the result.
#[verifier::external_body]
fn char_reference(name: &str) -> (res: Option<char>)
    ensures
        res == xml_char_reference(name@),
{
    match BytesRef::new(name).resolve_char_ref() {
        Ok(c) => c,
        Err(_) => None,
    }
}

/// The text that the reference `name` stands for.
pub open spec fn reference_text(name: Seq<char>) -> Option<Seq<char>> {
    if name.len() > 0 && name[0] == '#' {
        match xml_char_reference(name) {
            Some(c) => Some(seq![c]),
            None => None,
        }
    } else {
        predefined_entity(name)
    }
}

/// The text that the entity or character reference `name` stands for.
pub fn resolve_reference(name: &str) -> (res: Option<String>)
    ensures
        res.deep_view() == reference_text(name@),
{
    let nc = chars_of(name);
    if nc.len() > 0 && nc[0] == '#' {
        match char_reference(name) {
            Some(c) => {
                let mut s = String::new();
                s.push(c);
                assert(s@ =~= seq![c]);
                Some(s)
            },
            None => None,
        }
    } else {
        xml_entity(name)
    }
}

/// The events of `body` from the `k`-th read on, with at most `fuel` more
/// reads before the end: up to the end, `None` at malformed markup or when
/// the reads run out.
pub open spec fn xml_events_from(body: Seq<char>, k: nat, fuel: nat) -> Option<Seq<FeedEventView>>
    decreases fuel,
{
    let e = xml_event_at(body, k);
    if e is Eof {
        Some(seq![])
    } else if e is Malformed {
        None
    } else if fuel == 0 {
        None
    } else {
        match xml_events_from(body, k + 1, (fuel - 1) as nat) {
            Some(rest) => Some(seq![e] + rest),
            None => None,
        }
    }
}

/// The events of the document `body` before its end, as a fresh reader
/// yields them; `None` when it is not well-formed. Every event but the end
/// takes some of the input, so the end comes within `body.len() + 1` reads,
/// which bound the reading.
pub open spec fn xml_feed_events(body: Seq<char>) -> Option<Seq<FeedEventView>> {
    xml_events_from(body, 0, body.len())
}

/// The events of the XML document `body` before its end.
pub fn read_feed(body: &str) -> (res: Option<Vec<FeedEvent>>)
    ensures
        match res {
            Some(events) => xml_feed_events(body@) == Some(events.deep_view()),
            None => xml_feed_events(body@) is None,
        },
{
    let n = chars_of(body).len();
    let mut cursor = FeedCursor::open(body);
    let mut events: Vec<FeedEvent> = Vec::new();
    let mut k: usize = 0;
    assert(events.deep_view() =~= Seq::<FeedEventView>::empty());
    loop
        invariant
            k <= n,
            n == body@.len(),
            cursor.body() == body@,
            cursor.count() == k,
            xml_feed_events(body@) == match xml_events_from(body@, k as nat, (n - k) as nat) {
                Some(rest) => Some(events.deep_view() + rest),
                None => None,
            },
        decreases n - k,
    {
        let ghost before = events.deep_view();
        let event = cursor.next();
        match event {
            FeedEvent::Eof => {
                assert(before + Seq::<FeedEventView>::empty() =~= before);
                return Some(events);
            },
            FeedEvent::Malformed => {
                return None;
            },
            other => {
                if k == n {
                    return None;
                }
                let ghost ev = other@;
                events.push(other);
                assert(events.deep_view() =~= before.push(ev));
                proof {
                    let rest = xml_events_from(body@, (k + 1) as nat, (n - k - 1) as nat);
                    if let Some(r) = rest {
                        assert(before + (seq![ev] + r) =~= events.deep_view() + r);
                    }
                }
                k = k + 1;
            },
        }
    }
}

// ---------------------------------------------------------------------------
// What the feed says
// ---------------------------------------------------------------------------

/// The white space that XML trims around text: space, tab, CR, LF.
pub open spec fn is_xml_space(c: char) -> bool {
    c == ' ' || c == '\t' || c == '\r' || c == '\n'
}

pub open spec fn skip_xml_space(s: Seq<char>, i: int) -> int
    decreases s.len() - i,
{
    if 0 <= i < s.len() && is_xml_space(s[i]) {
        skip_xml_space(s, i + 1)
    } else {
        i
    }
}

pub open spec fn drop_xml_space_back(s: Seq<char>, lo: int, j: int) -> int
    decreases j - lo,
{
    if lo < j <= s.len() && is_xml_space(s[j - 1]) {
        drop_xml_space_back(s, lo, j - 1)
    } else {
        j
    }
}

/// `s` without the XML white space around it.
pub open spec fn xml_trim(s: Seq<char>) -> Seq<char> {
    let lo = skip_xml_space(s, 0);
    s.subrange(lo, drop_xml_space_back(s, lo, s.len() as int))
}

/// `s` without the XML white space around it.
pub fn trim_xml_space(s: &str) -> (res: String)
    ensures
        res@ == xml_trim(s@),
{
    let sc = chars_of(s);
    let mut lo: usize = 0;
    while lo < sc.len() && (sc[lo] == ' ' || sc[lo] == '\t' || sc[lo] == '\r' || sc[lo] == '\n')
        invariant
            lo <= sc.len(),
            skip_xml_space(sc@, 0) == skip_xml_space(sc@, lo as int),
        decreases sc.len() - lo,
    {
        lo = lo + 1;
    }
    let mut hi: usize = sc.len();
    while hi > lo && (sc[hi - 1] == ' ' || sc[hi - 1] == '\t' || sc[hi - 1] == '\r' || sc[hi - 1]
        == '\n')
        invariant
            lo <= hi <= sc.len(),
            drop_xml_space_back(sc@, lo as int, sc.len() as int) == drop_xml_space_back(
                sc@,
                lo as int,
                hi as int,
            ),
        decreases hi,
    {
        hi = hi - 1;
    }
    assert(sc@ == s@);
    string_of(&sc, lo, hi)
}

/// Where a scan of the feed stands.
#[verifier::ext_equal]
pub struct ScanState {
    /// The last text inside a `title` element.
    pub title: Seq<char>,
    /// The texts inside `author` elements.
    pub authors: Seq<Seq<char>>,
    /// The `href` of the last empty `link` element.
    pub link: Seq<char>,
    pub in_title: bool,
    pub in_author: bool,
    /// The character data read since the last markup, references resolved.
    pub pending: Seq<char>,
}

pub open spec fn scan_start() -> ScanState {
    ScanState {
        title: seq![],
        authors: seq![],
        link: seq![],
        in_title: false,
        in_author: false,
        pending: seq![],
    }
}

/// The scan once the pending character data is taken as one text: trimmed,
/// and, when not empty, the title inside `title` or another author inside
/// `author`.
pub open spec fn flushed(st: ScanState) -> ScanState {
    let t = xml_trim(st.pending);
    ScanState {
        title: if t.len() > 0 && st.in_title {
            t
        } else {
            st.title
        },
        authors: if t.len() > 0 && !st.in_title && st.in_author {
            st.authors.push(t)
        } else {
            st.authors
        },
        pending: seq![],
        ..st
    }
}

/// One event applied to the scan; `None` for a `link` element without a
/// readable `href`, for an unknown reference, and for events that a read
/// document does not hold.
pub open spec fn scan_step(st: ScanState, e: FeedEventView) -> Option<ScanState> {
    match e {
        FeedEventView::Text(t) => Some(ScanState { pending: st.pending + t, ..st }),
        FeedEventView::Reference(n) => match reference_text(n) {
            Some(x) => Some(ScanState { pending: st.pending + x, ..st }),
            None => None,
        },
        FeedEventView::Empty { name, href } => {
            let f = flushed(st);
            if name == "link"@ {
                match href {
                    HrefView::Value(v) => Some(ScanState { link: v, ..f }),
                    _ => None,
                }
            } else {
                Some(f)
            }
        },
        FeedEventView::Start(name) => {
            let f = flushed(st);
            if name == "title"@ {
                Some(ScanState { in_title: true, ..f })
            } else if name == "author"@ {
                Some(ScanState { in_author: true, ..f })
            } else {
                Some(f)
            }
        },
        FeedEventView::End(name) => {
            let f = flushed(st);
            if name == "title"@ {
                Some(ScanState { in_title: false, ..f })
            } else if name == "author"@ {
                Some(ScanState { in_author: false, ..f })
            } else {
                Some(f)
            }
        },
        FeedEventView::Other => Some(flushed(st)),
        _ => None,
    }
}

/// The scan of the events in order.
pub open spec fn scan(events: Seq<FeedEventView>) -> Option<ScanState>
    decreases events.len(),
{
    if events.len() == 0 {
        Some(scan_start())
    } else {
        match scan(events.drop_last()) {
            Some(st) => scan_step(st, events.last()),
            None => None,
        }
    }
}

/// What the whole feed says: the scan, its last text taken in.
pub open spec fn feed_reading(events: Seq<FeedEventView>) -> Option<ScanState> {
    match scan(events) {
        Some(st) => Some(flushed(st)),
        None => None,
    }
}

/// The title, authors and link that a feed gives: its last title, the texts
/// inside its `author` elements, and its last empty `link`'s `href`.
#[derive(Debug)]
pub struct FeedSummary {
    pub title: String,
    pub authors: Vec<String>,
    pub link: String,
}

/// The summary agrees with the state of a scan.
pub open spec fn summarizes(s: FeedSummary, st: ScanState) -> bool {
    s.title@ == st.title && s.authors.deep_view() == st.authors && s.link@ == st.link
}

/// The exec state of a scan.
struct Scanner {
    title: String,
    authors: Vec<String>,
    link: String,
    in_title: bool,
    in_author: bool,
    pending: String,
}

impl Scanner {
    spec fn state(&self) -> ScanState {
        ScanState {
            title: self.title@,
            authors: self.authors.deep_view(),
            link: self.link@,
            in_title: self.in_title,
            in_author: self.in_author,
            pending: self.pending@,
        }
    }

    fn flush(&mut self)
        ensures
            final(self).state() == flushed(old(self).state()),
    {
        let t = trim_xml_space(self.pending.as_str());
        let ghost tv = t@;
        let ghost before = self.authors.deep_view();
        let nonempty = !t.as_str().is_empty();
        if nonempty && self.in_title {
            self.title = t;
        } else if nonempty && self.in_author {
            self.authors.push(t);
            assert(self.authors.deep_view() =~= before.push(tv));
        }
        self.pending = String::new();
        assert(self.state() =~= flushed(old(self).state()));
    }
}

impl FeedSummary {
    /// The title, authors and last link of the feed whose events are `events`;
    /// `None` when a `link` element has no readable `href` or a reference is
    /// unknown.
    pub fn from_events(events: &Vec<FeedEvent>) -> (res: Option<FeedSummary>)
        ensures
            match (res, feed_reading(events.deep_view())) {
                (Some(s), Some(st)) => summarizes(s, st),
                (None, None) => true,
                _ => false,
            },
    {
        let mut sc = Scanner {
            title: String::new(),
            authors: Vec::new(),
            link: String::new(),
            in_title: false,
            in_author: false,
            pending: String::new(),
        };
        assert(sc.state() =~= scan_start());
        let ghost ev = events.deep_view();
        let mut i: usize = 0;
        while i < events.len()
            invariant
                i <= events.len(),
                ev == events.deep_view(),
                scan(ev.subrange(0, i as int)) == Some(sc.state()),
            decreases events.len() - i,
        {
            let ghost st = sc.state();
            let ghost sub = ev.subrange(0, i + 1);
            assert(sub.drop_last() =~= ev.subrange(0, i as int));
            assert(sub.last() == events[i as int]@);
            match &events[i] {
                FeedEvent::Text(t) => {
                    sc.pending.append(t.as_str());
                },
                FeedEvent::Reference(n) => {
                    match resolve_reference(n.as_str()) {
                        Some(x) => {
                            sc.pending.append(x.as_str());
                        },
                        None => {
                            proof {
                                lemma_scan_fails_after(ev, i + 1);
                            }
                            return None;
                        },
                    }
                },
                FeedEvent::Empty { name, href } => {
                    sc.flush();
                    if text_eq(name.as_str(), "link") {
                        match href {
                            Href::Value(v) => {
                                sc.link = string_from(v.as_str());
                            },
                            _ => {
                                proof {
                                    lemma_scan_fails_after(ev, i + 1);
                                }
                                return None;
                            },
                        }
                    }
                },
                FeedEvent::Start(name) => {
                    sc.flush();
                    if text_eq(name.as_str(), "title") {
                        sc.in_title = true;
                    } else if text_eq(name.as_str(), "author") {
                        sc.in_author = true;
                    }
                },
                FeedEvent::End(name) => {
                    sc.flush();
                    if text_eq(name.as_str(), "title") {
                        sc.in_title = false;
                    } else if text_eq(name.as_str(), "author") {
                        sc.in_author = false;
                    }
                },
                FeedEvent::Other => {
                    sc.flush();
                },
                _ => {
                    proof {
                        lemma_scan_fails_after(ev, i + 1);
                    }
                    return None;
                },
            }
            i = i + 1;
            assert(scan(ev.subrange(0, i as int)) =~= Some(sc.state()));
        }
        assert(ev.subrange(0, i as int) =~= ev);
        sc.flush();
        Some(FeedSummary { title: sc.title, authors: sc.authors, link: sc.link })
    }
}

/// Once a scan fails, it fails on every longer sequence of events.
proof fn lemma_scan_fails_after(events: Seq<FeedEventView>, k: int)
    requires
        0 <= k <= events.len(),
        scan(events.subrange(0, k)) is None,
    ensures
        scan(events) is None,
    decreases events.len() - k,
{
    if k < events.len() {
        let sub = events.subrange(0, k + 1);
        assert(sub.drop_last() =~= events.subrange(0, k));
        lemma_scan_fails_after(events, k + 1);
    } else {
        assert(events.subrange(0, k) =~= events);
    }
}

/// The feed names the same paper as `a`: the same title and the same authors
/// in the same order.
pub open spec fn names_same_paper(s: FeedSummary, a: Article) -> bool {
    s.title@ == a.title@ && s.authors.deep_view() == a.authors.deep_view()
}

/// The lists of texts are equal.
pub fn texts_eq(a: &Vec<String>, b: &Vec<String>) -> (res: bool)
    ensures
        res == (a.deep_view() == b.deep_view()),
{
    if a.len() != b.len() {
        assert(a.deep_view().len() != b.deep_view().len());
        return false;
    }
    let mut i: usize = 0;
    while i < a.len()
        invariant
            a.len() == b.len(),
            i <= a.len(),
            forall|j: int| 0 <= j < i ==> a.deep_view()[j] == b.deep_view()[j],
        decreases a.len() - i,
    {
        if !text_eq(a[i].as_str(), b[i].as_str()) {
            assert(a.deep_view()[i as int] != b.deep_view()[i as int]);
            return false;
        }
        i = i + 1;
    }
    assert(a.deep_view() =~= b.deep_view());
    true
}

impl Article {
    /// The arXiv link of this paper when the feed names the same paper.
    pub fn arxiv_match(&self, feed: &FeedSummary) -> (res: Option<String>)
        ensures
            match res {
                Some(l) => names_same_paper(*feed, *self) && l@ == feed.link@,
                None => !names_same_paper(*feed, *self),
            },
    {
        if text_eq(feed.title.as_str(), self.title.as_str()) && texts_eq(
            &feed.authors,
            &self.authors,
        ) {
            Some(string_from(feed.link.as_str()))
        } else {
            None
        }
    }

    /// What the arXiv API's answer `body` to [`Article::arxiv_query_url`] says
    /// of this paper: the arXiv link when the feed's last title and its
    /// authors are this paper's.
    pub fn arxiv_link_in_feed(&self, body: &str) -> (res: Lookup)
        ensures
            res@ == lookup_of(self.title@, self.authors.deep_view(), xml_feed_events(body@)),
    {
        let events = match read_feed(body) {
            Some(e) => e,
            None => return Lookup::Unreadable,
        };
        let summary = match FeedSummary::from_events(&events) {
            Some(s) => s,
            None => return Lookup::Unreadable,
        };
        match self.arxiv_match(&summary) {
            Some(l) => Lookup::Found(l),
            None => Lookup::NotFound,
        }
    }
}

/// What an arXiv search says of a paper.
#[derive(Debug)]
pub enum Lookup {
    /// The feed names the paper; its arXiv link.
    Found(String),
    /// The feed names another paper.
    NotFound,
    /// The feed is not well-formed, or has a `link` without `href` or an
    /// unknown reference.
    Unreadable,
}

/// The value of a [`Lookup`].
pub enum LookupView {
    Found(Seq<char>),
    NotFound,
    Unreadable,
}

impl View for Lookup {
    type V = LookupView;

    open spec fn view(&self) -> LookupView {
        match self {
            Lookup::Found(l) => LookupView::Found(l@),
            Lookup::NotFound => LookupView::NotFound,
            Lookup::Unreadable => LookupView::Unreadable,
        }
    }
}

/// What a feed with the events `events` says of the paper with `title` and
/// `authors`: its link when the feed's reading has that title and those
/// authors, `NotFound` when it has others, `Unreadable` when it has none.
pub open spec fn lookup_of(
    title: Seq<char>,
    authors: Seq<Seq<char>>,
    events: Option<Seq<FeedEventView>>,
) -> LookupView {
    match events {
        Some(evs) => match feed_reading(evs) {
            Some(st) => if st.title == title && st.authors == authors {
                LookupView::Found(st.link)
            } else {
                LookupView::NotFound
            },
            None => LookupView::Unreadable,
        },
        None => LookupView::Unreadable,
    }
}

} // verus!
