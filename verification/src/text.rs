//! Character-level text operations: searching, splitting, joining,
//! replacing and trimming, each stated over `Seq<char>`.
use vstd::prelude::*;

verus! {

/// `String::push` appends one character.
pub assume_specification[ String::push ](s: &mut String, ch: char)
    ensures
        final(s)@ == old(s)@.push(ch),
;

// ---------------------------------------------------------------------------
// Specifications
// ---------------------------------------------------------------------------

/// `p` occurs in `s` starting at index `i`.
pub open spec fn occurs_at(s: Seq<char>, p: Seq<char>, i: int) -> bool {
    &&& 0 <= i
    &&& i + p.len() <= s.len()
    &&& s.subrange(i, i + p.len()) == p
}

/// The index of the first occurrence of `p` in `s` at or after index `i`.
pub open spec fn seq_find(s: Seq<char>, p: Seq<char>, i: int) -> Option<int>
    decreases s.len() - i,
{
    if i < 0 || i + p.len() > s.len() {
        None
    } else if occurs_at(s, p, i) {
        Some(i)
    } else if i + p.len() == s.len() {
        None
    } else {
        seq_find(s, p, i + 1)
    }
}

/// The pieces of `s[start..]` between the occurrences of `p`, as
/// `str::split` yields them.
pub open spec fn seq_split_from(s: Seq<char>, p: Seq<char>, start: int) -> Seq<Seq<char>>
    decreases s.len() - start,
{
    if p.len() == 0 || start < 0 || start > s.len() {
        seq![]
    } else {
        match seq_find(s, p, start) {
            Some(i) => if start <= i && i + p.len() <= s.len() {
                seq![s.subrange(start, i)] + seq_split_from(s, p, i + p.len())
            } else {
                seq![]
            },
            None => seq![s.subrange(start, s.len() as int)],
        }
    }
}

/// The pieces of `s` between the occurrences of the non-empty pattern `p`.
pub open spec fn seq_split(s: Seq<char>, p: Seq<char>) -> Seq<Seq<char>> {
    seq_split_from(s, p, 0)
}

/// `s` with its first occurrence of `from` replaced by `to`.
pub open spec fn seq_replace_first(s: Seq<char>, from: Seq<char>, to: Seq<char>) -> Seq<char> {
    match seq_find(s, from, 0) {
        Some(i) => s.subrange(0, i) + to + s.subrange(i + from.len(), s.len() as int),
        None => s,
    }
}

/// `s` with every `a` replaced by `b`.
pub open spec fn seq_replace_char(s: Seq<char>, a: char, b: char) -> Seq<char> {
    s.map_values(|c: char| if c == a { b } else { c })
}

/// The parts joined with `sep` between neighbours.
pub open spec fn seq_join(parts: Seq<Seq<char>>, sep: Seq<char>) -> Seq<char>
    decreases parts.len(),
{
    if parts.len() == 0 {
        seq![]
    } else if parts.len() == 1 {
        parts[0]
    } else {
        seq_join(parts.drop_last(), sep) + sep + parts.last()
    }
}

/// The characters with the Unicode `White_Space` property, which is what
/// `char::is_whitespace` tests.
pub open spec fn is_white(c: char) -> bool {
    let u = c as u32;
    ||| 0x09 <= u <= 0x0D
    ||| u == 0x20
    ||| u == 0x85
    ||| u == 0xA0
    ||| u == 0x1680
    ||| 0x2000 <= u <= 0x200A
    ||| u == 0x2028
    ||| u == 0x2029
    ||| u == 0x202F
    ||| u == 0x205F
    ||| u == 0x3000
}

/// The first index at or after `i` that holds no white space (or the length).
pub open spec fn skip_white(s: Seq<char>, i: int) -> int
    decreases s.len() - i,
{
    if 0 <= i < s.len() && is_white(s[i]) {
        skip_white(s, i + 1)
    } else {
        i
    }
}

/// The end of `s[lo..j]` once trailing white space is dropped.
pub open spec fn drop_white_back(s: Seq<char>, lo: int, j: int) -> int
    decreases j - lo,
{
    if lo < j <= s.len() && is_white(s[j - 1]) {
        drop_white_back(s, lo, j - 1)
    } else {
        j
    }
}

/// `s` without leading and trailing white space, as `str::trim` gives it.
pub open spec fn seq_trim(s: Seq<char>) -> Seq<char> {
    let lo = skip_white(s, 0);
    s.subrange(lo, drop_white_back(s, lo, s.len() as int))
}

/// The index of the last `c` in `s[..j]`.
pub open spec fn last_index_before(s: Seq<char>, c: char, j: int) -> Option<int>
    decreases j,
{
    if j <= 0 || j > s.len() {
        None
    } else if s[j - 1] == c {
        Some(j - 1)
    } else {
        last_index_before(s, c, j - 1)
    }
}

/// The index of the first `c` in `s` at or after `i`.
pub open spec fn first_index_from(s: Seq<char>, c: char, i: int) -> Option<int>
    decreases s.len() - i,
{
    if i < 0 || i >= s.len() {
        None
    } else if s[i] == c {
        Some(i)
    } else {
        first_index_from(s, c, i + 1)
    }
}

/// The part of `s` after its last `c`, or all of `s` when there is none:
/// the first item of `s.rsplitn(n, c)` for any `n > 1`.
pub open spec fn after_last(s: Seq<char>, c: char) -> Seq<char> {
    match last_index_before(s, c, s.len() as int) {
        Some(k) => s.subrange(k + 1, s.len() as int),
        None => s,
    }
}

/// The part of `s` before its first `c`, or all of `s` when there is none:
/// the first item of `s.split(c)` and of `s.splitn(n, c)`.
pub open spec fn before_first(s: Seq<char>, c: char) -> Seq<char> {
    match first_index_from(s, c, 0) {
        Some(k) => s.subrange(0, k),
        None => s,
    }
}

/// `s` ends with `suffix`.
pub open spec fn seq_ends_with(s: Seq<char>, suffix: Seq<char>) -> bool {
    suffix.len() <= s.len() && s.subrange(s.len() - suffix.len(), s.len() as int) == suffix
}

// ---------------------------------------------------------------------------
// Lemmas
// ---------------------------------------------------------------------------

/// What `seq_find` returns: the least index at or after `i` where `p` occurs.
pub proof fn lemma_find(s: Seq<char>, p: Seq<char>, i: int)
    requires
        0 <= i,
    ensures
        match seq_find(s, p, i) {
            Some(k) => i <= k && occurs_at(s, p, k) && forall|j: int|
                i <= j < k ==> !#[trigger] occurs_at(s, p, j),
            None => forall|j: int| i <= j ==> !#[trigger] occurs_at(s, p, j),
        },
    decreases s.len() - i,
{
    if i + p.len() > s.len() {
    } else if occurs_at(s, p, i) {
    } else if i + p.len() == s.len() {
    } else {
        lemma_find(s, p, i + 1);
    }
}

/// What `last_index_before` returns.
pub proof fn lemma_last_index(s: Seq<char>, c: char, j: int)
    requires
        0 <= j <= s.len(),
    ensures
        match last_index_before(s, c, j) {
            Some(k) => 0 <= k < j && s[k] == c && forall|m: int| k < m < j ==> s[m] != c,
            None => forall|m: int| 0 <= m < j ==> s[m] != c,
        },
    decreases j,
{
    if j > 0 && s[j - 1] != c {
        lemma_last_index(s, c, j - 1);
    }
}

/// What `first_index_from` returns.
pub proof fn lemma_first_index(s: Seq<char>, c: char, i: int)
    requires
        0 <= i <= s.len(),
    ensures
        match first_index_from(s, c, i) {
            Some(k) => i <= k < s.len() && s[k] == c && forall|m: int| i <= m < k ==> s[m] != c,
            None => forall|m: int| i <= m < s.len() ==> s[m] != c,
        },
    decreases s.len() - i,
{
    if i < s.len() && s[i] != c {
        lemma_first_index(s, c, i + 1);
    }
}

/// `seq_find` from `i` lands on the first occurrence at or after `i`.
pub proof fn lemma_find_first(s: Seq<char>, p: Seq<char>, i: int, k: int)
    requires
        0 <= i <= k,
        occurs_at(s, p, k),
        forall|j: int| i <= j < k ==> !#[trigger] occurs_at(s, p, j),
    ensures
        seq_find(s, p, i) == Some(k),
    decreases k - i,
{
    if i < k {
        assert(!occurs_at(s, p, i));
        lemma_find_first(s, p, i + 1, k);
    }
}

/// With no occurrence at or after `i`, `seq_find` finds none.
pub proof fn lemma_find_none(s: Seq<char>, p: Seq<char>, i: int)
    requires
        0 <= i,
        forall|j: int| i <= j ==> !#[trigger] occurs_at(s, p, j),
    ensures
        seq_find(s, p, i) is None,
{
    lemma_find(s, p, i);
}

/// A one-character pattern occurs exactly where that character stands.
pub proof fn lemma_occurs_char(s: Seq<char>, c: char, j: int)
    ensures
        occurs_at(s, seq![c], j) <==> (0 <= j < s.len() && s[j] == c),
{
    if 0 <= j < s.len() && s[j] == c {
        assert(s.subrange(j, j + 1) =~= seq![c]);
    }
    if occurs_at(s, seq![c], j) {
        assert(s.subrange(j, j + 1)[0] == c);
    }
}

/// `s` holds no `c`.
pub open spec fn free_of(s: Seq<char>, c: char) -> bool {
    forall|k: int| 0 <= k < s.len() ==> s[k] != c
}

/// Splitting `x + [c] + y`, where `y` holds no `c`, at `c` gives the pieces
/// of `x` and then `y`.
pub proof fn lemma_split_last_piece(x: Seq<char>, c: char, y: Seq<char>, start: int)
    requires
        0 <= start <= x.len(),
        free_of(y, c),
    ensures
        seq_split_from(x + seq![c] + y, seq![c], start) == seq_split_from(x, seq![c], start).push(y),
    decreases x.len() - start,
{
    let s = x + seq![c] + y;
    let p = seq![c];
    let n = x.len() as int;
    assert forall|j: int| 0 <= j < n implies (#[trigger] occurs_at(s, p, j) <==> occurs_at(x, p, j)) by {
        lemma_occurs_char(s, c, j);
        lemma_occurs_char(x, c, j);
    }
    lemma_find(x, p, start);
    match seq_find(x, p, start) {
        Some(i) => {
            assert forall|j: int| start <= j < i implies !#[trigger] occurs_at(s, p, j) by {
                assert(!occurs_at(x, p, j));
            }
            lemma_find_first(s, p, start, i);
            lemma_split_last_piece(x, c, y, i + 1);
            assert(s.subrange(start, i) =~= x.subrange(start, i));
            assert(seq_split_from(s, p, start) =~= seq![s.subrange(start, i)] + seq_split_from(s, p, i + 1));
            assert(seq_split_from(x, p, start) =~= seq![x.subrange(start, i)] + seq_split_from(x, p, i + 1));
        },
        None => {
            assert forall|j: int| start <= j < n implies !#[trigger] occurs_at(s, p, j) by {
                assert(!occurs_at(x, p, j));
            }
            lemma_occurs_char(s, c, n);
            lemma_find_first(s, p, start, n);
            assert forall|j: int| n + 1 <= j implies !#[trigger] occurs_at(s, p, j) by {
                lemma_occurs_char(s, c, j);
                if 0 <= j < s.len() {
                    assert(s[j] == y[j - n - 1]);
                }
            }
            lemma_find_none(s, p, n + 1);
            assert(s.subrange(start, n) =~= x.subrange(start, n));
            assert(s.subrange(n + 1, s.len() as int) =~= y);
            assert(seq_split_from(s, p, n + 1) == seq![s.subrange(n + 1, s.len() as int)]);
            assert(seq_split_from(s, p, start) == seq![s.subrange(start, n)] + seq_split_from(
                s,
                p,
                n + 1,
            ));
            assert(seq_split_from(s, p, start) =~= seq![x.subrange(start, n)] + seq![y]);
            assert(seq_split_from(x, p, start) =~= seq![x.subrange(start, n)]);
        },
    }
}

/// Joining pieces that hold no `c` with `c` and splitting the result at `c`
/// gives the pieces back.
pub proof fn lemma_split_join(parts: Seq<Seq<char>>, c: char)
    requires
        parts.len() > 0,
        forall|k: int| 0 <= k < parts.len() ==> free_of(#[trigger] parts[k], c),
    ensures
        seq_split(seq_join(parts, seq![c]), seq![c]) == parts,
    decreases parts.len(),
{
    if parts.len() == 1 {
        let s = parts[0];
        assert(free_of(parts[0], c));
        assert forall|j: int| 0 <= j implies !#[trigger] occurs_at(s, seq![c], j) by {
            lemma_occurs_char(s, c, j);
        }
        lemma_find_none(s, seq![c], 0);
        assert(s.subrange(0, s.len() as int) =~= s);
        assert(seq_split(s, seq![c]) =~= parts);
    } else {
        let init = parts.drop_last();
        assert forall|k: int| 0 <= k < init.len() implies free_of(#[trigger] init[k], c) by {
            assert(init[k] == parts[k]);
        }
        lemma_split_join(init, c);
        assert(free_of(parts[parts.len() - 1], c));
        lemma_split_last_piece(seq_join(init, seq![c]), c, parts.last(), 0);
        assert(init.push(parts.last()) =~= parts);
    }
}

/// No piece of a split at `c` holds `c`.
pub proof fn lemma_split_pieces_free(s: Seq<char>, c: char, start: int)
    requires
        0 <= start <= s.len(),
    ensures
        forall|k: int|
            0 <= k < seq_split_from(s, seq![c], start).len() ==> free_of(
                #[trigger] seq_split_from(s, seq![c], start)[k],
                c,
            ),
    decreases s.len() - start,
{
    let p = seq![c];
    lemma_find(s, p, start);
    match seq_find(s, p, start) {
        Some(i) => {
            lemma_split_pieces_free(s, c, i + 1);
            let first = s.subrange(start, i);
            assert forall|m: int| 0 <= m < first.len() implies first[m] != c by {
                lemma_occurs_char(s, c, start + m);
            }
            let rest = seq_split_from(s, p, i + 1);
            assert(seq_split_from(s, p, start) == seq![first] + rest);
            assert forall|k: int| 0 <= k < seq_split_from(s, p, start).len() implies free_of(
                #[trigger] seq_split_from(s, p, start)[k],
                c,
            ) by {
                if k > 0 {
                    assert(seq_split_from(s, p, start)[k] == rest[k - 1]);
                }
            }
        },
        None => {
            let only = s.subrange(start, s.len() as int);
            assert forall|m: int| 0 <= m < only.len() implies only[m] != c by {
                lemma_occurs_char(s, c, start + m);
            }
        },
    }
}

// ---------------------------------------------------------------------------
// Executable operations
// ---------------------------------------------------------------------------

/// The characters of `s`, in order.
pub fn chars_of(s: &str) -> (res: Vec<char>)
    ensures
        res@ == s@,
{
    let mut res: Vec<char> = Vec::new();
    for c in it: s.chars()
        invariant
            res@ == it.seq().take(it.index() as int),
    {
        res.push(c);
    }
    res
}

/// The text `s[lo..hi]` as a `String`.
pub fn string_of(s: &Vec<char>, lo: usize, hi: usize) -> (res: String)
    requires
        lo <= hi <= s.len(),
    ensures
        res@ == s@.subrange(lo as int, hi as int),
{
    let mut res = String::new();
    let mut i = lo;
    while i < hi
        invariant
            lo <= i <= hi <= s.len(),
            res@ == s@.subrange(lo as int, i as int),
        decreases hi - i,
    {
        res.push(s[i]);
        i = i + 1;
        assert(res@ =~= s@.subrange(lo as int, i as int));
    }
    res
}

/// A copy of `s` as a `String`.
pub fn string_from(s: &str) -> (res: String)
    ensures
        res@ == s@,
{
    let mut res = String::new();
    res.append(s);
    assert(res@ =~= s@);
    res
}

/// `a` followed by `b`.
pub fn concat(a: &str, b: &str) -> (res: String)
    ensures
        res@ == a@ + b@,
{
    let mut res = String::new();
    res.append(a);
    res.append(b);
    assert(res@ =~= a@ + b@);
    res
}

/// The two texts are equal.
pub fn text_eq(a: &str, b: &str) -> (res: bool)
    ensures
        res == (a@ == b@),
{
    let x = chars_of(a);
    let y = chars_of(b);
    if x.len() != y.len() {
        return false;
    }
    let mut i: usize = 0;
    while i < x.len()
        invariant
            x.len() == y.len(),
            i <= x.len(),
            x@ == a@,
            y@ == b@,
            forall|j: int| 0 <= j < i ==> x@[j] == y@[j],
        decreases x.len() - i,
    {
        if x[i] != y[i] {
            return false;
        }
        i = i + 1;
    }
    assert(x@ =~= y@);
    true
}

/// Whether `p` occurs in `s` at index `i`.
fn occurs_at_exec(s: &Vec<char>, p: &Vec<char>, i: usize) -> (res: bool)
    ensures
        res == occurs_at(s@, p@, i as int),
{
    if i > s.len() || p.len() > s.len() - i {
        return false;
    }
    let mut j: usize = 0;
    while j < p.len()
        invariant
            i + p.len() <= s.len(),
            j <= p.len(),
            forall|m: int| 0 <= m < j ==> s@[i + m] == p@[m],
        decreases p.len() - j,
    {
        if s[i + j] != p[j] {
            assert(s@.subrange(i as int, i + p.len())[j as int] != p@[j as int]);
            return false;
        }
        j = j + 1;
    }
    assert(s@.subrange(i as int, i + p.len()) =~= p@);
    true
}

/// The first index at or after `start` where `p` occurs in `s`.
pub fn find_from(s: &Vec<char>, p: &Vec<char>, start: usize) -> (res: Option<usize>)
    ensures
        match res {
            Some(k) => seq_find(s@, p@, start as int) == Some(k as int),
            None => seq_find(s@, p@, start as int) is None,
        },
{
    let mut i = start;
    while i <= s.len()
        invariant
            start <= i,
            seq_find(s@, p@, start as int) == seq_find(s@, p@, i as int),
        decreases s.len() + 1 - i,
    {
        if p.len() > s.len() - i {
            return None;
        }
        if occurs_at_exec(s, p, i) {
            return Some(i);
        }
        if p.len() == s.len() - i {
            return None;
        }
        i = i + 1;
    }
    None
}

/// The pieces of `s` between the occurrences of `p`, as `str::split` yields them.
pub fn split(s: &str, p: &str) -> (res: Vec<String>)
    requires
        p@.len() > 0,
    ensures
        res.deep_view() == seq_split(s@, p@),
{
    let sc = chars_of(s);
    let pc = chars_of(p);
    let mut res: Vec<String> = Vec::new();
    let mut start: usize = 0;
    loop
        invariant
            sc@ == s@,
            pc@ == p@,
            pc.len() > 0,
            start <= sc.len(),
            res.deep_view() + seq_split_from(sc@, pc@, start as int) == seq_split_from(
                sc@,
                pc@,
                0,
            ),
        decreases sc.len() - start,
    {
        let ghost before = res.deep_view();
        proof {
            lemma_find(sc@, pc@, start as int);
        }
        match find_from(&sc, &pc, start) {
            Some(i) => {
                let piece = string_of(&sc, start, i);
                res.push(piece);
                assert(res.deep_view() =~= before.push(sc@.subrange(start as int, i as int)));
                assert(seq_split_from(sc@, pc@, start as int) == seq![
                    sc@.subrange(start as int, i as int),
                ] + seq_split_from(sc@, pc@, i + pc.len()));
                assert(res.deep_view() + seq_split_from(sc@, pc@, i + pc.len()) =~= before
                    + seq_split_from(sc@, pc@, start as int));
                start = i + pc.len();
            },
            None => {
                let piece = string_of(&sc, start, sc.len());
                res.push(piece);
                assert(res.deep_view() =~= before.push(sc@.subrange(start as int, sc.len() as int)));
                assert(res.deep_view() =~= before + seq_split_from(sc@, pc@, start as int));
                return res;
            },
        }
    }
}

/// `s` with its first occurrence of `from` replaced by `to`, as
/// `str::replacen(from, to, 1)` gives it.
pub fn replace_first(s: &str, from: &str, to: &str) -> (res: String)
    ensures
        res@ == seq_replace_first(s@, from@, to@),
{
    let sc = chars_of(s);
    let fc = chars_of(from);
    proof {
        lemma_find(sc@, fc@, 0);
    }
    match find_from(&sc, &fc, 0) {
        Some(i) => {
            assert(occurs_at(sc@, fc@, i as int));
            let fl = fc.len();
            assert(i + fl <= sc.len());
            let end = i + fl;
            let mut res = string_of(&sc, 0, i);
            res.append(to);
            let rest = string_of(&sc, end, sc.len());
            res.append(rest.as_str());
            res
        },
        None => string_from(s),
    }
}

/// `s` with every `a` replaced by `b`.
pub fn replace_char(s: &str, a: char, b: char) -> (res: String)
    ensures
        res@ == seq_replace_char(s@, a, b),
{
    let sc = chars_of(s);
    let mut res = String::new();
    let mut i: usize = 0;
    while i < sc.len()
        invariant
            i <= sc.len(),
            sc@ == s@,
            res@ == seq_replace_char(sc@.subrange(0, i as int), a, b),
        decreases sc.len() - i,
    {
        let c = sc[i];
        if c == a {
            res.push(b);
        } else {
            res.push(c);
        }
        i = i + 1;
        assert(res@ =~= seq_replace_char(sc@.subrange(0, i as int), a, b));
    }
    assert(sc@.subrange(0, sc.len() as int) =~= sc@);
    res
}

/// The parts joined with `sep` between neighbours, as `[String]::join` gives it.
pub fn join(parts: &Vec<String>, sep: &str) -> (res: String)
    ensures
        res@ == seq_join(parts.deep_view(), sep@),
{
    let mut res = String::new();
    let ghost parts_view = parts.deep_view();
    let mut i: usize = 0;
    assert(parts_view.take(0) =~= Seq::<Seq<char>>::empty());
    while i < parts.len()
        invariant
            i <= parts.len(),
            parts_view == parts.deep_view(),
            res@ == seq_join(parts_view.take(i as int), sep@),
        decreases parts.len() - i,
    {
        if i != 0 {
            res.append(sep);
        }
        res.append(parts[i].as_str());
        i = i + 1;
        assert(parts_view.take(i as int).drop_last() =~= parts_view.take(i - 1));
        assert(res@ =~= seq_join(parts_view.take(i as int), sep@));
    }
    assert(parts_view.take(parts.len() as int) =~= parts_view);
    res
}

/// Whether `c` is white space, as `char::is_whitespace` tells.
pub fn is_whitespace(c: char) -> (res: bool)
    ensures
        res == is_white(c),
{
    let u = c as u32;
    (0x09 <= u && u <= 0x0D) || u == 0x20 || u == 0x85 || u == 0xA0 || u == 0x1680 || (0x2000
        <= u && u <= 0x200A) || u == 0x2028 || u == 0x2029 || u == 0x202F || u == 0x205F || u
        == 0x3000
}

/// `s` without leading and trailing white space, as `str::trim` gives it.
pub fn trim(s: &str) -> (res: String)
    ensures
        res@ == seq_trim(s@),
{
    let sc = chars_of(s);
    let mut lo: usize = 0;
    while lo < sc.len() && is_whitespace(sc[lo])
        invariant
            lo <= sc.len(),
            skip_white(sc@, 0) == skip_white(sc@, lo as int),
        decreases sc.len() - lo,
    {
        lo = lo + 1;
    }
    let mut hi: usize = sc.len();
    while hi > lo && is_whitespace(sc[hi - 1])
        invariant
            lo <= hi <= sc.len(),
            drop_white_back(sc@, lo as int, sc.len() as int) == drop_white_back(
                sc@,
                lo as int,
                hi as int,
            ),
        decreases hi,
    {
        hi = hi - 1;
    }
    assert(sc@ == s@);
    string_of(&sc, lo, hi)
}

/// Whether `s` ends with `suffix`.
pub fn ends_with(s: &str, suffix: &str) -> (res: bool)
    ensures
        res == seq_ends_with(s@, suffix@),
{
    let sc = chars_of(s);
    let xc = chars_of(suffix);
    if xc.len() > sc.len() {
        return false;
    }
    let res = occurs_at_exec(&sc, &xc, sc.len() - xc.len());
    res
}

/// The index of the last `c` in `s[..j]`.
pub fn last_index(s: &Vec<char>, c: char, j: usize) -> (res: Option<usize>)
    requires
        j <= s.len(),
    ensures
        match res {
            Some(k) => last_index_before(s@, c, j as int) == Some(k as int),
            None => last_index_before(s@, c, j as int) is None,
        },
{
    let mut k = j;
    while k > 0
        invariant
            k <= j <= s.len(),
            last_index_before(s@, c, j as int) == last_index_before(s@, c, k as int),
        decreases k,
    {
        if s[k - 1] == c {
            return Some(k - 1);
        }
        k = k - 1;
    }
    None
}

/// The index of the first `c` in `s` at or after `i`.
pub fn first_index(s: &Vec<char>, c: char, i: usize) -> (res: Option<usize>)
    ensures
        match res {
            Some(k) => first_index_from(s@, c, i as int) == Some(k as int),
            None => first_index_from(s@, c, i as int) is None,
        },
{
    let mut k = i;
    while k < s.len()
        invariant
            i <= k,
            first_index_from(s@, c, i as int) == first_index_from(s@, c, k as int),
        decreases s.len() - k,
    {
        if s[k] == c {
            return Some(k);
        }
        k = k + 1;
    }
    None
}

/// The part of `s` after its last `c` (all of `s` when there is none).
pub fn text_after_last(s: &str, c: char) -> (res: String)
    ensures
        res@ == after_last(s@, c),
{
    let sc = chars_of(s);
    proof {
        lemma_last_index(sc@, c, sc.len() as int);
    }
    match last_index(&sc, c, sc.len()) {
        Some(k) => string_of(&sc, k + 1, sc.len()),
        None => string_from(s),
    }
}

/// The part of `s` before its first `c` (all of `s` when there is none).
pub fn text_before_first(s: &str, c: char) -> (res: String)
    ensures
        res@ == before_first(s@, c),
{
    let sc = chars_of(s);
    proof {
        lemma_first_index(sc@, c, 0);
    }
    match first_index(&sc, c, 0) {
        Some(k) => string_of(&sc, 0, k),
        None => string_from(s),
    }
}

/// `s` without its last `n` characters.
pub fn drop_last_chars(s: &str, n: usize) -> (res: String)
    requires
        n <= s@.len(),
    ensures
        res@ == s@.subrange(0, s@.len() - n),
{
    let sc = chars_of(s);
    string_of(&sc, 0, sc.len() - n)
}

/// What `str::to_uppercase` gives for `s` (Unicode case mapping).
pub uninterp spec fn upper_case(s: Seq<char>) -> Seq<char>;

/// What `str::to_lowercase` gives for `s` (Unicode case mapping).
pub uninterp spec fn lower_case(s: Seq<char>) -> Seq<char>;

/// Only ASCII characters.
pub open spec fn is_ascii_text(s: Seq<char>) -> bool {
    forall|i: int| 0 <= i < s.len() ==> (#[trigger] s[i] as u32) < 128
}

/// `c` with an ASCII lowercase letter made uppercase.
pub open spec fn ascii_upper(c: char) -> char {
    if 'a' <= c <= 'z' {
        ((c as u32) - 32) as char
    } else {
        c
    }
}

/// `c` with an ASCII uppercase letter made lowercase.
pub open spec fn ascii_lower(c: char) -> char {
    if 'A' <= c <= 'Z' {
        ((c as u32) + 32) as char
    } else {
        c
    }
}

/// The uppercase of `s`: letter by letter for ASCII text, Unicode's full
/// mapping otherwise.
pub open spec fn upper_text(s: Seq<char>) -> Seq<char> {
    if is_ascii_text(s) {
        s.map_values(|c: char| ascii_upper(c))
    } else {
        upper_case(s)
    }
}

/// The lowercase of `s`: letter by letter for ASCII text, Unicode's full
/// mapping otherwise.
pub open spec fn lower_text(s: Seq<char>) -> Seq<char> {
    if is_ascii_text(s) {
        s.map_values(|c: char| ascii_lower(c))
    } else {
        lower_case(s)
    }
}

/// `str::to_uppercase`. The contract names the result, and states the part
/// of Unicode's case mapping that ASCII text meets: `a`–`z` become `A`–`Z`,
/// every other ASCII character stays.
#[verifier::external_body]
pub fn to_upper(s: &str) -> (res: String)
    ensures
        res@ == upper_text(s@),
        !is_ascii_text(s@) ==> res@ == upper_case(s@),
{
    s.to_uppercase()
}

/// `str::to_lowercase`. The contract names the result, and states the part
/// of Unicode's case mapping that ASCII text meets: `A`–`Z` become `a`–`z`,
/// every other ASCII character stays.
#[verifier::external_body]
pub fn to_lower(s: &str) -> (res: String)
    ensures
        res@ == lower_text(s@),
        !is_ascii_text(s@) ==> res@ == lower_case(s@),
{
    s.to_lowercase()
}

} // verus!
