//! Plain-text helpers with exact specifications: whitespace trimming,
//! prefix tests, splitting into lines and joining lines back.
use vstd::prelude::*;

verus! {

/// The characters with the Unicode `White_Space` property, the set that
/// `char::is_whitespace` tests for.
pub open spec fn is_space(c: char) -> bool {
    let v = c as u32;
    (0x9 <= v && v <= 0xd) || v == 0x20 || v == 0x85 || v == 0xa0 || v == 0x1680 || (0x2000 <= v
        && v <= 0x200a) || v == 0x2028 || v == 0x2029 || v == 0x202f || v == 0x205f || v == 0x3000
}

/// `s` without its leading whitespace.
pub open spec fn trim_start(s: Seq<char>) -> Seq<char>
    decreases s.len(),
{
    if s.len() > 0 && is_space(s[0]) {
        trim_start(s.drop_first())
    } else {
        s
    }
}

/// `s` without its trailing whitespace.
pub open spec fn trim_end(s: Seq<char>) -> Seq<char>
    decreases s.len(),
{
    if s.len() > 0 && is_space(s.last()) {
        trim_end(s.drop_last())
    } else {
        s
    }
}

/// `s` without leading and trailing whitespace.
pub open spec fn trim(s: Seq<char>) -> Seq<char> {
    trim_end(trim_start(s))
}

/// Whether `p` is a prefix of `s`.
pub open spec fn starts_with(s: Seq<char>, p: Seq<char>) -> bool {
    p.len() <= s.len() && s.subrange(0, p.len() as int) == p
}

/// Whether `c` is whitespace.
pub fn space(c: char) -> (r: bool)
    ensures
        r == is_space(c),
{
    let v = c as u32;
    (0x9 <= v && v <= 0xd) || v == 0x20 || v == 0x85 || v == 0xa0 || v == 0x1680 || (0x2000 <= v
        && v <= 0x200a) || v == 0x2028 || v == 0x2029 || v == 0x202f || v == 0x205f || v == 0x3000
}

/// The index of the first character of `s` that is not whitespace.
fn start_of_text(s: &str) -> (i: usize)
    ensures
        i <= s@.len(),
        trim_start(s@) == s@.subrange(i as int, s@.len() as int),
{
    let n = s.unicode_len();
    let mut i: usize = 0;
    assert(s@.subrange(0, n as int) =~= s@);
    while i < n && space(s.get_char(i))
        invariant
            i <= n,
            n == s@.len(),
            trim_start(s@) == trim_start(s@.subrange(i as int, n as int)),
        decreases n - i,
    {
        assert(s@.subrange(i as int, n as int).drop_first() =~= s@.subrange(i + 1, n as int));
        i = i + 1;
    }
    i
}

/// The index just past the last character of `s` that is not whitespace.
fn end_of_text(s: &str) -> (j: usize)
    ensures
        j <= s@.len(),
        trim_end(s@) == s@.subrange(0, j as int),
{
    let n = s.unicode_len();
    let mut j: usize = n;
    assert(s@.subrange(0, n as int) =~= s@);
    while j > 0 && space(s.get_char(j - 1))
        invariant
            j <= n,
            n == s@.len(),
            trim_end(s@) == trim_end(s@.subrange(0, j as int)),
        decreases j,
    {
        assert(s@.subrange(0, j as int).drop_last() =~= s@.subrange(0, j - 1));
        j = j - 1;
    }
    j
}

/// `s` without leading whitespace.
pub fn trim_start_text(s: &str) -> (r: &str)
    ensures
        r@ == trim_start(s@),
{
    let i = start_of_text(s);
    let n = s.unicode_len();
    s.substring_char(i, n)
}

/// `s` without trailing whitespace.
pub fn trim_end_text(s: &str) -> (r: &str)
    ensures
        r@ == trim_end(s@),
{
    let j = end_of_text(s);
    s.substring_char(0, j)
}

/// `s` without leading and trailing whitespace.
pub fn trim_text(s: &str) -> (r: &str)
    ensures
        r@ == trim(s@),
{
    let t = trim_start_text(s);
    trim_end_text(t)
}

/// Whether `p` is a prefix of `s`.
pub fn has_prefix(s: &str, p: &str) -> (r: bool)
    ensures
        r == starts_with(s@, p@),
{
    let n = s.unicode_len();
    let m = p.unicode_len();
    if m > n {
        return false;
    }
    let mut i: usize = 0;
    while i < m
        invariant
            i <= m,
            m <= n,
            n == s@.len(),
            m == p@.len(),
            forall|k: int| 0 <= k < i ==> s@[k] == p@[k],
        decreases m - i,
    {
        if s.get_char(i) != p.get_char(i) {
            assert(s@.subrange(0, m as int)[i as int] != p@[i as int]);
            return false;
        }
        i = i + 1;
    }
    assert(s@.subrange(0, m as int) =~= p@);
    true
}

/// Whether `a` and `b` hold the same characters.
pub fn same_text(a: &str, b: &str) -> (r: bool)
    ensures
        r == (a@ == b@),
{
    let n = a.unicode_len();
    if n != b.unicode_len() {
        return false;
    }
    let r = has_prefix(a, b);
    assert(a@ =~= a@.subrange(0, n as int));
    r
}

/// A line as it stood before its line feed: without one carriage return
/// just before that line feed.
pub open spec fn strip_cr(l: Seq<char>) -> Seq<char> {
    if l.len() > 0 && l.last() == '\r' {
        l.drop_last()
    } else {
        l
    }
}

/// Reading `s` from the left: the lines closed by a line feed so far, and the
/// characters of the line still open.
pub open spec fn scan_lines(s: Seq<char>) -> (Seq<Seq<char>>, Seq<char>)
    decreases s.len(),
{
    if s.len() == 0 {
        (seq![], seq![])
    } else {
        let p = scan_lines(s.drop_last());
        if s.last() == '\n' {
            (p.0.push(strip_cr(p.1)), seq![])
        } else {
            (p.0, p.1.push(s.last()))
        }
    }
}

/// The lines of `s`: split at each line feed, a carriage return before a line
/// feed dropped, and no empty last line after a final line feed.
pub open spec fn lines_of(s: Seq<char>) -> Seq<Seq<char>> {
    let p = scan_lines(s);
    if p.1.len() == 0 {
        p.0
    } else {
        p.0.push(p.1)
    }
}

/// Reading `s` from the left: the pieces closed by a line feed so far, as
/// they stand, and the characters of the piece still open.
pub open spec fn scan_raw(s: Seq<char>) -> (Seq<Seq<char>>, Seq<char>)
    decreases s.len(),
{
    if s.len() == 0 {
        (seq![], seq![])
    } else {
        let p = scan_raw(s.drop_last());
        if s.last() == '\n' {
            (p.0.push(p.1), seq![])
        } else {
            (p.0, p.1.push(s.last()))
        }
    }
}

/// The lines of `s` exactly as they stand: split at each line feed, with
/// nothing else dropped, and no empty last line after a final line feed.
pub open spec fn raw_lines_of(s: Seq<char>) -> Seq<Seq<char>> {
    let p = scan_raw(s);
    if p.1.len() == 0 {
        p.0
    } else {
        p.0.push(p.1)
    }
}

/// The lines `ls`, each followed by a line feed.
pub open spec fn join_lines(ls: Seq<Seq<char>>) -> Seq<char>
    decreases ls.len(),
{
    if ls.len() == 0 {
        seq![]
    } else {
        join_lines(ls.drop_last()) + ls.last() + seq!['\n']
    }
}

/// The characters of each string of `v`.
pub open spec fn texts(v: Seq<String>) -> Seq<Seq<char>> {
    v.map_values(|l: String| l@)
}

/// Splits `s` into its lines.
pub fn split_lines(s: &str) -> (r: Vec<String>)
    ensures
        texts(r@) == lines_of(s@),
{
    let n = s.unicode_len();
    let mut lines: Vec<String> = Vec::new();
    let mut start: usize = 0;
    let mut i: usize = 0;
    while i < n
        invariant
            start <= i <= n,
            n == s@.len(),
            scan_lines(s@.subrange(0, i as int)) == (texts(lines@), s@.subrange(
                start as int,
                i as int,
            )),
        decreases n - i,
    {
        let ghost pre = s@.subrange(0, i as int);
        assert(s@.subrange(0, i + 1).drop_last() =~= pre);
        let c = s.get_char(i);
        if c == '\n' {
            let end = if i > start && s.get_char(i - 1) == '\r' {
                i - 1
            } else {
                i
            };
            let line = String::from_str(s.substring_char(start, end));
            assert(line@ =~= strip_cr(s@.subrange(start as int, i as int)));
            let ghost old_lines = lines@;
            lines.push(line);
            assert(texts(lines@) =~= texts(old_lines).push(line@));
            start = i + 1;
            assert(s@.subrange(start as int, i + 1) =~= seq![]);
        } else {
            assert(s@.subrange(start as int, i + 1) =~= s@.subrange(start as int, i as int).push(
                c,
            ));
        }
        i = i + 1;
    }
    assert(s@.subrange(0, n as int) =~= s@);
    if start < n {
        let line = String::from_str(s.substring_char(start, n));
        let ghost old_lines = lines@;
        lines.push(line);
        assert(texts(lines@) =~= texts(old_lines).push(line@));
    }
    lines
}

/// Splits `s` at its line feeds, keeping every other character.
pub fn split_raw_lines(s: &str) -> (r: Vec<String>)
    ensures
        texts(r@) == raw_lines_of(s@),
{
    let n = s.unicode_len();
    let mut lines: Vec<String> = Vec::new();
    let mut start: usize = 0;
    let mut i: usize = 0;
    while i < n
        invariant
            start <= i <= n,
            n == s@.len(),
            scan_raw(s@.subrange(0, i as int)) == (texts(lines@), s@.subrange(
                start as int,
                i as int,
            )),
        decreases n - i,
    {
        let ghost pre = s@.subrange(0, i as int);
        assert(s@.subrange(0, i + 1).drop_last() =~= pre);
        let c = s.get_char(i);
        if c == '\n' {
            let line = String::from_str(s.substring_char(start, i));
            let ghost old_lines = lines@;
            lines.push(line);
            assert(texts(lines@) =~= texts(old_lines).push(line@));
            start = i + 1;
            assert(s@.subrange(start as int, i + 1) =~= seq![]);
        } else {
            assert(s@.subrange(start as int, i + 1) =~= s@.subrange(start as int, i as int).push(
                c,
            ));
        }
        i = i + 1;
    }
    assert(s@.subrange(0, n as int) =~= s@);
    if start < n {
        let line = String::from_str(s.substring_char(start, n));
        let ghost old_lines = lines@;
        lines.push(line);
        assert(texts(lines@) =~= texts(old_lines).push(line@));
    }
    lines
}

/// Whether `l` holds no line feed.
pub open spec fn no_newline(l: Seq<char>) -> bool {
    forall|i: int| 0 <= i < l.len() ==> l[i] != '\n'
}

/// Each line of `ls` as it reads once a carriage return before its line feed
/// is dropped.
pub open spec fn strip_all(ls: Seq<Seq<char>>) -> Seq<Seq<char>> {
    ls.map_values(|l: Seq<char>| strip_cr(l))
}

/// Reading on after a text whose last line is closed starts afresh.
pub proof fn lemma_scan_concat(a: Seq<char>, b: Seq<char>)
    requires
        scan_lines(a).1 == Seq::<char>::empty(),
    ensures
        scan_lines(a + b) == (scan_lines(a).0 + scan_lines(b).0, scan_lines(b).1),
    decreases b.len(),
{
    if b.len() == 0 {
        assert(a + b =~= a);
        assert(scan_lines(a).0 + scan_lines(b).0 =~= scan_lines(a).0);
    } else {
        assert((a + b).drop_last() =~= a + b.drop_last());
        assert((a + b).last() == b.last());
        lemma_scan_concat(a, b.drop_last());
        let p = scan_lines(b.drop_last());
        if b.last() == '\n' {
            assert(scan_lines(a).0 + p.0.push(strip_cr(p.1)) =~= (scan_lines(a).0 + p.0).push(
                strip_cr(p.1),
            ));
        }
    }
}

/// A text without line feeds is one open line.
pub proof fn lemma_scan_plain(l: Seq<char>)
    requires
        no_newline(l),
    ensures
        scan_lines(l) == (Seq::<Seq<char>>::empty(), l),
    decreases l.len(),
{
    if l.len() > 0 {
        assert(l.drop_last().push(l.last()) =~= l);
        assert(l[l.len() - 1] != '\n');
        lemma_scan_plain(l.drop_last());
    } else {
        assert(l =~= Seq::<char>::empty());
    }
}

/// Joined lines read back as the same lines, carriage returns before the
/// line feeds aside.
pub proof fn lemma_scan_join(ls: Seq<Seq<char>>)
    requires
        forall|j: int| 0 <= j < ls.len() ==> no_newline(#[trigger] ls[j]),
    ensures
        scan_lines(join_lines(ls)) == (strip_all(ls), Seq::<char>::empty()),
    decreases ls.len(),
{
    if ls.len() == 0 {
        assert(strip_all(ls) =~= Seq::<Seq<char>>::empty());
    } else {
        let init = ls.drop_last();
        assert forall|j: int| 0 <= j < init.len() implies no_newline(#[trigger] init[j]) by {
            assert(init[j] == ls[j]);
        }
        lemma_scan_join(init);
        let x = ls.last();
        assert(no_newline(ls[ls.len() - 1]));
        let b = x + seq!['\n'];
        assert(b.drop_last() =~= x);
        lemma_scan_plain(x);
        assert(scan_lines(b) == (seq![strip_cr(x)], Seq::<char>::empty())) by {
            assert(Seq::<Seq<char>>::empty().push(strip_cr(x)) =~= seq![strip_cr(x)]);
            assert(Seq::<char>::empty() =~= seq![]);
        }
        assert(join_lines(ls) == join_lines(init) + b) by {
            assert(join_lines(init) + x + seq!['\n'] =~= join_lines(init) + b);
        }
        lemma_scan_concat(join_lines(init), b);
        assert(strip_all(init) + seq![strip_cr(x)] =~= strip_all(ls));
    }
}

/// No line of a text, taken as it stands, holds a line feed.
pub proof fn lemma_raw_lines_plain(s: Seq<char>)
    ensures
        forall|j: int|
            0 <= j < raw_lines_of(s).len() ==> no_newline(#[trigger] raw_lines_of(s)[j]),
{
    lemma_scan_raw_plain(s);
}

proof fn lemma_scan_raw_plain(s: Seq<char>)
    ensures
        forall|j: int| 0 <= j < scan_raw(s).0.len() ==> no_newline(#[trigger] scan_raw(s).0[j]),
        no_newline(scan_raw(s).1),
    decreases s.len(),
{
    if s.len() > 0 {
        lemma_scan_raw_plain(s.drop_last());
        let p = scan_raw(s.drop_last());
        if s.last() == '\n' {
            assert forall|j: int| 0 <= j < p.0.push(p.1).len() implies no_newline(
                #[trigger] p.0.push(p.1)[j],
            ) by {
                if j < p.0.len() {
                    assert(p.0.push(p.1)[j] == p.0[j]);
                }
            }
        } else {
            assert forall|i: int| 0 <= i < p.1.push(s.last()).len() implies p.1.push(s.last())[i]
                != '\n' by {
                if i < p.1.len() {
                    assert(p.1.push(s.last())[i] == p.1[i]);
                }
            }
        }
    }
}

/// Trimming the front of a prefix gives a prefix of the trimmed whole.
pub proof fn lemma_trim_start_prefix(m: Seq<char>, l: Seq<char>)
    requires
        starts_with(l, m),
    ensures
        starts_with(trim_start(l), trim_start(m)),
    decreases m.len(),
{
    if m.len() > 0 {
        assert(l[0] == l.subrange(0, m.len() as int)[0]);
        if is_space(m[0]) {
            assert(l.drop_first().subrange(0, m.drop_first().len() as int) =~= m.drop_first()) by {
                assert forall|i: int| 0 <= i < m.len() - 1 implies l.drop_first()[i]
                    == m.drop_first()[i] by {
                    assert(l.subrange(0, m.len() as int)[i + 1] == m[i + 1]);
                }
            }
            lemma_trim_start_prefix(m.drop_first(), l.drop_first());
        }
    } else {
        assert(trim_start(l).subrange(0, 0) =~= m);
    }
}

/// Trimming the end of a text leaves a prefix of it.
pub proof fn lemma_trim_end_prefix(s: Seq<char>)
    ensures
        starts_with(s, trim_end(s)),
    decreases s.len(),
{
    if s.len() > 0 && is_space(s.last()) {
        lemma_trim_end_prefix(s.drop_last());
        assert(s.subrange(0, trim_end(s).len() as int) =~= s.drop_last().subrange(
            0,
            trim_end(s).len() as int,
        ));
    } else {
        assert(s.subrange(0, s.len() as int) =~= s);
    }
}

/// A prefix of a prefix is a prefix.
pub proof fn lemma_prefix_trans(a: Seq<char>, b: Seq<char>, c: Seq<char>)
    requires
        starts_with(c, b),
        starts_with(b, a),
    ensures
        starts_with(c, a),
{
    assert(c.subrange(0, a.len() as int) =~= b.subrange(0, a.len() as int)) by {
        assert forall|i: int| 0 <= i < a.len() implies c.subrange(0, a.len() as int)[i]
            == b.subrange(0, a.len() as int)[i] by {
            assert(c.subrange(0, b.len() as int)[i] == b[i]);
        }
    }
}

} // verus!
