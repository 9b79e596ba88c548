//! Character-level text handling on the view of a string as a `Seq<char>`:
//! Unicode white space, trimming, line and word splitting, joining.

use vstd::prelude::*;

verus! {

/// The Unicode `White_Space` property, the set of characters that Rust's
/// `char::is_whitespace` and `str::trim` treat as white space.
pub open spec fn is_ws(c: char) -> bool {
    let n = c as u32;
    ||| 0x09 <= n <= 0x0D
    ||| n == 0x20
    ||| n == 0x85
    ||| n == 0xA0
    ||| n == 0x1680
    ||| 0x2000 <= n <= 0x200A
    ||| n == 0x2028
    ||| n == 0x2029
    ||| n == 0x202F
    ||| n == 0x205F
    ||| n == 0x3000
}

/// Decides `is_ws`.
pub fn is_whitespace(c: char) -> (r: bool)
    ensures
        r == is_ws(c),
{
    let n = c as u32;
    (0x09 <= n && n <= 0x0D) || n == 0x20 || n == 0x85 || n == 0xA0 || n == 0x1680
        || (0x2000 <= n && n <= 0x200A) || n == 0x2028 || n == 0x2029 || n == 0x202F
        || n == 0x205F || n == 0x3000
}

/// The characters of a string, in order.
pub fn chars_of(s: &str) -> (v: Vec<char>)
    ensures
        v@ == s@,
{
    let mut v: Vec<char> = Vec::new();
    for c in it: s.chars()
        invariant
            v@ == it.seq().take(it.index() as int),
            it.seq() == s@,
    {
        v.push(c);
    }
    v
}

/// Appends one character to a string.
/// Trusted: calls `String::push`, documented to append the given `char` to the
/// end of the string.
#[verifier::external_body]
pub(crate) fn push_char(s: &mut String, c: char)
    ensures
        final(s)@ == old(s)@.push(c),
{
    s.push(c);
}

/// The views of a sequence of character vectors.
pub open spec fn views(ls: Seq<Vec<char>>) -> Seq<Seq<char>> {
    ls.map_values(|l: Vec<char>| l@)
}

/// Splitting at `'\n'`, reading from the front: the lines that a newline has
/// ended, and the characters of the line that is still open.
pub open spec fn split_lines(s: Seq<char>) -> (Seq<Seq<char>>, Seq<char>)
    decreases s.len(),
{
    if s.len() == 0 {
        (seq![], seq![])
    } else {
        let (done, open) = split_lines(s.drop_last());
        if s.last() == '\n' {
            (done.push(open), seq![])
        } else {
            (done, open.push(s.last()))
        }
    }
}

/// The lines of a text, as Rust's `str::lines` yields them before any
/// carriage return is removed: the text split at each `'\n'`, where a final
/// newline ends the last line and opens no new one.
pub open spec fn lines(s: Seq<char>) -> Seq<Seq<char>> {
    let (done, open) = split_lines(s);
    if open.len() == 0 {
        done
    } else {
        done.push(open)
    }
}

/// Splitting at white space, reading from the front: the words that white
/// space has ended, and the characters of the word that is still open.
pub open spec fn split_words(s: Seq<char>) -> (Seq<Seq<char>>, Seq<char>)
    decreases s.len(),
{
    if s.len() == 0 {
        (seq![], seq![])
    } else {
        let (done, open) = split_words(s.drop_last());
        if is_ws(s.last()) {
            if open.len() == 0 {
                (done, open)
            } else {
                (done.push(open), seq![])
            }
        } else {
            (done, open.push(s.last()))
        }
    }
}

/// The words of a text, as Rust's `str::split_whitespace` yields them: the
/// maximal runs of characters that are not white space.
pub open spec fn words(s: Seq<char>) -> Seq<Seq<char>> {
    let (done, open) = split_words(s);
    if open.len() == 0 {
        done
    } else {
        done.push(open)
    }
}

/// The text without its leading white space.
pub open spec fn trim_start(s: Seq<char>) -> Seq<char>
    decreases s.len(),
{
    if s.len() > 0 && is_ws(s[0]) {
        trim_start(s.drop_first())
    } else {
        s
    }
}

/// The text without its trailing white space.
pub open spec fn trim_end(s: Seq<char>) -> Seq<char>
    decreases s.len(),
{
    if s.len() > 0 && is_ws(s.last()) {
        trim_end(s.drop_last())
    } else {
        s
    }
}

/// The text without leading and trailing white space, as `str::trim` gives it.
pub open spec fn trim(s: Seq<char>) -> Seq<char> {
    trim_end(trim_start(s))
}

/// The text without its trailing copies of `c`, as `str::trim_end_matches(c)`
/// gives it.
pub open spec fn trim_end_char(s: Seq<char>, c: char) -> Seq<char>
    decreases s.len(),
{
    if s.len() > 0 && s.last() == c {
        trim_end_char(s.drop_last(), c)
    } else {
        s
    }
}

/// `p` is a prefix of `s`.
pub open spec fn starts_with(s: Seq<char>, p: Seq<char>) -> bool {
    p.len() <= s.len() && s.take(p.len() as int) == p
}

/// The words joined with one space between each two, as `join(" ")` gives it.
pub open spec fn join_spaced(ws: Seq<Seq<char>>) -> Seq<char>
    decreases ws.len(),
{
    if ws.len() == 0 {
        seq![]
    } else if ws.len() == 1 {
        ws[0]
    } else {
        join_spaced(ws.drop_last()) + seq![' '] + ws.last()
    }
}

/// The lines of a text.
pub fn lines_of(s: &str) -> (ls: Vec<Vec<char>>)
    ensures
        views(ls@) == lines(s@),
{
    let v = chars_of(s);
    let mut done: Vec<Vec<char>> = Vec::new();
    let mut open: Vec<char> = Vec::new();
    let n = v.len();
    for i in 0..n
        invariant
            n == v@.len(),
            views(done@) == split_lines(v@.take(i as int)).0,
            open@ == split_lines(v@.take(i as int)).1,
    {
        assert(v@.take(i + 1).drop_last() =~= v@.take(i as int));
        let c = v[i];
        if c == '\n' {
            let ghost before = done@;
            let line = open;
            open = Vec::new();
            done.push(line);
            assert(views(done@) =~= views(before).push(line@));
        } else {
            open.push(c);
        }
    }
    assert(v@.take(n as int) =~= v@);
    if open.len() > 0 {
        let ghost before = done@;
        done.push(open);
        assert(views(done@) =~= views(before).push(split_lines(v@).1));
    }
    done
}

/// The words of a text.
pub fn words_of(t: &Vec<char>) -> (ws: Vec<Vec<char>>)
    ensures
        views(ws@) == words(t@),
{
    let mut done: Vec<Vec<char>> = Vec::new();
    let mut open: Vec<char> = Vec::new();
    let n = t.len();
    for i in 0..n
        invariant
            n == t@.len(),
            views(done@) == split_words(t@.take(i as int)).0,
            open@ == split_words(t@.take(i as int)).1,
    {
        assert(t@.take(i + 1).drop_last() =~= t@.take(i as int));
        let c = t[i];
        if is_whitespace(c) {
            if open.len() > 0 {
                let ghost before = done@;
                let word = open;
                open = Vec::new();
                done.push(word);
                assert(views(done@) =~= views(before).push(word@));
            }
        } else {
            open.push(c);
        }
    }
    assert(t@.take(n as int) =~= t@);
    if open.len() > 0 {
        let ghost before = done@;
        done.push(open);
        assert(views(done@) =~= views(before).push(split_words(t@).1));
    }
    done
}

/// The characters `t[lo..hi]`.
pub fn slice_chars(t: &Vec<char>, lo: usize, hi: usize) -> (r: Vec<char>)
    requires
        lo <= hi <= t@.len(),
    ensures
        r@ == t@.subrange(lo as int, hi as int),
{
    let mut r: Vec<char> = Vec::new();
    for i in lo..hi
        invariant
            lo <= hi <= t@.len(),
            r@ == t@.subrange(lo as int, i as int),
    {
        r.push(t[i]);
        assert(r@ =~= t@.subrange(lo as int, i + 1));
    }
    r
}

/// The text without leading and trailing white space.
pub fn trim_chars(t: &Vec<char>) -> (r: Vec<char>)
    ensures
        r@ == trim(t@),
{
    let n = t.len();
    let mut lo: usize = 0;
    assert(t@.skip(0) =~= t@);
    while lo < n && is_whitespace(t[lo])
        invariant
            lo <= n == t@.len(),
            trim_start(t@) == trim_start(t@.skip(lo as int)),
        decreases n - lo,
    {
        assert(t@.skip(lo as int).drop_first() =~= t@.skip(lo + 1));
        lo = lo + 1;
    }
    let mut hi: usize = n;
    assert(t@.skip(lo as int) =~= t@.subrange(lo as int, n as int));
    while hi > lo && is_whitespace(t[hi - 1])
        invariant
            lo <= hi <= n == t@.len(),
            trim(t@) == trim_end(t@.subrange(lo as int, hi as int)),
        decreases hi - lo,
    {
        assert(t@.subrange(lo as int, hi as int).drop_last() =~= t@.subrange(lo as int, hi - 1));
        hi = hi - 1;
    }
    slice_chars(t, lo, hi)
}

/// The text without its trailing copies of `c`.
pub fn trim_end_char_of(t: &Vec<char>, c: char) -> (r: Vec<char>)
    ensures
        r@ == trim_end_char(t@, c),
{
    let mut hi: usize = t.len();
    assert(t@.take(hi as int) =~= t@);
    while hi > 0 && t[hi - 1] == c
        invariant
            hi <= t@.len(),
            trim_end_char(t@, c) == trim_end_char(t@.take(hi as int), c),
        decreases hi,
    {
        assert(t@.take(hi as int).drop_last() =~= t@.take(hi - 1));
        hi = hi - 1;
    }
    slice_chars(t, 0, hi)
}

/// Whether `p` is a prefix of `t`.
pub fn has_prefix(t: &Vec<char>, p: &Vec<char>) -> (r: bool)
    ensures
        r == starts_with(t@, p@),
{
    if p.len() > t.len() {
        return false;
    }
    let m = p.len();
    for i in 0..m
        invariant
            m == p@.len() <= t@.len(),
            forall|j: int| 0 <= j < i ==> t@[j] == p@[j],
    {
        if t[i] != p[i] {
            assert(t@.take(m as int)[i as int] != p@[i as int]);
            return false;
        }
    }
    assert(t@.take(m as int) =~= p@);
    true
}

/// Whether `c` occurs in `t`.
pub fn has_char(t: &Vec<char>, c: char) -> (r: bool)
    ensures
        r == t@.contains(c),
{
    let n = t.len();
    for i in 0..n
        invariant
            n == t@.len(),
            forall|j: int| 0 <= j < i ==> t@[j] != c,
    {
        if t[i] == c {
            assert(t@[i as int] == c);
            return true;
        }
    }
    false
}

/// A string holding the characters of `t`.
pub fn string_of(t: &Vec<char>) -> (s: String)
    ensures
        s@ == t@,
{
    let mut s = String::new();
    let n = t.len();
    for i in 0..n
        invariant
            n == t@.len(),
            s@ == t@.take(i as int),
    {
        push_char(&mut s, t[i]);
        assert(s@ =~= t@.take(i + 1));
    }
    assert(t@.take(n as int) =~= t@);
    s
}

/// Appends the characters of `t` to `s`.
pub fn push_chars(s: &mut String, t: &Vec<char>)
    ensures
        final(s)@ == old(s)@ + t@,
{
    let n = t.len();
    for i in 0..n
        invariant
            n == t@.len(),
            s@ == old(s)@ + t@.take(i as int),
    {
        push_char(s, t[i]);
        assert(s@ =~= old(s)@ + t@.take(i + 1));
    }
    assert(t@.take(n as int) =~= t@);
}

/// The words `ws[from..to]` joined with one space between each two.
pub fn join_spaced_of(ws: &Vec<Vec<char>>, from: usize, to: usize) -> (s: String)
    requires
        from <= to <= ws@.len(),
    ensures
        s@ == join_spaced(views(ws@).subrange(from as int, to as int)),
{
    let mut s = String::new();
    for i in from..to
        invariant
            from <= to <= ws@.len(),
            s@ == join_spaced(views(ws@).subrange(from as int, i as int)),
    {
        let ghost done = views(ws@).subrange(from as int, i as int);
        let ghost next = views(ws@).subrange(from as int, i + 1);
        assert(next.drop_last() =~= done);
        if i > from {
            push_char(&mut s, ' ');
        } else {
            assert(s@ =~= seq![]);
        }
        push_chars(&mut s, &ws[i]);
        assert(s@ =~= join_spaced(next));
    }
    s
}

} // verus!
