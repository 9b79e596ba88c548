//! What reading one more line does to each table reader, stated for every
//! line and every point of the reading: which lines are rows, that each row
//! yields exactly one record whose fields are the row's words, and how the
//! header and the rule open a table.

use vstd::prelude::*;
use crate::laws::{is_word, law_words_are_words};
use crate::listing::{bucket_scan, installed_scan, search_scan, search_start, search_from, SearchScan};
use crate::text::{starts_with, trim, trim_end_char, words, join_spaced};
use crate::word_laws::law_join_then_split;

verus! {

/// A trimmed line with its words: a row when the table is open and it has
/// at least two words.
pub open spec fn name_mark() -> Seq<char> {
    seq!['N', 'a', 'm', 'e']
}

/// The start of the rule under a header.
pub open spec fn dash_mark() -> Seq<char> {
    seq!['-', '-', '-', '-']
}

proof fn lemma_words_of_part(w: Seq<Seq<char>>, lo: int, hi: int)
    requires
        forall|i: int| 0 <= i < w.len() ==> is_word(#[trigger] w[i]),
        0 <= lo <= hi <= w.len(),
    ensures
        words(join_spaced(w.subrange(lo, hi))) == w.subrange(lo, hi),
{
    let part = w.subrange(lo, hi);
    assert forall|i: int| 0 <= i < part.len() implies is_word(#[trigger] part[i]) by {
        assert(part[i] == w[lo + i]);
    }
    law_join_then_split(part);
}

/// Reading `scoop list` output: before any line nothing is read and no table
/// is open. After one more line `l` (trimmed to `t`, with words `w`): a blank
/// line changes nothing; before the header, `t` is the header exactly when it
/// starts with `Name`; between header and rule, `t` is the rule exactly when
/// it starts with `----`; once both are passed the table stays open, and
/// every line with at least two words adds exactly one package at the end,
/// with no limit on their number, named and versioned by its first two words,
/// installed, without description, from the bucket of its third word if any.
/// Every other line adds nothing.
pub proof fn law_installed_line(ls: Seq<Seq<char>>, l: Seq<char>)
    ensures
        installed_scan(Seq::empty()).1.len() == 0,
        !installed_scan(Seq::empty()).0.header_seen,
        !installed_scan(Seq::empty()).0.rule_seen,
        ({
            let (g0, ps0) = installed_scan(ls);
            let (g1, ps1) = installed_scan(ls.push(l));
            let t = trim(l);
            let w = words(t);
            let row = t.len() > 0 && g0.header_seen && g0.rule_seen && w.len() >= 2;
            &&& row ==> {
                &&& ps1.len() == ps0.len() + 1
                &&& ps1.take(ps0.len() as int) == ps0
                &&& ps1.last().name == w[0]
                &&& ps1.last().version == w[1]
                &&& ps1.last().installed
                &&& ps1.last().description is None
                &&& (w.len() > 2 ==> ps1.last().bucket == Some(w[2]))
                &&& (w.len() == 2 ==> ps1.last().bucket is None)
            }
            &&& !row ==> ps1 == ps0
            &&& t.len() == 0 ==> g1 == g0
            &&& g0.header_seen && g0.rule_seen ==> g1 == g0
            &&& t.len() > 0 && !g0.header_seen ==> g1.header_seen == starts_with(t, name_mark())
                && g1.rule_seen == g0.rule_seen
            &&& t.len() > 0 && g0.header_seen && !g0.rule_seen ==> g1.header_seen
                && g1.rule_seen == starts_with(t, dash_mark())
        }),
{
    assert(ls.push(l).drop_last() =~= ls);
    let ps0 = installed_scan(ls).1;
    let ps1 = installed_scan(ls.push(l)).1;
    if ps1.len() == ps0.len() + 1 {
        assert(ps1.take(ps0.len() as int) =~= ps0);
    }
}

/// Reading `scoop bucket list` output: the table opens as for `scoop list`,
/// and every row of the open table adds exactly one bucket at the end, named
/// by its first word, with its second word as source and, where there are
/// more than two words, an update time whose words are those between the
/// source and the last word. Every other line adds nothing.
pub proof fn law_bucket_line(ls: Seq<Seq<char>>, l: Seq<char>)
    ensures
        bucket_scan(Seq::empty()).1.len() == 0,
        ({
            let (g0, bs0) = bucket_scan(ls);
            let (g1, bs1) = bucket_scan(ls.push(l));
            let t = trim(l);
            let w = words(t);
            let row = t.len() > 0 && g0.header_seen && g0.rule_seen && w.len() >= 2;
            &&& row ==> {
                &&& bs1.len() == bs0.len() + 1
                &&& bs1.take(bs0.len() as int) == bs0
                &&& bs1.last().name == w[0]
                &&& bs1.last().source == w[1]
                &&& (w.len() > 2 ==> (bs1.last().updated matches Some(u)
                    && words(u) == w.subrange(2, w.len() - 1)))
                &&& (w.len() == 2 ==> bs1.last().updated is None)
            }
            &&& !row ==> bs1 == bs0
            &&& t.len() == 0 ==> g1 == g0
            &&& g0.header_seen && g0.rule_seen ==> g1 == g0
            &&& t.len() > 0 && !g0.header_seen ==> g1.header_seen == starts_with(t, name_mark())
                && g1.rule_seen == g0.rule_seen
            &&& t.len() > 0 && g0.header_seen && !g0.rule_seen ==> g1.header_seen
                && g1.rule_seen == starts_with(t, dash_mark())
        }),
{
    assert(ls.push(l).drop_last() =~= ls);
    let bs0 = bucket_scan(ls).1;
    let bs1 = bucket_scan(ls.push(l)).1;
    let w = words(trim(l));
    law_words_are_words(trim(l));
    if bs1.len() == bs0.len() + 1 {
        assert(bs1.take(bs0.len() as int) =~= bs0);
        if w.len() > 2 {
            lemma_words_of_part(w, 2, w.len() - 1);
        }
    }
}

proof fn lemma_trim_end_char_shape(s: Seq<char>, c: char)
    ensures
        trim_end_char(s, c).len() <= s.len(),
        trim_end_char(s, c) == s.take(trim_end_char(s, c).len() as int),
        forall|j: int| trim_end_char(s, c).len() <= j < s.len() ==> s[j] == c,
        trim_end_char(s, c).len() > 0 ==> trim_end_char(s, c).last() != c,
    decreases s.len(),
{
    if s.len() > 0 && s.last() == c {
        lemma_trim_end_char_shape(s.drop_last(), c);
        let b = trim_end_char(s, c);
        assert(s.drop_last().take(b.len() as int) =~= s.take(b.len() as int));
        assert forall|j: int| b.len() <= j < s.len() implies s[j] == c by {
            if j < s.len() - 1 {
                assert(s.drop_last()[j] == s[j]);
            }
        }
    } else {
        assert(s.take(s.len() as int) =~= s);
    }
}

/// Reading `scoop search` output, one more line `l` (trimmed to `t`, with
/// words `w`), at any point of the reading:
/// - a blank line closes the current table and keeps the bucket and the
///   packages found;
/// - a line with no space that ends with `:` names a new bucket: the line
///   without its trailing colons, the bucket not ending in a colon; the table
///   closes and the packages found stay;
/// - in an open table, a line with at least two words adds exactly one
///   package at the end, named and versioned by its first two words, not
///   installed, from the current bucket, and, where there are more than two
///   words, with a description whose words are all the words after the
///   second, in order; a line with fewer words adds nothing;
/// - before the table is open, a line is the header exactly when it starts
///   with `Name`, then the rule exactly when it starts with `----`.
pub proof fn law_search_line(ls: Seq<Seq<char>>, l: Seq<char>)
    ensures
        search_scan(Seq::empty()).found.len() == 0,
        ({
            let s0 = search_scan(ls);
            let s1 = search_scan(ls.push(l));
            let t = trim(l);
            let w = words(t);
            let bucket_line = t.len() > 0 && !t.contains(' ') && t.last() == ':';
            let row = t.len() > 0 && !bucket_line && s0.table.header_seen && s0.table.rule_seen
                && w.len() >= 2;
            &&& t.len() == 0 ==> s1.found == s0.found && s1.bucket == s0.bucket
                && !s1.table.header_seen && !s1.table.rule_seen
            &&& bucket_line ==> {
                &&& s1.found == s0.found
                &&& !s1.table.header_seen && !s1.table.rule_seen
                &&& s1.bucket == t.take(s1.bucket.len() as int)
                &&& s1.bucket.len() < t.len()
                &&& (forall|j: int| s1.bucket.len() <= j < t.len() ==> t[j] == ':')
                &&& (s1.bucket.len() > 0 ==> s1.bucket.last() != ':')
            }
            &&& row ==> {
                &&& s1.found.len() == s0.found.len() + 1
                &&& s1.found.take(s0.found.len() as int) == s0.found
                &&& s1.found.last().name == w[0]
                &&& s1.found.last().version == w[1]
                &&& !s1.found.last().installed
                &&& s1.found.last().bucket == Some(s0.bucket)
                &&& (w.len() > 2 ==> (s1.found.last().description matches Some(d)
                    && words(d) == w.skip(2)))
                &&& (w.len() == 2 ==> s1.found.last().description is None)
                &&& s1.table == s0.table
                &&& s1.bucket == s0.bucket
            }
            &&& !row ==> s1.found == s0.found
            &&& t.len() > 0 && !bucket_line && !s0.table.header_seen ==> s1.table.header_seen
                == starts_with(t, name_mark()) && s1.bucket == s0.bucket
            &&& t.len() > 0 && !bucket_line && s0.table.header_seen && !s0.table.rule_seen
                ==> s1.table.header_seen && s1.table.rule_seen == starts_with(t, dash_mark())
                && s1.bucket == s0.bucket
        }),
{
    assert(ls.push(l).drop_last() =~= ls);
    let s0 = search_scan(ls);
    let s1 = search_scan(ls.push(l));
    assert(s1 == crate::listing::search_step(s0, l));
    let t = trim(l);
    let w = words(t);
    law_words_are_words(t);
    lemma_trim_end_char_shape(t, ':');
    if s1.found.len() == s0.found.len() + 1 {
        assert(s1.found.take(s0.found.len() as int) =~= s0.found);
        if w.len() > 2 {
            lemma_words_of_part(w, 2, w.len() as int);
            assert(w.subrange(2, w.len() as int) =~= w.skip(2));
        }
    }
}

} // verus!
