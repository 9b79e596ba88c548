//! Properties that hold across the library's functions, proved over the
//! specifications that the functions' contracts use.

use vstd::prelude::*;
use crate::gui::{GuiView, UiActionView, UiEventView, after_event, after_update, status_text};
use crate::listing::{
    bucket_scan, header_mark, installed_scan, listed_buckets, installed_packages,
    search_packages, search_scan, SearchScan, search_from, search_start,
    is_bucket_line, TableProgress, table_open, table_step, table_start, installed_row, bucket_row, search_row,
};
use crate::model::{BucketView, DataUpdate, PackageView, package_views};
use crate::scoop::{collected_text, output_text};
use crate::text::{is_ws, lines, split_lines, split_words, starts_with, trim, trim_end, trim_start, words};

verus! {

/// A word: not empty, and without white space.
pub open spec fn is_word(w: Seq<char>) -> bool {
    w.len() > 0 && forall|j: int| 0 <= j < w.len() ==> !is_ws(#[trigger] w[j])
}

proof fn lemma_split_lines_without_newline(l: Seq<char>)
    requires
        !l.contains('\n'),
    ensures
        split_lines(l) == (Seq::<Seq<char>>::empty(), l),
    decreases l.len(),
{
    if l.len() > 0 {
        assert(!l.drop_last().contains('\n')) by {
            if l.drop_last().contains('\n') {
                let j = choose|j: int| 0 <= j < l.drop_last().len() && l.drop_last()[j] == '\n';
                assert(l[j] == '\n');
            }
        }
        lemma_split_lines_without_newline(l.drop_last());
        assert(l.last() != '\n') by {
            assert(l[l.len() - 1] == l.last());
        }
        assert(l.drop_last().push(l.last()) =~= l);
    }
}

proof fn lemma_split_lines_append(s: Seq<char>, t: Seq<char>)
    requires
        split_lines(s).1.len() == 0,
    ensures
        split_lines(s + t) == (split_lines(s).0 + split_lines(t).0, split_lines(t).1),
    decreases t.len(),
{
    if t.len() == 0 {
        assert(s + t =~= s);
        assert(split_lines(s).0 + split_lines(t).0 =~= split_lines(s).0);
        assert(split_lines(s).1 =~= split_lines(t).1);
    } else {
        lemma_split_lines_append(s, t.drop_last());
        assert((s + t).drop_last() =~= s + t.drop_last());
        assert((s + t).last() == t.last());
        let (d, o) = split_lines(t.drop_last());
        if t.last() == '\n' {
            assert(split_lines(s).0 + d.push(o) =~= (split_lines(s).0 + d).push(o));
        } else {
            assert(split_lines(s).0 + d =~= split_lines(s).0 + d);
        }
    }
}

proof fn lemma_split_collected(ls: Seq<Seq<char>>)
    requires
        forall|i: int| 0 <= i < ls.len() ==> !(#[trigger] ls[i]).contains('\n'),
    ensures
        split_lines(collected_text(ls)) == (ls, Seq::<char>::empty()),
    decreases ls.len(),
{
    if ls.len() > 0 {
        let init = ls.drop_last();
        let l = ls.last();
        assert forall|i: int| 0 <= i < init.len() implies !(#[trigger] init[i]).contains('\n') by {
            assert(init[i] == ls[i]);
        }
        lemma_split_collected(init);
        assert(!l.contains('\n')) by {
            assert(l == ls[ls.len() - 1]);
        }
        let tail = l + seq!['\n'];
        lemma_split_lines_without_newline(l);
        assert(tail.drop_last() =~= l);
        assert(split_lines(tail) == (seq![l], Seq::<char>::empty()));
        assert(collected_text(ls) =~= collected_text(init) + tail);
        lemma_split_lines_append(collected_text(init), tail);
        assert(init + seq![l] =~= ls);
    } else {
        assert(collected_text(ls) =~= Seq::<char>::empty());
    }
}

/// What a command run collects reads back as the lines it received: for
/// lines without a newline in them, the lines of their collected text are
/// those lines, in order. Hence the tables read from a run's output are
/// those read from the lines it received.
pub proof fn law_collected_lines_read_back(ls: Seq<Seq<char>>)
    requires
        forall|i: int| 0 <= i < ls.len() ==> !(#[trigger] ls[i]).contains('\n'),
    ensures
        lines(collected_text(ls)) == ls,
        installed_packages(collected_text(ls)) == installed_scan(ls).1,
        listed_buckets(collected_text(ls)) == bucket_scan(ls).1,
        search_packages(collected_text(ls)) == search_scan(ls).found,
{
    lemma_split_collected(ls);
}

proof fn lemma_words_are_words(t: Seq<char>)
    ensures
        forall|i: int| 0 <= i < split_words(t).0.len() ==> is_word(#[trigger] split_words(t).0[i]),
        forall|j: int| 0 <= j < split_words(t).1.len() ==> !is_ws(#[trigger] split_words(t).1[j]),
    decreases t.len(),
{
    if t.len() > 0 {
        lemma_words_are_words(t.drop_last());
        let (d, o) = split_words(t.drop_last());
        if is_ws(t.last()) {
            if o.len() > 0 {
                assert forall|i: int| 0 <= i < d.push(o).len() implies is_word(#[trigger] d.push(o)[i]) by {
                    if i < d.len() {
                        assert(d.push(o)[i] == d[i]);
                    }
                }
            }
        } else {
            assert forall|j: int| 0 <= j < o.push(t.last()).len() implies !is_ws(#[trigger] o.push(t.last())[j]) by {
                if j < o.len() {
                    assert(o.push(t.last())[j] == o[j]);
                }
            }
        }
    }
}

/// Every word of a text is non-empty and holds no white space.
pub proof fn law_words_are_words(t: Seq<char>)
    ensures
        forall|i: int| 0 <= i < words(t).len() ==> is_word(#[trigger] words(t)[i]),
{
    lemma_words_are_words(t);
    let (d, o) = split_words(t);
    if o.len() > 0 {
        assert forall|i: int| 0 <= i < d.push(o).len() implies is_word(#[trigger] d.push(o)[i]) by {
            if i < d.len() {
                assert(d.push(o)[i] == d[i]);
            }
        }
    }
}

/// A package as `scoop list` reports it: installed, without description,
/// with a name and a version that are single words, and a bucket that is one
/// word if there is one.
pub open spec fn listed_installed(p: PackageView) -> bool {
    &&& p.installed
    &&& p.description is None
    &&& is_word(p.name)
    &&& is_word(p.version)
    &&& p.bucket matches Some(b) ==> is_word(b)
}

proof fn lemma_installed_scan_shape(ls: Seq<Seq<char>>)
    ensures
        forall|i: int| 0 <= i < installed_scan(ls).1.len() ==> listed_installed(#[trigger] installed_scan(ls).1[i]),
        installed_scan(ls).1.len() <= ls.len(),
    decreases ls.len(),
{
    if ls.len() > 0 {
        lemma_installed_scan_shape(ls.drop_last());
        let t = trim(ls.last());
        law_words_are_words(t);
        let ps = installed_scan(ls.drop_last()).1;
        let now = installed_scan(ls).1;
        assert forall|i: int| 0 <= i < now.len() implies listed_installed(#[trigger] now[i]) by {
            if i < ps.len() {
                assert(now[i] == ps[i]);
            }
        }
    }
}

/// Every package read from `scoop list` output is marked installed, has no
/// description, and has a name and version that are single non-empty words
/// (and a bucket that is one, where there is a bucket); there are no more
/// packages than lines.
pub proof fn law_installed_rows(out: Seq<char>)
    ensures
        forall|i: int| 0 <= i < installed_packages(out).len() ==> listed_installed(#[trigger] installed_packages(out)[i]),
        installed_packages(out).len() <= lines(out).len(),
{
    lemma_installed_scan_shape(lines(out));
}

/// A bucket as `scoop bucket list` reports it: name and source are single
/// words.
pub open spec fn listed_bucket(b: BucketView) -> bool {
    is_word(b.name) && is_word(b.source)
}

proof fn lemma_bucket_scan_shape(ls: Seq<Seq<char>>)
    ensures
        forall|i: int| 0 <= i < bucket_scan(ls).1.len() ==> listed_bucket(#[trigger] bucket_scan(ls).1[i]),
        bucket_scan(ls).1.len() <= ls.len(),
    decreases ls.len(),
{
    if ls.len() > 0 {
        lemma_bucket_scan_shape(ls.drop_last());
        let t = trim(ls.last());
        law_words_are_words(t);
        let bs = bucket_scan(ls.drop_last()).1;
        let now = bucket_scan(ls).1;
        assert forall|i: int| 0 <= i < now.len() implies listed_bucket(#[trigger] now[i]) by {
            if i < bs.len() {
                assert(now[i] == bs[i]);
            }
        }
    }
}

/// Every bucket read from `scoop bucket list` output has a name and a source
/// that are single non-empty words; there are no more buckets than lines.
pub proof fn law_bucket_rows(out: Seq<char>)
    ensures
        forall|i: int| 0 <= i < listed_buckets(out).len() ==> listed_bucket(#[trigger] listed_buckets(out)[i]),
        listed_buckets(out).len() <= lines(out).len(),
{
    lemma_bucket_scan_shape(lines(out));
}

/// A package as `scoop search` reports it: not marked installed, with a
/// name and a version that are single words, and a bucket.
pub open spec fn found_package(p: PackageView) -> bool {
    &&& !p.installed
    &&& is_word(p.name)
    &&& is_word(p.version)
    &&& p.bucket is Some
}

proof fn lemma_search_scan_shape(ls: Seq<Seq<char>>)
    ensures
        forall|i: int| 0 <= i < search_scan(ls).found.len() ==> found_package(#[trigger] search_scan(ls).found[i]),
        search_scan(ls).found.len() <= ls.len(),
    decreases ls.len(),
{
    if ls.len() > 0 {
        lemma_search_scan_shape(ls.drop_last());
        let t = trim(ls.last());
        law_words_are_words(t);
        let ps = search_scan(ls.drop_last()).found;
        let now = search_scan(ls).found;
        assert forall|i: int| 0 <= i < now.len() implies found_package(#[trigger] now[i]) by {
            if i < ps.len() {
                assert(now[i] == ps[i]);
            }
        }
    }
}

/// Every package read from `scoop search` output is not marked installed,
/// names the bucket it was listed under, and has a name and version that are
/// single non-empty words; there are no more packages than lines.
pub proof fn law_search_rows(out: Seq<char>)
    ensures
        forall|i: int| 0 <= i < search_packages(out).len() ==> found_package(#[trigger] search_packages(out)[i]),
        search_packages(out).len() <= lines(out).len(),
{
    lemma_search_scan_shape(lines(out));
}

proof fn lemma_headerless_scans(ls: Seq<Seq<char>>)
    requires
        forall|i: int| 0 <= i < ls.len() ==> !starts_with(trim(#[trigger] ls[i]), header_mark()),
    ensures
        !installed_scan(ls).0.header_seen,
        installed_scan(ls).1.len() == 0,
        !bucket_scan(ls).0.header_seen,
        bucket_scan(ls).1.len() == 0,
        !search_scan(ls).table.header_seen,
        search_scan(ls).found.len() == 0,
    decreases ls.len(),
{
    if ls.len() > 0 {
        assert forall|i: int| 0 <= i < ls.drop_last().len() implies !starts_with(trim(#[trigger] ls.drop_last()[i]), header_mark()) by {
            assert(ls.drop_last()[i] == ls[i]);
        }
        lemma_headerless_scans(ls.drop_last());
        assert(ls.last() == ls[ls.len() - 1]);
    }
}

/// Output in which no line starts with the header `Name` (after trimming)
/// holds no table: nothing is read from it as installed packages, buckets or
/// search results.
pub proof fn law_no_header_no_rows(out: Seq<char>)
    requires
        forall|i: int| 0 <= i < lines(out).len() ==> !starts_with(trim(#[trigger] lines(out)[i]), header_mark()),
    ensures
        installed_packages(out).len() == 0,
        listed_buckets(out).len() == 0,
        search_packages(out).len() == 0,
{
    lemma_headerless_scans(lines(out));
}

/// The window after a sequence of messages, taken in order.
pub open spec fn after_updates(g: GuiView, us: Seq<DataUpdate>) -> GuiView
    decreases us.len(),
{
    if us.len() == 0 {
        g
    } else {
        after_update(after_updates(g, us.drop_last()), us.last())
    }
}

/// The output pane shows what a run collects: applying the messages that
/// show the lines `ls`, in order, appends to the pane each line followed by
/// a newline, which is the text a command run collects from those lines,
/// and changes nothing else.
pub proof fn law_output_pane_shows_collected(g: GuiView, us: Seq<DataUpdate>, ls: Seq<Seq<char>>)
    requires
        us.len() == ls.len(),
        forall|i: int| 0 <= i < us.len() ==> output_text(#[trigger] us[i]) == Some(ls[i]),
    ensures
        after_updates(g, us) == (GuiView { command_output: g.command_output + collected_text(ls), ..g }),
    decreases us.len(),
{
    if us.len() == 0 {
        assert(g.command_output + collected_text(ls) =~= g.command_output);
    } else {
        let n = us.len() - 1;
        assert forall|i: int| 0 <= i < us.drop_last().len() implies output_text(#[trigger] us.drop_last()[i]) == Some(ls.drop_last()[i]) by {
            assert(us.drop_last()[i] == us[i]);
            assert(output_text(us[i]) == Some(ls[i]));
        }
        law_output_pane_shows_collected(g, us.drop_last(), ls.drop_last());
        assert(output_text(us[n]) == Some(ls[n]));
        assert(us.last() == us[n]);
        assert(g.command_output + collected_text(ls.drop_last()) + ls.last() + seq!['\n']
            =~= g.command_output + collected_text(ls));
    }
}

/// The background work never changes what the user chose: after any
/// messages the window shows the same page and the same search box.
pub proof fn law_updates_keep_user_input(g: GuiView, us: Seq<DataUpdate>)
    ensures
        after_updates(g, us).selected_tab == g.selected_tab,
        after_updates(g, us).search_query == g.search_query,
    decreases us.len(),
{
    if us.len() > 0 {
        law_updates_keep_user_input(g, us.drop_last());
    }
}

/// A search that succeeded, once its messages are taken in, leaves the
/// window showing exactly the packages found, the status that the search is
/// done, and no longer loading.
pub proof fn law_search_success_shown(g: GuiView, us: Seq<DataUpdate>, ps: Seq<PackageView>)
    requires
        us.len() == 3,
        us[0] matches DataUpdate::SearchResults(found) && package_views(found@) == ps,
        status_text(us[1]) == Some("搜索完成"@),
        us[2] == DataUpdate::Loading(false),
    ensures
        after_updates(g, us).search_results == ps,
        after_updates(g, us).status_message == "搜索完成"@,
        !after_updates(g, us).is_loading,
{
    let u1 = us.drop_last().drop_last();
    let u2 = us.drop_last();
    assert(u1.drop_last() =~= Seq::<DataUpdate>::empty());
    assert(u1.last() == us[0]);
    assert(u2.drop_last() == u1);
    assert(u2.last() == us[1]);
    assert(us.last() == us[2]);
    assert(after_updates(g, u1.drop_last()) == g);
    let g1 = after_updates(g, u1);
    assert(g1 == after_update(g, us[0]));
    assert(g1.search_results == ps);
    let g2 = after_updates(g, u2);
    assert(g2 == after_update(g1, us[1]));
    assert(g2.status_message == "搜索完成"@);
}

proof fn lemma_trim_start_first(s: Seq<char>)
    ensures
        trim_start(s).len() > 0 ==> !is_ws(trim_start(s)[0]),
    decreases s.len(),
{
    if s.len() > 0 && is_ws(s[0]) {
        lemma_trim_start_first(s.drop_first());
    }
}

proof fn lemma_trim_end_prefix(u: Seq<char>)
    ensures
        trim_end(u).len() <= u.len(),
        trim_end(u) == u.take(trim_end(u).len() as int),
        trim_end(u).len() > 0 ==> !is_ws(trim_end(u).last()),
    decreases u.len(),
{
    if u.len() > 0 && is_ws(u.last()) {
        lemma_trim_end_prefix(u.drop_last());
        assert(u.drop_last().take(trim_end(u).len() as int) =~= u.take(trim_end(u).len() as int));
    } else {
        assert(u.take(u.len() as int) =~= u);
    }
}

/// A trimmed text that is not empty starts and ends with a character that
/// is not white space.
pub proof fn law_trim_ends(s: Seq<char>)
    ensures
        trim(s).len() > 0 ==> !is_ws(trim(s)[0]) && !is_ws(trim(s).last()),
{
    lemma_trim_start_first(s);
    lemma_trim_end_prefix(trim_start(s));
    if trim(s).len() > 0 {
        assert(trim(s)[0] == trim_start(s)[0]);
    }
}

/// A search the window starts runs a query that is not empty and neither
/// starts nor ends with white space.
pub proof fn law_search_query_trimmed(g: GuiView, e: UiEventView)
    ensures
        after_event(g, e).1 matches UiActionView::Search(q) ==> q.len() > 0 && !is_ws(q[0]) && !is_ws(q.last()),
{
    law_trim_ends(g.search_query);
}

proof fn lemma_search_from_append(st: SearchScan, a: Seq<Seq<char>>, b: Seq<Seq<char>>)
    ensures
        search_from(st, a + b) == search_from(search_from(st, a), b),
    decreases b.len(),
{
    if b.len() == 0 {
        assert(a + b =~= a);
    } else {
        lemma_search_from_append(st, a, b.drop_last());
        assert((a + b).drop_last() =~= a + b.drop_last());
        assert((a + b).last() == b.last());
    }
}

/// The state `st` with no packages read yet.
spec fn without_found(st: SearchScan) -> SearchScan {
    SearchScan { found: seq![], ..st }
}

proof fn lemma_search_found_appends(st: SearchScan, ls: Seq<Seq<char>>)
    ensures
        search_from(st, ls) == (SearchScan {
            found: st.found + search_from(without_found(st), ls).found,
            ..search_from(without_found(st), ls)
        }),
    decreases ls.len(),
{
    if ls.len() == 0 {
        assert(st.found + without_found(st).found =~= st.found);
    } else {
        lemma_search_found_appends(st, ls.drop_last());
        let a = search_from(st, ls.drop_last());
        let b = search_from(without_found(st), ls.drop_last());
        let t = trim(ls.last());
        if !(t.len() == 0) && !is_bucket_line(t) && table_open(a.table) && words(t).len() >= 2 {
            let x = search_row(words(t), a.bucket);
            assert(a.found.push(x) =~= st.found + b.found.push(x));
        }
    }
}

/// The line is blank once trimmed.
pub open spec fn is_blank(l: Seq<char>) -> bool {
    trim(l).len() == 0
}

proof fn lemma_search_blank_lines(st: SearchScan, ls: Seq<Seq<char>>)
    requires
        forall|j: int| 0 <= j < ls.len() ==> is_blank(#[trigger] ls[j]),
    ensures
        search_from(st, ls).found == st.found,
        search_from(st, ls).bucket == st.bucket,
    decreases ls.len(),
{
    if ls.len() > 0 {
        assert forall|j: int| 0 <= j < ls.drop_last().len() implies is_blank(#[trigger] ls.drop_last()[j]) by {
            assert(ls.drop_last()[j] == ls[j]);
        }
        lemma_search_blank_lines(st, ls.drop_last());
        assert(is_blank(ls[ls.len() - 1]));
    }
}

/// The first line of `ls` that is not blank is, trimmed, a bucket line.
pub open spec fn starts_with_bucket_section(ls: Seq<Seq<char>>) -> bool {
    exists|k: int|
        0 <= k < ls.len() && is_bucket_line(trim(#[trigger] ls[k])) && forall|j: int|
            0 <= j < k ==> is_blank(#[trigger] ls[j])
}

proof fn lemma_search_section_resets(s1: SearchScan, s2: SearchScan, ls: Seq<Seq<char>>, k: int)
    requires
        s1.found == s2.found,
        0 <= k < ls.len(),
        is_bucket_line(trim(ls[k])),
        forall|j: int| 0 <= j < k ==> is_blank(#[trigger] ls[j]),
    ensures
        search_from(s1, ls) == search_from(s2, ls),
    decreases ls.len(),
{
    if ls.len() - 1 > k {
        assert forall|j: int| 0 <= j < k implies is_blank(#[trigger] ls.drop_last()[j]) by {
            assert(ls.drop_last()[j] == ls[j]);
        }
        assert(ls.drop_last()[k] == ls[k]);
        lemma_search_section_resets(s1, s2, ls.drop_last(), k);
    } else {
        let pre = ls.drop_last();
        assert forall|j: int| 0 <= j < pre.len() implies is_blank(#[trigger] pre[j]) by {
            assert(pre[j] == ls[j]);
        }
        lemma_search_blank_lines(s1, pre);
        lemma_search_blank_lines(s2, pre);
        assert(ls.last() == ls[k]);
    }
}

/// A bucket section of `scoop search` output is read the same whatever
/// precedes it: when the first non-blank line of `o2` names a bucket, the
/// packages read from `o1`, a newline and `o2` are those read from `o1`
/// followed by those read from `o2`.
pub proof fn law_search_sections_independent(o1: Seq<char>, o2: Seq<char>)
    requires
        starts_with_bucket_section(lines(o2)),
    ensures
        search_packages(o1 + seq!['\n'] + o2) == search_packages(o1) + search_packages(o2),
{
    let l2 = lines(o2);
    let k = choose|k: int|
        0 <= k < l2.len() && is_bucket_line(trim(#[trigger] l2[k])) && forall|j: int|
            0 <= j < k ==> is_blank(#[trigger] l2[j]);
    let head = o1 + seq!['\n'];
    let (d1, open1) = split_lines(o1);
    assert(head.drop_last() =~= o1);
    let a = d1.push(open1);
    assert(split_lines(head) == (a, Seq::<char>::empty()));
    lemma_split_lines_append(head, o2);
    assert(o1 + seq!['\n'] + o2 =~= head + o2);
    let (d2, open2) = split_lines(o2);
    assert(lines(head + o2) =~= a + l2) by {
        if open2.len() > 0 {
            assert((a + d2).push(open2) =~= a + d2.push(open2));
        }
    }
    // The lines of o1, with a blank line after them where o1 ends in a newline.
    let s_a = search_from(search_start(), a);
    assert(s_a.found == search_scan(lines(o1)).found) by {
        if open1.len() == 0 {
            assert(a.drop_last() =~= lines(o1));
            assert(trim(a.last()) =~= Seq::<char>::empty());
        } else {
            assert(a =~= lines(o1));
        }
    }
    lemma_search_from_append(search_start(), a, l2);
    lemma_search_found_appends(s_a, l2);
    lemma_search_section_resets(without_found(s_a), search_start(), l2, k);
}

/// The non-blank lines of a text's lines, each trimmed.
pub open spec fn content_lines(ls: Seq<Seq<char>>) -> Seq<Seq<char>>
    decreases ls.len(),
{
    if ls.len() == 0 {
        seq![]
    } else if is_blank(ls.last()) {
        content_lines(ls.drop_last())
    } else {
        content_lines(ls.drop_last()).push(trim(ls.last()))
    }
}

/// Reading already trimmed, non-blank lines of `scoop list` output.
spec fn installed_content_scan(cs: Seq<Seq<char>>) -> (TableProgress, Seq<PackageView>)
    decreases cs.len(),
{
    if cs.len() == 0 {
        (table_start(), seq![])
    } else {
        let (g, ps) = installed_content_scan(cs.drop_last());
        let t = cs.last();
        if !table_open(g) {
            (table_step(g, t), ps)
        } else if words(t).len() >= 2 {
            (g, ps.push(installed_row(words(t))))
        } else {
            (g, ps)
        }
    }
}

proof fn lemma_installed_scan_content(ls: Seq<Seq<char>>)
    ensures
        installed_scan(ls) == installed_content_scan(content_lines(ls)),
    decreases ls.len(),
{
    if ls.len() > 0 {
        lemma_installed_scan_content(ls.drop_last());
        if !is_blank(ls.last()) {
            let c = content_lines(ls.drop_last());
            assert(c.push(trim(ls.last())).drop_last() =~= c);
        }
    }
}

/// Reading already trimmed, non-blank lines of `scoop bucket list` output.
spec fn bucket_content_scan(cs: Seq<Seq<char>>) -> (TableProgress, Seq<BucketView>)
    decreases cs.len(),
{
    if cs.len() == 0 {
        (table_start(), seq![])
    } else {
        let (g, bs) = bucket_content_scan(cs.drop_last());
        let t = cs.last();
        if !table_open(g) {
            (table_step(g, t), bs)
        } else if words(t).len() >= 2 {
            (g, bs.push(bucket_row(words(t))))
        } else {
            (g, bs)
        }
    }
}

proof fn lemma_bucket_scan_content(ls: Seq<Seq<char>>)
    ensures
        bucket_scan(ls) == bucket_content_scan(content_lines(ls)),
    decreases ls.len(),
{
    if ls.len() > 0 {
        lemma_bucket_scan_content(ls.drop_last());
        if !is_blank(ls.last()) {
            let c = content_lines(ls.drop_last());
            assert(c.push(trim(ls.last())).drop_last() =~= c);
        }
    }
}

/// Blank lines and white space at the ends of lines do not matter to
/// `scoop list` and `scoop bucket list` output: two outputs whose non-blank
/// lines, trimmed, are the same in the same order give the same packages
/// and the same buckets, whatever blank lines are inserted or removed.
pub proof fn law_listing_ignores_blank_lines_and_edge_space(o1: Seq<char>, o2: Seq<char>)
    requires
        content_lines(lines(o1)) == content_lines(lines(o2)),
    ensures
        installed_packages(o1) == installed_packages(o2),
        listed_buckets(o1) == listed_buckets(o2),
{
    lemma_installed_scan_content(lines(o1));
    lemma_installed_scan_content(lines(o2));
    lemma_bucket_scan_content(lines(o1));
    lemma_bucket_scan_content(lines(o2));
}

} // verus!
