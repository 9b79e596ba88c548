//! Reading the tables that `scoop list`, `scoop search` and
//! `scoop bucket list` print.
//!
//! Each table is read line by line, every line trimmed first. Blank lines
//! are passed over. Lines before the header (a line starting with `Name`)
//! and between the header and the rule under it (a line starting with
//! `----`) are passed over too. Every later line with at least two words is
//! a row. `scoop search` prints one table per bucket, each after a line
//! such as `main:` that names the bucket; a blank line or a bucket line
//! starts a new table.

use vstd::prelude::*;
use crate::model::{Bucket, BucketView, Package, PackageView, bucket_views, package_views};
use crate::scoop::ScoopCommand;
use crate::text::{
    has_char, has_prefix, join_spaced, join_spaced_of, lines, lines_of, starts_with, string_of,
    trim, trim_chars, trim_end_char, trim_end_char_of, views, words, words_of,
};

verus! {

/// The start of a table's header line.
pub open spec fn header_mark() -> Seq<char> {
    seq!['N', 'a', 'm', 'e']
}

/// The start of the rule under a table's header.
pub open spec fn rule_mark() -> Seq<char> {
    seq!['-', '-', '-', '-']
}

/// Where the reading of one table stands: whether its header and the rule
/// under it have been passed.
pub struct TableProgress {
    pub header_seen: bool,
    pub rule_seen: bool,
}

/// A table not yet begun.
pub open spec fn table_start() -> TableProgress {
    TableProgress { header_seen: false, rule_seen: false }
}

/// The progress after a non-blank trimmed line `t` that is not a row.
pub open spec fn table_step(g: TableProgress, t: Seq<char>) -> TableProgress {
    if !g.header_seen {
        TableProgress { header_seen: starts_with(t, header_mark()), rule_seen: g.rule_seen }
    } else {
        TableProgress { header_seen: true, rule_seen: starts_with(t, rule_mark()) }
    }
}

/// Progress past header and rule: its next non-blank line is a row.
pub open spec fn table_open(g: TableProgress) -> bool {
    g.header_seen && g.rule_seen
}

/// The package that a row of `scoop list` describes: name, version and,
/// where there is a third word, the bucket it came from.
pub open spec fn installed_row(w: Seq<Seq<char>>) -> PackageView {
    PackageView {
        name: w[0],
        version: w[1],
        description: None,
        installed: true,
        bucket: if w.len() > 2 { Some(w[2]) } else { None },
    }
}

/// Reading the lines of `scoop list` output: the progress and the packages read.
pub open spec fn installed_scan(ls: Seq<Seq<char>>) -> (TableProgress, Seq<PackageView>)
    decreases ls.len(),
{
    if ls.len() == 0 {
        (table_start(), seq![])
    } else {
        let (g, ps) = installed_scan(ls.drop_last());
        let t = trim(ls.last());
        if t.len() == 0 {
            (g, ps)
        } else if !table_open(g) {
            (table_step(g, t), ps)
        } else if words(t).len() >= 2 {
            (g, ps.push(installed_row(words(t))))
        } else {
            (g, ps)
        }
    }
}

/// The packages in the output of `scoop list`.
pub open spec fn installed_packages(out: Seq<char>) -> Seq<PackageView> {
    installed_scan(lines(out)).1
}

/// The bucket that a row of `scoop bucket list` describes: name, source
/// and, where there are more than two words, the words between the source
/// and the last one (the manifest count) as the time of the last update.
pub open spec fn bucket_row(w: Seq<Seq<char>>) -> BucketView {
    BucketView {
        name: w[0],
        source: w[1],
        updated: if w.len() > 2 {
            Some(join_spaced(w.subrange(2, w.len() - 1)))
        } else {
            None
        },
    }
}

/// Reading the lines of `scoop bucket list` output.
pub open spec fn bucket_scan(ls: Seq<Seq<char>>) -> (TableProgress, Seq<BucketView>)
    decreases ls.len(),
{
    if ls.len() == 0 {
        (table_start(), seq![])
    } else {
        let (g, bs) = bucket_scan(ls.drop_last());
        let t = trim(ls.last());
        if t.len() == 0 {
            (g, bs)
        } else if !table_open(g) {
            (table_step(g, t), bs)
        } else if words(t).len() >= 2 {
            (g, bs.push(bucket_row(words(t))))
        } else {
            (g, bs)
        }
    }
}

/// The buckets in the output of `scoop bucket list`.
pub open spec fn listed_buckets(out: Seq<char>) -> Seq<BucketView> {
    bucket_scan(lines(out)).1
}

/// A trimmed line that names a bucket in `scoop search` output: no space
/// in it, and a colon at its end.
pub open spec fn is_bucket_line(t: Seq<char>) -> bool {
    !t.contains(' ') && t.len() > 0 && t.last() == ':'
}

/// The package that a row of `scoop search` describes, found in `bucket`:
/// name, version and, where there are more than two words, the rest of the
/// words as its description.
pub open spec fn search_row(w: Seq<Seq<char>>, bucket: Seq<char>) -> PackageView {
    PackageView {
        name: w[0],
        version: w[1],
        description: if w.len() > 2 { Some(join_spaced(w.skip(2))) } else { None },
        installed: false,
        bucket: Some(bucket),
    }
}

/// Where the reading of `scoop search` output stands: the bucket named
/// last, the progress of the current table, and the packages read.
pub struct SearchScan {
    pub bucket: Seq<char>,
    pub table: TableProgress,
    pub found: Seq<PackageView>,
}

/// Where the reading of `scoop search` output starts.
pub open spec fn search_start() -> SearchScan {
    SearchScan { bucket: seq![], table: table_start(), found: seq![] }
}

/// Reading one more line of `scoop search` output.
pub open spec fn search_step(st: SearchScan, line: Seq<char>) -> SearchScan {
    let t = trim(line);
    if t.len() == 0 {
        SearchScan { table: table_start(), ..st }
    } else if is_bucket_line(t) {
        SearchScan { bucket: trim_end_char(t, ':'), table: table_start(), ..st }
    } else if !table_open(st.table) {
        SearchScan { table: table_step(st.table, t), ..st }
    } else if words(t).len() >= 2 {
        SearchScan { found: st.found.push(search_row(words(t), st.bucket)), ..st }
    } else {
        st
    }
}

/// Reading lines of `scoop search` output from the point `st`.
pub open spec fn search_from(st: SearchScan, ls: Seq<Seq<char>>) -> SearchScan
    decreases ls.len(),
{
    if ls.len() == 0 {
        st
    } else {
        search_step(search_from(st, ls.drop_last()), ls.last())
    }
}

/// Reading the lines of `scoop search` output.
pub open spec fn search_scan(ls: Seq<Seq<char>>) -> SearchScan {
    search_from(search_start(), ls)
}

/// The packages in the output of `scoop search`.
pub open spec fn search_packages(out: Seq<char>) -> Seq<PackageView> {
    search_scan(lines(out)).found
}

/// The characters of the header mark.
fn header_mark_chars() -> (v: Vec<char>)
    ensures
        v@ == header_mark(),
{
    let v = vec!['N', 'a', 'm', 'e'];
    assert(v@ =~= header_mark());
    v
}

/// The characters of the rule mark.
fn rule_mark_chars() -> (v: Vec<char>)
    ensures
        v@ == rule_mark(),
{
    let v = vec!['-', '-', '-', '-'];
    assert(v@ =~= rule_mark());
    v
}

impl ScoopCommand {
    /// The installed packages in the output of `scoop list`.
    pub fn parse_installed(output: &str) -> (ps: Vec<Package>)
        ensures
            package_views(ps@) == installed_packages(output@),
    {
        let ls = lines_of(output);
        let header = header_mark_chars();
        let rule = rule_mark_chars();
        let mut packages: Vec<Package> = Vec::new();
        let mut header_skipped = false;
        let mut separator_skipped = false;
        let n = ls.len();
        for k in 0..n
            invariant
                n == ls@.len(),
                views(ls@) == lines(output@),
                header@ == header_mark(),
                rule@ == rule_mark(),
                installed_scan(views(ls@).take(k as int)).0 == (TableProgress {
                    header_seen: header_skipped,
                    rule_seen: separator_skipped,
                }),
                installed_scan(views(ls@).take(k as int)).1 == package_views(packages@),
        {
            let ghost before = package_views(packages@);
            assert(views(ls@).take(k + 1).drop_last() =~= views(ls@).take(k as int));
            assert(views(ls@).take(k + 1).last() == ls@[k as int]@);
            let t = trim_chars(&ls[k]);
            if t.len() == 0 {
            } else if !header_skipped {
                header_skipped = has_prefix(&t, &header);
            } else if !separator_skipped {
                separator_skipped = has_prefix(&t, &rule);
            } else {
                let w = words_of(&t);
                if w.len() >= 2 {
                    let bucket = if w.len() > 2 {
                        Some(string_of(&w[2]))
                    } else {
                        None
                    };
                    let p = Package {
                        name: string_of(&w[0]),
                        version: string_of(&w[1]),
                        description: None,
                        installed: true,
                        bucket,
                    };
                    assert(p@ == installed_row(views(w@)));
                    packages.push(p);
                    assert(package_views(packages@) =~= before.push(p@));
                }
            }
        }
        assert(views(ls@).take(n as int) =~= views(ls@));
        packages
    }

    /// The buckets in the output of `scoop bucket list`.
    pub fn parse_buckets(output: &str) -> (bs: Vec<Bucket>)
        ensures
            bucket_views(bs@) == listed_buckets(output@),
    {
        let ls = lines_of(output);
        let header = header_mark_chars();
        let rule = rule_mark_chars();
        let mut buckets: Vec<Bucket> = Vec::new();
        let mut header_skipped = false;
        let mut separator_skipped = false;
        let n = ls.len();
        for k in 0..n
            invariant
                n == ls@.len(),
                views(ls@) == lines(output@),
                header@ == header_mark(),
                rule@ == rule_mark(),
                bucket_scan(views(ls@).take(k as int)).0 == (TableProgress {
                    header_seen: header_skipped,
                    rule_seen: separator_skipped,
                }),
                bucket_scan(views(ls@).take(k as int)).1 == bucket_views(buckets@),
        {
            let ghost before = bucket_views(buckets@);
            assert(views(ls@).take(k + 1).drop_last() =~= views(ls@).take(k as int));
            assert(views(ls@).take(k + 1).last() == ls@[k as int]@);
            let t = trim_chars(&ls[k]);
            if t.len() == 0 {
            } else if !header_skipped {
                header_skipped = has_prefix(&t, &header);
            } else if !separator_skipped {
                separator_skipped = has_prefix(&t, &rule);
            } else {
                let w = words_of(&t);
                let m = w.len();
                if m >= 2 {
                    let updated = if m > 2 {
                        Some(join_spaced_of(&w, 2, m - 1))
                    } else {
                        None
                    };
                    let b = Bucket { name: string_of(&w[0]), source: string_of(&w[1]), updated };
                    assert(b@ == bucket_row(views(w@)));
                    buckets.push(b);
                    assert(bucket_views(buckets@) =~= before.push(b@));
                }
            }
        }
        assert(views(ls@).take(n as int) =~= views(ls@));
        buckets
    }

    /// The packages in the output of `scoop search`, each with the bucket
    /// it was found in.
    pub fn parse_search(output: &str) -> (ps: Vec<Package>)
        ensures
            package_views(ps@) == search_packages(output@),
    {
        let ls = lines_of(output);
        let header = header_mark_chars();
        let rule = rule_mark_chars();
        let mut packages: Vec<Package> = Vec::new();
        let mut current_bucket = String::new();
        let mut header_skipped = false;
        let mut separator_skipped = false;
        let n = ls.len();
        assert(package_views(packages@) =~= Seq::<PackageView>::empty());
        assert(views(ls@).take(0) =~= Seq::<Seq<char>>::empty());
        for k in 0..n
            invariant
                n == ls@.len(),
                views(ls@) == lines(output@),
                header@ == header_mark(),
                rule@ == rule_mark(),
                search_scan(views(ls@).take(k as int)) == (SearchScan {
                    bucket: current_bucket@,
                    table: TableProgress { header_seen: header_skipped, rule_seen: separator_skipped },
                    found: package_views(packages@),
                }),
        {
            let ghost before = package_views(packages@);
            assert(views(ls@).take(k + 1).drop_last() =~= views(ls@).take(k as int));
            assert(views(ls@).take(k + 1).last() == ls@[k as int]@);
            let t = trim_chars(&ls[k]);
            let tn = t.len();
            if tn == 0 {
                header_skipped = false;
                separator_skipped = false;
            } else if !has_char(&t, ' ') && t[tn - 1] == ':' {
                current_bucket = string_of(&trim_end_char_of(&t, ':'));
                header_skipped = false;
                separator_skipped = false;
            } else if !header_skipped {
                header_skipped = has_prefix(&t, &header);
            } else if !separator_skipped {
                separator_skipped = has_prefix(&t, &rule);
            } else {
                let w = words_of(&t);
                let m = w.len();
                if m >= 2 {
                    let description = if m > 2 {
                        Some(join_spaced_of(&w, 2, m))
                    } else {
                        None
                    };
                    assert(views(w@).subrange(2, m as int) =~= views(w@).skip(2));
                    let p = Package {
                        name: string_of(&w[0]),
                        version: string_of(&w[1]),
                        description,
                        installed: false,
                        bucket: Some(current_bucket.clone()),
                    };
                    assert(p@ == search_row(views(w@), current_bucket@));
                    packages.push(p);
                    assert(package_views(packages@) =~= before.push(p@));
                }
            }
        }
        assert(views(ls@).take(n as int) =~= views(ls@));
        packages
    }
}

} // verus!
