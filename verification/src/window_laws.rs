//! What the window does with each message and each click, stated field by
//! field for every state.

use vstd::prelude::*;
use crate::gui::{GuiView, Tab, UiActionView, UiEventView, after_event, after_update};
use crate::model::{DataUpdate, bucket_views, package_views};
use crate::text::{is_ws, trim, trim_end, trim_start};
use crate::laws::law_trim_ends;

verus! {

/// Each message that carries a list replaces the list it names with exactly
/// the list carried, whatever the window held before, and changes nothing
/// else; a status replaces the status line, a loading flag the loading flag.
pub proof fn law_messages_replace(g: GuiView, u: DataUpdate)
    ensures
        match u {
            DataUpdate::InstalledPackages(ps) => {
                &&& after_update(g, u).installed_packages == package_views(ps@)
                &&& after_update(g, u).search_results == g.search_results
                &&& after_update(g, u).buckets == g.buckets
                &&& after_update(g, u).status_message == g.status_message
                &&& after_update(g, u).is_loading == g.is_loading
                &&& after_update(g, u).command_output == g.command_output
                &&& after_update(g, u).selected_tab == g.selected_tab
                &&& after_update(g, u).search_query == g.search_query
            },
            DataUpdate::Buckets(bs) => {
                &&& after_update(g, u).buckets == bucket_views(bs@)
                &&& after_update(g, u).installed_packages == g.installed_packages
                &&& after_update(g, u).search_results == g.search_results
                &&& after_update(g, u).status_message == g.status_message
                &&& after_update(g, u).is_loading == g.is_loading
                &&& after_update(g, u).command_output == g.command_output
                &&& after_update(g, u).selected_tab == g.selected_tab
                &&& after_update(g, u).search_query == g.search_query
            },
            DataUpdate::SearchResults(ps) => {
                &&& after_update(g, u).search_results == package_views(ps@)
                &&& after_update(g, u).installed_packages == g.installed_packages
                &&& after_update(g, u).buckets == g.buckets
                &&& after_update(g, u).status_message == g.status_message
                &&& after_update(g, u).is_loading == g.is_loading
                &&& after_update(g, u).command_output == g.command_output
                &&& after_update(g, u).selected_tab == g.selected_tab
                &&& after_update(g, u).search_query == g.search_query
            },
            DataUpdate::Status(m) => {
                &&& after_update(g, u).status_message == m@
                &&& after_update(g, u).installed_packages == g.installed_packages
                &&& after_update(g, u).search_results == g.search_results
                &&& after_update(g, u).buckets == g.buckets
                &&& after_update(g, u).is_loading == g.is_loading
                &&& after_update(g, u).command_output == g.command_output
                &&& after_update(g, u).selected_tab == g.selected_tab
                &&& after_update(g, u).search_query == g.search_query
            },
            DataUpdate::Loading(b) => {
                &&& after_update(g, u).is_loading == b
                &&& after_update(g, u).installed_packages == g.installed_packages
                &&& after_update(g, u).search_results == g.search_results
                &&& after_update(g, u).buckets == g.buckets
                &&& after_update(g, u).status_message == g.status_message
                &&& after_update(g, u).command_output == g.command_output
                &&& after_update(g, u).selected_tab == g.selected_tab
                &&& after_update(g, u).search_query == g.search_query
            },
            DataUpdate::CommandOutput(o) => {
                &&& after_update(g, u).command_output.len() == g.command_output.len() + o@.len() + 1
                &&& after_update(g, u).command_output.take(g.command_output.len() as int) == g.command_output
                &&& after_update(g, u).command_output.subrange(
                    g.command_output.len() as int,
                    (g.command_output.len() + o@.len()) as int,
                ) == o@
                &&& after_update(g, u).command_output.last() == '\n'
                &&& after_update(g, u).installed_packages == g.installed_packages
                &&& after_update(g, u).search_results == g.search_results
                &&& after_update(g, u).buckets == g.buckets
                &&& after_update(g, u).status_message == g.status_message
                &&& after_update(g, u).is_loading == g.is_loading
                &&& after_update(g, u).selected_tab == g.selected_tab
                &&& after_update(g, u).search_query == g.search_query
            },
        },
{
    if let DataUpdate::CommandOutput(o) = u {
        let out = after_update(g, u).command_output;
        assert(out.take(g.command_output.len() as int) =~= g.command_output);
        assert(out.subrange(g.command_output.len() as int, (g.command_output.len() + o@.len()) as int) =~= o@);
    }
}

/// Taking in the same message that carries a list, a status or a loading
/// flag twice leaves the window as taking it in once: a refresh that
/// delivers the same list again does not duplicate it.
pub proof fn law_repeated_message_changes_nothing(g: GuiView, u: DataUpdate)
    requires
        !(u is CommandOutput),
    ensures
        after_update(after_update(g, u), u) == after_update(g, u),
{
}

/// Choosing a page shows that page, from every state and for every page,
/// asks for no work, and changes nothing else.
pub proof fn law_select_tab_shows_page(g: GuiView, t: Tab)
    ensures
        after_event(g, UiEventView::SelectTab(t)).0.selected_tab == t,
        after_event(g, UiEventView::SelectTab(t)).1 == UiActionView::Nothing,
        after_event(g, UiEventView::SelectTab(t)).0.search_query == g.search_query,
        after_event(g, UiEventView::SelectTab(t)).0.status_message == g.status_message,
        after_event(g, UiEventView::SelectTab(t)).0.installed_packages == g.installed_packages,
        after_event(g, UiEventView::SelectTab(t)).0.search_results == g.search_results,
        after_event(g, UiEventView::SelectTab(t)).0.buckets == g.buckets,
        after_event(g, UiEventView::SelectTab(t)).0.is_loading == g.is_loading,
        after_event(g, UiEventView::SelectTab(t)).0.command_output == g.command_output,
{
}

/// A search from the toolbar always shows the page of available packages,
/// whatever page was shown and whatever the query.
pub proof fn law_toolbar_search_shows_available(g: GuiView)
    ensures
        after_event(g, UiEventView::ToolbarSearch).0.selected_tab == Tab::Available,
{
}

/// Asking for the lists again changes nothing in the window and asks for
/// them to be loaded.
pub proof fn law_refresh_asks_for_load(g: GuiView)
    ensures
        after_event(g, UiEventView::Refresh) == (g, UiActionView::LoadInitialData),
{
}

/// A click on a package or bucket button only changes the status line, and
/// the status names that package or bucket at its end; no work is asked for.
pub proof fn law_item_clicks_name_the_item(g: GuiView, e: UiEventView)
    ensures
        match e {
            UiEventView::Uninstall(n) | UiEventView::Update(n) | UiEventView::Install(n)
            | UiEventView::RemoveBucket(n) | UiEventView::AddBucket(n) => {
                let h = after_event(g, e).0;
                &&& after_event(g, e).1 == UiActionView::Nothing
                &&& h.status_message.len() > n.len()
                &&& h.status_message.skip(h.status_message.len() - n.len()) == n
                &&& h.selected_tab == g.selected_tab
                &&& h.search_query == g.search_query
                &&& h.installed_packages == g.installed_packages
                &&& h.search_results == g.search_results
                &&& h.buckets == g.buckets
                &&& h.is_loading == g.is_loading
                &&& h.command_output == g.command_output
            },
            _ => true,
        },
{
    match e {
        UiEventView::Uninstall(n) => {
            reveal_strlit("准备卸载: ");
            let s = after_event(g, e).0.status_message;
            assert(s.skip(s.len() - n.len()) =~= n);
        },
        UiEventView::Update(n) => {
            reveal_strlit("准备更新: ");
            let s = after_event(g, e).0.status_message;
            assert(s.skip(s.len() - n.len()) =~= n);
        },
        UiEventView::Install(n) => {
            reveal_strlit("准备安装: ");
            let s = after_event(g, e).0.status_message;
            assert(s.skip(s.len() - n.len()) =~= n);
        },
        UiEventView::RemoveBucket(n) => {
            reveal_strlit("准备移除桶: ");
            let s = after_event(g, e).0.status_message;
            assert(s.skip(s.len() - n.len()) =~= n);
        },
        UiEventView::AddBucket(n) => {
            reveal_strlit("准备添加桶: ");
            let s = after_event(g, e).0.status_message;
            assert(s.skip(s.len() - n.len()) =~= n);
        },
        _ => {},
    }
}

proof fn lemma_trim_start_skips_space(s: Seq<char>)
    ensures
        trim_start(s).len() <= s.len(),
        trim_start(s) == s.skip(s.len() - trim_start(s).len()),
        forall|k: int| 0 <= k < s.len() - trim_start(s).len() ==> is_ws(#[trigger] s[k]),
    decreases s.len(),
{
    if s.len() > 0 && is_ws(s[0]) {
        lemma_trim_start_skips_space(s.drop_first());
        let r = trim_start(s);
        assert(s.drop_first().skip(s.drop_first().len() - r.len()) =~= s.skip(s.len() - r.len()));
        assert forall|k: int| 0 <= k < s.len() - r.len() implies is_ws(#[trigger] s[k]) by {
            if k > 0 {
                assert(s.drop_first()[k - 1] == s[k]);
            }
        }
    } else {
        assert(s.skip(0) =~= s);
    }
}

proof fn lemma_trim_end_keeps_prefix(u: Seq<char>)
    ensures
        trim_end(u).len() <= u.len(),
        trim_end(u) == u.take(trim_end(u).len() as int),
        forall|k: int| trim_end(u).len() <= k < u.len() ==> is_ws(#[trigger] u[k]),
    decreases u.len(),
{
    if u.len() > 0 && is_ws(u.last()) {
        lemma_trim_end_keeps_prefix(u.drop_last());
        let r = trim_end(u);
        assert(u.drop_last().take(r.len() as int) =~= u.take(r.len() as int));
        assert forall|k: int| r.len() <= k < u.len() implies is_ws(#[trigger] u[k]) by {
            if k < u.len() - 1 {
                assert(u.drop_last()[k] == u[k]);
            }
        }
    } else {
        assert(u.take(u.len() as int) =~= u);
    }
}

/// Trimming removes white space at the two ends and nothing else: the
/// trimmed text is a stretch of the text with only white space before and
/// after it, and, unless empty, it starts and ends with a character that is
/// not white space.
pub proof fn law_trim_removes_only_edge_space(s: Seq<char>)
    ensures
        exists|i: int, j: int|
            0 <= i <= j <= s.len() && trim(s) == s.subrange(i, j) && (forall|k: int|
                0 <= k < i ==> is_ws(#[trigger] s[k])) && (forall|k: int|
                j <= k < s.len() ==> is_ws(#[trigger] s[k])),
        trim(s).len() > 0 ==> !is_ws(trim(s)[0]) && !is_ws(trim(s).last()),
{
    lemma_trim_start_skips_space(s);
    let u = trim_start(s);
    lemma_trim_end_keeps_prefix(u);
    let i = s.len() - u.len();
    let j = i + trim(s).len();
    assert(trim(s) =~= s.subrange(i, j));
    assert forall|k: int| j <= k < s.len() implies is_ws(#[trigger] s[k]) by {
        assert(u[k - i] == s[k]);
    }
    law_trim_ends(s);
}

/// Starting a search from the page of available packages: a query that is
/// only white space starts nothing and leaves the results, the loading flag
/// and the page as they were; any other query starts a search for the query
/// without the white space at its ends, empties the old results and marks the
/// window as loading. The search box itself is never changed.
pub proof fn law_page_search(g: GuiView)
    ensures
        after_event(g, UiEventView::PageSearch).0.search_query == g.search_query,
        after_event(g, UiEventView::PageSearch).0.selected_tab == g.selected_tab,
        after_event(g, UiEventView::PageSearch).0.installed_packages == g.installed_packages,
        after_event(g, UiEventView::PageSearch).0.buckets == g.buckets,
        after_event(g, UiEventView::PageSearch).0.command_output == g.command_output,
        (forall|k: int| 0 <= k < g.search_query.len() ==> is_ws(#[trigger] g.search_query[k])) ==> {
            &&& after_event(g, UiEventView::PageSearch).1 == UiActionView::Nothing
            &&& after_event(g, UiEventView::PageSearch).0.search_results == g.search_results
            &&& after_event(g, UiEventView::PageSearch).0.is_loading == g.is_loading
        },
        !(forall|k: int| 0 <= k < g.search_query.len() ==> is_ws(#[trigger] g.search_query[k])) ==> {
            &&& after_event(g, UiEventView::PageSearch).1 matches UiActionView::Search(q) && (exists|
                i: int,
                j: int,
            |
                0 <= i < j <= g.search_query.len() && q == g.search_query.subrange(i, j) && (forall|
                    k: int,
                | 0 <= k < i ==> is_ws(#[trigger] g.search_query[k])) && (forall|k: int|
                    j <= k < g.search_query.len() ==> is_ws(#[trigger] g.search_query[k])))
                && !is_ws(q[0]) && !is_ws(q.last())
            &&& after_event(g, UiEventView::PageSearch).0.search_results.len() == 0
            &&& after_event(g, UiEventView::PageSearch).0.is_loading
        },
{
    let s = g.search_query;
    law_trim_removes_only_edge_space(s);
    let (i, j) = choose|i: int, j: int|
        0 <= i <= j <= s.len() && trim(s) == s.subrange(i, j) && (forall|k: int|
            0 <= k < i ==> is_ws(#[trigger] s[k])) && (forall|k: int|
            j <= k < s.len() ==> is_ws(#[trigger] s[k]));
    if trim(s).len() == 0 {
        assert forall|k: int| 0 <= k < s.len() implies is_ws(#[trigger] s[k]) by {
            if k >= i {
                assert(k >= j);
            }
        }
    } else {
        assert(i < j);
    }
}

} // verus!
