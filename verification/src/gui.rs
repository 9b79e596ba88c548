//! The state that the window shows, how the messages of the background work
//! change it, and how it answers what the user does.
//!
//! Drawing is left to the caller: it reports each click or submitted search
//! as a `UiEvent`, and carries out the `UiAction` returned.

use vstd::prelude::*;
use vstd::string::StringExecFns;
use crate::model::{
    Bucket, BucketView, DataUpdate, Package, PackageView, bucket_views, package_views,
};
use crate::text::{chars_of, string_of, trim, trim_chars};

verus! {

/// The pages of the window.
#[derive(Debug, Clone, Copy, PartialEq, Eq, Structural)]
pub enum Tab {
    Home,
    Installed,
    Available,
    Buckets,
    Updates,
    Settings,
}

/// What the window shows.
pub struct GuiState {
    pub selected_tab: Tab,
    pub search_query: String,
    pub status_message: String,
    pub installed_packages: Vec<Package>,
    pub search_results: Vec<Package>,
    pub buckets: Vec<Bucket>,
    pub is_loading: bool,
    pub command_output: String,
}

/// The view of a `GuiState`.
#[verifier::ext_equal]
pub struct GuiView {
    pub selected_tab: Tab,
    pub search_query: Seq<char>,
    pub status_message: Seq<char>,
    pub installed_packages: Seq<PackageView>,
    pub search_results: Seq<PackageView>,
    pub buckets: Seq<BucketView>,
    pub is_loading: bool,
    pub command_output: Seq<char>,
}

impl View for GuiState {
    type V = GuiView;

    open spec fn view(&self) -> GuiView {
        GuiView {
            selected_tab: self.selected_tab,
            search_query: self.search_query@,
            status_message: self.status_message@,
            installed_packages: package_views(self.installed_packages@),
            search_results: package_views(self.search_results@),
            buckets: bucket_views(self.buckets@),
            is_loading: self.is_loading,
            command_output: self.command_output@,
        }
    }
}

/// What the user did.
pub enum UiEvent {
    /// Chose a page.
    SelectTab(Tab),
    /// Submitted the search box of the toolbar.
    ToolbarSearch,
    /// Submitted the search box of the page of available packages.
    PageSearch,
    /// Asked for the lists to be loaded again.
    Refresh,
    /// Asked for updates to be checked.
    CheckUpdates,
    /// Asked for an installed package to be uninstalled.
    Uninstall(String),
    /// Asked for an installed package to be updated.
    Update(String),
    /// Asked for a found package to be installed.
    Install(String),
    /// Asked for a bucket to be removed.
    RemoveBucket(String),
    /// Asked for a recommended bucket to be added.
    AddBucket(String),
}

/// The view of a `UiEvent`.
pub enum UiEventView {
    SelectTab(Tab),
    ToolbarSearch,
    PageSearch,
    Refresh,
    CheckUpdates,
    Uninstall(Seq<char>),
    Update(Seq<char>),
    Install(Seq<char>),
    RemoveBucket(Seq<char>),
    AddBucket(Seq<char>),
}

impl View for UiEvent {
    type V = UiEventView;

    open spec fn view(&self) -> UiEventView {
        match self {
            UiEvent::SelectTab(t) => UiEventView::SelectTab(*t),
            UiEvent::ToolbarSearch => UiEventView::ToolbarSearch,
            UiEvent::PageSearch => UiEventView::PageSearch,
            UiEvent::Refresh => UiEventView::Refresh,
            UiEvent::CheckUpdates => UiEventView::CheckUpdates,
            UiEvent::Uninstall(n) => UiEventView::Uninstall(n@),
            UiEvent::Update(n) => UiEventView::Update(n@),
            UiEvent::Install(n) => UiEventView::Install(n@),
            UiEvent::RemoveBucket(n) => UiEventView::RemoveBucket(n@),
            UiEvent::AddBucket(n) => UiEventView::AddBucket(n@),
        }
    }
}

/// What the caller is to do after an event.
pub enum UiAction {
    /// Nothing.
    Nothing,
    /// Run `scoop search` with this query in the background.
    Search(String),
    /// Load the installed packages and the buckets in the background.
    LoadInitialData,
}

/// The view of a `UiAction`.
pub enum UiActionView {
    Nothing,
    Search(Seq<char>),
    LoadInitialData,
}

impl View for UiAction {
    type V = UiActionView;

    open spec fn view(&self) -> UiActionView {
        match self {
            UiAction::Nothing => UiActionView::Nothing,
            UiAction::Search(q) => UiActionView::Search(q@),
            UiAction::LoadInitialData => UiActionView::LoadInitialData,
        }
    }
}

/// The window after a message of the background work: a status replaces
/// the status line, a loading flag the loading flag, a list the list it
/// carries; command output is appended to the output pane with a newline.
pub open spec fn after_update(g: GuiView, u: DataUpdate) -> GuiView {
    match u {
        DataUpdate::Status(m) => GuiView { status_message: m@, ..g },
        DataUpdate::Loading(b) => GuiView { is_loading: b, ..g },
        DataUpdate::InstalledPackages(ps) => GuiView { installed_packages: package_views(ps@), ..g },
        DataUpdate::Buckets(bs) => GuiView { buckets: bucket_views(bs@), ..g },
        DataUpdate::SearchResults(ps) => GuiView { search_results: package_views(ps@), ..g },
        DataUpdate::CommandOutput(o) => GuiView {
            command_output: g.command_output + o@ + seq!['\n'],
            ..g
        },
    }
}

/// Starting a search from the window: with a blank query it only asks for
/// one; otherwise it shows that the trimmed query is being searched,
/// empties the old results, marks the window as loading, and gives the
/// query to run.
pub open spec fn after_search(g: GuiView) -> (GuiView, UiActionView) {
    let q = trim(g.search_query);
    if q.len() == 0 {
        (GuiView { status_message: "请输入搜索关键词"@, ..g }, UiActionView::Nothing)
    } else {
        (
            GuiView {
                is_loading: true,
                status_message: "正在搜索 '"@ + q + "'..."@,
                search_results: seq![],
                ..g
            },
            UiActionView::Search(q),
        )
    }
}

/// The window after an event, and what is to be done.
pub open spec fn after_event(g: GuiView, e: UiEventView) -> (GuiView, UiActionView) {
    match e {
        UiEventView::SelectTab(t) => (GuiView { selected_tab: t, ..g }, UiActionView::Nothing),
        UiEventView::ToolbarSearch => {
            let (h, a) = after_search(g);
            (GuiView { selected_tab: Tab::Available, ..h }, a)
        },
        UiEventView::PageSearch => after_search(g),
        UiEventView::Refresh => (g, UiActionView::LoadInitialData),
        UiEventView::CheckUpdates => (
            GuiView { status_message: "检查更新..."@, ..g },
            UiActionView::Nothing,
        ),
        UiEventView::Uninstall(n) => (
            GuiView { status_message: "准备卸载: "@ + n, ..g },
            UiActionView::Nothing,
        ),
        UiEventView::Update(n) => (
            GuiView { status_message: "准备更新: "@ + n, ..g },
            UiActionView::Nothing,
        ),
        UiEventView::Install(n) => (
            GuiView { status_message: "准备安装: "@ + n, ..g },
            UiActionView::Nothing,
        ),
        UiEventView::RemoveBucket(n) => (
            GuiView { status_message: "准备移除桶: "@ + n, ..g },
            UiActionView::Nothing,
        ),
        UiEventView::AddBucket(n) => (
            GuiView { status_message: "准备添加桶: "@ + n, ..g },
            UiActionView::Nothing,
        ),
    }
}

/// A string made of `prefix` and then `name`.
fn prefixed(prefix: &str, name: &str) -> (s: String)
    ensures
        s@ == prefix@ + name@,
{
    let mut s = String::from_str(prefix);
    s.append(name);
    s
}

impl GuiState {
    /// The window at start: the home page, an empty search box, the status
    /// `就绪`, no lists, not loading, no command output.
    pub fn new() -> (g: Self)
        ensures
            g@ == (GuiView {
                selected_tab: Tab::Home,
                search_query: seq![],
                status_message: "就绪"@,
                installed_packages: seq![],
                search_results: seq![],
                buckets: seq![],
                is_loading: false,
                command_output: seq![],
            }),
    {
        let g = GuiState {
            selected_tab: Tab::Home,
            search_query: String::new(),
            status_message: String::from_str("就绪"),
            installed_packages: Vec::new(),
            search_results: Vec::new(),
            buckets: Vec::new(),
            is_loading: false,
            command_output: String::new(),
        };
        assert(package_views(g.installed_packages@) =~= Seq::<PackageView>::empty());
        assert(package_views(g.search_results@) =~= Seq::<PackageView>::empty());
        assert(bucket_views(g.buckets@) =~= Seq::<BucketView>::empty());
        g
    }

    /// Takes in a message of the background work.
    pub fn apply(&mut self, update: DataUpdate)
        ensures
            final(self)@ == after_update(old(self)@, update),
    {
        match update {
            DataUpdate::Status(msg) => self.status_message = msg,
            DataUpdate::Loading(loading) => self.is_loading = loading,
            DataUpdate::InstalledPackages(packages) => self.installed_packages = packages,
            DataUpdate::Buckets(buckets) => self.buckets = buckets,
            DataUpdate::SearchResults(results) => self.search_results = results,
            DataUpdate::CommandOutput(output) => {
                self.command_output.append(output.as_str());
                crate::text::push_char(&mut self.command_output, '\n');
            },
        }
        assert(self@ =~= after_update(old(self)@, update));
    }

    /// Starts a search with the query in the search box.
    fn perform_search(&mut self) -> (a: UiAction)
        ensures
            (final(self)@, a@) == after_search(old(self)@),
    {
        let query = string_of(&trim_chars(&chars_of(self.search_query.as_str())));
        if query.as_str().is_empty() {
            self.status_message = String::from_str("请输入搜索关键词");
            return UiAction::Nothing;
        }
        self.is_loading = true;
        let mut status = String::from_str("正在搜索 '");
        status.append(query.as_str());
        status.append("'...");
        self.status_message = status;
        self.search_results = Vec::new();
        assert(package_views(self.search_results@) =~= Seq::<PackageView>::empty());
        UiAction::Search(query)
    }

    /// Answers what the user did.
    pub fn handle(&mut self, event: UiEvent) -> (a: UiAction)
        ensures
            (final(self)@, a@) == after_event(old(self)@, event@),
    {
        match event {
            UiEvent::SelectTab(tab) => {
                self.selected_tab = tab;
                UiAction::Nothing
            },
            UiEvent::ToolbarSearch => {
                let a = self.perform_search();
                self.selected_tab = Tab::Available;
                a
            },
            UiEvent::PageSearch => self.perform_search(),
            UiEvent::Refresh => UiAction::LoadInitialData,
            UiEvent::CheckUpdates => {
                self.status_message = String::from_str("检查更新...");
                UiAction::Nothing
            },
            UiEvent::Uninstall(name) => {
                self.status_message = prefixed("准备卸载: ", name.as_str());
                UiAction::Nothing
            },
            UiEvent::Update(name) => {
                self.status_message = prefixed("准备更新: ", name.as_str());
                UiAction::Nothing
            },
            UiEvent::Install(name) => {
                self.status_message = prefixed("准备安装: ", name.as_str());
                UiAction::Nothing
            },
            UiEvent::RemoveBucket(name) => {
                self.status_message = prefixed("准备移除桶: ", name.as_str());
                UiAction::Nothing
            },
            UiEvent::AddBucket(name) => {
                self.status_message = prefixed("准备添加桶: ", name.as_str());
                UiAction::Nothing
            },
        }
    }

    /// Whether a bucket of this name is among the listed buckets.
    pub fn is_bucket_added(&self, name: &str) -> (r: bool)
        ensures
            r == exists|i: int| 0 <= i < self.buckets@.len() && #[trigger] self.buckets@[i].name@ == name@,
    {
        let target = String::from_str(name);
        let n = self.buckets.len();
        for i in 0..n
            invariant
                n == self.buckets@.len(),
                target@ == name@,
                forall|j: int| 0 <= j < i ==> #[trigger] self.buckets@[j].name@ != name@,
        {
            if self.buckets[i].name == target {
                assert(self.buckets@[i as int].name@ == name@);
                return true;
            }
        }
        false
    }
}

/// The text of a `Status` message, or nothing for other messages.
pub open spec fn status_text(u: DataUpdate) -> Option<Seq<char>> {
    match u {
        DataUpdate::Status(s) => Some(s@),
        _ => None,
    }
}

/// The messages that open a load of the lists: loading, and a status that
/// says so.
pub fn load_started_messages() -> (us: Vec<DataUpdate>)
    ensures
        us@.len() == 2,
        us@[0] == DataUpdate::Loading(true),
        status_text(us@[1]) == Some("正在加载初始数据..."@),
{
    let mut us = Vec::new();
    us.push(DataUpdate::Loading(true));
    us.push(DataUpdate::Status(String::from_str("正在加载初始数据...")));
    us
}

/// The message after the installed packages were read: the list, or a
/// status that names the error.
pub fn installed_loaded_message(r: Result<Vec<Package>, String>) -> (u: DataUpdate)
    ensures
        match r {
            Ok(ps) => u == DataUpdate::InstalledPackages(ps),
            Err(e) => status_text(u) == Some("加载已安装包失败: "@ + e@),
        },
{
    match r {
        Ok(packages) => DataUpdate::InstalledPackages(packages),
        Err(e) => DataUpdate::Status(prefixed("加载已安装包失败: ", e.as_str())),
    }
}

/// The message after the buckets were read: the list, or a status that
/// names the error.
pub fn buckets_loaded_message(r: Result<Vec<Bucket>, String>) -> (u: DataUpdate)
    ensures
        match r {
            Ok(bs) => u == DataUpdate::Buckets(bs),
            Err(e) => status_text(u) == Some("加载存储桶失败: "@ + e@),
        },
{
    match r {
        Ok(buckets) => DataUpdate::Buckets(buckets),
        Err(e) => DataUpdate::Status(prefixed("加载存储桶失败: ", e.as_str())),
    }
}

/// The messages that close a load of the lists: no longer loading, and a
/// status that says the commands are done.
pub fn load_finished_messages() -> (us: Vec<DataUpdate>)
    ensures
        us@.len() == 2,
        us@[0] == DataUpdate::Loading(false),
        status_text(us@[1]) == Some("初始命令执行完成"@),
{
    let mut us = Vec::new();
    us.push(DataUpdate::Loading(false));
    us.push(DataUpdate::Status(String::from_str("初始命令执行完成")));
    us
}

/// The messages after a search: the results and a status that says the
/// search is done, or a status that names the error; then no longer
/// loading.
pub fn search_finished_messages(r: Result<Vec<Package>, String>) -> (us: Vec<DataUpdate>)
    ensures
        match r {
            Ok(ps) => {
                &&& us@.len() == 3
                &&& us@[0] == DataUpdate::SearchResults(ps)
                &&& status_text(us@[1]) == Some("搜索完成"@)
                &&& us@[2] == DataUpdate::Loading(false)
            },
            Err(e) => {
                &&& us@.len() == 2
                &&& status_text(us@[0]) == Some("搜索失败: "@ + e@)
                &&& us@[1] == DataUpdate::Loading(false)
            },
        },
{
    let mut us = Vec::new();
    match r {
        Ok(results) => {
            us.push(DataUpdate::SearchResults(results));
            us.push(DataUpdate::Status(String::from_str("搜索完成")));
        },
        Err(e) => {
            us.push(DataUpdate::Status(prefixed("搜索失败: ", e.as_str())));
        },
    }
    us.push(DataUpdate::Loading(false));
    us
}

/// The buckets the window offers to add, in the order it shows them.
pub fn recommended_buckets() -> (bs: Vec<String>)
    ensures
        crate::scoop::string_views(bs@) == seq!["extras"@, "versions"@, "nerd-fonts"@, "java"@, "games"@],
{
    let mut bs = Vec::new();
    bs.push(String::from_str("extras"));
    bs.push(String::from_str("versions"));
    bs.push(String::from_str("nerd-fonts"));
    bs.push(String::from_str("java"));
    bs.push(String::from_str("games"));
    assert(crate::scoop::string_views(bs@) =~= seq!["extras"@, "versions"@, "nerd-fonts"@, "java"@, "games"@]);
    bs
}

} // verus!
