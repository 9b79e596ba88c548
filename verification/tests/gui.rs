use scoopgui::gui::{
    buckets_loaded_message, installed_loaded_message, load_finished_messages, load_started_messages,
    recommended_buckets, search_finished_messages, GuiState, Tab, UiAction, UiEvent,
};
use scoopgui::model::{Bucket, DataUpdate, Package};

fn pkg(name: &str) -> Package {
    Package { name: name.to_string(), version: "1.0".to_string(), description: None, installed: true, bucket: None }
}

fn bucket(name: &str) -> Bucket {
    Bucket { name: name.to_string(), source: "https://example.invalid".to_string(), updated: None }
}

fn status_of(u: &DataUpdate) -> String {
    match u {
        DataUpdate::Status(s) => s.clone(),
        other => panic!("not a status: {:?}", other),
    }
}

#[test]
fn starts_on_home_and_ready() {
    let g = GuiState::new();
    assert_eq!(g.selected_tab, Tab::Home);
    assert_eq!(g.status_message, "就绪");
    assert!(g.search_query.is_empty() && g.command_output.is_empty());
    assert!(g.installed_packages.is_empty() && g.search_results.is_empty() && g.buckets.is_empty());
    assert!(!g.is_loading);
}

#[test]
fn messages_update_their_fields() {
    let mut g = GuiState::new();
    g.apply(DataUpdate::Loading(true));
    assert!(g.is_loading);
    g.apply(DataUpdate::Status("x".to_string()));
    assert_eq!(g.status_message, "x");
    g.apply(DataUpdate::InstalledPackages(vec![pkg("a"), pkg("b")]));
    assert_eq!(g.installed_packages.len(), 2);
    g.apply(DataUpdate::Buckets(vec![bucket("main")]));
    assert_eq!(g.buckets[0].name, "main");
    g.apply(DataUpdate::SearchResults(vec![pkg("c")]));
    assert_eq!(g.search_results[0].name, "c");
    g.apply(DataUpdate::CommandOutput("> scoop list".to_string()));
    g.apply(DataUpdate::CommandOutput("done".to_string()));
    assert_eq!(g.command_output, "> scoop list\ndone\n");
    assert_eq!(g.status_message, "x");
    assert!(g.is_loading);
}

#[test]
fn blank_search_asks_for_a_query() {
    let mut g = GuiState::new();
    g.search_query = "   \t".to_string();
    g.apply(DataUpdate::SearchResults(vec![pkg("old")]));
    let a = g.handle(UiEvent::PageSearch);
    assert!(matches!(a, UiAction::Nothing));
    assert_eq!(g.status_message, "请输入搜索关键词");
    assert!(!g.is_loading);
    assert_eq!(g.search_results.len(), 1);
    assert_eq!(g.selected_tab, Tab::Home);
}

#[test]
fn toolbar_search_starts_a_trimmed_search_and_switches_page() {
    let mut g = GuiState::new();
    g.search_query = "  git \n".to_string();
    g.apply(DataUpdate::SearchResults(vec![pkg("old")]));
    let a = g.handle(UiEvent::ToolbarSearch);
    match a {
        UiAction::Search(q) => assert_eq!(q, "git"),
        _ => panic!("expected a search"),
    }
    assert_eq!(g.status_message, "正在搜索 'git'...");
    assert!(g.is_loading);
    assert!(g.search_results.is_empty());
    assert_eq!(g.selected_tab, Tab::Available);
    assert_eq!(g.search_query, "  git \n");
}

#[test]
fn blank_toolbar_search_still_switches_page() {
    let mut g = GuiState::new();
    let a = g.handle(UiEvent::ToolbarSearch);
    assert!(matches!(a, UiAction::Nothing));
    assert_eq!(g.selected_tab, Tab::Available);
}

#[test]
fn clicks_set_status_or_ask_for_work() {
    let mut g = GuiState::new();
    assert!(matches!(g.handle(UiEvent::Refresh), UiAction::LoadInitialData));
    assert_eq!(g.status_message, "就绪");
    g.handle(UiEvent::CheckUpdates);
    assert_eq!(g.status_message, "检查更新...");
    g.handle(UiEvent::Uninstall("git".to_string()));
    assert_eq!(g.status_message, "准备卸载: git");
    g.handle(UiEvent::Update("git".to_string()));
    assert_eq!(g.status_message, "准备更新: git");
    g.handle(UiEvent::Install("7zip".to_string()));
    assert_eq!(g.status_message, "准备安装: 7zip");
    g.handle(UiEvent::RemoveBucket("extras".to_string()));
    assert_eq!(g.status_message, "准备移除桶: extras");
    g.handle(UiEvent::AddBucket("java".to_string()));
    assert_eq!(g.status_message, "准备添加桶: java");
    g.handle(UiEvent::SelectTab(Tab::Settings));
    assert_eq!(g.selected_tab, Tab::Settings);
}

#[test]
fn bucket_added_lookup() {
    let mut g = GuiState::new();
    g.apply(DataUpdate::Buckets(vec![bucket("main"), bucket("extras")]));
    assert!(g.is_bucket_added("extras"));
    assert!(!g.is_bucket_added("java"));
    assert!(!g.is_bucket_added("extra"));
    assert_eq!(recommended_buckets(), vec!["extras", "versions", "nerd-fonts", "java", "games"]);
}

#[test]
fn load_messages() {
    let start = load_started_messages();
    assert!(matches!(start[0], DataUpdate::Loading(true)));
    assert_eq!(status_of(&start[1]), "正在加载初始数据...");
    let end = load_finished_messages();
    assert!(matches!(end[0], DataUpdate::Loading(false)));
    assert_eq!(status_of(&end[1]), "初始命令执行完成");
    match installed_loaded_message(Ok(vec![pkg("a")])) {
        DataUpdate::InstalledPackages(ps) => assert_eq!(ps[0].name, "a"),
        other => panic!("{:?}", other),
    }
    assert_eq!(status_of(&installed_loaded_message(Err("boom".to_string()))), "加载已安装包失败: boom");
    match buckets_loaded_message(Ok(vec![bucket("main")])) {
        DataUpdate::Buckets(bs) => assert_eq!(bs[0].name, "main"),
        other => panic!("{:?}", other),
    }
    assert_eq!(status_of(&buckets_loaded_message(Err("boom".to_string()))), "加载存储桶失败: boom");
}

#[test]
fn search_messages() {
    let ok = search_finished_messages(Ok(vec![pkg("a")]));
    assert_eq!(ok.len(), 3);
    assert!(matches!(&ok[0], DataUpdate::SearchResults(ps) if ps.len() == 1));
    assert_eq!(status_of(&ok[1]), "搜索完成");
    assert!(matches!(ok[2], DataUpdate::Loading(false)));
    let err = search_finished_messages(Err("no scoop".to_string()));
    assert_eq!(err.len(), 2);
    assert_eq!(status_of(&err[0]), "搜索失败: no scoop");
    assert!(matches!(err[1], DataUpdate::Loading(false)));
}

#[test]
fn background_messages_keep_page_and_query() {
    let mut g = GuiState::new();
    g.handle(UiEvent::SelectTab(Tab::Buckets));
    g.search_query = "git".to_string();
    for u in load_started_messages() {
        g.apply(u);
    }
    g.apply(installed_loaded_message(Err("x".to_string())));
    g.apply(DataUpdate::CommandOutput("line".to_string()));
    for u in load_finished_messages() {
        g.apply(u);
    }
    assert_eq!(g.selected_tab, Tab::Buckets);
    assert_eq!(g.search_query, "git");
    assert!(!g.is_loading);
    assert_eq!(g.status_message, "初始命令执行完成");
}

#[test]
fn successful_search_is_shown() {
    let mut g = GuiState::new();
    g.search_query = "a".to_string();
    g.handle(UiEvent::PageSearch);
    assert!(g.is_loading);
    for u in search_finished_messages(Ok(vec![pkg("a"), pkg("ab")])) {
        g.apply(u);
    }
    assert!(!g.is_loading);
    assert_eq!(g.status_message, "搜索完成");
    let names: Vec<&str> = g.search_results.iter().map(|p| p.name.as_str()).collect();
    assert_eq!(names, vec!["a", "ab"]);
}
