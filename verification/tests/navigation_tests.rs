use atc_book::navigation::choose_sidebar_mode;
use atc_book::state::SidebarMode;
use std::collections::HashMap;

use atc_book::models::{
    AipDocSource, AipDocument, Chart, ChartCategory, ChartSource, ExtraTab, Workspace,
    WorkspaceChart,
};
use atc_book::navigation::{
    atis_in_workspace, begin_search, chart_categories, chart_in_workspace, charts_of_category,
    custom_title_value, document_in_workspace, finish_search, load_workspace, no_results_shown,
    notes_panel_width, retitle_chart_tabs, should_start_search, unload_workspace,
};
use atc_book::state::{AppState, TabContent};
use atc_book::switcher::{
    can_add_to_workspace, filter_switcher_items, filter_workspaces_by_name, select_switcher_item,
    supported_popout_targets, switcher_items,
};
use atc_book::state::Tab;
use atc_book::tabs::{open_or_focus_atis, open_or_focus_chart};

fn chart(id: &str, category: ChartCategory, subtitle: &str) -> Chart {
    Chart {
        id: id.to_string(),
        source: ChartSource::Sia,
        category,
        subtitle: subtitle.to_string(),
        filename: format!("{id}.pdf"),
        provider_relative_url: format!("{id}.pdf"),
        linked_provider_relative_urls: Vec::new(),
        airac_code: "2602".to_string(),
        page: None,
        tags: Vec::new(),
        runways: Vec::new(),
        custom_title: None,
    }
}

fn doc(id: &str) -> AipDocument {
    AipDocument {
        id: id.to_string(),
        icao: "LFPG".to_string(),
        source: AipDocSource::Sia,
        provider_relative_url: "x.html".to_string(),
        airac_code: "2602".to_string(),
    }
}

fn workspace(id: &str, name: &str) -> Workspace {
    Workspace {
        id: id.to_string(),
        name: name.to_string(),
        airports: vec!["LFPG".to_string()],
        chart_refs: vec![
            WorkspaceChart { airport: "LFPG".to_string(), chart: chart("c1", ChartCategory::Iac, "ILS 27R") },
            WorkspaceChart { airport: "LFPB".to_string(), chart: chart("c2", ChartCategory::Sid, "RWY 09") },
        ],
        open_tabs: vec!["c2".to_string()],
        active_tab_index: Some(0),
        extra_tabs: vec![
            ExtraTab::Atis { icao: "LFPG".to_string() },
            ExtraTab::AipDoc { doc: doc("d1") },
        ],
        notes: None,
        notes_pinned: Some(true),
        notes_panel_width: Some(420),
        created_at: "t0".to_string(),
        updated_at: "t0".to_string(),
    }
}

fn ids(state: &AppState) -> Vec<String> {
    state.tabs.iter().map(|t| t.id.clone()).collect()
}

#[test]
fn custom_title_is_trimmed_and_empty_clears_it() {
    assert_eq!(custom_title_value("  Approche  "), Some("Approche".to_string()));
    assert_eq!(custom_title_value("   "), None);
    assert_eq!(custom_title_value(""), None);
}

#[test]
fn retitling_touches_only_that_chart() {
    let mut s = AppState::default();
    open_or_focus_chart(&mut s, chart("c1", ChartCategory::Iac, "ILS"), "LFPG".to_string());
    open_or_focus_chart(&mut s, chart("c2", ChartCategory::Iac, "VOR"), "LFPG".to_string());
    retitle_chart_tabs(&mut s, "c1", &Some("Mine".to_string()));
    match &s.tabs[0].content {
        TabContent::Chart { chart, .. } => assert_eq!(chart.custom_title, Some("Mine".to_string())),
        _ => panic!("chart tab expected"),
    }
    match &s.tabs[1].content {
        TabContent::Chart { chart, .. } => assert_eq!(chart.custom_title, None),
        _ => panic!("chart tab expected"),
    }
    retitle_chart_tabs(&mut s, "c1", &None);
    match &s.tabs[0].content {
        TabContent::Chart { chart, .. } => assert_eq!(chart.custom_title, None),
        _ => panic!("chart tab expected"),
    }
}

#[test]
fn search_starts_only_for_a_new_full_code() {
    assert!(!should_start_search("LFP", "", false, ""));
    assert!(should_start_search("LFPG", "", false, ""));
    assert!(!should_start_search("LFPG", "LFPG", true, ""));
    assert!(!should_start_search("LFPG", "LFPG", false, "LFPG"));
    assert!(should_start_search("LFPG", "LFPG", false, "LFPO"));
    assert!(should_start_search("LFPG", "LFPO", true, "LFPO"));
}

#[test]
fn search_results_and_empty_panel() {
    let mut s = AppState::default();
    s.error = Some("old".to_string());
    s.charts = vec![chart("old", ChartCategory::Iac, "")];
    begin_search(&mut s);
    assert!(s.loading);
    assert!(s.error.is_none());
    assert!(s.charts.is_empty());
    assert!(!no_results_shown(&s, "LFPG", "LFPG"));
    finish_search(&mut s, Vec::new(), Vec::new(), None, Vec::new());
    assert!(!s.loading);
    assert!(no_results_shown(&s, "LFPG", "LFPG"));
    assert!(!no_results_shown(&s, "LFPG", "LFPO"));
    assert!(!no_results_shown(&s, "LFP", "LFP"));
    finish_search(
        &mut s,
        vec![chart("c1", ChartCategory::Iac, "")],
        Vec::new(),
        None,
        vec!["first".to_string(), "second".to_string()],
    );
    assert_eq!(s.error, Some("first".to_string()));
    assert_eq!(s.charts.len(), 1);
    assert!(!no_results_shown(&s, "LFPG", "LFPG"));
}

#[test]
fn active_workspace_lookups() {
    let mut s = AppState::default();
    s.workspaces = vec![workspace("w1", "Paris"), workspace("w2", "Other")];
    assert!(!chart_in_workspace(&s, "c1", "LFPG"));
    assert_eq!(notes_panel_width(&s), 380);
    s.active_workspace_id = Some("w1".to_string());
    assert!(chart_in_workspace(&s, "c1", "LFPG"));
    assert!(!chart_in_workspace(&s, "c1", "LFPB"));
    assert!(chart_in_workspace(&s, "c2", "LFPB"));
    assert!(document_in_workspace(&s, "d1"));
    assert!(!document_in_workspace(&s, "d2"));
    assert!(atis_in_workspace(&s, "LFPG"));
    assert!(!atis_in_workspace(&s, "LFPB"));
    assert_eq!(notes_panel_width(&s), 420);
    s.active_workspace_id = Some("missing".to_string());
    assert_eq!(notes_panel_width(&s), 380);
    assert!(!atis_in_workspace(&s, "LFPG"));
}

#[test]
fn unload_then_load_a_workspace() {
    let mut s = AppState::default();
    s.workspaces = vec![workspace("w1", "Paris")];
    s.active_workspace_id = Some("w1".to_string());
    s.notes_pinned = true;
    s.chart_zoom.insert("c1".to_string(), 150);
    open_or_focus_chart(&mut s, chart("c1", ChartCategory::Iac, ""), "LFPG".to_string());
    open_or_focus_atis(&mut s, "LFPG".to_string());
    open_or_focus_chart(&mut s, chart("c2", ChartCategory::Sid, ""), "LFPB".to_string());
    let (open, active, extras) = unload_workspace(&mut s);
    assert_eq!(open, vec!["c1".to_string(), "c2".to_string()]);
    assert_eq!(active, Some(1));
    assert_eq!(extras.len(), 2);
    assert!(s.active_workspace_id.is_none());
    assert!(s.chart_zoom.is_empty());
    assert!(!s.notes_pinned);

    s.charts = Vec::new();
    let mut open_tabs: Vec<String> = Vec::new();
    let mut active_index: Option<usize> = None;
    let refs = workspace("w1", "Paris").chart_refs;
    let mut zoom = HashMap::new();
    zoom.insert("c2".to_string(), 120u32);
    load_workspace(
        &mut s,
        "w1",
        vec![workspace("w1", "Paris")],
        zoom,
        Some(true),
        &refs,
        &mut open_tabs,
        &mut active_index,
    );
    assert_eq!(s.active_workspace_id, Some("w1".to_string()));
    assert_eq!(open_tabs, vec!["c2".to_string()]);
    assert_eq!(active_index, Some(0));
    assert!(s.notes_pinned);
    assert_eq!(s.chart_zoom.get("c2"), Some(&120));
    assert_eq!(ids(&s)[0], "__notes__");
    assert_eq!(ids(&s)[1], "c2");
    assert_eq!(s.active_tab, Some(1));
    assert!(ids(&s).contains(&"atis_LFPG".to_string()));
}

#[test]
fn load_of_an_unlisted_workspace_keeps_the_given_tab_state() {
    let mut s = AppState::default();
    let refs = workspace("w1", "Paris").chart_refs;
    let mut open_tabs = vec!["c1".to_string()];
    let mut active_index: Option<usize> = Some(0);
    load_workspace(&mut s, "w9", Vec::new(), HashMap::new(), None, &refs, &mut open_tabs, &mut active_index);
    assert_eq!(open_tabs, vec!["c1".to_string()]);
    assert_eq!(active_index, Some(0));
    assert!(!s.notes_pinned);
    assert_eq!(ids(&s), vec!["__notes__".to_string(), "c1".to_string()]);
    assert_eq!(s.active_tab, Some(1));
}

#[test]
fn results_grouped_by_category() {
    let charts = vec![
        chart("a", ChartCategory::Iac, ""),
        chart("b", ChartCategory::Aerodrome, ""),
        chart("c", ChartCategory::Iac, ""),
        chart("d", ChartCategory::Vac, ""),
    ];
    assert_eq!(
        chart_categories(&charts),
        vec![ChartCategory::Aerodrome, ChartCategory::Iac, ChartCategory::Vac]
    );
    let iac: Vec<String> = charts_of_category(&charts, ChartCategory::Iac).into_iter().map(|c| c.id).collect();
    assert_eq!(iac, vec!["a".to_string(), "c".to_string()]);
    assert!(charts_of_category(&charts, ChartCategory::Sid).is_empty());
    assert!(chart_categories(&Vec::new()).is_empty());
}

#[test]
fn switcher_lists_workspace_charts_or_open_tabs() {
    let mut s = AppState::default();
    open_or_focus_chart(&mut s, chart("t1", ChartCategory::Iac, "ILS 27R"), "LFPO".to_string());
    open_or_focus_atis(&mut s, "LFPO".to_string());
    let items = switcher_items(&s);
    assert_eq!(items.len(), 1);
    assert_eq!(items[0].0, "t1");
    assert_eq!(items[0].1, "LFPO · ILS 27R");
    assert_eq!(items[0].3, "LFPO");

    s.workspaces = vec![workspace("w1", "Paris")];
    s.active_workspace_id = Some("w1".to_string());
    let items = switcher_items(&s);
    let labels: Vec<String> = items.iter().map(|i| i.1.clone()).collect();
    assert_eq!(labels, vec!["LFPG · ILS 27R".to_string(), "LFPB · RWY 09".to_string()]);

    s.active_workspace_id = Some("gone".to_string());
    assert!(switcher_items(&s).is_empty());
}

#[test]
fn switcher_query_filters_case_insensitively() {
    let mut s = AppState::default();
    s.workspaces = vec![workspace("w1", "Paris")];
    s.active_workspace_id = Some("w1".to_string());
    let items = switcher_items(&s);
    assert_eq!(filter_switcher_items(items.clone(), "").len(), 2);
    let hits = filter_switcher_items(items.clone(), "ils");
    assert_eq!(hits.len(), 1);
    assert_eq!(hits[0].0, "c1");
    let hits = filter_switcher_items(items.clone(), "lfpb");
    assert_eq!(hits.len(), 1);
    assert_eq!(hits[0].0, "c2");
    let hits = filter_switcher_items(items.clone(), "C2");
    assert_eq!(hits.len(), 1);
    assert!(filter_switcher_items(items, "zzz").is_empty());
}

#[test]
fn choosing_a_switcher_entry_focuses_or_opens() {
    let mut s = AppState::default();
    s.quick_switcher_open = true;
    open_or_focus_chart(&mut s, chart("c1", ChartCategory::Iac, ""), "LFPG".to_string());
    open_or_focus_atis(&mut s, "LFPG".to_string());
    select_switcher_item(&mut s, &"c1".to_string(), chart("c1", ChartCategory::Iac, ""), "LFPG".to_string());
    assert_eq!(s.active_tab, Some(0));
    assert_eq!(ids(&s).len(), 2);
    assert!(!s.quick_switcher_open);
    s.quick_switcher_open = true;
    select_switcher_item(&mut s, &"c2".to_string(), chart("c2", ChartCategory::Sid, ""), "LFPB".to_string());
    assert_eq!(ids(&s), vec!["c1".to_string(), "atis_LFPG".to_string(), "c2".to_string()]);
    assert_eq!(s.active_tab, Some(2));
    assert!(!s.quick_switcher_open);
}

#[test]
fn tab_actions_menu_choices() {
    assert!(!can_add_to_workspace(&Tab::notes()));
    assert!(can_add_to_workspace(&Tab::atis("LFPG".to_string())));
    let ws = vec![workspace("w1", "Paris Nord"), workspace("w2", "Lyon"), workspace("w3", "paris sud")];
    assert_eq!(filter_workspaces_by_name(&ws, ""), vec![0, 1, 2]);
    assert_eq!(filter_workspaces_by_name(&ws, "PARIS"), vec![0, 2]);
    assert_eq!(filter_workspaces_by_name(&ws, "lyon"), vec![1]);
    assert!(filter_workspaces_by_name(&ws, "nice").is_empty());
    let targets = vec![
        ("workspace:w1".to_string(), "W1".to_string()),
        ("chart:c1".to_string(), "C1".to_string()),
    ];
    assert_eq!(supported_popout_targets(targets.clone(), true).len(), 2);
    let only = supported_popout_targets(targets, false);
    assert_eq!(only, vec![("chart:c1".to_string(), "C1".to_string())]);
}

#[test]
fn sidebar_icons() {
    let mut s = AppState::default();
    let start_open = s.nav_open;
    let start_mode = s.sidebar_mode;
    choose_sidebar_mode(&mut s, start_mode);
    assert_eq!(s.nav_open, !start_open);
    choose_sidebar_mode(&mut s, start_mode);
    assert_eq!(s.nav_open, start_open);
    let other = if start_mode == SidebarMode::Settings { SidebarMode::Help } else { SidebarMode::Settings };
    choose_sidebar_mode(&mut s, other);
    assert_eq!(s.sidebar_mode, other);
    assert!(s.nav_open);
    choose_sidebar_mode(&mut s, other);
    assert!(!s.nav_open);
}
