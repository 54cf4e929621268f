use std::cell::RefCell;

use atc_book::models::{AipDocSource, AipDocument, Chart, ChartCategory, ChartSource, ExtraTab, Workspace, WorkspaceChart};
use atc_book::state::{AppState, Tab, TabContent};
use atc_book::tabs::{
    chart_tab_state, close_tab_by_id, ensure_notes_tab, open_all_workspace_charts,
    open_or_focus_aip, open_or_focus_atis, open_or_focus_chart, rebuild_popout_tabs, rebuild_workspace_tabs,
    restore_extra_tabs,
};
use atc_book::workspace_windows::{
    merge_tab_ids, merge_workspace_popout_tabs_into_main, move_chart_tab_out, popout_merge_plan,
    move_chart_tab_to_workspace_popout, popout_ids_with, WorkspaceRepository, WorkspaceWrite,
};

fn chart(id: &str) -> Chart {
    Chart {
        id: id.to_string(),
        source: ChartSource::Sia,
        category: ChartCategory::Iac,
        subtitle: format!("sub {id}"),
        filename: format!("{id}.pdf"),
        provider_relative_url: format!("{id}.pdf"),
        linked_provider_relative_urls: Vec::new(),
        airac_code: "2602".to_string(),
        page: None,
        tags: Vec::new(),
        runways: Vec::new(),
        custom_title: None,
    }
}

fn workspace(id: &str) -> Workspace {
    Workspace {
        id: id.to_string(),
        name: "W".to_string(),
        airports: vec!["LFPG".to_string()],
        chart_refs: vec![
            WorkspaceChart { airport: "LFPG".to_string(), chart: chart("c1") },
            WorkspaceChart { airport: "LFPG".to_string(), chart: chart("c2") },
        ],
        open_tabs: Vec::new(),
        active_tab_index: None,
        extra_tabs: vec![ExtraTab::Atis { icao: "LFPG".to_string() }],
        notes: None,
        notes_pinned: None,
        notes_panel_width: None,
        created_at: "t0".to_string(),
        updated_at: "t0".to_string(),
    }
}

fn ids(state: &AppState) -> Vec<String> {
    state.tabs.iter().map(|t| t.id.clone()).collect()
}

#[test]
fn open_focus_and_close_tabs() {
    let mut s = AppState::default();
    open_or_focus_chart(&mut s, chart("c1"), "LFPG".to_string());
    open_or_focus_chart(&mut s, chart("c2"), "LFPG".to_string());
    open_or_focus_atis(&mut s, "LFPG".to_string());
    assert_eq!(ids(&s), vec!["c1", "c2", "atis_LFPG"]);
    assert_eq!(s.active_tab, Some(2));
    open_or_focus_chart(&mut s, chart("c1"), "LFPG".to_string());
    assert_eq!(ids(&s).len(), 3);
    assert_eq!(s.active_tab, Some(0));
    close_tab_by_id(&mut s, "c1");
    assert_eq!(ids(&s), vec!["c2", "atis_LFPG"]);
    assert_eq!(s.active_tab, Some(0));
    s.active_tab = Some(1);
    close_tab_by_id(&mut s, "atis_LFPG");
    assert_eq!(s.active_tab, Some(0));
    close_tab_by_id(&mut s, "missing");
    assert_eq!(ids(&s), vec!["c2"]);
    close_tab_by_id(&mut s, "c2");
    assert_eq!(s.active_tab, None);
}

#[test]
fn notes_tab_comes_first() {
    let mut s = AppState::default();
    open_or_focus_chart(&mut s, chart("c1"), "LFPG".to_string());
    s.active_tab = None;
    ensure_notes_tab(&mut s);
    assert_eq!(ids(&s), vec!["__notes__", "c1"]);
    assert_eq!(s.active_tab, Some(0));
    ensure_notes_tab(&mut s);
    assert_eq!(ids(&s).len(), 2);
    assert_eq!(s.tabs[0].title(), "Notes");
}

#[test]
fn saved_chart_tab_state() {
    let mut s = AppState::default();
    ensure_notes_tab(&mut s);
    open_or_focus_chart(&mut s, chart("c1"), "LFPG".to_string());
    open_or_focus_atis(&mut s, "LFPG".to_string());
    open_or_focus_chart(&mut s, chart("c2"), "LFPG".to_string());
    let (tab_ids, active) = chart_tab_state(&s.tabs, s.active_tab);
    assert_eq!(tab_ids, vec!["c1", "c2"]);
    assert_eq!(active, Some(1));
    let (_, active) = chart_tab_state(&s.tabs, Some(2));
    assert_eq!(active, None);
}

#[test]
fn workspace_tabs_rebuilt() {
    let mut s = AppState::default();
    let mut fresh = chart("other");
    fresh.provider_relative_url = "c2.pdf".to_string();
    fresh.subtitle = "fresh".to_string();
    s.charts = vec![fresh];
    let ws = workspace("w");
    rebuild_workspace_tabs(&mut s, &ws.chart_refs, &vec!["c2".to_string(), "zz".to_string()], Some(0), &ws.extra_tabs);
    assert_eq!(ids(&s), vec!["__notes__", "c2", "atis_LFPG"]);
    assert_eq!(s.active_tab, Some(1));
    match &s.tabs[1].content {
        TabContent::Chart { chart, airport } => {
            assert_eq!(chart.subtitle, "fresh");
            assert_eq!(chart.id, "c2");
            assert_eq!(airport, "LFPG");
        },
        _ => panic!("chart tab expected"),
    }
    rebuild_workspace_tabs(&mut s, &ws.chart_refs, &[], None, &[]);
    assert_eq!(ids(&s), vec!["__notes__", "c1", "c2"]);
    assert_eq!(s.active_tab, Some(0));
    rebuild_popout_tabs(&mut s, &ws.chart_refs, &vec!["c1".to_string()], Some(5));
    assert_eq!(ids(&s), vec!["__notes__", "c1"]);
    assert_eq!(s.active_tab, Some(1));
}

#[test]
fn open_all_and_restore_extras() {
    let mut s = AppState::default();
    let ws = workspace("w");
    open_or_focus_chart(&mut s, chart("c2"), "LFPG".to_string());
    open_all_workspace_charts(&mut s, &ws.chart_refs);
    assert_eq!(ids(&s), vec!["c2", "c1"]);
    assert_eq!(s.active_tab, Some(1));
    restore_extra_tabs(&mut s, &ws.extra_tabs);
    restore_extra_tabs(&mut s, &ws.extra_tabs);
    assert_eq!(ids(&s), vec!["c2", "c1", "atis_LFPG"]);
}

#[test]
fn popout_tab_lists() {
    let merged = merge_tab_ids(&vec!["a".to_string(), "b".to_string()], &vec!["b".to_string(), "c".to_string(), "c".to_string()]);
    assert_eq!(merged, vec!["a", "b", "c"]);
    let again = merge_tab_ids(&merged, &vec!["b".to_string(), "c".to_string(), "c".to_string()]);
    assert_eq!(again, merged);
    assert_eq!(popout_ids_with(vec!["x".to_string()], "y"), (vec!["x".to_string(), "y".to_string()], 1));
    assert_eq!(popout_ids_with(vec!["x".to_string(), "y".to_string()], "x"), (vec!["x".to_string(), "y".to_string()], 0));
}

#[test]
fn chart_tab_moves_out_of_main_window() {
    let mut s = AppState::default();
    s.workspaces = vec![workspace("w0"), workspace("w")];
    open_or_focus_chart(&mut s, chart("c1"), "LFPG".to_string());
    open_or_focus_chart(&mut s, chart("c2"), "LFPG".to_string());
    let (tab_ids, active, extra) = move_chart_tab_out(&mut s, "w", "c2");
    assert_eq!(ids(&s), vec!["__notes__", "c1"]);
    assert_eq!(tab_ids, vec!["c1"]);
    assert_eq!(active, None);
    assert_eq!(s.active_tab, Some(0));
    assert_eq!(extra, vec![ExtraTab::Atis { icao: "LFPG".to_string() }]);
    assert_eq!(s.workspaces[1].open_tabs, vec!["c1"]);
    assert!(s.workspaces[0].open_tabs.is_empty());
    assert!(s.popout_sync_pending);
}

struct MemoryRepo {
    workspaces: Vec<Workspace>,
    popout: RefCell<(Vec<String>, Option<usize>)>,
    saved: RefCell<Vec<(String, Vec<String>, Option<usize>)>>,
}

impl WorkspaceRepository for MemoryRepo {
    fn list_workspaces(&self) -> Vec<Workspace> {
        self.workspaces.clone()
    }
    fn add_chart_to_workspace(&self, _w: &str, _a: &str, _c: &Chart) {}
    fn add_extra_tab(&self, _w: &str, _t: &ExtraTab) {}
    fn remove_extra_tab(&self, _w: &str, _t: &ExtraTab) {}
    fn save_tab_state(&self, w: &str, open: &[String], active: Option<usize>, _extra: &[ExtraTab]) {
        self.saved.borrow_mut().push((w.to_string(), open.to_vec(), active));
    }
    fn load_popout_tab_state(&self, _w: &str) -> (Vec<String>, Option<usize>) {
        self.popout.borrow().clone()
    }
    fn save_popout_tab_state(&self, _w: &str, tabs: &[String], active: Option<usize>) {
        *self.popout.borrow_mut() = (tabs.to_vec(), active);
    }
}

#[test]
fn popout_round_trip_through_repository() {
    let mut ws = workspace("w");
    ws.open_tabs = vec!["c1".to_string()];
    let repo = MemoryRepo {
        workspaces: vec![ws.clone()],
        popout: RefCell::new((vec!["c9".to_string()], None)),
        saved: RefCell::new(Vec::new()),
    };
    let mut s = AppState::default();
    s.workspaces = vec![ws];
    open_or_focus_chart(&mut s, chart("c2"), "LFPG".to_string());
    let moved = move_chart_tab_to_workspace_popout(&mut s, &repo, "w", "c2");
    assert_eq!(moved.loaded_popout_tabs, vec!["c9"]);
    assert_eq!(
        moved.writes,
        vec![
            WorkspaceWrite::PopoutTabState {
                workspace_id: "w".to_string(),
                popout_tabs: vec!["c9".to_string(), "c2".to_string()],
                active_tab_index: Some(1),
            },
            WorkspaceWrite::TabState {
                workspace_id: "w".to_string(),
                open_tabs: Vec::new(),
                active_tab_index: None,
                extra_tabs: vec![ExtraTab::Atis { icao: "LFPG".to_string() }],
            },
        ]
    );
    perform(&repo, &moved.writes);
    assert_eq!(*repo.popout.borrow(), (vec!["c9".to_string(), "c2".to_string()], Some(1)));
    assert_eq!(ids(&s), vec!["__notes__"]);
    let merged = merge_workspace_popout_tabs_into_main(&repo, "w");
    assert_eq!(merged.loaded_popout_tabs, vec!["c9", "c2"]);
    assert_eq!(
        merged.writes,
        vec![
            WorkspaceWrite::TabState {
                workspace_id: "w".to_string(),
                open_tabs: vec!["c1".to_string(), "c9".to_string(), "c2".to_string()],
                active_tab_index: None,
                extra_tabs: vec![ExtraTab::Atis { icao: "LFPG".to_string() }],
            },
            WorkspaceWrite::PopoutTabState { workspace_id: "w".to_string(), popout_tabs: Vec::new(), active_tab_index: None },
        ]
    );
    perform(&repo, &merged.writes);
    assert_eq!(repo.saved.borrow().last().unwrap().1, vec!["c1", "c9", "c2"]);
    assert_eq!(*repo.popout.borrow(), (Vec::new(), None));
    let missing = merge_workspace_popout_tabs_into_main(&repo, "nope");
    assert_eq!(
        missing.writes,
        vec![WorkspaceWrite::PopoutTabState { workspace_id: "nope".to_string(), popout_tabs: Vec::new(), active_tab_index: None }]
    );
}

/// Makes the writes through the repository, in order.
fn perform(repo: &MemoryRepo, writes: &[WorkspaceWrite]) {
    for w in writes {
        match w {
            WorkspaceWrite::TabState { workspace_id, open_tabs, active_tab_index, extra_tabs } => {
                repo.save_tab_state(workspace_id, open_tabs, *active_tab_index, extra_tabs)
            }
            WorkspaceWrite::PopoutTabState { workspace_id, popout_tabs, active_tab_index } => {
                repo.save_popout_tab_state(workspace_id, popout_tabs, *active_tab_index)
            }
        }
    }
}

#[test]
fn tab_titles() {
    let t = Tab::chart(chart("c1"), "LFPG".to_string());
    assert_eq!(t.title(), "sub c1");
    assert_eq!(t.chart_id(), Some("c1"));
    let t = Tab::atis("LFPG".to_string());
    assert_eq!(t.title(), "ATIS LFPG");
    assert_eq!(t.id, "atis_LFPG");
    assert_eq!(t.chart_id(), None);
}

#[test]
fn document_tab_opens_once() {
    let doc = AipDocument {
        id: "aip_LFPG".to_string(),
        icao: "LFPG".to_string(),
        source: AipDocSource::Sia,
        provider_relative_url: "AD-2.LFPG.html".to_string(),
        airac_code: "2602".to_string(),
    };
    let mut s = AppState::default();
    open_or_focus_chart(&mut s, chart("c1"), "LFPG".to_string());
    open_or_focus_aip(&mut s, doc.clone());
    assert_eq!(ids(&s), vec!["c1", "aip_LFPG"]);
    assert_eq!(s.active_tab, Some(1));
    s.active_tab = Some(0);
    open_or_focus_aip(&mut s, doc);
    assert_eq!(ids(&s), vec!["c1", "aip_LFPG"]);
    assert_eq!(s.active_tab, Some(1));
    assert!(matches!(s.tabs[1].content, TabContent::AipDoc { .. }));
}

#[test]
fn popout_tabs_merge_into_the_main_window() {
    let mut w = workspace("w1");
    w.open_tabs = vec!["c1".to_string(), "c2".to_string()];
    w.active_tab_index = Some(1);
    let all = vec![workspace("w0"), w];
    let pop = vec!["c2".to_string(), "c3".to_string(), "c3".to_string()];
    let (merged, active, extra) = popout_merge_plan(&all, "w1", &pop).unwrap();
    assert_eq!(merged, vec!["c1", "c2", "c3"]);
    assert_eq!(active, Some(1));
    assert_eq!(extra, vec![ExtraTab::Atis { icao: "LFPG".to_string() }]);
    assert!(popout_merge_plan(&all, "missing", &pop).is_none());
}
