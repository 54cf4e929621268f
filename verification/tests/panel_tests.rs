use atc_book::workspace_view::{active_view, auto_open_popout, record_notes_panel_width, resized_notes_width, take_tabs_back, tab_state_to_save, unpin_notes, ActiveView};
use atc_book::switcher::{
    new_window_action, send_to_popout, workspace_addition, NewWindowAction, SendToPopout,
    WorkspaceAddition,
};
use atc_book::workspace_edit::{workspace_from_row, WorkspaceRow};
use atc_book::i18n::{AppLanguage, LanguageSetting};
use atc_book::models::{
    AipDocSource, AipDocument, Chart, ChartCategory, ChartSource, ExtraTab, Workspace,
    WorkspaceChart,
};
use atc_book::navigation::{choose_language, choose_theme_mode};
use atc_book::notes::{
    editor_takes_saved_notes, handle_shortcut, notes_editor_id, notes_value, record_notes,
    toggle_notes_pinned,
};
use atc_book::popouts::{
    apply_standalone_snapshot, init_popout_tabs, parse_popout_target, popout_targets,
    popout_window_title, push_tab_to_standalone, workspaces_to_reopen, PopoutContents, PopoutTarget,
    StandalonePopout,
};
use atc_book::state::{AppState, Tab, ThemeMode, ThemeModeSetting};
use atc_book::tabs::{open_or_focus_atis, open_or_focus_chart};
use atc_book::viewer::{
    atis_refresh_status, cache_keys_to_evict, clamp_hit, next_hit, no_match_shown,
    fit_zoom, previous_hit, query_searched, rendering_chart, search_terms, zoom_in, zoom_out,
};
use atc_book::workspace_edit::{
    airports_after_removal, airports_with, has_chart, with_chart_added, with_chart_title,
    with_extra_tab, without_chart, without_extra_tab,
};
use atc_book::workspace_panel::{
    airport_groups, chart_item_airport, charts_to_preload, extra_tab_label,
    forget_deleted_workspace, new_workspace, typed_search_code,
};

fn chart(id: &str) -> Chart {
    Chart {
        id: id.to_string(),
        source: ChartSource::Sia,
        category: ChartCategory::Iac,
        subtitle: format!("sub {id}"),
        filename: format!("{id}.pdf"),
        provider_relative_url: format!("{id}.pdf"),
        linked_provider_relative_urls: Vec::new(),
        airac_code: "2602".to_string(),
        page: None,
        tags: Vec::new(),
        runways: Vec::new(),
        custom_title: None,
    }
}

fn wc(airport: &str, id: &str) -> WorkspaceChart {
    WorkspaceChart { airport: airport.to_string(), chart: chart(id) }
}

fn doc(id: &str) -> AipDocument {
    AipDocument {
        id: id.to_string(),
        icao: "LFPG".to_string(),
        source: AipDocSource::Sia,
        provider_relative_url: "x.html".to_string(),
        airac_code: "2602".to_string(),
    }
}

fn workspace(id: &str) -> Workspace {
    Workspace {
        id: id.to_string(),
        name: "W".to_string(),
        airports: vec!["LFPG".to_string()],
        chart_refs: vec![wc("LFPG", "c1")],
        open_tabs: Vec::new(),
        active_tab_index: None,
        extra_tabs: Vec::new(),
        notes: None,
        notes_pinned: None,
        notes_panel_width: None,
        created_at: "t0".to_string(),
        updated_at: "t0".to_string(),
    }
}

fn ids(tabs: &[Tab]) -> Vec<String> {
    tabs.iter().map(|t| t.id.clone()).collect()
}

fn chart_ids(refs: &[WorkspaceChart]) -> Vec<(String, String)> {
    refs.iter().map(|r| (r.airport.clone(), r.chart.id.clone())).collect()
}

#[test]
fn adding_a_chart_once() {
    let refs = vec![wc("LFPG", "c1")];
    let added = with_chart_added(&refs, "LFPO", &chart("c2")).unwrap();
    assert_eq!(
        chart_ids(&added),
        vec![("LFPG".to_string(), "c1".to_string()), ("LFPO".to_string(), "c2".to_string())]
    );
    assert!(has_chart(&added, "LFPO", "c2"));
    assert!(with_chart_added(&added, "LFPO", &chart("c2")).is_none());
    assert!(with_chart_added(&added, "LFPG", &chart("c2")).is_some());
}

#[test]
fn removing_a_chart_undoes_adding_it() {
    let refs = vec![wc("LFPG", "c1"), wc("LFPO", "c3")];
    let added = with_chart_added(&refs, "LFPO", &chart("c2")).unwrap();
    let removed = without_chart(&added, "LFPO", "c2");
    assert_eq!(chart_ids(&removed), chart_ids(&refs));
    assert!(!has_chart(&removed, "LFPO", "c2"));
    assert_eq!(chart_ids(&without_chart(&refs, "LFPG", "c3")), chart_ids(&refs));
}

#[test]
fn airports_follow_the_charts() {
    let airports = vec!["LFPG".to_string()];
    assert!(airports_with(&airports, "lfpg").is_none());
    assert_eq!(airports_with(&airports, "lfpo").unwrap(), vec!["LFPG".to_string(), "LFPO".to_string()]);
    let remaining = vec![wc("LFPG", "c1")];
    assert!(airports_after_removal(&remaining, &airports, "LFPG").is_none());
    let both = vec!["LFPG".to_string(), "LFPO".to_string()];
    assert_eq!(airports_after_removal(&remaining, &both, "LFPO").unwrap(), vec!["LFPG".to_string()]);
}

#[test]
fn chart_titles_in_a_workspace() {
    let refs = vec![wc("LFPG", "c1"), wc("LFPO", "c1"), wc("LFPO", "c2")];
    let titled = with_chart_title(&refs, "c1", &Some("Mine".to_string())).unwrap();
    assert_eq!(titled[0].chart.custom_title, Some("Mine".to_string()));
    assert_eq!(titled[1].chart.custom_title, Some("Mine".to_string()));
    assert_eq!(titled[2].chart.custom_title, None);
    let cleared = with_chart_title(&titled, "c1", &Some("   ".to_string())).unwrap();
    assert_eq!(cleared[0].chart.custom_title, None);
    assert!(with_chart_title(&refs, "zz", &None).is_none());
}

#[test]
fn extra_tabs_are_added_once_and_removed() {
    let tabs = vec![ExtraTab::Atis { icao: "LFPG".to_string() }];
    assert!(with_extra_tab(&tabs, &ExtraTab::Atis { icao: "LFPG".to_string() }).is_none());
    let added = with_extra_tab(&tabs, &ExtraTab::AipDoc { doc: doc("d1") }).unwrap();
    assert_eq!(added.len(), 2);
    let mut other = doc("d1");
    other.icao = "LFPO".to_string();
    assert!(with_extra_tab(&added, &ExtraTab::AipDoc { doc: other.clone() }).is_none());
    assert_eq!(without_extra_tab(&added, &ExtraTab::AipDoc { doc: other }), tabs);
    assert_eq!(without_extra_tab(&added, &ExtraTab::Atis { icao: "EGLL".to_string() }), added);
}

#[test]
fn charts_grouped_by_airport() {
    let refs = vec![wc("LFPO", "a"), wc("LFPG", "b"), wc("LFPO", "c"), wc("EGLL", "d")];
    let groups = airport_groups(&refs);
    let shape: Vec<(String, Vec<String>)> = groups
        .iter()
        .map(|(a, v)| (a.clone(), v.iter().map(|r| r.chart.id.clone()).collect()))
        .collect();
    assert_eq!(
        shape,
        vec![
            ("EGLL".to_string(), vec!["d".to_string()]),
            ("LFPG".to_string(), vec!["b".to_string()]),
            ("LFPO".to_string(), vec!["a".to_string(), "c".to_string()]),
        ]
    );
    assert!(airport_groups(&Vec::new()).is_empty());
}

#[test]
fn workspace_panel_labels_and_records() {
    let (label, badge, style) = extra_tab_label(&ExtraTab::Atis { icao: "LFPG".to_string() });
    assert_eq!(label, "ATIS / MET — LFPG");
    assert_eq!(badge, "ATIS");
    assert_eq!(style, "badge badge-atis");
    let (label, badge, style) = extra_tab_label(&ExtraTab::AipDoc { doc: doc("d1") });
    assert_eq!(label, "AIP LFPG (SIA)");
    assert_eq!(badge, "DOC");
    assert_eq!(style, "badge");
    assert!(new_workspace("id".to_string(), String::new(), "now".to_string()).is_none());
    let w = new_workspace("id".to_string(), "Paris".to_string(), "now".to_string()).unwrap();
    assert_eq!(w.name, "Paris");
    assert_eq!(w.notes_panel_width, Some(380));
    assert_eq!(w.notes_pinned, Some(false));
    assert_eq!(w.updated_at, "now");
    assert_eq!(typed_search_code("lfpg"), ("LFPG".to_string(), true));
    assert_eq!(typed_search_code("lfp"), ("LFP".to_string(), false));
    assert_eq!(chart_item_airport("", "LFPG"), "LFPG");
    assert_eq!(chart_item_airport("LFPO", "LFPG"), "LFPO");
}

#[test]
fn deleting_the_active_workspace_and_preloading() {
    let mut s = AppState::default();
    s.active_workspace_id = Some("w1".to_string());
    forget_deleted_workspace(&mut s, "w2", vec![workspace("w1")]);
    assert_eq!(s.active_workspace_id, Some("w1".to_string()));
    forget_deleted_workspace(&mut s, "w1", Vec::new());
    assert!(s.active_workspace_id.is_none());
    assert!(s.workspaces.is_empty());

    let mut fresh = chart("fresh");
    fresh.provider_relative_url = "c1.pdf".to_string();
    fresh.airac_code = "2603".to_string();
    s.charts = vec![fresh];
    let pre = charts_to_preload(&s, &vec![wc("LFPG", "c1"), wc("LFPG", "c9")]);
    assert_eq!(pre[0].id, "c1");
    assert_eq!(pre[0].airac_code, "2603");
    assert_eq!(pre[1].airac_code, "2602");
    let shown = rendering_chart(&s, &chart("c1"));
    assert_eq!(shown.id, "fresh");
    assert_eq!(rendering_chart(&s, &chart("c9")).id, "c9");
}

#[test]
fn standalone_popout_takes_pushed_tabs() {
    let mut p = StandalonePopout { tabs: Vec::new(), active_tab: None, revision: 0 };
    push_tab_to_standalone(&mut p, Tab::atis("LFPG".to_string()));
    push_tab_to_standalone(&mut p, Tab::atis("LFPO".to_string()));
    assert_eq!(ids(&p.tabs), vec!["atis_LFPG".to_string(), "atis_LFPO".to_string()]);
    assert_eq!(p.active_tab, Some(1));
    push_tab_to_standalone(&mut p, Tab::atis("LFPG".to_string()));
    assert_eq!(p.tabs.len(), 2);
    assert_eq!(p.active_tab, Some(0));
    assert_eq!(p.revision, 3);
    p.revision = u64::MAX;
    push_tab_to_standalone(&mut p, Tab::atis("LFPG".to_string()));
    assert_eq!(p.revision, u64::MAX);

    let mut s = AppState::default();
    let mut last = 0u64;
    apply_standalone_snapshot(&mut s, &mut last, p.tabs.clone(), None, 0);
    assert!(s.tabs.is_empty());
    apply_standalone_snapshot(&mut s, &mut last, p.tabs.clone(), None, 2);
    assert_eq!(last, 2);
    assert_eq!(s.tabs.len(), 2);
    assert_eq!(s.active_tab, Some(0));
    apply_standalone_snapshot(&mut s, &mut last, Vec::new(), Some(1), 2);
    assert_eq!(s.tabs.len(), 2);
}

#[test]
fn new_popout_windows() {
    let mut s = AppState::default();
    init_popout_tabs(&mut s, PopoutContents::Empty);
    assert_eq!(ids(&s.tabs), vec!["__notes__".to_string()]);
    assert_eq!(s.active_tab, Some(0));
    let mut s = AppState::default();
    init_popout_tabs(
        &mut s,
        PopoutContents::Workspace { chart_refs: None, tab_ids: vec!["c1".to_string()], active: None },
    );
    assert_eq!(ids(&s.tabs), vec!["__notes__".to_string()]);
    let mut s = AppState::default();
    init_popout_tabs(
        &mut s,
        PopoutContents::Workspace {
            chart_refs: Some(vec![wc("LFPG", "c1"), wc("LFPG", "c2")]),
            tab_ids: vec!["c2".to_string()],
            active: Some(0),
        },
    );
    assert_eq!(ids(&s.tabs), vec!["__notes__".to_string(), "c2".to_string()]);
    assert_eq!(s.active_tab, Some(1));
    let mut s = AppState::default();
    init_popout_tabs(&mut s, PopoutContents::Tabs { tabs: vec![Tab::atis("LFPG".to_string())], active: Some(3) });
    assert_eq!(s.active_tab, Some(3));
    assert_eq!(popout_window_title(2), "ATC-BOOK // Window #2");
}

#[test]
fn popout_targets_sorted_by_title() {
    let ws = vec![("w1".to_string(), "Zulu".to_string()), ("w2".to_string(), "Alpha".to_string())];
    let standalone = vec![
        ("s1".to_string(), "Mike".to_string(), true),
        ("s2".to_string(), "Bravo".to_string(), false),
        ("s3".to_string(), "Alpha".to_string(), true),
    ];
    let t = popout_targets(&ws, &standalone);
    assert_eq!(
        t,
        vec![
            ("workspace:w2".to_string(), "Alpha".to_string()),
            ("standalone:s3".to_string(), "Alpha".to_string()),
            ("standalone:s1".to_string(), "Mike".to_string()),
            ("workspace:w1".to_string(), "Zulu".to_string()),
        ]
    );
    assert!(matches!(parse_popout_target("workspace:w1"), PopoutTarget::Workspace(id) if id == "w1"));
    assert!(matches!(parse_popout_target("standalone:7"), PopoutTarget::Standalone(id) if id == "7"));
    assert!(matches!(parse_popout_target("other"), PopoutTarget::Unknown));
}

#[test]
fn pinning_notes_and_shortcuts() {
    let mut s = AppState::default();
    s.workspaces = vec![workspace("w1")];
    s.active_workspace_id = Some("w1".to_string());
    s.tabs.push(Tab::notes());
    open_or_focus_chart(&mut s, chart("c1"), "LFPG".to_string());
    s.active_tab = Some(0);
    let saved = toggle_notes_pinned(&mut s);
    assert_eq!(saved, Some(("w1".to_string(), true)));
    assert!(s.notes_pinned);
    assert_eq!(s.active_tab, Some(1));
    assert_eq!(s.workspaces[0].notes_pinned, Some(true));
    s.is_popout = true;
    assert_eq!(toggle_notes_pinned(&mut s), None);
    assert!(!s.notes_pinned);
    assert_eq!(s.workspaces[0].notes_pinned, Some(true));

    let mut s = AppState::default();
    assert_eq!(handle_shortcut(&mut s, true, true, "B"), None);
    assert!(s.nav_open != AppState::default().nav_open);
    s.quick_switcher_query = "old".to_string();
    handle_shortcut(&mut s, true, false, "p");
    assert!(s.quick_switcher_open);
    assert!(s.quick_switcher_query.is_empty());
    let pinned = s.notes_pinned;
    handle_shortcut(&mut s, true, false, "n");
    assert_eq!(s.notes_pinned, pinned);
    handle_shortcut(&mut s, true, true, "N");
    assert_eq!(s.notes_pinned, !pinned);
}

#[test]
fn notes_values() {
    assert_eq!(notes_value(""), None);
    assert_eq!(notes_value("<br>"), None);
    assert_eq!(notes_value("<p>x</p>"), Some("<p>x</p>".to_string()));
    assert!(editor_takes_saved_notes(false, "", ""));
    assert!(!editor_takes_saved_notes(true, "", "x"));
    assert!(!editor_takes_saved_notes(false, "x", ""));
    assert!(editor_takes_saved_notes(false, "x", "y"));
    assert_eq!(notes_editor_id(true), "notes-editor-pinned");
    assert_eq!(notes_editor_id(false), "notes-editor-content");
    let mut s = AppState::default();
    s.workspaces = vec![workspace("w1")];
    record_notes(&mut s, "w1", Some("n".to_string()));
    assert_eq!(s.workspaces[0].notes, Some("n".to_string()));
    record_notes(&mut s, "w9", None);
    assert_eq!(s.workspaces[0].notes, Some("n".to_string()));
}

#[test]
fn document_search_terms() {
    assert_eq!(search_terms("  ILS  Piste 27R  "), vec!["ils".to_string(), "piste".to_string(), "27r".to_string()]);
    assert!(search_terms(" a ").is_empty());
    assert_eq!(search_terms("a bc d"), vec!["bc".to_string()]);
    assert_eq!(search_terms("é"), vec!["é".to_string()]);
    let many = "aa bb cc dd ee ff gg hh ii jj kk ll";
    assert_eq!(search_terms(many).len(), 10);
    assert_eq!(search_terms(many)[9], "jj");
    assert!(query_searched(" ab "));
    assert!(!query_searched(" a "));
    assert!(no_match_shown(false, "abc", 0));
    assert!(!no_match_shown(true, "abc", 0));
    assert!(!no_match_shown(false, "abc", 2));
    assert_eq!(next_hit(2, 3), 0);
    assert_eq!(next_hit(0, 3), 1);
    assert_eq!(previous_hit(0, 3), 2);
    assert_eq!(previous_hit(2, 3), 1);
    assert_eq!(clamp_hit(5, 0), 0);
    assert_eq!(clamp_hit(5, 3), 2);
    assert_eq!(clamp_hit(1, 3), 1);
}

#[test]
fn zoom_steps_and_cache_eviction() {
    assert_eq!(zoom_out(100), Some(75));
    assert_eq!(zoom_out(50), None);
    assert_eq!(zoom_in(175), Some(200));
    assert_eq!(zoom_in(200), None);
    let keys: Vec<String> = ["a", "b", "c", "d", "e", "f", "g"].iter().map(|s| s.to_string()).collect();
    assert!(cache_keys_to_evict(&keys[..5].to_vec(), &Vec::new(), &None).is_empty());
    let open: Vec<String> = ["a", "b", "c", "d", "e", "f"].iter().map(|s| s.to_string()).collect();
    assert_eq!(cache_keys_to_evict(&keys, &open, &Some("a".to_string())), vec!["g".to_string(), "b".to_string()]);
    let open_few: Vec<String> = ["a", "b"].iter().map(|s| s.to_string()).collect();
    assert_eq!(cache_keys_to_evict(&keys, &open_few, &None).len(), 5);
}

#[test]
fn atis_refresh_line() {
    assert_eq!(atis_refresh_status(AppLanguage::Uk, true, Some(600)), "atis.refreshing");
    assert_eq!(atis_refresh_status(AppLanguage::Uk, false, Some(59)), "atis.updated.just_now");
    assert_eq!(atis_refresh_status(AppLanguage::Uk, false, Some(125)), "atis.updated 2 min");
    assert_eq!(atis_refresh_status(AppLanguage::Fr, false, None), "atis.updated.pending");
}

#[test]
fn settings_choices() {
    let mut s = AppState::default();
    let mut setting = ThemeModeSetting::new();
    choose_theme_mode(&mut s, &mut setting, ThemeMode::Dark);
    assert_eq!(s.theme_mode, ThemeMode::Dark);
    assert!(s.night_mode);
    assert_eq!(setting.mode, Some(ThemeMode::Dark));
    choose_theme_mode(&mut s, &mut setting, ThemeMode::Light);
    assert!(!s.night_mode);
    let mut lang = LanguageSetting::new();
    choose_language(&mut s, &mut lang, AppLanguage::Fr);
    assert_eq!(s.language, AppLanguage::Fr);
    assert_eq!(lang.lang, Some(AppLanguage::Fr));
}

#[test]
fn tab_actions_decisions() {
    let chart_tab = Tab::chart(chart("c1"), "LFPG".to_string());
    let atis_tab = Tab::atis("LFPG".to_string());
    let ws = Some("w1".to_string());
    assert!(matches!(new_window_action(&chart_tab, &ws, false), NewWindowAction::MoveToWorkspacePopout(id) if id == "w1"));
    assert!(matches!(new_window_action(&chart_tab, &ws, true), NewWindowAction::OpenTabPopout));
    assert!(matches!(new_window_action(&chart_tab, &None, false), NewWindowAction::OpenTabPopout));
    assert!(matches!(new_window_action(&atis_tab, &ws, false), NewWindowAction::OpenTabPopout));
    assert!(matches!(workspace_addition(&chart_tab), WorkspaceAddition::Chart { airport, chart } if airport == "LFPG" && chart.id == "c1"));
    assert!(matches!(workspace_addition(&atis_tab), WorkspaceAddition::Extra(ExtraTab::Atis { icao }) if icao == "LFPG"));
    assert!(matches!(workspace_addition(&Tab::notes()), WorkspaceAddition::Nothing));
    assert!(matches!(send_to_popout("workspace:w1", &chart_tab), SendToPopout::MoveToWorkspacePopout(id) if id == "w1"));
    assert!(matches!(send_to_popout("workspace:w1", &atis_tab), SendToPopout::Nothing));
    assert!(matches!(send_to_popout("standalone:3", &atis_tab), SendToPopout::PushToStandalone(id) if id == "3"));
    assert!(matches!(send_to_popout("x", &chart_tab), SendToPopout::Nothing));
}

#[test]
fn workspace_rows() {
    let row = WorkspaceRow {
        id: "w1".to_string(),
        name: "Paris".to_string(),
        airports: vec!["LFPG".to_string()],
        notes: None,
        notes_pinned: Some(2),
        notes_panel_width: Some(420),
        open_tabs: vec!["c1".to_string()],
        active_tab: Some(1),
        created_at: "a".to_string(),
        updated_at: "b".to_string(),
        extra_tabs: Vec::new(),
    };
    let w = workspace_from_row(row, vec![wc("LFPG", "c1")]);
    assert_eq!(w.notes_pinned, Some(true));
    assert_eq!(w.notes_panel_width, Some(420));
    assert_eq!(w.active_tab_index, Some(1));
    assert_eq!(w.chart_refs.len(), 1);
    assert_eq!(w.updated_at, "b");
}

#[test]
fn workspace_view_decisions() {
    let mut s = AppState::default();
    assert_eq!(active_view(&s), ActiveView::Empty);
    s.tabs.push(Tab::notes());
    s.active_tab = Some(0);
    assert_eq!(active_view(&s), ActiveView::NotesEditor);
    s.notes_pinned = true;
    assert_eq!(active_view(&s), ActiveView::Empty);
    open_or_focus_atis(&mut s, "LFPG".to_string());
    assert_eq!(active_view(&s), ActiveView::Atis);
    open_or_focus_chart(&mut s, chart("c1"), "LFPG".to_string());
    assert_eq!(active_view(&s), ActiveView::Chart);
    s.active_tab = Some(9);
    assert_eq!(active_view(&s), ActiveView::Empty);

    assert!(tab_state_to_save(&s).is_none());
    let mut w = workspace("w1");
    w.extra_tabs = vec![ExtraTab::Atis { icao: "LFPG".to_string() }];
    s.workspaces = vec![w];
    s.active_workspace_id = Some("w1".to_string());
    s.active_tab = Some(2);
    let save = tab_state_to_save(&s).unwrap();
    assert_eq!(save.workspace_id, "w1");
    assert_eq!(save.tab_ids, vec!["c1".to_string()]);
    assert_eq!(save.active, Some(0));
    assert_eq!(save.extra_tabs.unwrap().len(), 1);
    s.is_popout = true;
    assert!(tab_state_to_save(&s).unwrap().extra_tabs.is_none());
}

#[test]
fn notes_side_panel() {
    assert_eq!(resized_notes_width(380, 1000, 900), 480);
    assert_eq!(resized_notes_width(380, 1000, 1200), 260);
    assert_eq!(resized_notes_width(380, 0, -1000), 800);
    let mut s = AppState::default();
    assert_eq!(record_notes_panel_width(&mut s, 500), None);
    s.workspaces = vec![workspace("w1")];
    s.active_workspace_id = Some("w1".to_string());
    assert_eq!(record_notes_panel_width(&mut s, 500), Some("w1".to_string()));
    assert_eq!(s.workspaces[0].notes_panel_width, Some(500));
    s.notes_pinned = true;
    assert_eq!(unpin_notes(&mut s), Some("w1".to_string()));
    assert!(!s.notes_pinned);
    assert_eq!(s.workspaces[0].notes_pinned, Some(false));
    s.is_popout = true;
    s.notes_pinned = true;
    assert_eq!(unpin_notes(&mut s), None);
    assert!(!s.notes_pinned);
}

#[test]
fn workspace_popout_window() {
    let mut s = AppState::default();
    assert_eq!(auto_open_popout(&s, false, false, true), (false, false));
    s.active_workspace_id = Some("w1".to_string());
    assert_eq!(auto_open_popout(&s, false, false, true), (true, true));
    assert_eq!(auto_open_popout(&s, false, true, true), (false, true));
    assert_eq!(auto_open_popout(&s, true, true, true), (false, false));
    assert_eq!(auto_open_popout(&s, false, false, false), (false, false));

    s.popout_sync_pending = true;
    assert!(!take_tabs_back(&mut s, true, false, Vec::new()));
    assert!(s.popout_sync_pending);
    let mut w = workspace("w1");
    w.chart_refs = vec![wc("LFPG", "c1"), wc("LFPG", "c2")];
    w.open_tabs = vec!["c2".to_string()];
    w.active_tab_index = Some(0);
    assert!(take_tabs_back(&mut s, false, false, vec![w]));
    assert!(!s.popout_sync_pending);
    assert_eq!(ids(&s.tabs), vec!["__notes__".to_string(), "c2".to_string()]);
    assert_eq!(s.active_tab, Some(1));
    assert_eq!(s.workspaces.len(), 1);
}

#[test]
fn zoom_and_hit_steps_undo_each_other() {
    for zoom in [50u32, 75, 100, 125, 150, 175] {
        let up = zoom_in(zoom).unwrap();
        assert_eq!(zoom_out(up), Some(zoom));
    }
    for zoom in [75u32, 100, 125, 150, 175, 200] {
        let down = zoom_out(zoom).unwrap();
        assert_eq!(zoom_in(down), Some(zoom));
    }
    assert_eq!(zoom_in(20), Some(45));
    assert_eq!(zoom_out(45), None);
    for n in 1usize..5 {
        for cur in 0..n {
            assert_eq!(previous_hit(next_hit(cur, n), n), cur);
        }
    }
}

#[test]
fn fit_zoom_rounds_to_steps() {
    assert_eq!(fit_zoom(100), 100);
    assert_eq!(fit_zoom(112), 100);
    assert_eq!(fit_zoom(113), 125);
    assert_eq!(fit_zoom(187), 175);
    assert_eq!(fit_zoom(188), 200);
    assert_eq!(fit_zoom(10), 50);
    assert_eq!(fit_zoom(-40), 50);
    assert_eq!(fit_zoom(300), 200);
    assert_eq!(fit_zoom(62), 50);
    assert_eq!(fit_zoom(63), 75);
}

#[test]
fn second_windows_reopened_at_start() {
    let saved = vec![
        ("w1".to_string(), vec!["c1".to_string()]),
        ("w2".to_string(), Vec::new()),
        ("w3".to_string(), vec!["c2".to_string(), "c3".to_string()]),
    ];
    assert_eq!(workspaces_to_reopen(&saved), vec!["w1", "w3"]);
    assert!(workspaces_to_reopen(&Vec::new()).is_empty());
}
