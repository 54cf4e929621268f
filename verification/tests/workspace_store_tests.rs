use atc_book::models::{Chart, ChartCategory, ChartSource, WorkspaceChart};
use atc_book::workspace_edit::{airports_after_removal, airports_with, with_chart_added, with_chart_title, without_chart};

/// The saved charts and airports of one workspace, edited as the SQLite store edits them.
struct Store {
    charts: Vec<WorkspaceChart>,
    airports: Vec<String>,
}

impl Store {
    fn new() -> Store {
        Store { charts: Vec::new(), airports: Vec::new() }
    }

    fn add_chart_to_workspace(&mut self, airport: &str, chart: &Chart) {
        if let Some(charts) = with_chart_added(&self.charts, airport, chart) {
            self.charts = charts;
            if let Some(airports) = airports_with(&self.airports, airport) {
                self.airports = airports;
            }
        }
    }

    fn remove_chart_from_workspace(&mut self, airport: &str, chart_id: &str) {
        self.charts = without_chart(&self.charts, airport, chart_id);
        if let Some(airports) = airports_after_removal(&self.charts, &self.airports, airport) {
            self.airports = airports;
        }
    }

    fn set_chart_custom_title(&mut self, chart_id: &str, title: Option<&str>) {
        if let Some(charts) = with_chart_title(&self.charts, chart_id, &title.map(|t| t.to_string())) {
            self.charts = charts;
        }
    }

    fn chart(&self, id: &str) -> &Chart {
        &self.charts.iter().find(|wc| wc.chart.id == id).expect("chart should exist").chart
    }
}

fn make_chart(id: &str) -> Chart {
    Chart {
        id: id.into(),
        source: ChartSource::Sia,
        category: ChartCategory::Aerodrome,
        subtitle: "ADC".into(),
        filename: "test.pdf".into(),
        provider_relative_url: format!("charts/{id}.pdf"),
        linked_provider_relative_urls: Vec::new(),
        airac_code: "2602".into(),
        page: None,
        tags: vec![],
        runways: vec![],
        custom_title: None,
    }
}

#[test]
fn test_add_chart_to_workspace() {
    let mut ws = Store::new();
    ws.add_chart_to_workspace("LFPG", &make_chart("c1"));
    ws.add_chart_to_workspace("LFPG", &make_chart("c2"));
    ws.add_chart_to_workspace("LFPB", &make_chart("c3"));
    assert_eq!(ws.airports, vec!["LFPG", "LFPB"]);
    assert_eq!(ws.charts.len(), 3);
}

#[test]
fn test_remove_chart_from_workspace() {
    let mut ws = Store::new();
    ws.add_chart_to_workspace("LFPG", &make_chart("c1"));
    ws.add_chart_to_workspace("LFPG", &make_chart("c2"));
    ws.add_chart_to_workspace("LFPB", &make_chart("c3"));
    assert_eq!(ws.charts.len(), 3);

    ws.remove_chart_from_workspace("LFPG", "c1");
    assert_eq!(ws.charts.len(), 2);
    assert!(ws.airports.contains(&"LFPG".to_string()));

    ws.remove_chart_from_workspace("LFPB", "c3");
    assert_eq!(ws.charts.len(), 1);
    assert!(!ws.airports.contains(&"LFPB".to_string()));
}

#[test]
fn test_add_chart_dedup() {
    let mut ws = Store::new();
    ws.add_chart_to_workspace("LFPG", &make_chart("c1"));
    ws.add_chart_to_workspace("LFPG", &make_chart("c1"));
    assert_eq!(ws.charts.len(), 1);
}

#[test]
fn test_set_chart_custom_title() {
    let mut ws = Store::new();
    ws.add_chart_to_workspace("LFPG", &make_chart("c1"));
    ws.set_chart_custom_title("c1", Some("Final APP RWY 26"));
    assert_eq!(ws.chart("c1").custom_title.as_deref(), Some("Final APP RWY 26"));
}

#[test]
fn test_clear_chart_custom_title_with_empty_value() {
    let mut ws = Store::new();
    ws.add_chart_to_workspace("LFPG", &make_chart("c1"));
    ws.set_chart_custom_title("c1", Some("Temp title"));
    ws.set_chart_custom_title("c1", Some("   "));
    assert_eq!(ws.chart("c1").custom_title, None);
}
