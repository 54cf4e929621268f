use atc_book::uk::candidate_airac_parts_checked;
use atc_book::airac::AiracCycle;
use atc_book::calendar::CalendarDate;
use atc_book::models::{ChartCategory, ChartSource};
use atc_book::uk::{
    build_uk_url, candidate_airac_parts, detect_uk_category, extract_uk_runways, extract_uk_tags,
    parse_uk_html, uk_charts_from_anchors,
};

#[test]
fn uk_categories_from_link_text() {
    assert_eq!(detect_uk_category("AERODROME CHART - ICAO"), ChartCategory::Aerodrome);
    assert_eq!(detect_uk_category("AIRCRAFT PARKING/DOCKING CHART"), ChartCategory::Parking);
    assert_eq!(detect_uk_category("GROUND MOVEMENT CHART"), ChartCategory::Ground);
    assert_eq!(detect_uk_category("STANDARD DEPARTURE CHART"), ChartCategory::Sid);
    assert_eq!(detect_uk_category("STANDARD ARRIVAL CHART"), ChartCategory::Star);
    assert_eq!(detect_uk_category("INSTRUMENT APPROACH CHART RWY 27L"), ChartCategory::Iac);
    assert_eq!(detect_uk_category("VISUAL APPROACH CHART"), ChartCategory::Vac);
    assert_eq!(detect_uk_category("BIRD CONCENTRATION"), ChartCategory::Other);
}

#[test]
fn uk_tags_and_runways() {
    let tags = extract_uk_tags("INSTRUMENT APPROACH CHART - ILS/DME RWY 27L CAT II");
    assert_eq!(tags, vec!["27L", "CAT II", "DME", "ILS"]);
    let tags = extract_uk_tags("ILS CAT III RWY 09R");
    assert_eq!(tags, vec!["09R", "CAT III", "ILS"]);
    assert_eq!(extract_uk_runways("RWY 09 AND RUNWAY27R AND RWY 09"), vec!["09", "27R"]);
    assert_eq!(extract_uk_runways("RWY XX"), Vec::<String>::new());
}

#[test]
fn uk_page_keeps_pdf_links_numbered_by_position() {
    let html = r#"<a href="index.html">Index</a><a href="./eAIP/EG-AD-2.EGLL-2-1.PDF"> AERODROME CHART </a>"#;
    let charts = parse_uk_html(html, "egll", "2602").unwrap();
    assert_eq!(charts.len(), 1);
    assert_eq!(charts[0].id, "EGLL-UK-01");
    assert_eq!(charts[0].source, ChartSource::Uk);
    assert_eq!(charts[0].category, ChartCategory::Aerodrome);
    assert_eq!(charts[0].subtitle, "AERODROME CHART");
    assert_eq!(charts[0].filename, "EG-AD-2.EGLL-2-1.PDF");
    assert_eq!(charts[0].provider_relative_url, "eAIP/EG-AD-2.EGLL-2-1.PDF");
    assert_eq!(charts[0].airac_code, "2602");
}

#[test]
fn uk_anchor_list() {
    let anchors = vec![
        ("a.pdf".to_string(), "SID RWY 27L".to_string()),
        ("b.txt".to_string(), "x".to_string()),
        ("http://h/c.Pdf".to_string(), "STAR".to_string()),
    ];
    let charts = uk_charts_from_anchors(&anchors, "EGKK", "2601");
    assert_eq!(charts.len(), 2);
    assert_eq!(charts[0].id, "EGKK-UK-00");
    assert_eq!(charts[0].runways, vec!["27L"]);
    assert_eq!(charts[1].id, "EGKK-UK-02");
    assert_eq!(charts[1].provider_relative_url, "http://h/c.Pdf");
}

#[test]
fn uk_page_address() {
    assert_eq!(
        build_uk_url("2026-01-22-AIRAC", "egll"),
        "https://www.aurora.nats.co.uk/htmlAIP/Publications/2026-01-22-AIRAC/html/eAIP/EG-AD-2.EGLL-en-GB.html"
    );
}

#[test]
fn uk_candidate_publications() {
    let cycle = AiracCycle::for_date(CalendarDate::from_ymd_opt(2026, 2, 19).unwrap());
    let parts = candidate_airac_parts(&cycle);
    assert_eq!(
        parts,
        vec![
            ("2026-02-19-AIRAC".to_string(), "2602".to_string()),
            ("2026-01-22-AIRAC".to_string(), "2601".to_string()),
            ("2025-12-25-AIRAC".to_string(), "2513".to_string()),
        ]
    );
}

#[test]
fn uk_candidate_publications_checked() {
    let cycle = AiracCycle::for_date(CalendarDate::from_ymd_opt(2026, 2, 19).unwrap());
    assert_eq!(candidate_airac_parts_checked(&cycle), Some(candidate_airac_parts(&cycle)));
    let mut bad = cycle.clone();
    bad.start_date = CalendarDate { year: 2026, month: 2, day: 30 };
    assert_eq!(candidate_airac_parts_checked(&bad), None);
}
