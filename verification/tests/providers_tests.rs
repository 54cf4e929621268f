use atc_book::airac::AiracCycle;
use atc_book::calendar::CalendarDate;
use atc_book::models::{ChartCategory, ChartSource};
use atc_book::providers::{
    atlas_charts, atlas_url, cookie_header, is_document_found, merge_document_pages,
    sofia_vac_charts, sofia_vac_url, supaip_chart, uk_attempt, uk_not_found_message, UkAttempt,
};
use atc_book::state::RenderedPage;

fn cycle() -> AiracCycle {
    AiracCycle::for_date(CalendarDate::from_ymd_opt(2026, 1, 22).unwrap())
}

#[test]
fn atlas_vac() {
    let charts = atlas_charts("lfpg", "2601", 200);
    assert_eq!(charts.len(), 1);
    let c = &charts[0];
    assert_eq!(c.id, "LFPG-ATLAS-VAC");
    assert_eq!(c.source, ChartSource::Atlas);
    assert_eq!(c.category, ChartCategory::Vac);
    assert_eq!(c.subtitle, "Atlas VAC LFPG");
    assert_eq!(c.filename, "AD-2.LFPG.pdf");
    assert_eq!(c.provider_relative_url, "Cartes/LFPG/AD-2.LFPG.pdf");
    assert_eq!(c.tags, vec!["VAC"]);
    assert_eq!(atlas_charts("lfpg", "2601", 302).len(), 1);
    assert!(atlas_charts("lfpg", "2601", 404).is_empty());
    assert_eq!(
        atlas_url("lfpg", &cycle()),
        "https://www.sia.aviation-civile.gouv.fr/media/dvd/eAIP_22_JAN_2026/FRANCE/AIRAC-2026-01-22/html/eAIP/Cartes/LFPG/AD-2.LFPG.pdf"
    );
}

#[test]
fn sofia_vac() {
    let charts = sofia_vac_charts("lfbo", "2601", 204);
    assert_eq!(charts.len(), 1);
    assert_eq!(charts[0].id, "LFBO-SOFIA-VAC");
    assert_eq!(charts[0].source, ChartSource::SofiaVac);
    assert_eq!(charts[0].subtitle, "Sofia VAC LFBO");
    assert_eq!(charts[0].provider_relative_url, "AD-2.LFBO.pdf");
    assert!(sofia_vac_charts("lfbo", "2601", 500).is_empty());
    assert_eq!(
        sofia_vac_url("lfbo", &cycle()),
        "https://www.sia.aviation-civile.gouv.fr/media/dvd/eAIP_22_JAN_2026/Atlas-VAC/PDF_AIPparSSection/VAC/AD/AD-2.LFBO.pdf"
    );
    assert!(is_document_found(299) && !is_document_found(301) && is_document_found(302));
}

#[test]
fn sup_aip_links() {
    let c = supaip_chart("lfpg", 3, "https://www.sia.aviation-civile.gouv.fr/media/sup/SUP_001.PDF", "  SUP 001 ", "2601").unwrap();
    assert_eq!(c.id, "LFPG-SUPAIP-03");
    assert_eq!(c.source, ChartSource::SupAip);
    assert_eq!(c.category, ChartCategory::SupAip);
    assert_eq!(c.subtitle, "SUP 001");
    assert_eq!(c.filename, "SUP_001.PDF");
    assert_eq!(c.provider_relative_url, "/media/sup/SUP_001.PDF");
    assert_eq!(c.tags, vec!["SUP AIP"]);
    let c = supaip_chart("lfpg", 12, "https://other.example/x/a.pdf", "   ", "2601").unwrap();
    assert_eq!(c.subtitle, "a.pdf");
    assert_eq!(c.provider_relative_url, "https://other.example/x/a.pdf");
    assert!(supaip_chart("lfpg", 0, "https://x/page.html", "t", "2601").is_none());
}

#[test]
fn cookies_and_uk_attempts() {
    assert_eq!(cookie_header(&vec!["a=1; Path=/".to_string(), "b=2".to_string()]), "a=1; b=2");
    assert_eq!(cookie_header(&Vec::new()), "");
    assert_eq!(uk_attempt(200), UkAttempt::Parse);
    assert_eq!(uk_attempt(404), UkAttempt::TryNext);
    assert_eq!(uk_attempt(500), UkAttempt::Fail);
    assert_eq!(uk_not_found_message(&vec!["u1".to_string(), "u2".to_string()]), "HTTP 404 (tried u1, u2)");
}

fn page(url: &str, index: usize) -> RenderedPage {
    RenderedPage { data_url: url.to_string(), index }
}

#[test]
fn pages_of_several_documents() {
    let docs = vec![Some(vec![page("a0", 0), page("a1", 1)]), Some(vec![page("b0", 0)])];
    let merged = merge_document_pages(docs).unwrap();
    assert_eq!(merged, vec![page("a0", 0), page("a1", 1), page("b0", 2)]);
    let docs = vec![Some(vec![page("a0", 0)]), None, None];
    assert_eq!(merge_document_pages(docs), Err(1));
}
