use atc_book::pdf_cache::{document_file_name, png_data_url, rendered_page_file_name, rendered_pages_to_prune};
use atc_book::airac::AiracCycle;
use atc_book::calendar::CalendarDate;
use atc_book::models::{AipDocSource, AipDocument, Chart, ChartCategory, ChartSource};

fn chart(source: ChartSource, url: &str) -> Chart {
    Chart {
        id: "x".to_string(),
        source,
        category: ChartCategory::Sid,
        subtitle: String::new(),
        filename: "f.pdf".to_string(),
        provider_relative_url: url.to_string(),
        linked_provider_relative_urls: Vec::new(),
        airac_code: "2601".to_string(),
        page: None,
        tags: Vec::new(),
        runways: Vec::new(),
        custom_title: None,
    }
}

fn cycle() -> AiracCycle {
    AiracCycle::for_date(CalendarDate::from_ymd_opt(2026, 1, 22).unwrap())
}

#[test]
fn chart_titles() {
    let mut c = chart(ChartSource::Sia, "a.pdf");
    assert_eq!(c.display_title(), "SID");
    c.subtitle = "RNAV".to_string();
    assert_eq!(c.display_title(), "RNAV");
    c.custom_title = Some("Mine".to_string());
    assert_eq!(c.display_title(), "Mine");
}

#[test]
fn chart_addresses_per_provider() {
    let c = cycle();
    assert_eq!(
        chart(ChartSource::Sia, "/Cartes/LFPG/x.pdf").url_for_airac(&c),
        "https://www.sia.aviation-civile.gouv.fr/media/dvd/eAIP_22_JAN_2026/FRANCE/AIRAC-2026-01-22/html/eAIP/Cartes/LFPG/x.pdf"
    );
    assert_eq!(
        chart(ChartSource::Uk, "EG-AD-2.EGLL.pdf").url_for_airac(&c),
        "https://www.aurora.nats.co.uk/htmlAIP/Publications/2026-01-22-AIRAC/html/eAIP/EG-AD-2.EGLL.pdf"
    );
    assert_eq!(
        chart(ChartSource::SofiaVac, "AD-2.LFPG.pdf").url_for_airac(&c),
        "https://www.sia.aviation-civile.gouv.fr/media/dvd/eAIP_22_JAN_2026/Atlas-VAC/PDF_AIPparSSection/VAC/AD/AD-2.LFPG.pdf"
    );
    assert_eq!(
        chart(ChartSource::SupAip, "/media/sup.pdf").url_for_airac(&c),
        "https://www.sia.aviation-civile.gouv.fr/media/sup.pdf"
    );
    assert_eq!(chart(ChartSource::Sia, "https://x/y.pdf").url_for_airac(&c), "https://x/y.pdf");
}

#[test]
fn category_labels_and_order() {
    assert_eq!(ChartCategory::Aerodrome.label(), "Aerodrome");
    assert_eq!(ChartCategory::SupAip.label(), "SupAIP");
    assert!(ChartCategory::Aerodrome.sort_order() < ChartCategory::Sid.sort_order());
    assert!(ChartCategory::Tem.sort_order() < ChartCategory::Other.sort_order());
}

#[test]
fn aip_document_title_and_address() {
    let d = AipDocument {
        id: "LFPG-AIP-SIA".to_string(),
        icao: "LFPG".to_string(),
        source: AipDocSource::Sia,
        provider_relative_url: "FR-AD-2.LFPG-fr-FR.html".to_string(),
        airac_code: "2601".to_string(),
    };
    assert_eq!(d.title(), "AIP LFPG (SIA)");
    assert_eq!(
        d.url_for_airac(&cycle()),
        "https://www.sia.aviation-civile.gouv.fr/media/dvd/eAIP_22_JAN_2026/FRANCE/AIRAC-2026-01-22/html/eAIP/FR-AD-2.LFPG-fr-FR.html"
    );
}

#[test]
fn chart_urls_with_linked_sheets() {
    let airac = AiracCycle::for_date(CalendarDate::from_ymd_opt(2026, 1, 22).unwrap());
    let chart = Chart {
        id: "c".to_string(),
        source: ChartSource::Sia,
        category: ChartCategory::Iac,
        subtitle: String::new(),
        filename: "a.pdf".to_string(),
        provider_relative_url: "Cartes/LFPG/a.pdf".to_string(),
        linked_provider_relative_urls: vec!["Cartes/LFPG/a_INSTR_01.pdf".to_string(), "https://x/y.pdf".to_string()],
        airac_code: "2601".to_string(),
        page: None,
        tags: Vec::new(),
        runways: Vec::new(),
        custom_title: None,
    };
    let base = "https://www.sia.aviation-civile.gouv.fr/media/dvd/eAIP_22_JAN_2026/FRANCE/AIRAC-2026-01-22/html/eAIP";
    assert_eq!(
        chart.urls_for_airac(&airac),
        vec![format!("{base}/Cartes/LFPG/a.pdf"), format!("{base}/Cartes/LFPG/a_INSTR_01.pdf"), "https://x/y.pdf".to_string()]
    );
    assert_eq!(chart.urls_for_airac(&airac)[0], chart.url_for_airac(&airac));
}

#[test]
fn document_cache_names() {
    assert_eq!(document_file_name(0x1234, "https://x/a.pdf"), "0000000000001234.pdf");
    assert_eq!(document_file_name(u64::MAX, "https://x/a"), "ffffffffffffffff.bin");
    assert_eq!(rendered_page_file_name(255, 3), "00000000000000ff_3.png");
    assert_eq!(rendered_pages_to_prune(250, 200), 50);
    assert_eq!(rendered_pages_to_prune(200, 200), 0);
    assert_eq!(png_data_url(&vec![1, 2, 3]), "data:image/png;base64,AQID");
}
