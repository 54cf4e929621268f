use atc_book::airac::AiracCycle;
use atc_book::calendar::CalendarDate;
use atc_book::models::{AipDocSource, Chart, ChartCategory, ChartSource};
use atc_book::search::{
    arrange_search_results, build_aip_doc_ref, cached_search_result, search_plan, search_result_of,
    should_cache_search, ProviderAnswers,
};

fn chart(id: &str, category: ChartCategory, subtitle: &str, filename: &str, url: &str) -> Chart {
    Chart {
        id: id.to_string(),
        source: ChartSource::Sia,
        category,
        subtitle: subtitle.to_string(),
        filename: filename.to_string(),
        provider_relative_url: url.to_string(),
        linked_provider_relative_urls: Vec::new(),
        airac_code: "2602".to_string(),
        page: None,
        tags: Vec::new(),
        runways: Vec::new(),
        custom_title: None,
    }
}

fn cycle() -> AiracCycle {
    AiracCycle::for_date(CalendarDate::from_ymd_opt(2026, 2, 19).unwrap())
}

#[test]
fn providers_by_aerodrome_code() {
    let p = search_plan("egll");
    assert!(p.uk && !p.sia && !p.france_extras && !p.notices);
    let p = search_plan("lfpg");
    assert!(!p.uk && p.sia && p.france_extras && p.notices);
    let p = search_plan("KJFK");
    assert!(!p.uk && p.sia && !p.france_extras && !p.notices);
}

#[test]
fn aip_document_reference() {
    let c = cycle();
    let d = build_aip_doc_ref("egll", &c).unwrap();
    assert_eq!(d.id, "EGLL-AIP-UK");
    assert_eq!(d.icao, "EGLL");
    assert_eq!(d.source, AipDocSource::Uk);
    assert_eq!(d.provider_relative_url, "EG-AD-2.EGLL-en-GB.html");
    assert_eq!(d.airac_code, "2602");
    let d = build_aip_doc_ref("lfpg", &c).unwrap();
    assert_eq!(d.id, "LFPG-AIP-SIA");
    assert_eq!(d.source, AipDocSource::Sia);
    assert_eq!(d.provider_relative_url, "FR-AD-2.LFPG-fr-FR.html");
    assert!(build_aip_doc_ref("KJFK", &c).is_none());
}

#[test]
fn listing_drops_sheets_and_duplicates_and_sorts() {
    let charts = vec![
        chart("c1", ChartCategory::Iac, "B", "f1.pdf", "iac.pdf"),
        chart("c2", ChartCategory::Aerodrome, "Z", "f2.pdf", "adc_z.pdf"),
        chart("c3", ChartCategory::Aerodrome, "A", "f3.pdf", "adc_a.pdf"),
        chart("c4", ChartCategory::Aerodrome, "A2", "f4.pdf", "./adc_a.pdf"),
        chart("c5", ChartCategory::Aerodrome, "A", "X_INSTR_01.pdf", "instr.pdf"),
        chart("c6", ChartCategory::Aerodrome, "A", "f6.pdf", "adc_a.pdf"),
    ];
    let out = arrange_search_results(&charts, &cycle());
    let ids: Vec<&str> = out.iter().map(|c| c.id.as_str()).collect();
    assert_eq!(ids, vec!["c3", "c4", "c2", "c1"]);
}

#[test]
fn listing_ties_break_on_address() {
    let charts = vec![
        chart("b", ChartCategory::Sid, "S", "f.pdf", "b.pdf"),
        chart("a", ChartCategory::Sid, "S", "g.pdf", "a.pdf"),
    ];
    let out = arrange_search_results(&charts, &cycle());
    assert_eq!(out[0].id, "a");
    assert_eq!(out[1].id, "b");
}

#[test]
fn search_result_from_provider_answers() {
    let c = cycle();
    let answers = ProviderAnswers {
        uk: None,
        sia: Some(Ok(vec![chart("s1", ChartCategory::Iac, "ILS", "AD-2.LFPG-IAC.pdf", "a.pdf")])),
        atlas: Some(Err("down".to_string())),
        sofia_vac: Some(Ok(vec![chart("v1", ChartCategory::Vac, "VAC", "LFPG.pdf", "a.pdf")])),
        supaip: Some(Ok(vec![chart("p1", ChartCategory::Aerodrome, "ADC", "AD-2.LFPG-ADC.pdf", "b.pdf")])),
        notices: Some(Err("down".to_string())),
    };
    let r = search_result_of("LFPG", &c, answers);
    assert!(r.errors.is_empty());
    assert!(should_cache_search(&r));
    assert_eq!(r.charts.len(), 2);
    assert!(r.notices.is_empty());
    assert!(r.aip_doc.is_some());

    let failed = ProviderAnswers {
        uk: None,
        sia: Some(Err("HTTP 500".to_string())),
        atlas: None,
        sofia_vac: None,
        supaip: None,
        notices: None,
    };
    let r = search_result_of("KJFK", &c, failed);
    assert_eq!(r.errors, vec!["SIA: HTTP 500".to_string()]);
    assert!(!should_cache_search(&r));
    assert!(r.charts.is_empty());

    let uk = ProviderAnswers {
        uk: Some(Err("HTTP 404".to_string())),
        sia: None,
        atlas: None,
        sofia_vac: None,
        supaip: None,
        notices: None,
    };
    assert_eq!(search_result_of("EGLL", &c, uk).errors, vec!["UK NATS: HTTP 404".to_string()]);

    let kept = cached_search_result("LFPG", &c, vec![chart("s1", ChartCategory::Iac, "ILS", "x.pdf", "a.pdf")], Vec::new());
    assert!(kept.errors.is_empty());
    assert_eq!(kept.charts.len(), 1);
}
