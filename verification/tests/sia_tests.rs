use atc_book::models::ChartCategory;
use atc_book::sia::parse_sia_html;
use atc_book::sia_names::{
    detect_category, extract_runways, extract_subtitle, extract_tags, filename_stem_upper,
    is_excluded_file, is_instr_file, normalize_stem_for_instr_match, parse_instr_parent,
    parse_stem_runway_parts, stems_match_for_instr_link, strip_numeric_suffix,
};

#[test]
fn test_detect_category() {
    assert_eq!(detect_category("AD_2_LFPG_ADC_01.PDF"), ChartCategory::Aerodrome);
    assert_eq!(detect_category("AD_2_LFPG_APDC_01.PDF"), ChartCategory::Parking);
    assert_eq!(detect_category("AD_2_LFPG_GMC_01.PDF"), ChartCategory::Ground);
    assert_eq!(detect_category("AD_2_LFPG_SID_RWY_27L.PDF"), ChartCategory::Sid);
    assert_eq!(detect_category("AD_2_LFPG_STAR_RWY_09R.PDF"), ChartCategory::Star);
    assert_eq!(detect_category("AD_2_LFPG_IAC_RWY_27L.PDF"), ChartCategory::Iac);
    assert_eq!(detect_category("AD_2_LFPG_VAC_01.PDF"), ChartCategory::Vac);
    assert_eq!(detect_category("SOME_RANDOM_FILE.PDF"), ChartCategory::Other);
}

#[test]
fn test_extract_runways() {
    let rwys = extract_runways("AD_2_LFPG_SID_RWY_27L_RWY_27R.PDF");
    assert!(rwys.contains(&"27L".to_string()));
    assert!(rwys.contains(&"27R".to_string()));
    // Bare "27" should be filtered out when "27L" or "27R" exist
    let rwys = extract_runways("AD_2_LFPG_SID_RWY_27_RWY_27L.PDF");
    assert!(!rwys.contains(&"27".to_string()));
    assert!(rwys.contains(&"27L".to_string()));
}

#[test]
fn test_extract_tags() {
    let tags = extract_tags("AD_2_LFPG_IAC_ILS_RWY_27L_CAT_II_III.PDF");
    assert!(tags.contains(&"ILS".to_string()));
    assert!(tags.contains(&"27L".to_string()));
    assert!(tags.contains(&"CAT II/III".to_string()));
}

#[test]
fn test_excluded_files() {
    assert!(is_excluded_file("AD_2_LFPG_DATA_01.PDF"));
    assert!(is_excluded_file("AD_2_LFPG_TEXT_01.PDF"));
    assert!(!is_excluded_file("AD_2_LFPG_ADC_01.PDF"));
}

#[test]
fn test_instr_filter() {
    assert!(is_instr_file("AD_2_LFPG_INSTR_01.pdf"));
    assert!(!is_instr_file("AD_2_LFPG_IAC_01.pdf"));
}

#[test]
fn test_parse_sia_html_extracts_pdf_links() {
    let html = r#"
            <html><body>
                <a href="./AD_2_LFBO_ADC_01.pdf">Chart 1</a>
                <a href="./AD_2_LFBO_SID_RWY_14L_01.pdf">SID</a>
                <a href="./AD_2_LFBO_DATA_01.pdf">DATA excluded</a>
                <a href="./styles.css">Not a PDF</a>
            </body></html>
        "#;
    let charts = parse_sia_html(html, "LFBO", "2602");
    assert_eq!(charts.len(), 2);
    assert_eq!(charts[0].category, ChartCategory::Aerodrome);
    assert_eq!(charts[1].category, ChartCategory::Sid);
    assert!(charts[1].runways.contains(&"14L".to_string()));
    assert_eq!(charts[0].provider_relative_url, "AD_2_LFBO_ADC_01.pdf");
}

#[test]
fn test_pagination() {
    let html = r#"
            <html><body>
                <a href="./AD_2_LFBO_ADC.pdf">Page 1</a>
                <a href="./AD_2_LFBO_ADC.pdf">Page 2</a>
            </body></html>
        "#;
    let charts = parse_sia_html(html, "LFBO", "2602");
    assert_eq!(charts.len(), 2);
    assert_eq!(charts[0].page, Some("1/2".to_string()));
    assert_eq!(charts[1].page, Some("2/2".to_string()));
}

#[test]
fn test_different_subtitles_not_paginated() {
    let html = r#"
            <html><body>
                <a href="./AD_2_LFBO_ADC_01.pdf">P1</a>
                <a href="./AD_2_LFBO_ADC_02.pdf">P2</a>
            </body></html>
        "#;
    let charts = parse_sia_html(html, "LFBO", "2602");
    assert_eq!(charts.len(), 2);
    assert_eq!(charts[0].page, None);
    assert_eq!(charts[1].page, None);
}

#[test]
fn test_instr_attached_when_main_has_no_numeric_suffix() {
    let html = r#"
            <html><body>
                <a href="./AD_2_LFXX_IAC_RWY_27L.pdf">Main</a>
                <a href="./AD_2_LFXX_IAC_RWY_27L_01_INSTR_01.pdf">Instr 1</a>
                <a href="./AD_2_LFXX_IAC_RWY_27L_01_INSTR_02.pdf">Instr 2</a>
            </body></html>
        "#;
    let charts = parse_sia_html(html, "LFXX", "2602");
    assert_eq!(charts.len(), 1);
    assert_eq!(charts[0].filename, "AD_2_LFXX_IAC_RWY_27L.pdf");
    assert_eq!(charts[0].linked_provider_relative_urls.len(), 2);
    assert_eq!(charts[0].linked_provider_relative_urls[0], "AD_2_LFXX_IAC_RWY_27L_01_INSTR_01.pdf");
    assert_eq!(charts[0].linked_provider_relative_urls[1], "AD_2_LFXX_IAC_RWY_27L_01_INSTR_02.pdf");
}

#[test]
fn test_instr_attached_when_main_has_numeric_suffix() {
    let html = r#"
            <html><body>
                <a href="./AD_2_LFYY_IAC_RWY_09_01.pdf">Main</a>
                <a href="./AD_2_LFYY_IAC_RWY_09_INSTR_01.pdf">Instr 1</a>
            </body></html>
        "#;
    let charts = parse_sia_html(html, "LFYY", "2602");
    assert_eq!(charts.len(), 1);
    assert_eq!(charts[0].filename, "AD_2_LFYY_IAC_RWY_09_01.pdf");
    assert_eq!(charts[0].linked_provider_relative_urls.len(), 1);
    assert_eq!(charts[0].linked_provider_relative_urls[0], "AD_2_LFYY_IAC_RWY_09_INSTR_01.pdf");
}

#[test]
fn test_instr_attached_for_combined_runway_chart() {
    let html = r#"
            <html><body>
                <a href="./AD_2_LFPO_SID_RWY06-07_RNAV_SOUTH.pdf">Main</a>
                <a href="./AD_2_LFPO_SID_RWY06_RNAV_SOUTH_INSTR_01.pdf">Instr 06</a>
                <a href="./AD_2_LFPO_SID_RWY07_RNAV_SOUTH_INSTR_02.pdf">Instr 07</a>
            </body></html>
        "#;
    let charts = parse_sia_html(html, "LFPO", "2602");
    assert_eq!(charts.len(), 1);
    assert_eq!(charts[0].linked_provider_relative_urls.len(), 2);
    assert_eq!(charts[0].linked_provider_relative_urls[0], "AD_2_LFPO_SID_RWY06_RNAV_SOUTH_INSTR_01.pdf");
    assert_eq!(charts[0].linked_provider_relative_urls[1], "AD_2_LFPO_SID_RWY07_RNAV_SOUTH_INSTR_02.pdf");
}

#[test]
fn test_instr_not_attached_from_unrelated_runway_group() {
    let html = r#"
            <html><body>
                <a href="./AD_2_LFPO_SID_RWY06-07_RNAV_SOUTH.pdf">Main</a>
                <a href="./AD_2_LFPO_SID_RWY06_RNAV_SOUTH_INSTR_01.pdf">Instr 06</a>
                <a href="./AD_2_LFPO_SID_RWY25_RNAV_SOUTH_INSTR_01.pdf">Instr 25</a>
            </body></html>
        "#;
    let charts = parse_sia_html(html, "LFPO", "2602");
    assert_eq!(charts.len(), 1);
    assert_eq!(charts[0].linked_provider_relative_urls.len(), 1);
    assert_eq!(charts[0].linked_provider_relative_urls[0], "AD_2_LFPO_SID_RWY06_RNAV_SOUTH_INSTR_01.pdf");
}

#[test]
fn test_instr_attached_to_sid_all() {
    let html = r#"
            <html><body>
                <a href="./AD_2_LFBL_SID_RWY_ALL_RNAV.pdf">SID ALL</a>
                <a href="./AD_2_LFBL_SID_RWY03_RNAV_INSTR_01.pdf">INSTR 03</a>
                <a href="./AD_2_LFBL_SID_RWY21_RNAV_INSTR_01.pdf">INSTR 21</a>
            </body></html>
        "#;
    let charts = parse_sia_html(html, "LFBL", "2602");
    assert_eq!(charts.len(), 1);
    assert_eq!(charts[0].filename, "AD_2_LFBL_SID_RWY_ALL_RNAV.pdf");
    assert_eq!(charts[0].linked_provider_relative_urls.len(), 2);
    assert_eq!(charts[0].linked_provider_relative_urls[0], "AD_2_LFBL_SID_RWY03_RNAV_INSTR_01.pdf");
    assert_eq!(charts[0].linked_provider_relative_urls[1], "AD_2_LFBL_SID_RWY21_RNAV_INSTR_01.pdf");
}

#[test]
fn subtitle_drops_structure_and_runways() {
    assert_eq!(extract_subtitle("AD_2_LFPG_ADC_01.PDF", "lfpg"), "ADC 01");
    assert_eq!(extract_subtitle("AD_2_LFPG_IAC_RWY_27L_ILS.PDF", "LFPG"), "IAC");
    assert_eq!(extract_subtitle("AD_2_LFBO_SID_RNAV_SOUTH.PDF", "LFBO"), "SID RNAV SOUTH");
    assert_eq!(extract_subtitle("X_LFBO_SID_RNAV__SOUTH.PDF.PDF", "LFBO"), "X RNAV SOUTH");
    assert_eq!(extract_subtitle("AD_2_LFBO_ADC.PDF", "LFBO"), "ADC");
}

#[test]
fn tags_are_sorted_and_distinct() {
    let tags = extract_tags("AD_2_LFPG_IAC_FNA_ILS_RWY_27L_RWY_27L_CAT_I_CAT_II.PDF");
    assert_eq!(tags, vec!["27L", "App. Finale", "CAT I", "CAT II", "ILS"]);
}

#[test]
fn runways_keep_unsuffixed_when_alone() {
    assert_eq!(extract_runways("AD_2_LFPG_IAC_RWY_09_RWY_27L.PDF"), vec!["09", "27L"]);
    assert_eq!(extract_runways("AD_2_LFPG_ADC.PDF"), Vec::<String>::new());
}

#[test]
fn instr_parent_and_page() {
    assert_eq!(
        parse_instr_parent("ad_2_lfxx_iac_01_INSTR_07.PDF"),
        Some(("AD_2_LFXX_IAC_01".to_string(), 7))
    );
    assert_eq!(parse_instr_parent("_INSTR_01.pdf"), None);
    assert_eq!(parse_instr_parent("AD_2_LFXX_IAC_01.pdf"), None);
}

#[test]
fn stems_and_suffixes() {
    assert_eq!(filename_stem_upper("ad_2_lfxx_iac.pdf"), "AD_2_LFXX_IAC");
    assert_eq!(strip_numeric_suffix("AD_2_LFYY_IAC_RWY_09_01"), "AD_2_LFYY_IAC_RWY_09");
    assert_eq!(strip_numeric_suffix("AD_2_LFYY_IAC"), "AD_2_LFYY_IAC");
    assert_eq!(
        normalize_stem_for_instr_match("AD_2_LFPO_SID_RWY06-07_RNAV_SOUTH"),
        "AD_2_LFPO_SID_RWY_RNAV_SOUTH"
    );
}

#[test]
fn runway_parts_of_stems() {
    assert_eq!(
        parse_stem_runway_parts("AD_2_LFPO_SID_RWY06-07l_RNAV_SOUTH"),
        Some((
            "AD_2_LFPO_SID".to_string(),
            vec!["06".to_string(), "07L".to_string()],
            "RNAV_SOUTH".to_string()
        ))
    );
    assert_eq!(parse_stem_runway_parts("AD_2_LFPO_SID_RNAV"), None);
    assert!(stems_match_for_instr_link("AD_2_LFBL_SID_RWY_ALL_RNAV", "AD_2_LFBL_SID_RWY03_RNAV"));
    assert!(!stems_match_for_instr_link("AD_2_LFPO_SID_RWY06-07_RNAV", "AD_2_LFPO_SID_RWY25_RNAV"));
}

#[test]
fn chart_ids_and_absolute_links() {
    let html = r#"<a href="https://example.org/x/AD_2_LFBO_VAC.pdf">V</a><a href="./AD_2_LFBO_TXT.pdf">T</a>"#;
    let charts = parse_sia_html(html, "lfbo", "2602");
    assert_eq!(charts.len(), 1);
    assert_eq!(charts[0].id, "LFBO-Other-00");
    assert_eq!(charts[0].category, ChartCategory::Other);
    assert_eq!(charts[0].provider_relative_url, "https://example.org/x/AD_2_LFBO_VAC.pdf");
    assert_eq!(charts[0].filename, "AD_2_LFBO_VAC.pdf");
}
