use atc_book::atis::{
    atis_cache_key, atis_from_cards, atis_url, parse_atis_html, AtisCache, AtisData,
    ATIS_CACHE_TTL_MS,
};

#[test]
fn atis_page_cards() {
    let html = r#"
        <div class="card-body"><h5 class="card-title"> Arrival ATIS </h5><h6 class="card-subtitle"> 1200Z </h6><pre class="atis"> INFO A </pre></div>
        <div class="card-body"><h5 class="card-title">METAR</h5><pre class="atis">LFPG 121200Z</pre></div>
        <div class="card-body"><h5 class="card-title">TAF</h5><pre class="atis"> TAF LFPG </pre></div>
        <div class="card-body"><h5 class="card-title">Other</h5><pre class="atis">ignored</pre></div>
    "#;
    let d = parse_atis_html(html, "LFPG");
    assert_eq!(d.icao, "LFPG");
    let a = d.arrival.unwrap();
    assert_eq!(a.title, "Arrival ATIS");
    assert_eq!(a.timestamp, Some("1200Z".to_string()));
    assert_eq!(a.content, "INFO A");
    assert!(d.departure.is_none());
    assert_eq!(d.metar, Some("LFPG 121200Z".to_string()));
    assert_eq!(d.taf, Some("TAF LFPG".to_string()));
}

#[test]
fn later_cards_win_and_combined_is_arrival() {
    let cards = vec![
        (Some("Departure ATIS".to_string()), Some("D1".to_string()), None),
        (Some("Arrival ATIS".to_string()), Some("A1".to_string()), Some("t".to_string())),
        (Some("Combined ATIS".to_string()), Some(" C ".to_string()), None),
        (None, Some("no title".to_string()), None),
    ];
    let d = atis_from_cards(&cards, "EGLL");
    let a = d.arrival.unwrap();
    assert_eq!(a.title, "Combined ATIS");
    assert_eq!(a.content, "C");
    assert_eq!(a.timestamp, None);
    assert_eq!(d.departure.unwrap().content, "D1");
}

#[test]
fn atis_addresses_and_keys() {
    assert_eq!(atis_url("LFPG"), "https://atis.guru/atis/LFPG");
    assert_eq!(atis_cache_key("  lfpg "), "LFPG");
}

#[test]
fn atis_cache_serves_fresh_data_only() {
    let mut cache = AtisCache::new();
    let data = AtisData { icao: "LFPG".to_string(), arrival: None, departure: None, metar: Some("M".to_string()), taf: None };
    cache.store("LFPG".to_string(), 1000, data);
    assert_eq!(cache.lookup("LFPG", 1000).unwrap().metar, Some("M".to_string()));
    assert!(cache.lookup("LFPG", 1000 + ATIS_CACHE_TTL_MS - 1).is_some());
    assert!(cache.lookup("LFPG", 1000 + ATIS_CACHE_TTL_MS).is_none());
    assert!(cache.lookup("EGLL", 1000).is_none());
    let newer = AtisData { icao: "LFPG".to_string(), arrival: None, departure: None, metar: Some("N".to_string()), taf: None };
    cache.store("LFPG".to_string(), 5_000_000, newer);
    assert_eq!(cache.lookup("LFPG", 5_000_001).unwrap().metar, Some("N".to_string()));
}
