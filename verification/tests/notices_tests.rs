use atc_book::notices::{notam_query_body, notices_from_json, notices_from_text, session_cookie, JsonValue};

fn text(s: &str) -> JsonValue {
    JsonValue::Text(s.to_string())
}

fn obj(members: Vec<(&str, JsonValue)>) -> JsonValue {
    JsonValue::Object(members.into_iter().map(|(k, v)| (k.to_string(), v)).collect())
}

#[test]
fn notams_found_anywhere_one_per_id_newest_first() {
    let answer = obj(vec![(
        "items",
        JsonValue::Array(vec![
            obj(vec![
                ("id", text("N1")),
                ("itemE", text("RWY CLOSED")),
                ("number", text("1234")),
                ("qLine", obj(vec![("code23", text("MR"))])),
                ("serie", text("A")),
                ("startValidity", text("2026-01-10")),
                ("year", text("26")),
            ]),
            obj(vec![
                ("endValidity", text("2026-03-01")),
                ("id", text("N2")),
                ("itemE", text("TWR HOURS")),
                ("startValidity", text("2026-02-01")),
                ("type", text("SUP")),
            ]),
            obj(vec![("id", text("N1")), ("itemE", text("again"))]),
            obj(vec![("id", text("")), ("itemE", text("no id"))]),
            obj(vec![("id", JsonValue::Number("7".to_string())), ("itemE", text("numeric id"))]),
            JsonValue::Null,
            JsonValue::Bool(true),
        ]),
    )]);
    let notices = notices_from_json(&answer, "lfpg");
    assert_eq!(notices.len(), 2);
    assert_eq!(notices[0].id, "N2");
    assert_eq!(notices[0].identifier, "N2");
    assert_eq!(notices[0].notice_type, "SUP");
    assert_eq!(notices[0].valid_to, Some("2026-03-01".to_string()));
    assert_eq!(notices[0].category, None);
    assert_eq!(notices[1].id, "N1");
    assert_eq!(notices[1].identifier, "A1234/26");
    assert_eq!(notices[1].notice_type, "NOTAM");
    assert_eq!(notices[1].content, "RWY CLOSED");
    assert_eq!(notices[1].category, Some("MR".to_string()));
    assert_eq!(notices[1].icao, "LFPG");
}

#[test]
fn notices_without_start_come_last_by_id() {
    let answer = JsonValue::Array(vec![
        obj(vec![("id", text("b")), ("itemE", text("x"))]),
        obj(vec![("id", text("a")), ("itemE", text("y"))]),
        obj(vec![("id", text("c")), ("itemE", text("z")), ("startValidity", text("2026"))]),
    ]);
    let notices = notices_from_json(&answer, "LFBO");
    let ids: Vec<&str> = notices.iter().map(|n| n.id.as_str()).collect();
    assert_eq!(ids, vec!["c", "a", "b"]);
}

#[test]
fn briefing_session_and_query() {
    let headers = vec!["foo=1; Path=/".to_string(), "JSESSIONID=abc; HttpOnly".to_string()];
    assert_eq!(session_cookie(&headers), Some("JSESSIONID=abc".to_string()));
    assert_eq!(session_cookie(&vec!["foo=1".to_string()]), None);
    assert_eq!(
        notam_query_body("lfpg"),
        "operation=search&typeTraffic=VI&flLower=0&flUpper=999&radius=25&locations=LFPG"
    );
}

#[test]
fn briefing_answer_read_from_text() {
    let answer = r#"{"result": {"items": [
        {"id": "N1", "itemE": "RWY CLOSED", "number": "1234", "serie": "A", "year": "26",
         "startValidity": "2026-01-10", "qLine": {"code23": "MR"}},
        {"id": "N2", "itemE": "TWR HOURS", "type": "SUP", "startValidity": "2026-02-01"},
        {"id": "N1", "itemE": "again"},
        {"id": 7, "itemE": "numeric id"}
    ]}}"#;
    let notices = notices_from_text(answer, "lfpg").unwrap();
    let ids: Vec<&str> = notices.iter().map(|n| n.id.as_str()).collect();
    assert_eq!(ids, vec!["N2", "N1"]);
    assert_eq!(notices[1].identifier, "A1234/26");
    assert_eq!(notices[1].category, Some("MR".to_string()));
    assert!(notices_from_text("not json", "LFPG").is_none());
    assert_eq!(notices_from_text("[]", "LFPG"), Some(Vec::new()));
}
