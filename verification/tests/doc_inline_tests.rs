use atc_book::doc_inline::data_uri;
use atc_book::doc_inline::{image_requests, inline_images, inline_stylesheets, stylesheet_requests};
use atc_book::providers::{supaip_form_key, supaip_links, supaip_links_from};

const BASE: &str = "https://x.example/eAIP/page/EG-AD-2.EGLL-en-GB.html";

#[test]
fn image_tags_to_fetch() {
    let html = r#"<p><IMG class="a" SRC="fig/one.png" alt=x><img src='data:image/png;base64,AA'><img alt="no source"><img src="/abs/two.gif"></p>"#;
    let reqs = image_requests(html, BASE);
    assert_eq!(reqs.len(), 2);
    assert_eq!(reqs[0].0, r#"<IMG class="a" SRC="fig/one.png" alt=x>"#);
    assert_eq!(reqs[0].1, "fig/one.png");
    assert_eq!(reqs[0].2, "https://x.example/eAIP/page/fig/one.png");
    assert_eq!(reqs[1].1, "/abs/two.gif");
    assert_eq!(reqs[1].2, "https://x.example/abs/two.gif");
    assert!(image_requests("<img src=\"\">", BASE).is_empty());
}

#[test]
fn images_put_in_the_page() {
    let html = r#"<img src="a.png"> and again <img src="a.png"> <img src="b.png">"#;
    let fetched = vec![
        ("<img src=\"a.png\">".to_string(), "a.png".to_string(), Some("data:image/png;base64,QQ".to_string())),
        ("<img src=\"b.png\">".to_string(), "b.png".to_string(), None),
    ];
    let out = inline_images(html, &fetched);
    assert_eq!(
        out,
        r#"<img src="data:image/png;base64,QQ"> and again <img src="data:image/png;base64,QQ"> <img src="b.png">"#
    );
}

#[test]
fn style_sheets_to_fetch_and_put_in() {
    let html = r#"<head><LINK href="css/main.css" REL="Stylesheet"><link rel="icon" href="i.ico"><link rel='stylesheet' href="data:text/css,x"></head>"#;
    let reqs = stylesheet_requests(html, BASE);
    assert_eq!(reqs.len(), 1);
    assert_eq!(reqs[0].0, r#"<LINK href="css/main.css" REL="Stylesheet">"#);
    assert_eq!(reqs[0].1, "https://x.example/eAIP/page/css/main.css");
    let fetched = vec![(reqs[0].0.clone(), reqs[0].1.clone(), Some("p{}".to_string()))];
    let out = inline_stylesheets(html, &fetched);
    assert!(out.starts_with("<head><style>/* inlined: https://x.example/eAIP/page/css/main.css */\np{}</style><link rel=\"icon\""));
    assert_eq!(inline_stylesheets(html, &vec![(reqs[0].0.clone(), reqs[0].1.clone(), None)]), html);
}

#[test]
fn sup_aip_result_page() {
    let html = r#"<form><input name="form_key" value="K123"></form>
        <a class="lien_sup_aip" href="/sup/1">SUP  001</a>
        <a class="lien_sup_aip">no link</a>
        <a class="other" href="/x">x</a>
        <a class="lien_sup_aip" href="/sup/2"><b>SUP</b> 002</a>"#;
    let links = supaip_links(html);
    assert_eq!(links.len(), 2);
    assert_eq!(links[0], (0, "/sup/1".to_string(), "SUP  001".to_string()));
    assert_eq!(links[1].0, 2);
    assert_eq!(links[1].1, "/sup/2");
    assert_eq!(supaip_form_key(html), Ok("K123".to_string()));
    assert_eq!(supaip_form_key("<p></p>"), Err("form_key not found".to_string()));
    let from = supaip_links_from(&vec![(None, "a".to_string()), (Some("h".to_string()), "b".to_string())]);
    assert_eq!(from, vec![(1, "h".to_string(), "b".to_string())]);
}

#[test]
fn image_data_addresses() {
    assert_eq!(data_uri(&Some("image/gif; charset=binary".to_string()), &vec![0x47, 0x49, 0x46]), "data:image/gif;base64,R0lG");
    assert_eq!(data_uri(&None, &vec![0xff]), "data:image/png;base64,/w==");
    assert_eq!(data_uri(&None, &b"Man".to_vec()), "data:image/png;base64,TWFu");
    assert_eq!(data_uri(&None, &b"Ma".to_vec()), "data:image/png;base64,TWE=");
    assert_eq!(data_uri(&None, &b"M".to_vec()), "data:image/png;base64,TQ==");
    assert_eq!(data_uri(&None, &b"foobar".to_vec()), "data:image/png;base64,Zm9vYmFy");
    assert_eq!(data_uri(&Some("image/jpeg".to_string()), &Vec::new()), "data:image/jpeg;base64,");
}
