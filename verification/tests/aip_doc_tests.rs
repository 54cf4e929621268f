use atc_book::aip_doc::{absolute_url, scope_css, scope_embedded_styles, scope_selector};

#[test]
fn resource_addresses() {
    let base = "https://a.b/x/y/page.html";
    assert_eq!(absolute_url(base, "img/a.png"), "https://a.b/x/y/img/a.png");
    assert_eq!(absolute_url(base, "./img/a.png"), "https://a.b/x/y/img/a.png");
    assert_eq!(absolute_url(base, "/img/a.png"), "https://a.b/img/a.png");
    assert_eq!(absolute_url(base, "//cdn.x/a.png"), "https://cdn.x/a.png");
    assert_eq!(absolute_url(base, "http://z/a.png"), "http://z/a.png");
    assert_eq!(absolute_url("page.html", "a.png"), "page.html/a.png");
    assert_eq!(absolute_url("https://host", "/a.png"), "https:/a.png");
}

#[test]
fn selectors_under_a_scope() {
    assert_eq!(scope_selector("body", ".s"), ".s");
    assert_eq!(scope_selector(":root", ".s"), ".s");
    assert_eq!(scope_selector("html > p", ".s"), ".s > p");
    assert_eq!(scope_selector("body>div", ".s"), ".s >div");
    assert_eq!(scope_selector("html *", ".s"), ".s");
    assert_eq!(scope_selector("*", ".s"), ".s");
    assert_eq!(scope_selector("p.a", ".s"), ".s p.a");
    assert_eq!(scope_selector(".s p", ".s"), ".s p");
}

#[test]
fn style_sheets_under_a_scope() {
    assert_eq!(
        scope_css("p{color:red} @media print{a,b{x:y}} @font-face{src:u}", ".s"),
        ".s p{color:red}@media print{.s a, .s b{x:y}}@font-face{src:u}"
    );
    assert_eq!(scope_css("p{a} tail", ".s"), ".s p{a} tail");
    assert_eq!(scope_css("p{color:red", ".s"), "p{color:red");
    assert_eq!(scope_css("h1, ,h2{}", ".s"), ".s h1, .s h2{}");
}

#[test]
fn embedded_style_blocks() {
    assert_eq!(
        scope_embedded_styles("<html><STYLE type=\"t\">body{m:0}</style><p>x</p></html>"),
        "<html><style type=\"t\">.aip-doc-content{m:0}</style><p>x</p></html>"
    );
    assert_eq!(scope_embedded_styles("<p>no style</p>"), "<p>no style</p>");
}
