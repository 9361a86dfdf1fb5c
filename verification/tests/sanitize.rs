use xss_sanitizer::sanitizer::XSSDetect;

#[test]
fn test_xss_detector() {
    let mut xss = XSSDetect::new();
    xss.load_default_white_list();
    xss.permit_html_tag("a", vec!["href", "target"]);
    xss.permit_html_tag("b", vec![]);
    let html = "<a href=\"javascript:alert(/xss/)\" title=ok disabled>Hi!</a> <b>test</b>";
    let ret = xss.sanitize_me(&html);
    println!("{}\n{}", html, ret);
    assert_eq!(ret, "<a href=\"javascript:alert(/xss/)\" >Hi!</a> <b >test</b>");
}

#[test]
fn unknown_tag_is_escaped() {
    let xss = XSSDetect::new();
    let ret = xss.sanitize_me("<script>alert('x')</script>");
    assert_eq!(ret, "&lt;script&gt;alert('x')&lt;/script&gt;");
    assert!(!ret.contains('<'));
    assert!(!ret.contains('>'));
}

#[test]
fn empty_registry_escapes_every_tag() {
    let xss = XSSDetect::new();
    let ret = xss.sanitize_me("x <i>y</i> z");
    assert_eq!(ret, "x &lt;i&gt;y&lt;/i&gt; z");
}

#[test]
fn forbidden_attribute_is_dropped() {
    let mut xss = XSSDetect::new();
    xss.permit_html_tag("a", vec!["href", "title"]);
    let ret = xss.sanitize_me("<a href=\"u\" onclick=\"evil()\" title=\"t\">x</a>");
    assert_eq!(ret, "<a href=\"u\" title=\"t\" >x</a>");
    assert!(!ret.contains("onclick"));
    assert!(!ret.contains("evil"));
}

#[test]
fn sanitize_is_idempotent_for_same_whitelist() {
    let mut xss = XSSDetect::new();
    xss.permit_html_tag("a", vec!["href", "target"]);
    xss.permit_html_tag("b", vec![]);
    let html = "<a href=\"javascript:alert(1)\" title=ok disabled>Hi!</a> <b>test</b>";
    let once = xss.sanitize_me(&html);
    let twice = xss.sanitize_me(&once);
    assert_eq!(once, twice);
}

#[test]
fn sanitize_is_idempotent_on_escaped_output() {
    let xss = XSSDetect::new();
    let once = xss.sanitize_me("x <i>y</i>");
    let twice = xss.sanitize_me(&once);
    assert_eq!(once, "x &lt;i&gt;y&lt;/i&gt;");
    assert_eq!(once, twice);
}

#[test]
fn text_and_tags_keep_their_order() {
    let mut xss = XSSDetect::new();
    xss.permit_html_tag("b", vec![]);
    let ret = xss.sanitize_me("one <b>two</b> three <i>four</i>");
    assert_eq!(ret, "one <b >two</b> three &lt;i&gt;four&lt;/i&gt;");
}

#[test]
fn empty_value_attribute_round_trips_bare() {
    let mut xss = XSSDetect::new();
    xss.permit_html_tag("a", vec!["disabled", "href"]);
    let ret = xss.sanitize_me("<a disabled>x</a>");
    assert_eq!(ret, "<a disabled>x</a>");
    assert!(!ret.contains("disabled=\"\""));
}

#[test]
fn whitelist_scenario_keeps_only_permitted_attributes() {
    let mut xss = XSSDetect::new();
    xss.permit_html_tag("a", vec!["href", "target"]);
    xss.permit_html_tag("b", vec![]);
    let html = "<a href=\"javascript:alert(1)\" title=ok disabled>Hi!</a> <b>test</b>";
    let ret = xss.sanitize_me(&html);
    assert_eq!(ret, "<a href=\"javascript:alert(1)\" >Hi!</a> <b >test</b>");
}

#[test]
fn self_closing_tag_is_reserialized() {
    let mut xss = XSSDetect::new();
    xss.permit_html_tag("br", vec![]);
    let ret = xss.sanitize_me("a<br />done");
    assert_eq!(ret, "a<br />done");
}

#[test]
fn self_closing_tag_is_escaped_when_unknown() {
    let xss = XSSDetect::new();
    let ret = xss.sanitize_me("a<br/>done");
    assert_eq!(ret, "a&lt;br/&gt;done");
}

#[test]
fn escape_replaces_angle_brackets() {
    let xss = XSSDetect::new();
    assert_eq!(xss.escape("<>"), "&lt;&gt;");
    assert_eq!(xss.escape("a<b>c"), "a&lt;b&gt;c");
    assert_eq!(xss.escape("plain"), "plain");
    assert_eq!(xss.escape(""), "");
}
