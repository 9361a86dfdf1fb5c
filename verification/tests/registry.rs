use xss_sanitizer::events::{RawTag, TagState};
use xss_sanitizer::sanitizer::XSSDetect;

#[test]
fn new_registry_permits_nothing() {
    let xss = XSSDetect::new();
    assert!(!xss.is_tag_permitted("a"));
    assert!(!xss.is_attribute_permitted("a", "href"));
}

#[test]
fn default_whitelist_permits_anchor_with_href_and_title() {
    let mut xss = XSSDetect::new();
    xss.load_default_white_list();
    assert!(xss.is_tag_permitted("a"));
    assert!(xss.is_attribute_permitted("a", "href"));
    assert!(xss.is_attribute_permitted("a", "title"));
    assert!(!xss.is_attribute_permitted("a", "target"));
    assert!(!xss.is_tag_permitted("b"));
    assert!(!xss.is_attribute_permitted("b", "href"));
}

#[test]
fn repeated_registration_replaces_the_attribute_set() {
    let mut xss = XSSDetect::new();
    xss.load_default_white_list();
    xss.permit_html_tag("a", vec!["href", "target"]);
    assert!(xss.is_tag_permitted("a"));
    assert!(xss.is_attribute_permitted("a", "href"));
    assert!(xss.is_attribute_permitted("a", "target"));
    assert!(!xss.is_attribute_permitted("a", "title"));
}

#[test]
fn empty_attribute_list_still_permits_the_tag() {
    let mut xss = XSSDetect::new();
    xss.permit_html_tag("b", vec![]);
    assert!(xss.is_tag_permitted("b"));
    assert!(!xss.is_attribute_permitted("b", "href"));
}

#[test]
fn tag_names_are_case_sensitive() {
    let mut xss = XSSDetect::new();
    xss.permit_html_tag("a", vec!["href"]);
    assert!(!xss.is_tag_permitted("A"));
    assert!(!xss.is_attribute_permitted("a", "HREF"));
}

#[test]
fn rewrite_event_escapes_an_unregistered_tag() {
    let xss = XSSDetect::new();
    let tag = RawTag {
        state: TagState::Opening,
        name: String::from("img"),
        html: String::from("<img src=x onerror=alert(1)>"),
        attributes: String::from("src=x onerror=alert(1)"),
    };
    let ret = xss.rewrite_event(&tag);
    assert_eq!(ret, "&lt;img src=x onerror=alert(1)&gt;");
}

#[test]
fn rewrite_events_concatenates_in_order() {
    let mut xss = XSSDetect::new();
    xss.permit_html_tag("b", vec![]);
    let events = vec![
        RawTag {
            state: TagState::Text,
            name: String::new(),
            html: String::from("hello "),
            attributes: String::new(),
        },
        RawTag {
            state: TagState::Opening,
            name: String::from("b"),
            html: String::from("<b>"),
            attributes: String::new(),
        },
        RawTag {
            state: TagState::Closing,
            name: String::from("b"),
            html: String::from("</b>"),
            attributes: String::new(),
        },
    ];
    let ret = xss.rewrite_events(&events);
    assert_eq!(ret, "hello <b ></b>");
}
