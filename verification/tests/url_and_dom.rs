use servo::dom::{Attr, Element, Node};
use servo::url::Url;

fn url(path: &str) -> Url {
    Url { text: format!("file://{}", path), path: path.to_string() }
}

fn element(tag: &str) -> Element {
    Element { tag_name: tag.to_string(), attrs: Vec::new() }
}

#[test]
fn scripts_are_told_by_their_path() {
    assert!(url("/a.js").is_script());
    assert!(url(".js").is_script());
    assert!(!url("js").is_script());
    assert!(!url("").is_script());
    assert!(!url("/a.jss").is_script());
    assert!(!url("/a.JS").is_script());
    assert!(!url("/a_js").is_script());
    assert!(url("/\u{e9}.js").is_script());
    let query = Url { text: "http://a/b?c.js".to_string(), path: "/b".to_string() };
    assert!(!query.is_script());
}

#[test]
fn locators_compare_by_text_and_path() {
    assert!(url("/a").is_same(&url("/a")));
    assert!(!url("/a").is_same(&url("/b")));
    assert_eq!(url("/a").clone(), url("/a"));
}

#[test]
fn anchors_and_links_are_told_by_name() {
    assert!(element("a").has_anchor_tag());
    assert!(!element("A").has_anchor_tag());
    assert!(!element("abbr").has_anchor_tag());
    assert!(!element("").has_anchor_tag());
    let attr = |name: &str| Attr { name: name.to_string(), value: String::new() };
    assert!(attr("href").has_href_name());
    assert!(!attr("hre").has_href_name());
    assert!(!attr("hreflang").has_href_name());
}

#[test]
fn the_closest_element_is_found_upwards() {
    let text = |parent: Option<Node>| Node { element: None, parent: parent.map(Box::new) };
    let node = |tag: &str, parent: Option<Node>| Node {
        element: Some(element(tag)),
        parent: parent.map(Box::new),
    };
    let tag = |node: Node| node.closest_element().map(|e| e.tag_name.clone());
    assert_eq!(tag(node("b", None)), Some("b".to_string()));
    assert_eq!(tag(node("b", Some(node("a", None)))), Some("b".to_string()));
    assert_eq!(tag(text(Some(text(Some(node("a", None)))))), Some("a".to_string()));
    assert_eq!(tag(text(Some(text(None)))), None);
    assert!(node("b", None).is_element());
    assert!(!text(None).is_element());
}
