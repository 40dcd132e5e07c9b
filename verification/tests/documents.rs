use onvif_discovery::document::{DecodeError, Document};
use onvif_discovery::query::{child_text, children, first_text, select, select_texts};

fn parse(text: &str) -> Document {
    Document::parse(text).unwrap()
}

fn malformed(text: &str) -> bool {
    matches!(Document::parse(text), Err(DecodeError::MalformedXml))
}

#[test]
fn elements_come_in_the_order_of_their_start_tags() {
    let doc = parse("<a><b><c/></b><d>x</d></a>");
    assert_eq!(doc.len(), 4);
    let names: Vec<String> = (0..4).map(|i| doc.local_name(i).unwrap()).collect();
    assert_eq!(names, vec!["a", "b", "c", "d"]);
    assert_eq!(doc.parent(0), None);
    assert_eq!(doc.parent(1), Some(0));
    assert_eq!(doc.parent(2), Some(1));
    assert_eq!(doc.parent(3), Some(0));
    assert_eq!(doc.text(3).as_deref(), Some("x"));
    assert_eq!(doc.text(0).as_deref(), Some(""));
    assert_eq!(doc.text(4), None);
    assert_eq!(doc.local_name(4), None);
    assert_eq!(doc.prefix(4), None);
    assert_eq!(doc.parent(4), None);
    assert_eq!(doc.attribute(4, "x"), None);
}

#[test]
fn names_are_split_at_the_first_colon() {
    let doc = parse("<ns:root xmlns:ns='urn:x'><plain/><a:b:c/></ns:root>");
    assert_eq!(doc.prefix(0).as_deref(), Some("ns"));
    assert_eq!(doc.local_name(0).as_deref(), Some("root"));
    assert_eq!(doc.prefix(1).as_deref(), Some(""));
    assert_eq!(doc.local_name(1).as_deref(), Some("plain"));
    assert_eq!(doc.prefix(2).as_deref(), Some("a"));
    assert_eq!(doc.local_name(2).as_deref(), Some("b:c"));
}

#[test]
fn attributes_are_found_by_local_name() {
    let doc = parse("<p token=\"main\" x:fixed = 'true' note=\"a &lt; b\" token='second'/>");
    assert_eq!(doc.attribute(0, "token"), Some("main".to_string()));
    assert_eq!(doc.attribute(0, "fixed"), Some("true".to_string()));
    assert_eq!(doc.attribute(0, "note"), Some("a < b".to_string()));
    assert_eq!(doc.attribute(0, "absent"), None);
    assert_eq!(doc.attribute(0, "x:fixed"), None);
}

#[test]
fn text_is_what_stands_directly_inside() {
    let doc = parse("<a>one<b>inner</b>two<!-- note -->three<![CDATA[<raw&>]]>&amp;</a>");
    assert_eq!(doc.text(0).as_deref(), Some("onetwothree<raw&>&"));
    assert_eq!(doc.text(1).as_deref(), Some("inner"));
}

#[test]
fn prolog_comments_and_space_around_the_root_are_passed_over() {
    let doc = parse("<?xml version=\"1.0\"?>\n<!-- head -->\n<r/>\n<!-- tail -->\n<?pi x?>\n");
    assert_eq!(doc.len(), 1);
    assert_eq!(doc.local_name(0).as_deref(), Some("r"));
}

#[test]
fn malformed_documents_are_refused() {
    for text in [
        "",
        "   ",
        "plain",
        "<a>",
        "</a>",
        "<a></b>",
        "<a><b></a></b>",
        "<a/><b/>",
        "<a/>trailing",
        "lead<a/>",
        "<a",
        "<a b></a>",
        "<a b=c></a>",
        "<a b=\"c></a>",
        "<a b=\"x\"c=\"y\"/>",
        "<a b=\"<\"/>",
        "<a b=\"&bad;\"/>",
        "<a>&bad;</a>",
        "<a>&#65;</a>",
        "<>x</>",
        "<:a/>",
        "<a:/>",
        "<a><!-- open</a>",
        "<a><![CDATA[open</a>",
        "<?xml open",
        "<!DOCTYPE a><a/>",
        "<![CDATA[x]]><a/>",
        "<a / >",
        "<s:a></a>",
    ] {
        assert!(malformed(text), "accepted: {}", text);
    }
}

#[test]
fn well_formed_documents_are_read() {
    for text in [
        "<a/>",
        "<a></a>",
        "<a ></a >",
        "<a\n  b = \"1\"\n  c='2'\n/>",
        "<a b=\"it's\" c='say \"x\"'/>",
        "<a>&lt;&gt;&amp;&quot;&apos;</a>",
        "<a><!-- <b> --></a>",
        "<a><![CDATA[]]></a>",
        "<a>></a>",
        "<é/>",
    ] {
        assert!(Document::parse(text).is_ok(), "refused: {}", text);
    }
}

#[test]
fn a_path_selects_by_the_names_of_all_ancestors() {
    let doc = parse(
        "<x:a><b><c>1</c><c>2</c></b><y:b><z:c>3</z:c><d><c>deep</c></d></y:b><c>top</c></x:a>",
    );
    assert_eq!(select_texts(&doc, &["a", "b", "c"]), vec!["1", "2", "3"]);
    assert_eq!(select_texts(&doc, &["a", "c"]), vec!["top"]);
    assert_eq!(select_texts(&doc, &["a", "b", "d", "c"]), vec!["deep"]);
    assert_eq!(select(&doc, &["a"]), vec![0]);
    assert!(select(&doc, &["b"]).is_empty());
    assert!(select(&doc, &["a", "b", "c", "c"]).is_empty());
    assert!(select(&doc, &[]).is_empty());
    assert!(select(&doc, &["A", "b", "c"]).is_empty());
}

#[test]
fn the_first_text_on_a_path_or_field_not_found() {
    let doc = parse("<a><b>first</b><b>second</b></a>");
    assert_eq!(first_text(&doc, &["a", "b"]), Ok("first".to_string()));
    assert_eq!(first_text(&doc, &["a", "c"]), Err(DecodeError::FieldNotFound));
}

#[test]
fn children_are_the_elements_directly_inside() {
    let doc = parse("<a><b>1</b><c><b>inner</b></c><n:b>2</n:b></a>");
    assert_eq!(children(&doc, 0, "b"), vec![1, 4]);
    assert_eq!(children(&doc, 2, "b"), vec![3]);
    assert!(children(&doc, 1, "b").is_empty());
    assert!(children(&doc, 99, "b").is_empty());
    assert_eq!(child_text(&doc, 0, "b"), "1");
    assert_eq!(child_text(&doc, 0, "c"), "");
    assert_eq!(child_text(&doc, 0, "zzz"), "");
}
