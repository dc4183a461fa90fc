use takumi_cli::html::{convert_document, convert_node, parse_html};
use takumi_cli::node::{ContainerNode, ImageNode, Node, TextNode};

fn s(x: &str) -> Option<String> {
    Some(x.to_string())
}

fn text(t: &str) -> Node {
    Node::Text(TextNode { tag_name: None, class_name: None, id: None, text: t.to_string(), tw: None })
}

#[test]
fn parse_html_style_becomes_generated_class() {
    let (root, sheets) =
        parse_html("<div style=\"display: flex\" class=\"card\" id=\"main\"><p>Hello</p></div>")
            .unwrap();
    assert_eq!(sheets, vec!["._s0 { display: flex }".to_string()]);
    let expected = Node::Container(ContainerNode {
        tag_name: s("div"),
        class_name: s("card _s0"),
        id: s("main"),
        tw: None,
        children: Some(vec![Node::Container(ContainerNode {
            tag_name: s("p"),
            class_name: None,
            id: None,
            tw: None,
            children: Some(vec![text("Hello")]),
        })]),
    });
    assert_eq!(root, expected);
}

#[test]
fn parse_html_styles_are_numbered_in_document_order() {
    let (_, sheets) = parse_html(
        "<div style=\"a: 1\"><span style=\"b: 2\">x</span><span style=\"\">y</span></div><p style=\"c: 3\">z</p>",
    )
    .unwrap();
    assert_eq!(
        sheets,
        vec![
            "._s0 { a: 1 }".to_string(),
            "._s1 { b: 2 }".to_string(),
            "._s2 { c: 3 }".to_string(),
        ]
    );
}

#[test]
fn parse_html_image() {
    let (root, sheets) =
        parse_html("<img src=\"./logo.png\" width=\"200\" height=\"100\" tw=\"rounded\" />").unwrap();
    assert!(sheets.is_empty());
    assert_eq!(
        root,
        Node::Image(ImageNode {
            tag_name: s("img"),
            class_name: None,
            id: None,
            src: "./logo.png".to_string(),
            width: s("200"),
            height: s("100"),
            tw: s("rounded"),
        })
    );
}

#[test]
fn parse_html_image_without_src_and_upper_case_tag() {
    let (root, _) = parse_html("<IMG>").unwrap();
    match root {
        Node::Image(img) => {
            assert_eq!(img.src, "");
            assert_eq!(img.tag_name, s("img"));
        }
        _ => panic!("expected an image"),
    }
    let (root, _) = parse_html("<DIV tw=\"flex\"></DIV>").unwrap();
    assert_eq!(
        root,
        Node::Container(ContainerNode {
            tag_name: s("div"),
            class_name: None,
            id: None,
            tw: s("flex"),
            children: None,
        })
    );
}

#[test]
fn parse_html_several_top_level_nodes_are_wrapped() {
    let (root, _) = parse_html("hello <b>x</b>").unwrap();
    match root {
        Node::Container(c) => {
            assert_eq!(c.tag_name, None);
            assert_eq!(c.class_name, None);
            let kids = c.children.unwrap();
            assert_eq!(kids.len(), 2);
            assert_eq!(kids[0], text("hello"));
        }
        _ => panic!("expected a container"),
    }
}

#[test]
fn parse_html_empty_document() {
    let (root, sheets) = parse_html("").unwrap();
    assert!(sheets.is_empty());
    assert_eq!(
        root,
        Node::Container(ContainerNode {
            tag_name: None,
            class_name: None,
            id: None,
            tw: None,
            children: Some(vec![]),
        })
    );
}

#[test]
fn parse_html_whitespace_and_comments_are_dropped() {
    let (root, _) = parse_html("<div>  <!-- note -->\n  </div>").unwrap();
    assert_eq!(
        root,
        Node::Container(ContainerNode {
            tag_name: s("div"),
            class_name: None,
            id: None,
            tw: None,
            children: None,
        })
    );
}

#[test]
fn parse_html_text_is_trimmed() {
    let (root, _) = parse_html("<p>  spaced out \n</p>").unwrap();
    assert_eq!(
        root,
        Node::Container(ContainerNode {
            tag_name: s("p"),
            class_name: None,
            id: None,
            tw: None,
            children: Some(vec![text("spaced out")]),
        })
    );
}

#[test]
fn convert_document_matches_parse_html() {
    let html = "<section style=\"gap: 4px\"><img src=\"a.png\"/><em>hi</em></section>";
    let dom = tl::parse(html, tl::ParserOptions::default()).unwrap();
    let (root, sheets) = convert_document(&dom);
    let (root2, sheets2) = parse_html(html).unwrap();
    assert_eq!(root, root2);
    assert_eq!(sheets, sheets2);
    assert_eq!(sheets, vec!["._s0 { gap: 4px }".to_string()]);
}

#[test]
fn styled_elements_get_classes_and_rules_in_pre_order() {
    let (root, sheets) = parse_html(
        "<div class=\"a\" style=\"x: 1\"><img src=\"i.png\" style=\"y: 2\"/><p class=\"b\" style=\"z: 3\" tw=\"p-4\">t</p></div>",
    )
    .unwrap();
    assert_eq!(
        sheets,
        vec![
            "._s0 { x: 1 }".to_string(),
            "._s1 { y: 2 }".to_string(),
            "._s2 { z: 3 }".to_string(),
        ]
    );
    let expected = Node::Container(ContainerNode {
        tag_name: s("div"),
        class_name: s("a _s0"),
        id: None,
        tw: None,
        children: Some(vec![
            Node::Image(ImageNode {
                tag_name: s("img"),
                class_name: s("_s1"),
                id: None,
                src: "i.png".to_string(),
                width: None,
                height: None,
                tw: None,
            }),
            Node::Container(ContainerNode {
                tag_name: s("p"),
                class_name: s("b _s2"),
                id: None,
                tw: s("p-4"),
                children: Some(vec![text("t")]),
            }),
        ]),
    });
    assert_eq!(root, expected);
}

#[test]
fn nested_styled_elements_are_numbered_in_pre_order() {
    let (root, sheets) = parse_html(
        "<div style=\"a: 1\"><p style=\"b: 2\"><span style=\"c: 3\">x</span></p><i style=\"d: 4\">y</i></div>",
    )
    .unwrap();
    assert_eq!(
        sheets,
        vec![
            "._s0 { a: 1 }".to_string(),
            "._s1 { b: 2 }".to_string(),
            "._s2 { c: 3 }".to_string(),
            "._s3 { d: 4 }".to_string(),
        ]
    );
    let kids = match &root {
        Node::Container(c) => {
            assert_eq!(c.class_name, s("_s0"));
            c.children.as_ref().unwrap()
        }
        _ => panic!("expected a container"),
    };
    match &kids[0] {
        Node::Container(p) => {
            assert_eq!(p.class_name, s("_s1"));
            match &p.children.as_ref().unwrap()[0] {
                Node::Container(span) => assert_eq!(span.class_name, s("_s2")),
                _ => panic!("expected a container"),
            }
        }
        _ => panic!("expected a container"),
    }
    match &kids[1] {
        Node::Container(i) => assert_eq!(i.class_name, s("_s3")),
        _ => panic!("expected a container"),
    }
}

#[test]
fn convert_node_numbers_from_the_given_counter() {
    let dom = tl::parse("<div style=\"a: 1\"><p style=\"b: 2\">x</p></div>", tl::ParserOptions::default())
        .unwrap();
    let h = dom.children()[0].get_inner();
    let mut sheets = vec!["x".to_string()];
    let mut counter = 5usize;
    let node = convert_node(&dom, h, &mut sheets, &mut counter, 100).unwrap();
    assert_eq!(counter, 7);
    assert_eq!(sheets, vec!["x", "._s5 { a: 1 }", "._s6 { b: 2 }"]);
    match node {
        Node::Container(c) => {
            assert_eq!(c.class_name, s("_s5"));
            match &c.children.as_ref().unwrap()[0] {
                Node::Container(p) => assert_eq!(p.class_name, s("_s6")),
                _ => panic!("expected a container"),
            }
        }
        _ => panic!("expected a container"),
    }
}

#[test]
fn convert_node_with_empty_style_leaves_the_state_alone() {
    let dom = tl::parse("<div style=\"\"></div>", tl::ParserOptions::default()).unwrap();
    let h = dom.children()[0].get_inner();
    let mut sheets = vec!["x".to_string()];
    let mut counter = 5usize;
    let node = convert_node(&dom, h, &mut sheets, &mut counter, 100);
    assert_eq!(
        node,
        Some(Node::Container(ContainerNode {
            tag_name: s("div"),
            class_name: None,
            id: None,
            tw: None,
            children: None,
        }))
    );
    assert_eq!(counter, 5);
    assert_eq!(sheets, vec!["x".to_string()]);
}
