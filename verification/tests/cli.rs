use takumi_cli::cli::{
    format_from_extension, format_from_name, format_name, parse_node_json, plan_file_input, plan_input, resolve_format, InputError,
    InputPlan, OutputFormat,
};

#[test]
fn explicit_format_wins() {
    assert_eq!(resolve_format(&Some("PNG".to_string()), "out.webp"), (OutputFormat::Png, false));
    assert_eq!(resolve_format(&Some("webp".to_string()), "out.png"), (OutputFormat::WebP, false));
    assert_eq!(resolve_format(&Some("Jpg".to_string()), "out.png"), (OutputFormat::Jpeg, false));
    assert_eq!(resolve_format(&Some("JPEG".to_string()), "out"), (OutputFormat::Jpeg, false));
}

#[test]
fn unknown_format_defaults_to_png() {
    assert_eq!(resolve_format(&Some("gif".to_string()), "out.webp"), (OutputFormat::Png, true));
    assert_eq!(resolve_format(&Some("".to_string()), "out.webp"), (OutputFormat::Png, true));
}

#[test]
fn format_from_output_extension() {
    assert_eq!(resolve_format(&None, "output.png"), (OutputFormat::Png, false));
    assert_eq!(resolve_format(&None, "banner.WEBP"), (OutputFormat::WebP, false));
    assert_eq!(resolve_format(&None, "photo.jpg"), (OutputFormat::Jpeg, false));
    assert_eq!(resolve_format(&None, "dir.x/photo.JPEG"), (OutputFormat::Jpeg, false));
    assert_eq!(resolve_format(&None, "noext"), (OutputFormat::Png, false));
    assert_eq!(resolve_format(&None, "a.gif"), (OutputFormat::Png, false));
}

#[test]
fn names_and_extensions_agree() {
    for name in ["png", "webp", "jpeg", "jpg"] {
        let f = format_from_name(name).unwrap();
        assert_eq!(format_from_extension(Some(name)), f);
    }
    assert_eq!(format_from_name("gif"), None);
    assert_eq!(format_from_extension(None), OutputFormat::Png);
}

#[test]
fn format_names() {
    assert_eq!(format_name(OutputFormat::Png), "PNG");
    assert_eq!(format_name(OutputFormat::WebP), "WebP");
    assert_eq!(format_name(OutputFormat::Jpeg), "JPEG");
}

#[test]
fn unicode_format_name_is_lowered_before_matching() {
    assert_eq!(resolve_format(&Some("ＰＮＧ".to_string()), "a.webp"), (OutputFormat::Png, true));
    assert_eq!(resolve_format(&Some("WebP".to_string()), "a.png"), (OutputFormat::WebP, false));
}

#[test]
fn file_plans() {
    assert_eq!(
        plan_file_input("n.json".to_string(), Some("json"), Some("dir".to_string())),
        InputPlan::JsonFile { path: "n.json".to_string(), base_dir: "dir".to_string() }
    );
    assert_eq!(
        plan_file_input("n.JSON".to_string(), Some("JSON"), None),
        InputPlan::HtmlFile { path: "n.JSON".to_string(), base_dir: ".".to_string() }
    );
    assert_eq!(
        plan_file_input("page".to_string(), None, Some("".to_string())),
        InputPlan::HtmlFile { path: "page".to_string(), base_dir: "".to_string() }
    );
}

#[test]
fn input_file_takes_precedence() {
    assert_eq!(
        plan_input(Some("<p>x</p>".to_string()), Some("cards/node.json".to_string())),
        InputPlan::JsonFile { path: "cards/node.json".to_string(), base_dir: "cards".to_string() }
    );
    assert_eq!(
        plan_input(None, Some("template.html".to_string())),
        InputPlan::HtmlFile { path: "template.html".to_string(), base_dir: "".to_string() }
    );
    assert_eq!(
        plan_input(None, Some("/node.JSON".to_string())),
        InputPlan::HtmlFile { path: "/node.JSON".to_string(), base_dir: "/".to_string() }
    );
    assert_eq!(
        plan_input(None, Some("/".to_string())),
        InputPlan::HtmlFile { path: "/".to_string(), base_dir: ".".to_string() }
    );
}

#[test]
fn inline_input() {
    assert_eq!(
        plan_input(Some("<div>Hello</div>".to_string()), None),
        InputPlan::Inline { html: "<div>Hello</div>".to_string() }
    );
}

#[test]
fn json_that_is_not_a_node_is_refused() {
    assert_eq!(parse_node_json("not json").err(), Some(InputError::InvalidJson));
    assert_eq!(parse_node_json("").err(), Some(InputError::InvalidJson));
}

#[test]
fn json_node_files_are_read() {
    let node = parse_node_json(r#"{ "type": "container", "children": [{ "type": "text", "text": "a" }] }"#);
    assert!(node.is_ok());
    assert_eq!(parse_node_json(r#"{ "type": "text" }"#).err(), Some(InputError::InvalidJson));
}
