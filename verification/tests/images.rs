use takumi_cli::images::{
    classify_source, collect_image_sources, is_inline_svg, plan_fetch, resolve_local_path,
    ImageFetch, ImageResolver, SourceKind,
};
use takumi_cli::html::parse_html;

#[test]
fn inline_svg_detection() {
    assert!(is_inline_svg("<svg xmlns=\"http://www.w3.org/2000/svg\"></svg>"));
    assert!(!is_inline_svg("<svg></svg>"));
    assert!(!is_inline_svg("xmlns only"));
    assert!(!is_inline_svg("logo.png"));
}

#[test]
fn local_paths() {
    assert_eq!(resolve_local_path("/abs/a.png", "/base"), "/abs/a.png");
    assert_eq!(resolve_local_path("logo.png", "/base"), "/base/logo.png");
    assert_eq!(resolve_local_path("./logo.png", "/base/"), "/base/./logo.png");
    assert_eq!(resolve_local_path("logo.png", ""), "logo.png");
}

#[test]
fn source_kinds() {
    assert_eq!(classify_source("data:image/png;base64,AAAA"), SourceKind::Embedded);
    assert_eq!(classify_source("<svg xmlns=\"x\"/>"), SourceKind::Embedded);
    assert_eq!(classify_source("http://x.test/a.png"), SourceKind::Remote);
    assert_eq!(classify_source("https://x.test/a.png"), SourceKind::Remote);
    assert_eq!(classify_source("httpx://x"), SourceKind::Local);
    assert_eq!(classify_source("img/a.png"), SourceKind::Local);
}

#[test]
fn fetch_plans() {
    assert_eq!(plan_fetch("data:x", "/b"), None);
    assert_eq!(
        plan_fetch("https://x/a.png", "/b"),
        Some(ImageFetch::Remote { source: "https://x/a.png".to_string(), url: "https://x/a.png".to_string() })
    );
    assert_eq!(
        plan_fetch("a.png", "/b"),
        Some(ImageFetch::Local { source: "a.png".to_string(), path: "/b/a.png".to_string() })
    );
}

#[test]
fn image_sources_in_document_order() {
    let (root, _) = parse_html(
        "<div><img src=\"a.png\"/><p><img src=\"b.png\"/></p>text<img src=\"a.png\"/></div>",
    )
    .unwrap();
    let mut sources = vec!["seed".to_string()];
    collect_image_sources(&root, &mut sources);
    assert_eq!(sources, vec!["seed", "a.png", "b.png", "a.png"]);
}

#[test]
fn resolver_skips_resolved_and_embedded_sources() {
    let (root, _) = parse_html(
        "<div><img src=\"a.png\"/><img src=\"data:x\"/><img src=\"a.png\"/><img src=\"https://h/b.png\"/></div>",
    )
    .unwrap();
    let mut r = ImageResolver::new(&root, "/base");
    let first = r.next_fetch().unwrap();
    assert_eq!(first, ImageFetch::Local { source: "a.png".to_string(), path: "/base/a.png".to_string() });
    r.mark_resolved("a.png");
    let second = r.next_fetch().unwrap();
    assert_eq!(
        second,
        ImageFetch::Remote { source: "https://h/b.png".to_string(), url: "https://h/b.png".to_string() }
    );
    assert_eq!(r.next_fetch(), None);
    assert_eq!(r.next_fetch(), None);
}

#[test]
fn resolver_retries_a_source_that_failed() {
    let (root, _) = parse_html("<div><img src=\"a.png\"/><img src=\"a.png\"/></div>").unwrap();
    let mut r = ImageResolver::new(&root, "/base");
    assert!(r.next_fetch().is_some());
    // The first fetch failed: nothing is marked, so the duplicate is fetched again.
    assert!(r.next_fetch().is_some());
    assert_eq!(r.next_fetch(), None);
}

const ONE_PIXEL_PNG: [u8; 68] = [
    137, 80, 78, 71, 13, 10, 26, 10, 0, 0, 0, 13, 73, 72, 68, 82, 0, 0, 0, 1, 0, 0, 0, 1, 8, 6,
    0, 0, 0, 31, 21, 196, 137, 0, 0, 0, 11, 73, 68, 65, 84, 120, 156, 99, 96, 0, 2, 0, 0, 5, 0,
    1, 122, 94, 171, 63, 0, 0, 0, 0, 73, 69, 78, 68, 174, 66, 96, 130,
];

#[test]
fn fetched_image_is_decoded_and_resolves_its_source() {
    let (root, _) = parse_html("<div><img src=\"a.png\"/><img src=\"a.png\"/></div>").unwrap();
    let mut r = ImageResolver::new(&root, "/base");
    assert!(r.next_fetch().is_some());
    assert!(r.image_fetched("a.png", Some(ONE_PIXEL_PNG.to_vec())).is_some());
    // The duplicate is not fetched again once its image is stored.
    assert_eq!(r.next_fetch(), None);
}

#[test]
fn failed_fetch_or_undecodable_bytes_leave_the_source_pending() {
    let (root, _) = parse_html("<div><img src=\"a.png\"/><img src=\"a.png\"/><img src=\"a.png\"/></div>").unwrap();
    let mut r = ImageResolver::new(&root, "/base");
    assert!(r.next_fetch().is_some());
    assert!(r.image_fetched("a.png", None).is_none());
    assert!(r.next_fetch().is_some());
    assert!(r.image_fetched("a.png", Some(b"not an image".to_vec())).is_none());
    assert!(r.next_fetch().is_some());
    assert_eq!(r.next_fetch(), None);
}
