use takumi_cli::fonts::{
    cached_font_file_name, extract_font_urls, font_file_extension, google_fonts_css_url,
    is_font_extension, is_font_file, load_font, sanitize_name,
};
use takumi::prelude::Fonts;
use takumi_cli::google_fonts::{
    GoogleFontAction, GoogleFontEvent, GoogleFontLoader, GoogleFontOutcome, LoadStage,
};

const GOOGLE_CSS: &str = "/* latin */
@font-face {
  font-family: 'Inter';
  font-style: normal;
  font-weight: 400;
  src: url(https://fonts.gstatic.com/s/inter/v13/UcCO3Fwr.woff2) format('woff2');
}
/* cyrillic */
@font-face {
  font-family: 'Inter';
  src: url(https://fonts.gstatic.com/s/inter/v13/cyr.woff2) format('woff2');
}
";

#[test]
fn extract_font_urls_from_google_css() {
    let urls = extract_font_urls(GOOGLE_CSS);
    assert_eq!(
        urls,
        vec![
            "https://fonts.gstatic.com/s/inter/v13/UcCO3Fwr.woff2".to_string(),
            "https://fonts.gstatic.com/s/inter/v13/cyr.woff2".to_string(),
        ]
    );
}

#[test]
fn extract_font_urls_trims_space_and_quotes() {
    let css = "a { src: url(  \"https://x.test/a.ttf\" ) } b { src: url('https://x.test/b.woff') }";
    assert_eq!(
        extract_font_urls(css),
        vec!["https://x.test/a.ttf".to_string(), "https://x.test/b.woff".to_string()]
    );
}

#[test]
fn extract_font_urls_skips_non_https_and_unclosed() {
    let css = "url(http://x.test/a.ttf) url(data:font/woff2;base64,AAAA) url(https://x.test/c.ttf";
    assert!(extract_font_urls(css).is_empty());
    assert!(extract_font_urls("").is_empty());
    assert!(extract_font_urls("no urls here").is_empty());
}

#[test]
fn extract_font_urls_every_url_is_https() {
    let css = "url(https://a.test/1) url( 'https://b.test/2' ) url(ftp://c) url(\"https://d.test/4\")";
    let urls = extract_font_urls(css);
    assert_eq!(urls.len(), 3);
    for u in &urls {
        assert!(u.starts_with("https://"));
    }
}

#[test]
fn extract_font_urls_ignores_text_before_first_url() {
    let css = "https://a.test/x.ttf) url(https://b.test/y.ttf)";
    assert_eq!(extract_font_urls(css), vec!["https://b.test/y.ttf".to_string()]);
}

#[test]
fn extract_font_urls_have_no_paren_and_no_trailing_quote() {
    let css = "url( \"https://a.test/1.woff2\" ) url('https://b.test/2'') url(https://c.test/3\"\")";
    let urls = extract_font_urls(css);
    assert_eq!(
        urls,
        vec![
            "https://a.test/1.woff2".to_string(),
            "https://b.test/2".to_string(),
            "https://c.test/3".to_string(),
        ]
    );
    for u in &urls {
        assert!(!u.contains(')'));
        assert!(!u.ends_with('"') && !u.ends_with('\''));
    }
}

#[test]
fn sanitize_name_replaces_spaces_and_symbols() {
    assert_eq!(sanitize_name("Fira Code"), "Fira_Code");
    assert_eq!(sanitize_name("Noto Sans JP-2"), "Noto_Sans_JP-2");
    assert_eq!(sanitize_name("a/b.c"), "a_b_c");
    assert_eq!(sanitize_name(""), "");
}

#[test]
fn sanitize_name_keeps_unicode_letters_and_length() {
    assert_eq!(sanitize_name("源ノ角"), "源ノ角");
    let name = "Zen Maru & Gothic!";
    let s = sanitize_name(name);
    assert_eq!(s.chars().count(), name.chars().count());
    assert!(s.chars().all(|c| c.is_alphanumeric() || c == '-' || c == '_'));
    // A name that is already sanitized stays as it is.
    assert_eq!(sanitize_name(&s), s);
}

#[test]
fn is_font_file_by_extension() {
    assert!(is_font_file("/cache/Inter/0.woff2"));
    assert!(is_font_file("a.ttf"));
    assert!(is_font_file("dir/b.otf"));
    assert!(is_font_file("c.woff"));
    assert!(!is_font_file("c.TTF"));
    assert!(!is_font_file("notes.txt"));
    assert!(!is_font_file("noext"));
    assert!(!is_font_file(".ttf"));
    assert!(is_font_extension(Some("woff2")));
    assert!(!is_font_extension(Some("woff3")));
    assert!(!is_font_extension(None));
}

#[test]
fn css_url_for_family() {
    assert_eq!(
        google_fonts_css_url("Fira Code"),
        "https://fonts.googleapis.com/css2?family=Fira+Code&display=swap"
    );
    assert_eq!(
        google_fonts_css_url("Inter"),
        "https://fonts.googleapis.com/css2?family=Inter&display=swap"
    );
}

#[test]
fn font_file_names() {
    assert_eq!(font_file_extension("https://x/a.woff2"), "woff2");
    assert_eq!(font_file_extension("https://x/a.woff"), "woff");
    assert_eq!(font_file_extension("https://x/a.ttf"), "ttf");
    assert_eq!(font_file_extension("https://x/a"), "ttf");
    assert_eq!(cached_font_file_name(0, "https://x/a.woff2"), "0.woff2");
    assert_eq!(cached_font_file_name(12, "https://x/a"), "12.ttf");
}

fn fetch_font(url: &str, path: &str) -> GoogleFontAction {
    GoogleFontAction::FetchFont { url: url.to_string(), file_path: path.to_string() }
}

#[test]
fn google_font_without_data_dir() {
    let (loader, action) = GoogleFontLoader::start("Inter", None);
    assert_eq!(action, GoogleFontAction::Finish { outcome: GoogleFontOutcome::NoDataDir });
    assert_eq!(loader.stage(), LoadStage::Done);
}

#[test]
fn google_font_from_cache() {
    let (mut loader, action) = GoogleFontLoader::start("Fira Code", Some("/data"));
    assert_eq!(
        action,
        GoogleFontAction::ScanCache { family_dir: "/data/takumi/fonts/Fira_Code".to_string() }
    );
    let action = loader.step(GoogleFontEvent::CacheScanned { loaded_any: true });
    assert_eq!(action, GoogleFontAction::Finish { outcome: GoogleFontOutcome::LoadedFromCache });
}

#[test]
fn google_font_download_flow() {
    let (mut loader, _) = GoogleFontLoader::start("Inter", Some("/data"));
    let action = loader.step(GoogleFontEvent::CacheScanned { loaded_any: false });
    assert_eq!(
        action,
        GoogleFontAction::FetchCss {
            url: "https://fonts.googleapis.com/css2?family=Inter&display=swap".to_string()
        }
    );
    let css = "url(https://f.test/a.woff2) url(https://f.test/b)".to_string();
    let action = loader.step(GoogleFontEvent::CssFetched { css: Some(css) });
    assert_eq!(
        action,
        GoogleFontAction::CreateCacheDir { family_dir: "/data/takumi/fonts/Inter".to_string() }
    );
    let action = loader.step(GoogleFontEvent::CacheDirCreated { ok: true });
    assert_eq!(action, fetch_font("https://f.test/a.woff2", "/data/takumi/fonts/Inter/0.woff2"));
    let action = loader.step(GoogleFontEvent::FontHandled { loaded: true });
    assert_eq!(action, fetch_font("https://f.test/b", "/data/takumi/fonts/Inter/1.ttf"));
    assert_eq!(loader.stage(), LoadStage::AwaitFont);
    let action = loader.step(GoogleFontEvent::FontHandled { loaded: false });
    assert_eq!(
        action,
        GoogleFontAction::Finish { outcome: GoogleFontOutcome::Downloaded { count: 1 } }
    );
    assert_eq!(loader.stage(), LoadStage::Done);
}

#[test]
fn google_font_failures() {
    let (mut l, _) = GoogleFontLoader::start("Inter", Some("/d"));
    l.step(GoogleFontEvent::CacheScanned { loaded_any: false });
    assert_eq!(
        l.step(GoogleFontEvent::CssFetched { css: None }),
        GoogleFontAction::Finish { outcome: GoogleFontOutcome::CssUnavailable }
    );

    let (mut l, _) = GoogleFontLoader::start("Nope", Some("/d"));
    l.step(GoogleFontEvent::CacheScanned { loaded_any: false });
    assert_eq!(
        l.step(GoogleFontEvent::CssFetched { css: Some("body {}".to_string()) }),
        GoogleFontAction::Finish { outcome: GoogleFontOutcome::NoFontUrls }
    );

    let (mut l, _) = GoogleFontLoader::start("Inter", Some("/d"));
    l.step(GoogleFontEvent::CacheScanned { loaded_any: false });
    l.step(GoogleFontEvent::CssFetched { css: Some("url(https://f/a.woff)".to_string()) });
    assert_eq!(
        l.step(GoogleFontEvent::CacheDirCreated { ok: false }),
        GoogleFontAction::Finish { outcome: GoogleFontOutcome::CacheDirFailed }
    );

    let (mut l, _) = GoogleFontLoader::start("Inter", Some("/d"));
    l.step(GoogleFontEvent::CacheScanned { loaded_any: false });
    l.step(GoogleFontEvent::CssFetched { css: Some("url(https://f/a.woff)".to_string()) });
    assert_eq!(
        l.step(GoogleFontEvent::CacheDirCreated { ok: true }),
        fetch_font("https://f/a.woff", "/d/takumi/fonts/Inter/0.woff")
    );
    assert_eq!(
        l.step(GoogleFontEvent::FontHandled { loaded: false }),
        GoogleFontAction::Finish { outcome: GoogleFontOutcome::NoneLoaded }
    );
}

#[test]
fn google_font_count_never_exceeds_urls() {
    let (mut l, _) = GoogleFontLoader::start("Inter", Some("/d"));
    l.step(GoogleFontEvent::CacheScanned { loaded_any: false });
    l.step(GoogleFontEvent::CssFetched {
        css: Some("url(https://f/a) url(https://f/b) url(https://f/c)".to_string()),
    });
    let mut action = l.step(GoogleFontEvent::CacheDirCreated { ok: true });
    let mut requests = 0;
    while let GoogleFontAction::FetchFont { file_path, .. } = &action {
        assert!(is_font_file(file_path));
        requests += 1;
        action = l.step(GoogleFontEvent::FontHandled { loaded: true });
    }
    assert_eq!(requests, 3);
    assert_eq!(action, GoogleFontAction::Finish { outcome: GoogleFontOutcome::Downloaded { count: 3 } });
}

#[test]
fn cached_font_names_are_font_files() {
    for (i, url) in [(0usize, "https://x/a.woff2"), (7, "https://x/b.woff"), (12, "https://x/c")] {
        assert!(is_font_file(&cached_font_file_name(i, url)));
    }
    assert!(is_font_file("/cache/takumi/fonts/Inter/3.woff2"));
    assert!(!is_font_file("/cache/takumi/fonts/Inter/3.txt"));
}

#[test]
fn sanitized_names_hold_no_separator_or_dot() {
    assert_eq!(sanitize_name("../x"), "___x");
    assert_eq!(sanitize_name("a\\b:c/d.e"), "a_b_c_d_e");
    for c in sanitize_name("..\\/:Noto Sans").chars() {
        assert!(c.is_alphanumeric() || c == '-' || c == '_');
    }
}

#[test]
fn unreadable_font_bytes_do_not_load() {
    let mut fonts = Fonts::default();
    assert!(!load_font(&mut fonts, None));
    assert!(!load_font(&mut fonts, Some(b"not a font".to_vec())));
}

#[test]
fn font_urls_are_trimmed_of_unicode_white_space() {
    let css = "src: url(\u{2003}\u{3000}https://a.test/x.woff2\u{a0}\n)";
    assert_eq!(extract_font_urls(css), vec!["https://a.test/x.woff2".to_string()]);
}
