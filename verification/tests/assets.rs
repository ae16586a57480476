use shiba_preview::assets::{Assets, HljsThemes, Served};
use shiba_preview::config::PreviewHighlight;

fn themes() -> HljsThemes {
    let theme = |name: &str| (name.to_string(), format!("/* Theme: {name} */\n").into_bytes());
    HljsThemes {
        default_css: b"/* Theme: GitHub */ /* Theme: GitHub Dark */\n".to_vec(),
        table: vec![
            theme("GitHub"),
            theme("GitHub Dark"),
            theme("Default"),
            theme("Stackoverflow Light"),
            theme("Stackoverflow Dark"),
        ],
        default_light: b"/* Theme: GitHub */\n".to_vec(),
        default_dark: b"/* Theme: GitHub Dark */\n".to_vec(),
    }
}

fn assets_with(light: &str, dark: &str, markdown_css: &[u8]) -> Assets {
    let hl = PreviewHighlight { dark: dark.to_string(), light: light.to_string() };
    Assets::new(shiba_preview::assets::load_hljs_css(&hl, &themes()), markdown_css.to_vec())
}

fn default_assets() -> Assets {
    assets_with("GitHub", "GitHub Dark", b".markdown-body{color:black}")
}

fn hljs_css(assets: &Assets) -> String {
    let (served, mime) = assets.load("/hljs-theme.css");
    assert_eq!(mime, "text/css;charset=UTF-8");
    match served {
        Served::Bytes(b) => String::from_utf8(b).unwrap(),
        _ => panic!("stylesheet expected"),
    }
}

#[test]
fn load_bundled_resources() {
    let assets = default_assets();
    for path in ["/index.html", "/bundle.js", "/style.css", "/github-markdown.css", "/hljs-theme.css", "/logo.png", "/bundle.js.map"] {
        let (served, mime) = assets.load(path);
        assert!(!matches!(served, Served::File(_)), "path={path:?}");
        assert_ne!(mime, "application/octet-stream", "path={path:?}");
    }
}

#[test]
fn load_dynamic_resource() {
    let (served, mime) = default_assets().load("assets/shibainu.png");
    assert!(matches!(served, Served::File(p) if p == "assets/shibainu.png"));
    assert_eq!(mime, "image/png");
}

#[test]
fn load_unknown_resource() {
    let (served, mime) = default_assets().load("this-file-does-not-exist.js");
    assert!(matches!(served, Served::File(_)));
    assert_eq!(mime, "text/javascript;charset=UTF-8");
}

#[test]
fn load_hljs_css() {
    let css = hljs_css(&default_assets());
    assert!(css.contains("Theme: GitHub"));
    assert!(css.contains("Theme: GitHub Dark"));
}

#[test]
fn load_github_markdown_css() {
    let (served, mime) = default_assets().load("/github-markdown.css");
    assert_eq!(mime, "text/css;charset=UTF-8");
    assert!(matches!(served, Served::Bytes(b) if b.starts_with(b".markdown-body{")));
}

#[test]
fn load_user_css() {
    let assets = assets_with("GitHub", "GitHub Dark", b"/* this is test CSS file */\n");
    let (served, mime) = assets.load("/github-markdown.css");
    assert_eq!(mime, "text/css;charset=UTF-8");
    assert!(matches!(served, Served::Bytes(b) if b.starts_with(b"/* this is test CSS file */")));
}

#[test]
fn load_non_default_hljs_themes() {
    let css = hljs_css(&assets_with("Stackoverflow Light", "Stackoverflow Dark", b""));
    for part in [
        "Stackoverflow Dark",
        "@media (prefers-color-scheme: dark)",
        "Stackoverflow Light",
        "@media (prefers-color-scheme: light)",
    ] {
        assert!(css.contains(part), "CSS does not contain {:?}: {}", part, css);
    }
    assert_eq!(
        css,
        "@media (prefers-color-scheme: light) {\n/* Theme: Stackoverflow Light */\n}\n\
         @media (prefers-color-scheme: dark) {\n/* Theme: Stackoverflow Dark */\n}\n",
    );
}

#[test]
fn load_single_hljs_theme() {
    let css = hljs_css(&assets_with("Default", "Default", b""));
    assert!(!css.contains("@media (prefers-color-scheme: dark)"), "{css}");
    assert!(!css.contains("@media (prefers-color-scheme: light)"), "{css}");
    assert!(css.contains("Theme: Default"), "{css}");
}

#[test]
fn load_uknown_hljs_theme_fall_back_to_default() {
    let css = hljs_css(&assets_with("This light theme does not exist", "This dark theme does not exist", b""));
    for part in ["GitHub Dark", "@media (prefers-color-scheme: dark)", "GitHub", "@media (prefers-color-scheme: light)"] {
        assert!(css.contains(part), "CSS does not contain {:?}: {}", part, css);
    }
}

#[test]
fn favicon_mime_type() {
    let (_, mime) = default_assets().load("/favicon.ico");
    assert_eq!(mime, "image/vnd.microsoft.icon");
}
