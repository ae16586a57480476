use crate::config::PreviewHighlight;
use crate::text::same_str;
use vstd::prelude::*;
use vstd::string::*;

verus! {

/// The MIME type of a file extension that the preview serves.
pub open spec fn mime_of_ext(ext: Seq<char>) -> Option<Seq<char>> {
    if ext == "html"@ {
        Some("text/html;charset=UTF-8"@)
    } else if ext == "js"@ {
        Some("text/javascript;charset=UTF-8"@)
    } else if ext == "css"@ {
        Some("text/css;charset=UTF-8"@)
    } else if ext == "apng"@ {
        Some("image/apng"@)
    } else if ext == "avif"@ {
        Some("image/avif"@)
    } else if ext == "bmp"@ {
        Some("image/bmp"@)
    } else if ext == "gif"@ {
        Some("image/gif"@)
    } else if ext == "jpg"@ || ext == "jpeg"@ {
        Some("image/jpeg"@)
    } else if ext == "png"@ {
        Some("image/png"@)
    } else if ext == "svg"@ {
        Some("image/svg+xml"@)
    } else if ext == "webp"@ {
        Some("image/webp"@)
    } else if ext == "tiff"@ {
        Some("image/tiff"@)
    } else if ext == "map"@ {
        Some("text/plain;charset=UTF-8"@)
    } else if ext == "ico"@ {
        Some("image/vnd.microsoft.icon"@)
    } else {
        None
    }
}

/// The index of the last `.` among the first `n` characters, or -1.
pub open spec fn last_dot(path: Seq<char>, n: int) -> int
    decreases n,
{
    if n <= 0 {
        -1
    } else if path[n - 1] == '.' {
        n - 1
    } else {
        last_dot(path, n - 1)
    }
}

/// The MIME type of a path, by the extension after its last `.`; an
/// unknown extension is served as bytes.
pub open spec fn spec_guess_mime(path: Seq<char>) -> Seq<char> {
    let d = last_dot(path, path.len() as int);
    if d >= 0 && mime_of_ext(path.skip(d + 1)) is Some {
        mime_of_ext(path.skip(d + 1))->0
    } else {
        "application/octet-stream"@
    }
}

fn mime_of(ext: &str) -> (r: Option<&'static str>)
    ensures
        match r {
            Some(m) => mime_of_ext(ext@) == Some(m@),
            None => mime_of_ext(ext@) is None,
        },
{
    if same_str(ext, "html") {
        Some("text/html;charset=UTF-8")
    } else if same_str(ext, "js") {
        Some("text/javascript;charset=UTF-8")
    } else if same_str(ext, "css") {
        Some("text/css;charset=UTF-8")
    } else if same_str(ext, "apng") {
        Some("image/apng")
    } else if same_str(ext, "avif") {
        Some("image/avif")
    } else if same_str(ext, "bmp") {
        Some("image/bmp")
    } else if same_str(ext, "gif") {
        Some("image/gif")
    } else if same_str(ext, "jpg") || same_str(ext, "jpeg") {
        Some("image/jpeg")
    } else if same_str(ext, "png") {
        Some("image/png")
    } else if same_str(ext, "svg") {
        Some("image/svg+xml")
    } else if same_str(ext, "webp") {
        Some("image/webp")
    } else if same_str(ext, "tiff") {
        Some("image/tiff")
    } else if same_str(ext, "map") {
        Some("text/plain;charset=UTF-8")
    } else if same_str(ext, "ico") {
        Some("image/vnd.microsoft.icon")
    } else {
        None
    }
}

/// The MIME type of a file that the preview serves.
pub fn guess_mime(path: &str) -> (m: &'static str)
    ensures
        m@ == spec_guess_mime(path@),
{
    let n = path.unicode_len();
    let mut i: usize = n;
    while i > 0 && path.get_char(i - 1) != '.'
        invariant
            n == path@.len(),
            i <= n,
            last_dot(path@, i as int) == last_dot(path@, n as int),
        decreases i,
    {
        i = i - 1;
    }
    if i > 0 {
        let ext = path.substring_char(i, n);
        assert(ext@ =~= path@.skip(i as int));
        if let Some(m) = mime_of(ext) {
            return m;
        }
    }
    "application/octet-stream"
}


/// The highlight.js themes bundled with the application: the stylesheet
/// used when the default themes are configured, and each theme's
/// stylesheet by name, with the default light and dark ones.
pub struct HljsThemes {
    pub default_css: Vec<u8>,
    pub table: Vec<(String, Vec<u8>)>,
    pub default_light: Vec<u8>,
    pub default_dark: Vec<u8>,
}

/// The stylesheet of the first theme with the name, if any.
pub open spec fn theme_css(table: Seq<(String, Vec<u8>)>, name: Seq<char>) -> Option<Seq<u8>>
    decreases table.len(),
{
    if table.len() == 0 {
        None
    } else if table[0].0@ == name {
        Some(table[0].1@)
    } else {
        theme_css(table.drop_first(), name)
    }
}

/// A stylesheet that applies in the light or dark color scheme only.
pub open spec fn media_block(mode: Seq<char>, css: Seq<u8>) -> Seq<u8> {
    vstd::utf8::encode_utf8("@media (prefers-color-scheme: "@ + mode + ") {\n"@) + css + vstd::utf8::encode_utf8("}\n"@)
}

/// The highlight.js stylesheet for the configured themes: the bundled
/// default one for the default themes; the one theme when the same known
/// theme is asked for both schemes; else a light and a dark block, where an
/// unknown theme falls back to the default of its scheme.
pub open spec fn spec_hljs_css(light: Seq<char>, dark: Seq<char>, themes: HljsThemes) -> Seq<u8> {
    if light == "GitHub"@ && dark == "GitHub Dark"@ {
        themes.default_css@
    } else if light == dark && theme_css(themes.table@, light) is Some {
        theme_css(themes.table@, light)->0
    } else {
        media_block("light"@, match theme_css(themes.table@, light) {
            Some(c) => c,
            None => themes.default_light@,
        }) + media_block("dark"@, match theme_css(themes.table@, dark) {
            Some(c) => c,
            None => themes.default_dark@,
        })
    }
}

fn find_theme<'a>(table: &'a Vec<(String, Vec<u8>)>, name: &str) -> (r: Option<&'a Vec<u8>>)
    ensures
        match r {
            Some(c) => theme_css(table@, name@) == Some(c@),
            None => theme_css(table@, name@) is None,
        },
{
    let mut i: usize = 0;
    assert(table@.skip(0) =~= table@);
    while i < table.len()
        invariant
            i <= table@.len(),
            theme_css(table@, name@) == theme_css(table@.skip(i as int), name@),
        decreases table.len() - i,
    {
        assert(table@.skip(i as int).drop_first() =~= table@.skip(i + 1));
        if same_str(table[i].0.as_str(), name) {
            return Some(&table[i].1);
        }
        i = i + 1;
    }
    None
}

fn append_all(out: &mut Vec<u8>, bytes: &[u8])
    ensures
        final(out)@ == old(out)@ + bytes@,
{
    out.extend_from_slice(bytes);
}

fn write_media(out: &mut Vec<u8>, mode: &str, css: &[u8])
    ensures
        final(out)@ == old(out)@ + media_block(mode@, css@),
{
    let mut head = String::from_str("@media (prefers-color-scheme: ");
    head.append(mode);
    head.append(") {\n");
    append_all(out, head.as_str().as_bytes());
    append_all(out, css);
    append_all(out, "}\n".as_bytes());
    assert(out@ =~= old(out)@ + media_block(mode@, css@));
}

/// The highlight.js stylesheet for the configured themes.
pub fn load_hljs_css(hl: &PreviewHighlight, themes: &HljsThemes) -> (css: Vec<u8>)
    ensures
        css@ == spec_hljs_css(hl.light@, hl.dark@, *themes),
{
    if same_str(hl.light.as_str(), "GitHub") && same_str(hl.dark.as_str(), "GitHub Dark") {
        let mut out: Vec<u8> = Vec::new();
        append_all(&mut out, themes.default_css.as_slice());
        assert(out@ =~= themes.default_css@);
        return out;
    }
    let light = find_theme(&themes.table, hl.light.as_str());
    if same_str(hl.light.as_str(), hl.dark.as_str()) {
        match light {
            Some(c) => {
                let mut out: Vec<u8> = Vec::new();
                append_all(&mut out, c.as_slice());
                assert(out@ =~= c@);
                return out;
            },
            None => {},
        }
    }
    let dark = find_theme(&themes.table, hl.dark.as_str());
    let mut out: Vec<u8> = Vec::new();
    match light {
        Some(c) => write_media(&mut out, "light", c.as_slice()),
        None => write_media(&mut out, "light", themes.default_light.as_slice()),
    }
    match dark {
        Some(c) => write_media(&mut out, "dark", c.as_slice()),
        None => write_media(&mut out, "dark", themes.default_dark.as_slice()),
    }
    assert(out@ =~= spec_hljs_css(hl.light@, hl.dark@, *themes));
    out
}

/// What the preview is served for a path: a bundled file, one of the two
/// stylesheets the application chose, or a file read from the disk.
pub enum Served {
    IndexHtml,
    BundleJs,
    BundleJsMap,
    StyleCss,
    LogoPng,
    Bytes(Vec<u8>),
    File(String),
}

/// The stylesheets that the preview uses: the highlight.js one, and the
/// Markdown one (the user's CSS file, or the bundled GitHub style).
pub struct Assets {
    hljs_css: Vec<u8>,
    markdown_css: Vec<u8>,
}

impl Assets {
    /// The assets with the chosen stylesheets.
    pub fn new(hljs_css: Vec<u8>, markdown_css: Vec<u8>) -> (a: Assets)
        ensures
            a.spec_hljs_css() == hljs_css@,
            a.spec_markdown_css() == markdown_css@,
    {
        Assets { hljs_css, markdown_css }
    }

    /// The highlight.js stylesheet.
    pub closed spec fn spec_hljs_css(&self) -> Seq<u8> {
        self.hljs_css@
    }

    /// The Markdown stylesheet.
    pub closed spec fn spec_markdown_css(&self) -> Seq<u8> {
        self.markdown_css@
    }

    /// What is served for a path of the preview, with its MIME type: the
    /// bundled files and stylesheets by their names, any other path read
    /// from the disk.
    pub fn load(&self, path: &str) -> (r: (Served, &'static str))
        ensures
            r.1@ == spec_guess_mime(path@),
            path@ == "/index.html"@ ==> r.0 is IndexHtml,
            path@ == "/bundle.js"@ ==> r.0 is BundleJs,
            path@ == "/bundle.js.map"@ ==> r.0 is BundleJsMap,
            path@ == "/style.css"@ ==> r.0 is StyleCss,
            path@ == "/logo.png"@ ==> r.0 is LogoPng,
            path@ == "/github-markdown.css"@ ==> (r.0 matches Served::Bytes(b) && b@ == self.spec_markdown_css()),
            path@ == "/hljs-theme.css"@ ==> (r.0 matches Served::Bytes(b) && b@ == self.spec_hljs_css()),
            !(path@ == "/index.html"@ || path@ == "/bundle.js"@ || path@ == "/bundle.js.map"@ || path@ == "/style.css"@
                || path@ == "/logo.png"@ || path@ == "/github-markdown.css"@ || path@ == "/hljs-theme.css"@)
                ==> (r.0 matches Served::File(p) && p@ == path@),
    {
        proof {
            reveal_strlit("/index.html");
            reveal_strlit("/bundle.js");
            reveal_strlit("/bundle.js.map");
            reveal_strlit("/style.css");
            reveal_strlit("/logo.png");
            reveal_strlit("/github-markdown.css");
            reveal_strlit("/hljs-theme.css");
            assert("/style.css"@[1] != "/bundle.js"@[1]);
        }
        let mime = guess_mime(path);
        let served = if same_str(path, "/index.html") {
            Served::IndexHtml
        } else if same_str(path, "/bundle.js") {
            Served::BundleJs
        } else if same_str(path, "/style.css") {
            Served::StyleCss
        } else if same_str(path, "/github-markdown.css") {
            let mut b: Vec<u8> = Vec::new();
            append_all(&mut b, self.markdown_css.as_slice());
            assert(b@ =~= self.markdown_css@);
            Served::Bytes(b)
        } else if same_str(path, "/hljs-theme.css") {
            let mut b: Vec<u8> = Vec::new();
            append_all(&mut b, self.hljs_css.as_slice());
            assert(b@ =~= self.hljs_css@);
            Served::Bytes(b)
        } else if same_str(path, "/logo.png") {
            Served::LogoPng
        } else if same_str(path, "/bundle.js.map") {
            Served::BundleJsMap
        } else {
            Served::File(String::from_str(path))
        };
        (served, mime)
    }
}

} // verus!
