use shiba_preview::cli::{cli_option, path_value, CliArg, CliOption, Options, Parsed, PathFacts, ThemeOption, USAGE};
use shiba_preview::config::{dialog_dir, default_key_mappings, FileExtensions, Preview, SearchMatcher, Watch};
use shiba_preview::persistent::{DataDir, RecentFiles, SerializeRecentFiles, HISTORY_FILE, WINDOW_STATE_FILE};
use shiba_preview::preview::Preview as DocPreview;
use shiba_preview::content::MarkdownContent;
use shiba_preview::assets::guess_mime;
use shiba_preview::watcher::PathFilter;
use shiba_preview::zoom::ZoomLevel;
use std::collections::HashMap;

#[test]
fn renderer_zoom_level_percent() {
    assert_eq!(ZoomLevel::default().percent(), 100);
    assert_eq!(ZoomLevel(0).percent(), 25);
    assert_eq!(ZoomLevel(ZoomLevel::MAX).percent(), 300);
}

#[test]
fn zoom_level_percent() {
    assert_eq!(ZoomLevel::default().percent(), 100);
    assert_eq!(ZoomLevel(0).percent(), 25);
    assert_eq!(ZoomLevel(ZoomLevel::MAX).percent(), 300);
}

#[test]
fn renderer_zoom_in() {
    let mut z = ZoomLevel(0);
    let mut prev = z.percent();
    for _ in 0..ZoomLevel::MAX {
        z = z.zoom_in().unwrap();
        assert!(prev < z.percent());
        prev = z.percent();
    }
    assert_eq!(z.zoom_in(), None);
}

#[test]
fn renderer_zoom_out() {
    let mut z = ZoomLevel(ZoomLevel::MAX);
    let mut prev = z.percent();
    for _ in 0..ZoomLevel::MAX {
        z = z.zoom_out().unwrap();
        assert!(prev > z.percent());
        prev = z.percent();
    }
    assert_eq!(z.zoom_out(), None);
}

#[test]
fn renderer_default_zoom_level() {
    assert_eq!(ZoomLevel::default(), ZoomLevel(7));
}

#[test]
fn config_default_key_mappings() {
    let mut m = HashMap::new();
    for (bind, a1) in default_key_mappings() {
        if let Some(a2) = m.get(bind) {
            panic!("default mapping {} conflicts: {:?} vs {:?}", bind, a1, a2);
        }
        if let Some(i) = bind.find('+') {
            let modifier = &bind[..i];
            assert!(matches!(modifier, "ctrl" | "alt"), "invalid modifier {:?}", modifier);
        }
        m.insert(bind, a1);
    }
}

#[test]
fn match_file_extensions() {
    let exts = FileExtensions::default();
    for path in ["foo.md", "foo.mkd", "foo.markdown", "/path/to/foo.md", "/path/to/foo.mkd", "/path/to/foo.markdown"] {
        assert!(exts.matches(path), "{path:?}");
    }
    for path in ["foo", "foo.txt", "/path/to/foo", "/path/to/foo.txt"] {
        assert!(!exts.matches(path), "{path:?}");
    }
    assert_eq!(exts.as_slice(), &["md".to_string(), "mkd".to_string(), "markdown".to_string()]);
}

#[test]
fn config_defaults() {
    let watch = Watch::default();
    assert_eq!(watch.debounce_throttle(), 50);
    assert_eq!(watch.file_extensions().as_slice().len(), 3);
    let preview = Preview::default();
    assert_eq!(preview.highlight().dark, "GitHub Dark");
    assert_eq!(preview.highlight().light, "GitHub");
    assert_eq!(preview.css_path(), None);
    assert_eq!(SearchMatcher::default(), SearchMatcher::SmartCase);
}

#[test]
fn parse_theme_name() {
    assert_eq!(ThemeOption::from_name("dark").unwrap(), ThemeOption::Dark);
    assert_eq!(ThemeOption::from_name("Light").unwrap(), ThemeOption::Light);
    assert_eq!(ThemeOption::from_name("system").unwrap(), ThemeOption::System);
    let msg = ThemeOption::from_name("foo").unwrap_err();
    assert!(msg.contains(r#"Value for --theme must be one of "dark", "light" or "system"#), "unexpected message {msg:?}");
}

#[test]
fn cli_parse_invalid_option_arg() {
    let err = path_value("--debug").unwrap_err();
    assert!(err.contains("Expected option value but got option name --debug"), "{err:?}");
    assert_eq!(path_value("some-dir").unwrap(), "some-dir");
    for arg in ["--config-dir", "--data-dir", "--open", "-o"] {
        let cli_arg = match arg.strip_prefix("--") {
            Some(name) => CliArg::Long(name.to_string()),
            None => CliArg::Short(arg.chars().nth(1).unwrap()),
        };
        let opt = cli_option(&cli_arg).unwrap();
        assert!(opt.takes_value());
        let mut opts = Options::default();
        let err = opts.apply(opt, Some("--debug".to_string()), None).unwrap_err();
        assert_eq!(err, "Expected option value but got option name --debug", "unexpected message {err:?} for {arg:?}");
    }
}

#[test]
fn cli_help_option() {
    let mut opts = Options::default();
    let opt = cli_option(&CliArg::Long("help".to_string())).unwrap();
    match opts.apply(opt, None, None).unwrap() {
        Some(Parsed::Help(help)) => assert_eq!(help, USAGE),
        p => panic!("unexpected parse result: {p:?}"),
    }
    assert_eq!(cli_option(&CliArg::Short('h')), Some(CliOption::Help));
}

#[test]
fn parse_invalid_theme_name() {
    let mut opts = Options::default();
    let err = opts.apply(CliOption::Theme, Some("foo".to_string()), None).unwrap_err();
    assert!(
        err.contains(r#"Value for --theme must be one of "dark", "light" or "system""#),
        "unexpected message {err:?}",
    );
}

#[test]
fn parse_invalid_open_arg() {
    for (arg, facts, expected) in [
        (".", PathFacts { exists: true, is_dir: true, absolute: "/cur".to_string() }, "--open only works with files but directory found"),
        ("not-existing.md", PathFacts { exists: false, is_dir: false, absolute: "not-existing.md".to_string() }, "Could not open the file for --open"),
        ("", PathFacts { exists: false, is_dir: false, absolute: String::new() }, "Could not open the file for --open"),
    ] {
        let mut opts = Options::default();
        let msg = opts.apply(CliOption::Open, Some(arg.to_string()), Some(facts)).unwrap_err();
        assert!(msg.contains(expected), "argument {arg:?} does not cause expected message {expected:?}: {msg:?}");
    }
}

#[test]
fn options_from_arguments() {
    let mut opts = Options::default();
    let args = [
        (CliArg::Long("no-watch".to_string()), None, None),
        (CliArg::Long("no-restore".to_string()), None, None),
        (CliArg::Long("debug".to_string()), None, None),
        (CliArg::Long("generate-config-file".to_string()), None, None),
        (CliArg::Long("no-proc-singleton".to_string()), None, None),
        (CliArg::Short('t'), Some("light"), None),
        (CliArg::Long("config-dir".to_string()), Some("some-dir"), None),
        (CliArg::Long("data-dir".to_string()), Some("other-dir"), None),
        (CliArg::Value("README.md".to_string()), Some("README.md"), Some((true, false, "/cur/README.md"))),
        (CliArg::Short('o'), Some("LICENSE"), Some((true, false, "/cur/LICENSE"))),
        (CliArg::Value("src".to_string()), Some("src"), Some((true, true, "/cur/src"))),
    ];
    for (arg, value, facts) in args {
        let opt = cli_option(&arg).unwrap();
        let facts = facts.map(|(exists, is_dir, absolute): (bool, bool, &str)| PathFacts { exists, is_dir, absolute: absolute.to_string() });
        assert!(opts.apply(opt, value.map(|v| v.to_string()), facts).unwrap().is_none());
    }
    assert!(!opts.watch && !opts.restore && opts.debug && opts.gen_config_file && !opts.process_singleton);
    assert_eq!(opts.theme, Some(ThemeOption::Light));
    assert_eq!(opts.config_dir.as_deref(), Some("some-dir"));
    assert_eq!(opts.data_dir.as_deref(), Some("other-dir"));
    assert_eq!(opts.init_files, vec!["/cur/README.md", "/cur/LICENSE"]);
    assert_eq!(opts.watch_paths, vec!["/cur/src"]);
    assert!(matches!(opts.apply(CliOption::Version, None, None), Ok(Some(Parsed::Version))));
    assert_eq!(cli_option(&CliArg::Long("foo".to_string())), None);
    assert_eq!(cli_option(&CliArg::Short('f')), None);
}

#[test]
fn first_existing_file_is_opened_and_others_watched() {
    let mut opts = Options::default();
    opts.add_path("/a/README.md".into(), true, false);
    opts.add_path("/a/src".into(), true, true);
    opts.add_path("/a/missing.md".into(), false, false);
    opts.add_path("/a/CHANGELOG.md".into(), true, false);
    assert_eq!(opts.init_files, vec!["/a/README.md"]);
    assert_eq!(opts.watch_paths, vec!["/a/src", "/a/missing.md", "/a/CHANGELOG.md"]);
}

#[test]
fn recent_files_are_unique_and_bounded() {
    let paths: Vec<String> = ["a", "b", "a", "c", "b", "d"].iter().map(|s| s.to_string()).collect();
    let saved = SerializeRecentFiles::new(&paths, 3);
    assert_eq!(saved.paths, vec!["a", "b", "c"]);
    let saved = SerializeRecentFiles::new(&paths, 10);
    assert_eq!(saved.paths, vec!["a", "b", "c", "d"]);

    let mut loaded = RecentFiles { paths: paths.clone() };
    loaded.configure(2);
    assert_eq!(loaded.paths, vec!["b", "d"]);
    let mut loaded = RecentFiles { paths };
    loaded.configure(100);
    assert_eq!(loaded.paths.len(), 6);
}

#[test]
fn no_data_dir() {
    let dir = DataDir::new(None);
    assert_eq!(dir.path(), None);
    let dir = DataDir::new(Some("/data/Shiba".into()));
    assert_eq!(dir.path(), Some("/data/Shiba"));
}

#[test]
fn default_dir() {
    let dir = DataDir::default();
    let Some(path) = dir.path() else {
        return; // Data directory was not found
    };
    assert!(path.ends_with("Shiba"), "path={path:?}");
}

#[test]
fn persistent_files_in_data_dir() {
    let dir = DataDir::new(Some("/data/Shiba".into()));
    assert_eq!(dir.file_path(HISTORY_FILE).as_deref(), Some("/data/Shiba/history.json"));
    assert_eq!(dir.file_path(WINDOW_STATE_FILE).as_deref(), Some("/data/Shiba/window.json"));
    assert_eq!(DataDir::new(None).file_path(HISTORY_FILE), None);
}

#[test]
fn data_dir_under_platform_dir() {
    assert_eq!(DataDir::under(Some("/home/u/.local/share".into())).path(), Some("/home/u/.local/share/Shiba"));
    assert_eq!(DataDir::under(Some("/data/".into())).path(), Some("/data/Shiba"));
    assert_eq!(DataDir::under(None).path(), None);
}

#[test]
fn guess_mime_types() {
    assert_eq!(guess_mime("/index.html"), "text/html;charset=UTF-8");
    assert_eq!(guess_mime("/bundle.js"), "text/javascript;charset=UTF-8");
    assert_eq!(guess_mime("/logo.png"), "image/png");
    assert_eq!(guess_mime("a/b.c/photo.JPG"), "application/octet-stream");
    assert_eq!(guess_mime("a/photo.jpeg"), "image/jpeg");
    assert_eq!(guess_mime("/bundle.js.map"), "text/plain;charset=UTF-8");
    assert_eq!(guess_mime("this-file-does-not-exist"), "application/octet-stream");
}

#[test]
fn path_filter_debounce() {
    let mut filter = PathFilter::new(&Watch::default());
    assert!(filter.should_retain("/foo/bar.md", true, 1000));
    assert!(!filter.should_retain("/foo/bar.md", true, 1020));
    assert!(filter.should_retain("/foo/bar.md", true, 1100));
    assert!(!filter.should_retain("/foo/bar.txt", true, 5000));
    assert!(!filter.should_retain("/foo/dir.md", false, 5000));
    filter.cleanup_debouncer(2000);
    assert!(filter.should_retain("/foo/bar.md", true, 2010));
}

#[test]
fn preview_title_and_update() {
    let mut p = DocPreview::new(Some("/home/u".into()));
    assert!(p.is_empty());
    assert_eq!(p.home_dir(), Some("/home/u"));
    let (is_new, offset) = p.update("/home/u/doc/a.md", MarkdownContent::new("abc".into(), Some("/home/u/doc"))).unwrap();
    assert!(is_new);
    assert_eq!(offset, None);
    assert_eq!(p.title(), "Shiba: ~/doc/a.md");
    let (is_new, offset) = p.update("/home/u/doc/a.md", MarkdownContent::new("abd".into(), Some("/home/u/doc"))).unwrap();
    assert!(!is_new);
    assert_eq!(offset, Some(2));
    p.update("/tmp/x.md", MarkdownContent::new(String::new(), Some("/tmp"))).unwrap();
    assert_eq!(p.title(), "Shiba: /tmp/x.md");
    p.update("/home/username/x.md", MarkdownContent::new(String::new(), None)).unwrap();
    assert_eq!(p.title(), "Shiba: /home/username/x.md");
}

#[test]
fn reflect_option_in_config() {
    let mut user = shiba_preview::config::UserConfig::default();
    user.window.theme = shiba_preview::config::WindowTheme::Dark;
    user.window.restore = true;
    let opts = Options {
        debug: true,
        theme: Some(ThemeOption::Light), // Theme in config is overwritten
        config_dir: Some("/conf".to_string()),
        data_dir: Some("/data".to_string()),
        restore: false,
        ..Default::default()
    };
    let cfg = shiba_preview::config::Config::new(user, &opts, Some("/conf".to_string()), DataDir::new(Some("/data".to_string())));
    assert!(cfg.debug());
    assert_eq!(cfg.window().theme, shiba_preview::config::WindowTheme::Light);
    assert!(!cfg.window().restore);
    assert_eq!(cfg.config_dir(), Some("/conf"));
    assert_eq!(cfg.data_dir().path(), Some("/data"));
    assert_eq!(cfg.keymaps().len(), 20);
}

#[test]
fn dialog_directory_from_config() {
    assert_eq!(dialog_dir("null", Some("/home/u")), None);
    assert_eq!(dialog_dir("~/docs", Some("/home/u")).as_deref(), Some("/home/u/docs"));
    assert_eq!(dialog_dir("~/docs", Some("/home/u/")).as_deref(), Some("/home/u/docs"));
    assert_eq!(dialog_dir("~/docs", None), None);
    assert_eq!(dialog_dir("/var/tmp", None).as_deref(), Some("/var/tmp"));
}

#[test]
fn path_filter_retain() {
    let mut filter = PathFilter::new(&Watch::default());
    assert!(filter.should_retain("README.md", true, 0));
    assert!(!filter.should_retain("README.md", true, 0)); // Debounced
    assert!(!filter.should_retain("Cargo.toml", true, 0));
    assert!(!filter.should_retain("this-file-does-not-exist.md", false, 0));
}

/// Splits a command line with lexopt and applies each option. The paths are
/// looked up in a small file system under `/cur`: `src` is a directory,
/// a name with `not-existing` in it does not exist, any other is a file.
fn parse(args: &[&str]) -> Result<Parsed, String> {
    let mut opts = Options::default();
    let argv = std::iter::once("shiba".to_string()).chain(args.iter().map(|s| s.to_string()));
    let mut parser = lexopt::Parser::from_iter(argv);
    while let Some(arg) = parser.next().map_err(|e| e.to_string())? {
        let cli_arg = match &arg {
            lexopt::Arg::Short(c) => CliArg::Short(*c),
            lexopt::Arg::Long(n) => CliArg::Long(n.to_string()),
            lexopt::Arg::Value(v) => CliArg::Value(v.to_string_lossy().into_owned()),
        };
        let Some(opt) = cli_option(&cli_arg) else {
            return Err(arg.unexpected().to_string());
        };
        let value = if opt.takes_value() {
            Some(parser.value().map_err(|e| e.to_string())?.into_string().unwrap())
        } else if let CliArg::Value(v) = cli_arg {
            Some(v)
        } else {
            None
        };
        let facts = match (opt, &value) {
            (CliOption::Open | CliOption::Path, Some(v)) => Some(PathFacts {
                exists: !v.contains("not-existing"),
                is_dir: v == "src",
                absolute: format!("/cur/{v}"),
            }),
            _ => None,
        };
        if let Some(parsed) = opts.apply(opt, value, facts)? {
            return Ok(parsed);
        }
    }
    Ok(Parsed::Options(opts))
}

#[test]
fn version_option() {
    match parse(&["--version"]).unwrap() {
        Parsed::Version => {}
        p => panic!("unexpected parse result: {p:?}"),
    }
}

#[test]
fn cli_parse_unknown_option() {
    for arg in ["--foo", "-f"] {
        let have = parse(&[arg]).unwrap_err();
        let want = format!("invalid option '{arg}'");
        assert_eq!(have, want, "unexpected message {have:?}");
    }
}

#[test]
fn cli_parse_missing_option_arg() {
    for arg in ["--config-dir", "--data-dir", "--theme", "--open", "-o"] {
        let err = parse(&["--debug", arg]).unwrap_err();
        assert_eq!(err, format!("missing argument for option '{arg}'"), "unexpected message {err:?} for {arg:?}");
    }
}

#[test]
fn files_and_directories_from_the_command_line() {
    match parse(&["README.md", "-o", "CHANGELOG.md", "--open", "LICENSE", "--no-watch"]).unwrap() {
        Parsed::Options(opts) => {
            assert_eq!(opts.init_files, vec!["/cur/README.md", "/cur/CHANGELOG.md", "/cur/LICENSE"]);
            assert!(!opts.watch);
        }
        p => panic!("unexpected parse result: {p:?}"),
    }
}

#[test]
fn cli_parse_args_ok() {
    let cur = |p: &str| format!("/cur/{p}");
    let default = Options::default;
    let with = |f: &dyn Fn(&mut Options)| {
        let mut o = Options::default();
        f(&mut o);
        o
    };
    let tests: Vec<(&[&str], Options)> = vec![
        (&[], default()),
        (&["README.md"], with(&|o| o.init_files = vec![cur("README.md")])),
        (&["README.md", "src"], with(&|o| {
            o.init_files = vec![cur("README.md")];
            o.watch_paths = vec![cur("src")];
        })),
        (&["file-not-existing.md"], with(&|o| o.watch_paths = vec![cur("file-not-existing.md")])),
        (&["file-not-existing.md", "README.md"], with(&|o| {
            o.init_files = vec![cur("README.md")];
            o.watch_paths = vec![cur("file-not-existing.md")];
        })),
        (&["--no-watch"], with(&|o| o.watch = false)),
        (&["--no-restore"], with(&|o| o.restore = false)),
        (&["--debug"], with(&|o| o.debug = true)),
        (&["--generate-config-file"], with(&|o| o.gen_config_file = true)),
        (&["--theme", "dark"], with(&|o| o.theme = Some(ThemeOption::Dark))),
        (&["--theme", "light"], with(&|o| o.theme = Some(ThemeOption::Light))),
        (&["--theme", "system"], with(&|o| o.theme = Some(ThemeOption::System))),
        (&["--config-dir", "some-dir"], with(&|o| o.config_dir = Some("some-dir".to_string()))),
        (&["--data-dir", "some-dir"], with(&|o| o.data_dir = Some("some-dir".to_string()))),
        (&["README.md", "-o", "CHANGELOG.md", "--open", "LICENSE"], with(&|o| {
            o.init_files = vec![cur("README.md"), cur("CHANGELOG.md"), cur("LICENSE")];
        })),
        (&["-o", "README.md", "CHANGELOG.md", "-o", "LICENSE"], with(&|o| {
            o.init_files = vec![cur("README.md"), cur("LICENSE")];
            o.watch_paths = vec![cur("CHANGELOG.md")];
        })),
        (&["--no-proc-singleton"], with(&|o| o.process_singleton = false)),
    ];
    for (args, want) in tests {
        match parse(args).unwrap() {
            Parsed::Options(opts) => {
                assert_eq!(opts.debug, want.debug, "args={args:?}");
                assert_eq!(opts.init_files, want.init_files, "args={args:?}");
                assert_eq!(opts.watch_paths, want.watch_paths, "args={args:?}");
                assert_eq!(opts.watch, want.watch, "args={args:?}");
                assert_eq!(opts.restore, want.restore, "args={args:?}");
                assert_eq!(opts.theme, want.theme, "args={args:?}");
                assert_eq!(opts.gen_config_file, want.gen_config_file, "args={args:?}");
                assert_eq!(opts.config_dir, want.config_dir, "args={args:?}");
                assert_eq!(opts.data_dir, want.data_dir, "args={args:?}");
                assert_eq!(opts.process_singleton, want.process_singleton, "args={args:?}");
            }
            p => panic!("unexpected parse result: {p:?}"),
        }
    }
}

#[test]
fn config_file_is_looked_for_in_config_dir() {
    let opts = Options::default();
    let cfg = shiba_preview::config::Config::new(shiba_preview::config::UserConfig::default(), &opts, Some("/conf/Shiba".to_string()), DataDir::new(None));
    assert_eq!(
        cfg.config_file_candidates(),
        Ok(vec!["/conf/Shiba/config.yml".to_string(), "/conf/Shiba/config.yaml".to_string()])
    );
    let cfg = shiba_preview::config::Config::new(shiba_preview::config::UserConfig::default(), &opts, None, DataDir::new(None));
    assert_eq!(
        cfg.config_file_candidates(),
        Err("Configuration directory cannot be determined. Try --config-dir".to_string())
    );
}

#[test]
fn config_dir_from_option_or_platform() {
    assert_eq!(shiba_preview::config::config_dir_of(Some("/my/conf".to_string())).as_deref(), Some("/my/conf"));
    if let Some(dir) = shiba_preview::config::config_dir_of(None) {
        assert!(dir.ends_with("/Shiba"), "dir={dir:?}");
    }
}
