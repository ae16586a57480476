use vstd::prelude::*;
use crate::text::same_str;
use vstd::string::*;

verus! {

/// The window theme chosen on the command line.
#[derive(Clone, Copy, PartialEq, Eq, Structural, Debug)]
pub enum ThemeOption {
    System,
    Dark,
    Light,
}

/// The theme that a `--theme` value names: "dark", "light" or "system",
/// in lower case or capitalized.
pub open spec fn spec_theme_option(name: Seq<char>) -> Option<ThemeOption> {
    if name == "dark"@ || name == "Dark"@ {
        Some(ThemeOption::Dark)
    } else if name == "light"@ || name == "Light"@ {
        Some(ThemeOption::Light)
    } else if name == "system"@ || name == "System"@ {
        Some(ThemeOption::System)
    } else {
        None
    }
}

/// The error for a `--theme` value that names no theme.
pub open spec fn theme_error(name: Seq<char>) -> Seq<char> {
    "Value for --theme must be one of \"dark\", \"light\" or \"system\" but got "@ + quoted(name)
}

/// The error for an option's value that looks like an option name.
pub open spec fn option_value_error(v: Seq<char>) -> Seq<char> {
    "Expected option value but got option name "@ + v
}

impl ThemeOption {
    /// Parses a `--theme` value; any other value is an error whose message
    /// names the accepted values.
    pub fn from_name(name: &str) -> (r: Result<ThemeOption, String>)
        ensures
            match spec_theme_option(name@) {
                Some(t) => r == Ok::<ThemeOption, String>(t),
                None => r matches Err(e) && e@ == theme_error(name@),
            },
    {
        if same_str(name, "dark") || same_str(name, "Dark") {
            Ok(ThemeOption::Dark)
        } else if same_str(name, "light") || same_str(name, "Light") {
            Ok(ThemeOption::Light)
        } else if same_str(name, "system") || same_str(name, "System") {
            Ok(ThemeOption::System)
        } else {
            let mut msg = String::from_str("Value for --theme must be one of \"dark\", \"light\" or \"system\" but got ");
            msg.append(quote(name).as_str());
            Err(msg)
        }
    }
}

/// The help text printed for `--help`.
pub const USAGE: &'static str = r#"Usage: shiba [OPTIONS...] [PATH...]

Shiba is a markdown browser to preview documents with your favorite text editor, designed for
simplicity, performance, and keyboard-friendly navigations.

Options:

    -o, --open FILE             Open the file with a new window. This option is repeatable
    -t, --theme THEME           Window theme ("system" (default), "dark" or "light")
        --no-watch              Disable to watch file changes
        --no-restore            Do not restore the previous window state
        --generate-config-file  Generate the default config file overwriting an existing file
        --config-dir PATH       Change the config directory path
        --data-dir PATH         Change the application data directory path
        --no-proc-singleton     Don't reuse an existing application process
        --debug                 Enable debug features
    -h, --help                  Print this help
        --version               Print application version

Arguments:

    PATH...                     Paths to the files and directories to watch. The first file is
                                opened in a preview window. Rest of paths are shown in the preview
                                window when they are modified (e.g. edited by a text editor) next
                                time. If you want to open them in multiple windows, use --open or -o
                                option.

Examples:

    $ shiba file.md
        Opens `file.md` file in a preview window and tracks the file changes.

    $ shiba dir/
        Tracks all files in the `dir` directory. When one of them is modified, it's opened in a
        preview window.

    $ shiba file1.md file2.md dir1 dir2
        Tracks `file1.md`, `file2.md`, files in `dir1` directory, and files in `dir2` directory.
        `file1.md` file is opened in a preview window.

    $ shiba file1.md -o file2.md -o file3.md
        Opens the three files in three windows respectively and tracks the file changes. The first
        file path implies --open option so you don't need to specify it.

    $ shiba
        Opens an empty window. You can open files from key shortcuts, menu items, file picker, etc.

Document:

    https://github.com/rhysd/Shiba/README.md
"#;

/// The options given on the command line. Paths are absolute.
#[derive(Debug)]
pub struct Options {
    pub debug: bool,
    /// The files to open, each in a window of its own.
    pub init_files: Vec<String>,
    /// The paths to watch.
    pub watch_paths: Vec<String>,
    pub watch: bool,
    pub restore: bool,
    pub theme: Option<ThemeOption>,
    pub gen_config_file: bool,
    pub config_dir: Option<String>,
    pub data_dir: Option<String>,
    pub process_singleton: bool,
}

impl Default for Options {
    fn default() -> (o: Self)
        ensures
            !o.debug,
            o.init_files@.len() == 0,
            o.watch_paths@.len() == 0,
            o.watch,
            o.restore,
            o.theme is None,
            !o.gen_config_file,
            o.config_dir is None,
            o.data_dir is None,
            o.process_singleton,
    {
        Options {
            debug: false,
            init_files: Vec::new(),
            watch_paths: Vec::new(),
            watch: true,
            restore: true,
            theme: None,
            gen_config_file: false,
            config_dir: None,
            data_dir: None,
            process_singleton: true,
        }
    }
}

/// The paths that a command line gives, as one process of the application
/// hands them to another: the file to open first, the paths to watch, and
/// the files to open in windows of their own.
#[derive(Debug)]
pub struct PathArgs {
    pub init: Option<String>,
    pub watched: Vec<String>,
    pub additional_windows: Vec<String>,
}

impl Default for PathArgs {
    fn default() -> (a: Self)
        ensures
            a.init is None,
            a.watched@.len() == 0,
            a.additional_windows@.len() == 0,
    {
        PathArgs { init: None, watched: Vec::new(), additional_windows: Vec::new() }
    }
}

impl PathArgs {
    /// Whether no path is given.
    pub open spec fn spec_is_empty(&self) -> bool {
        self.init is None && self.watched@.len() == 0 && self.additional_windows@.len() == 0
    }

    /// Whether no path is given.
    pub fn is_empty(&self) -> (b: bool)
        ensures
            b == self.spec_is_empty(),
    {
        self.init.is_none() && self.watched.len() == 0 && self.additional_windows.len() == 0
    }

    /// What the application starts with: the paths to watch, and the files
    /// to open, one window each, with the additional windows first and the
    /// file to open first last.
    pub fn into_launch(self) -> (r: (Vec<String>, Vec<String>))
        ensures
            r.0@ == self.watched@,
            r.1@ == match self.init {
                Some(p) => self.additional_windows@.push(p),
                None => self.additional_windows@,
            },
    {
        let PathArgs { init, watched, additional_windows } = self;
        let mut files = additional_windows;
        match init {
            Some(p) => files.push(p),
            None => {},
        }
        (watched, files)
    }
}

/// An argument of the command line, as the argument parser splits it.
pub enum CliArg {
    Short(char),
    Long(String),
    Value(String),
}

/// The option that an argument of the command line names.
#[derive(Clone, Copy, PartialEq, Eq, Structural, Debug)]
pub enum CliOption {
    Help,
    Version,
    Theme,
    NoWatch,
    NoRestore,
    GenerateConfigFile,
    ConfigDir,
    DataDir,
    NoProcSingleton,
    Debug,
    Open,
    /// A path to watch or open, given without an option.
    Path,
}

/// The option that an argument names; an argument that names none is an
/// error.
pub open spec fn spec_cli_option(arg: CliArg) -> Option<CliOption> {
    match arg {
        CliArg::Short(c) => if c == 'h' {
            Some(CliOption::Help)
        } else if c == 't' {
            Some(CliOption::Theme)
        } else if c == 'o' {
            Some(CliOption::Open)
        } else {
            None
        },
        CliArg::Long(name) => {
            let n = name@;
            if n == "help"@ {
                Some(CliOption::Help)
            } else if n == "version"@ {
                Some(CliOption::Version)
            } else if n == "theme"@ {
                Some(CliOption::Theme)
            } else if n == "no-watch"@ {
                Some(CliOption::NoWatch)
            } else if n == "no-restore"@ {
                Some(CliOption::NoRestore)
            } else if n == "generate-config-file"@ {
                Some(CliOption::GenerateConfigFile)
            } else if n == "config-dir"@ {
                Some(CliOption::ConfigDir)
            } else if n == "data-dir"@ {
                Some(CliOption::DataDir)
            } else if n == "no-proc-singleton"@ {
                Some(CliOption::NoProcSingleton)
            } else if n == "debug"@ {
                Some(CliOption::Debug)
            } else if n == "open"@ {
                Some(CliOption::Open)
            } else {
                None
            }
        },
        CliArg::Value(_) => Some(CliOption::Path),
    }
}

/// The option that an argument names, if any.
pub fn cli_option(arg: &CliArg) -> (o: Option<CliOption>)
    ensures
        o == spec_cli_option(*arg),
{
    match arg {
        CliArg::Short(c) => {
            if *c == 'h' {
                Some(CliOption::Help)
            } else if *c == 't' {
                Some(CliOption::Theme)
            } else if *c == 'o' {
                Some(CliOption::Open)
            } else {
                None
            }
        },
        CliArg::Long(name) => {
            let n = name.as_str();
            if same_str(n, "help") {
                Some(CliOption::Help)
            } else if same_str(n, "version") {
                Some(CliOption::Version)
            } else if same_str(n, "theme") {
                Some(CliOption::Theme)
            } else if same_str(n, "no-watch") {
                Some(CliOption::NoWatch)
            } else if same_str(n, "no-restore") {
                Some(CliOption::NoRestore)
            } else if same_str(n, "generate-config-file") {
                Some(CliOption::GenerateConfigFile)
            } else if same_str(n, "config-dir") {
                Some(CliOption::ConfigDir)
            } else if same_str(n, "data-dir") {
                Some(CliOption::DataDir)
            } else if same_str(n, "no-proc-singleton") {
                Some(CliOption::NoProcSingleton)
            } else if same_str(n, "debug") {
                Some(CliOption::Debug)
            } else if same_str(n, "open") {
                Some(CliOption::Open)
            } else {
                None
            }
        },
        CliArg::Value(_) => Some(CliOption::Path),
    }
}

impl CliOption {
    /// Whether the option takes the next argument as its value.
    pub open spec fn spec_takes_value(self) -> bool {
        self == CliOption::Theme || self == CliOption::ConfigDir || self == CliOption::DataDir || self == CliOption::Open
    }

    /// Whether the option takes the next argument as its value.
    pub fn takes_value(self) -> (b: bool)
        ensures
            b == self.spec_takes_value(),
    {
        match self {
            CliOption::Theme | CliOption::ConfigDir | CliOption::DataDir | CliOption::Open => true,
            _ => false,
        }
    }
}

/// What the file system says of a path given on the command line: whether
/// it exists, whether it is a directory, and its absolute path (the
/// canonical one when it exists, else the path under the current
/// directory).
pub struct PathFacts {
    pub exists: bool,
    pub is_dir: bool,
    pub absolute: String,
}

/// A path written in an error message, between double quotes.
pub open spec fn quoted(path: Seq<char>) -> Seq<char> {
    seq!['"'] + path + seq!['"']
}

fn quote(path: &str) -> (s: String)
    ensures
        s@ == quoted(path@),
{
    let mut s = String::from_str("\"");
    s.append(path);
    s.append("\"");
    proof {
        reveal_strlit("\"");
    }
    s
}

impl Options {
    /// Adds a path given on the command line: the first existing file is the
    /// file to open, unless a file was given with `--open`; directories,
    /// paths that do not exist and later files are watched.
    pub fn add_path(&mut self, path: String, path_exists: bool, is_dir: bool)
        ensures
            old(self).init_files@.len() > 0 || !path_exists || is_dir ==> {
                &&& final(self).watch_paths@ == old(self).watch_paths@.push(path)
                &&& final(self).init_files@ == old(self).init_files@
            },
            !(old(self).init_files@.len() > 0 || !path_exists || is_dir) ==> {
                &&& final(self).watch_paths@ == old(self).watch_paths@
                &&& final(self).init_files@ == old(self).init_files@.push(path)
            },
            final(self).debug == old(self).debug,
            final(self).watch == old(self).watch,
            final(self).restore == old(self).restore,
            final(self).theme == old(self).theme,
            final(self).gen_config_file == old(self).gen_config_file,
            final(self).config_dir == old(self).config_dir,
            final(self).data_dir == old(self).data_dir,
            final(self).process_singleton == old(self).process_singleton,
    {
        if self.init_files.len() > 0 || !path_exists || is_dir {
            self.watch_paths.push(path);
        } else {
            self.init_files.push(path);
        }
    }

    /// Applies an option of the command line, with the value it took and,
    /// for a path, what the file system says of it. Help and the version
    /// end the parsing: what to print is given back. A theme must be one of
    /// the names; a path option's value must not look like an option; a
    /// file given with `--open` must exist and not be a directory.
    pub fn apply(&mut self, opt: CliOption, value: Option<String>, facts: Option<PathFacts>) -> (r: Result<Option<Parsed>, String>)
        requires
            opt.spec_takes_value() || opt == CliOption::Path ==> value is Some,
        ensures
            match opt {
                CliOption::Help => r matches Ok(Some(Parsed::Help(u))) && u@ == USAGE@,
                CliOption::Version => r matches Ok(Some(Parsed::Version)),
                _ => r matches Ok(None) || r is Err,
            },
            r is Err <==> match opt {
                CliOption::Theme => spec_theme_option(value.unwrap()@) is None,
                CliOption::ConfigDir | CliOption::DataDir => value.unwrap()@.len() > 0 && value.unwrap()@[0] == '-',
                CliOption::Open => (value.unwrap()@.len() > 0 && value.unwrap()@[0] == '-')
                    || facts is None || !facts.unwrap().exists || facts.unwrap().is_dir,
                CliOption::Path => facts is None,
                _ => false,
            },
            match r {
                Err(e) => (opt == CliOption::Theme ==> e@ == theme_error(value.unwrap()@))
                    && ((opt == CliOption::ConfigDir || opt == CliOption::DataDir || opt == CliOption::Open)
                        && value.unwrap()@.len() > 0 && value.unwrap()@[0] == '-' ==> e@ == option_value_error(value.unwrap()@))
                    && (opt == CliOption::Open && !(value.unwrap()@.len() > 0 && value.unwrap()@[0] == '-') && facts is Some ==>
                    if facts.unwrap().exists && facts.unwrap().is_dir {
                        e@ == "--open only works with files but directory found: "@ + quoted(value.unwrap()@)
                    } else {
                        e@ == "Could not open the file for --open: "@ + quoted(value.unwrap()@)
                    }),
                _ => true,
            },
            r matches Ok(None) ==> {
                &&& final(self).debug == (old(self).debug || opt == CliOption::Debug)
                &&& final(self).watch == (old(self).watch && opt != CliOption::NoWatch)
                &&& final(self).restore == (old(self).restore && opt != CliOption::NoRestore)
                &&& final(self).gen_config_file == (old(self).gen_config_file || opt == CliOption::GenerateConfigFile)
                &&& final(self).process_singleton == (old(self).process_singleton && opt != CliOption::NoProcSingleton)
                &&& final(self).theme == if opt == CliOption::Theme {
                    spec_theme_option(value.unwrap()@)
                } else {
                    old(self).theme
                }
                &&& final(self).config_dir == if opt == CliOption::ConfigDir { value } else { old(self).config_dir }
                &&& final(self).data_dir == if opt == CliOption::DataDir { value } else { old(self).data_dir }
                &&& final(self).init_files@ == if opt == CliOption::Open {
                    old(self).init_files@.push(facts.unwrap().absolute)
                } else if opt == CliOption::Path && !(old(self).init_files@.len() > 0 || !facts.unwrap().exists || facts.unwrap().is_dir) {
                    old(self).init_files@.push(facts.unwrap().absolute)
                } else {
                    old(self).init_files@
                }
                &&& final(self).watch_paths@ == if opt == CliOption::Path && (old(self).init_files@.len() > 0 || !facts.unwrap().exists || facts.unwrap().is_dir) {
                    old(self).watch_paths@.push(facts.unwrap().absolute)
                } else {
                    old(self).watch_paths@
                }
            },
    {
        match opt {
            CliOption::Help => Ok(Some(Parsed::Help(USAGE))),
            CliOption::Version => Ok(Some(Parsed::Version)),
            CliOption::Theme => {
                let v = match value {
                    Some(v) => v,
                    None => String::new(),
                };
                match ThemeOption::from_name(v.as_str()) {
                    Ok(t) => {
                        self.theme = Some(t);
                        Ok(None)
                    },
                    Err(e) => Err(e),
                }
            },
            CliOption::NoWatch => {
                self.watch = false;
                Ok(None)
            },
            CliOption::NoRestore => {
                self.restore = false;
                Ok(None)
            },
            CliOption::GenerateConfigFile => {
                self.gen_config_file = true;
                Ok(None)
            },
            CliOption::NoProcSingleton => {
                self.process_singleton = false;
                Ok(None)
            },
            CliOption::Debug => {
                self.debug = true;
                Ok(None)
            },
            CliOption::ConfigDir | CliOption::DataDir => {
                let v = match value {
                    Some(v) => v,
                    None => String::new(),
                };
                match path_value(v.as_str()) {
                    Err(e) => Err(e),
                    Ok(_) => {
                        if opt == CliOption::ConfigDir {
                            self.config_dir = Some(v);
                        } else {
                            self.data_dir = Some(v);
                        }
                        Ok(None)
                    },
                }
            },
            CliOption::Open => {
                let v = match value {
                    Some(v) => v,
                    None => String::new(),
                };
                match path_value(v.as_str()) {
                    Err(e) => Err(e),
                    Ok(_) => match facts {
                        None => Err(String::from_str("Could not open the file for --open")),
                        Some(f) => {
                            if f.exists && f.is_dir {
                                let mut e = String::from_str("--open only works with files but directory found: ");
                                e.append(quote(v.as_str()).as_str());
                                Err(e)
                            } else if !f.exists {
                                let mut e = String::from_str("Could not open the file for --open: ");
                                e.append(quote(v.as_str()).as_str());
                                Err(e)
                            } else {
                                self.init_files.push(f.absolute);
                                Ok(None)
                            }
                        },
                    },
                }
            },
            CliOption::Path => match facts {
                None => Err(String::from_str("Could not find the path")),
                Some(f) => {
                    self.add_path(f.absolute, f.exists, f.is_dir);
                    Ok(None)
                },
            },
        }
    }
}

/// The value of an option that takes a path: a value that looks like an
/// option name is an error.
pub fn path_value(v: &str) -> (r: Result<&str, String>)
    ensures
        v@.len() > 0 && v@[0] == '-' ==> (r matches Err(e) && e@ == option_value_error(v@)),
        !(v@.len() > 0 && v@[0] == '-') ==> r == Ok::<&str, String>(v),
{
    if v.unicode_len() > 0 && v.get_char(0) == '-' {
        let mut msg = String::from_str("Expected option value but got option name ");
        msg.append(v);
        Err(msg)
    } else {
        Ok(v)
    }
}

/// What the command line asks for: to run with options, to print help, or
/// to print the version.
#[derive(Debug)]
pub enum Parsed {
    Options(Options),
    Help(&'static str),
    Version,
}

} // verus!
