use crate::config::FileExtensions;
use vstd::prelude::*;
use vstd::string::*;

verus! {

/// The level of a message shown in a dialog.
#[derive(Clone, Copy, PartialEq, Eq, Structural, Debug)]
pub enum DialogMessageLevel {
    Error,
}

/// The system's file dialogs, which offer the previewed file extensions and
/// start in a directory.
pub struct SystemDialog {
    pub extensions: FileExtensions,
    pub start_dir: Option<String>,
}

/// A file dialog to show: its title, the files it offers by a named list of
/// extensions, and the directory it starts in. Every one lets the user
/// create directories.
#[derive(Debug)]
pub struct FileDialogRequest {
    pub title: String,
    pub filter: Option<(String, Vec<String>)>,
    pub start_dir: Option<String>,
}

/// Strings as values.
pub open spec fn string_views(v: Seq<String>) -> Seq<Seq<char>> {
    v.map_values(|s: String| s@)
}

fn copy_strings(v: &Vec<String>) -> (r: Vec<String>)
    ensures
        string_views(r@) == string_views(v@),
{
    let mut r: Vec<String> = Vec::new();
    let mut i: usize = 0;
    while i < v.len()
        invariant
            i <= v@.len(),
            string_views(r@) == string_views(v@.take(i as int)),
        decreases v.len() - i,
    {
        let ghost before = r@;
        r.push(v[i].clone());
        proof {
            assert(v@.take(i + 1) =~= v@.take(i as int).push(v@[i as int]));
            assert(r@ =~= before.push(r@.last()));
            assert(string_views(r@) =~= string_views(before).push(v@[i as int]@));
        }
        i = i + 1;
    }
    assert(v@.take(i as int) =~= v@);
    r
}

impl SystemDialog {
    /// The start directory, which only the first dialog starts in.
    fn take_start_dir(&mut self) -> (d: Option<String>)
        ensures
            d == old(self).start_dir,
            final(self).start_dir is None,
            final(self).extensions == old(self).extensions,
    {
        let mut d = None;
        std::mem::swap(&mut d, &mut self.start_dir);
        d
    }

    /// The dialog that picks documents to preview: it offers the files with
    /// the previewed extensions, and starts in the start directory the
    /// first time.
    pub fn files_request(&mut self) -> (r: FileDialogRequest)
        ensures
            r.title@ == "Open files to preview"@,
            r.filter matches Some((name, exts)) && name@ == "Markdown"@
                && string_views(exts@) == old(self).extensions.spec_extensions(),
            r.start_dir == old(self).start_dir,
            final(self).start_dir is None,
            final(self).extensions == old(self).extensions,
    {
        let start_dir = self.take_start_dir();
        let exts = copy_strings(&self.extensions.0);
        FileDialogRequest {
            title: String::from_str("Open files to preview"),
            filter: Some((String::from_str("Markdown"), exts)),
            start_dir,
        }
    }

    /// The dialog that picks directories to watch: it starts in the start
    /// directory the first time.
    pub fn dirs_request(&mut self) -> (r: FileDialogRequest)
        ensures
            r.title@ == "Choose directories to watch"@,
            r.filter is None,
            r.start_dir == old(self).start_dir,
            final(self).start_dir is None,
            final(self).extensions == old(self).extensions,
    {
        let start_dir = self.take_start_dir();
        FileDialogRequest { title: String::from_str("Choose directories to watch"), filter: None, start_dir }
    }
}

/// The lines that name the causes of an error, each on a line of its own
/// after what they caused.
pub open spec fn caused_by(causes: Seq<Seq<char>>) -> Seq<char>
    decreases causes.len(),
{
    if causes.len() == 0 {
        Seq::empty()
    } else {
        caused_by(causes.drop_last()) + "\n  Caused by: "@ + causes.last()
    }
}

/// The title and the text of the dialog that reports an error: the error
/// says what failed, and each of its causes follows on a line of its own.
pub fn alert_text(error: &str, causes: &[String]) -> (r: (String, String))
    ensures
        r.0@ == "Error: "@ + error@,
        r.1@ == "Error: "@ + error@ + caused_by(causes@.map_values(|c: String| c@)),
{
    let mut title = String::from_str("Error: ");
    title.append(error);
    let mut message = title.clone();
    let mut i: usize = 0;
    while i < causes.len()
        invariant
            i <= causes@.len(),
            title@ == "Error: "@ + error@,
            message@ == title@ + caused_by(causes@.take(i as int).map_values(|c: String| c@)),
        decreases causes.len() - i,
    {
        message.append("\n  Caused by: ");
        message.append(causes[i].as_str());
        proof {
            let v = causes@.take(i + 1).map_values(|c: String| c@);
            assert(v.drop_last() =~= causes@.take(i as int).map_values(|c: String| c@));
            assert(v.last() == causes@[i as int]@);
        }
        i = i + 1;
    }
    assert(causes@.take(i as int) =~= causes@);
    (title, message)
}

/// Opens paths with the system's default application.
pub struct SystemOpener;

} // verus!
