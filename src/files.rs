use vstd::prelude::*;
use crate::icons::{directory_icon, reads, standard_folder_icon_of};
use crate::text::{chars_of, split_pieces, string_of};

verus! {

/// What a path names: a file, with its guessed media type (empty when none
/// is known), or a directory.
#[derive(PartialEq, Eq, Debug)]
pub enum FileType {
    File(String),
    Directory,
}

/// What the file system reports of a path, as plain values: the entry
/// itself is read elsewhere.
pub struct FileMeta {
    /// The path names a directory (after following a symbolic link).
    pub is_dir: bool,
    /// The path itself is a symbolic link.
    pub is_symlink: bool,
    /// Length in bytes, for a file.
    pub len: usize,
    /// Number of entries, for a directory; 0 when it cannot be listed.
    pub entry_count: usize,
    /// Time of last modification, in seconds since the Unix epoch.
    pub modified: u64,
}

/// A file or directory as the launcher shows it.
pub struct FileInfo {
    pub name: String,
    pub path: String,
    /// Bytes for a file, entries for a directory.
    pub size: usize,
    /// Seconds since the Unix epoch.
    pub modified: u64,
    pub is_symlink: bool,
    pub file_type: FileType,
    pub icon: String,
}

/// The media type that `mime_guess` gives first for a path, from its
/// extension alone; `None` when it knows none.
pub uninterp spec fn first_mime_of(path: Seq<char>) -> Option<Seq<char>>;

/// Relies on `mime_guess::from_path(..).first_raw()`: the first media type
/// known for the path's extension, if any; it depends on the path alone.
#[verifier::external_body]
fn guess_mime(path: &str) -> (r: Option<String>)
    ensures
        match r {
            Some(m) => first_mime_of(path@) == Some(m@),
            None => first_mime_of(path@) is None,
        },
{
    mime_guess::from_path(path).first_raw().map(|m| m.to_owned())
}

/// The media type of `path` as a file shows it: the first guess, or empty.
pub open spec fn mime_type_spec(path: Seq<char>) -> Seq<char> {
    match first_mime_of(path) {
        Some(m) => m,
        None => Seq::empty(),
    }
}

impl FileInfo {
    /// The icon for the directory at `path`.
    pub fn icon_name_from_directory(path: &str) -> (r: String)
        ensures
            r@ == directory_icon(path@),
    {
        let chars = chars_of(path);
        let parts = split_pieces(&chars, '/');
        let ghost views = parts@.map_values(|p: Vec<char>| p@);
        if parts.len() != 3 {
            return "folder".to_owned();
        }
        let head = string_of(&parts[0]);
        assert(head@ == views[0]);
        if !reads(&head, "home") {
            return "folder".to_owned();
        }
        let name = string_of(&parts[2]);
        assert(name@ == views[2]);
        standard_folder_icon_of(&name)
    }

    /// The media type guessed from `path`'s extension, or an empty string.
    pub fn mime_type(path: &str) -> (r: String)
        ensures
            r@ == mime_type_spec(path@),
    {
        match guess_mime(path) {
            Some(m) => m,
            None => String::new(),
        }
    }

    /// Describes the entry `name` at `path` from what the file system
    /// reported: a directory counts its entries and takes its folder icon; a
    /// file counts its bytes, carries its guessed media type and takes
    /// `file_icon`, the icon for that media type.
    pub fn new(name: &str, path: &str, meta: &FileMeta, file_icon: &str) -> (r: FileInfo)
        ensures
            r.name@ == name@,
            r.path@ == path@,
            r.modified == meta.modified,
            r.is_symlink == meta.is_symlink,
            meta.is_dir ==> r.file_type == FileType::Directory && r.size == meta.entry_count
                && r.icon@ == directory_icon(path@),
            !meta.is_dir ==> (r.file_type matches FileType::File(m) && m@ == mime_type_spec(path@))
                && r.size == meta.len && r.icon@ == file_icon@,
    {
        if meta.is_dir {
            FileInfo {
                name: name.to_owned(),
                path: path.to_owned(),
                size: meta.entry_count,
                modified: meta.modified,
                is_symlink: meta.is_symlink,
                file_type: FileType::Directory,
                icon: FileInfo::icon_name_from_directory(path),
            }
        } else {
            FileInfo {
                name: name.to_owned(),
                path: path.to_owned(),
                size: meta.len,
                modified: meta.modified,
                is_symlink: meta.is_symlink,
                file_type: FileType::File(FileInfo::mime_type(path)),
                icon: file_icon.to_owned(),
            }
        }
    }
}

} // verus!
