use vstd::prelude::*;
use crate::text::pieces;

verus! {

/// The themed icon for one of the standard folders of a home directory,
/// by the folder's name; `folder` for any other name.
pub open spec fn standard_folder_icon(name: Seq<char>) -> Seq<char> {
    if name == "Documents"@ {
        "folder-documents"@
    } else if name == "Downloads"@ {
        "folder-download"@
    } else if name == "Music"@ {
        "folder-music"@
    } else if name == "Pictures"@ {
        "folder-pictures"@
    } else if name == "Public"@ {
        "folder-publicshare"@
    } else if name == "Templates"@ {
        "folder-templates"@
    } else if name == "Videos"@ {
        "folder-videos"@
    } else {
        "folder"@
    }
}

/// The icon of a directory by its path: a standard folder directly inside
/// a home directory (`/home/<user>/<name>`) gets its own icon, any other
/// directory `folder`.
pub open spec fn directory_icon(path: Seq<char>) -> Seq<char> {
    let parts = pieces(path, '/');
    if parts.len() != 3 || parts[0] != "home"@ {
        "folder"@
    } else {
        standard_folder_icon(parts[2])
    }
}

/// The icon of a directory entry by its description: `Home` gets the home
/// icon, the standard folders their own, anything else `folder`.
pub open spec fn described_directory_icon(description: Seq<char>) -> Seq<char> {
    if description == "Home"@ {
        "user-home"@
    } else {
        standard_folder_icon(description)
    }
}

/// Whether `s` reads exactly `word`.
pub(crate) fn reads(s: &String, word: &str) -> (r: bool)
    ensures
        r == (s@ == word@),
{
    *s == word.to_owned()
}

/// The themed icon for a standard home folder called `name`.
pub(crate) fn standard_folder_icon_of(name: &String) -> (r: String)
    ensures
        r@ == standard_folder_icon(name@),
{
    let icon = if reads(name, "Documents") {
        "folder-documents"
    } else if reads(name, "Downloads") {
        "folder-download"
    } else if reads(name, "Music") {
        "folder-music"
    } else if reads(name, "Pictures") {
        "folder-pictures"
    } else if reads(name, "Public") {
        "folder-publicshare"
    } else if reads(name, "Templates") {
        "folder-templates"
    } else if reads(name, "Videos") {
        "folder-videos"
    } else {
        "folder"
    };
    icon.to_owned()
}

} // verus!
