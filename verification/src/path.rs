//! What the tree knows about file system paths.
//!
//! A path is taken as its text, a sequence of bytes in the platform's own
//! encoding, which is UTF-8 where the path is Unicode, and every question that
//! the tree asks of it is a function of that text. `std` answers the questions; the items below say what is relied on.

use std::borrow::Cow;
use std::path::{Path, PathBuf};
use vstd::prelude::*;

verus! {

/// `std::path::Path`, opaque.
#[verifier::external_type_specification]
#[verifier::external_body]
pub struct ExPath(std::path::Path);

/// `std::path::PathBuf`, opaque.
#[verifier::external_type_specification]
#[verifier::external_body]
pub struct ExPathBuf(std::path::PathBuf);

/// One component of a path.
pub enum Part {
    /// A Windows prefix such as a drive letter.
    Prefix(Seq<u8>),
    /// The root directory.
    Root,
    /// A leading `.`.
    Current,
    /// A `..`.
    Parent,
    /// An ordinary name.
    Normal(Seq<u8>),
}

/// The text of a borrowed path.
pub uninterp spec fn path_text(path: &Path) -> Seq<u8>;

/// The text of an owned path.
pub uninterp spec fn buf_text(path: &PathBuf) -> Seq<u8>;

/// The components that a path with this text has. Two paths are the same path
/// when their components agree, whatever the separators between them look like.
pub uninterp spec fn parts_of(text: Seq<u8>) -> Seq<Part>;

/// What `Path::parent` leaves of a path.
pub uninterp spec fn parent_text(text: Seq<u8>) -> Option<Seq<u8>>;

/// What `Path::join` makes of a directory and a name.
pub uninterp spec fn joined_text(directory: Seq<u8>, name: Seq<char>) -> Seq<u8>;

/// What `Path::to_string_lossy` makes of a path.
pub uninterp spec fn lossy_text(text: Seq<u8>) -> Seq<char>;

/// What `Path::display` prints of a path.
pub uninterp spec fn displayed_text(text: Seq<u8>) -> Seq<char>;

/// What a text says in Unicode, where it is valid UTF-8.
pub open spec fn unicode_text(text: Seq<u8>) -> Option<Seq<char>> {
    if vstd::utf8::valid_utf8(text) {
        Some(vstd::utf8::decode_utf8(text))
    } else {
        None
    }
}

/// Whether two texts name the same path.
pub open spec fn same_parts(left: Seq<u8>, right: Seq<u8>) -> bool {
    parts_of(left) == parts_of(right)
}

/// The text of the last component, for a path that ends in an ordinary name.
pub open spec fn last_name(text: Seq<u8>) -> Option<Seq<u8>> {
    let parts = parts_of(text);
    if parts.len() > 0 {
        match parts.last() {
            Part::Normal(name) => Some(name),
            _ => None,
        }
    } else {
        None
    }
}

/// The text to show for a path: its last component, or all of it where it does
/// not end in an ordinary name.
pub open spec fn shown_text(text: Seq<u8>) -> Seq<char> {
    match last_name(text) {
        Some(name) => lossy_text(name),
        None => lossy_text(text),
    }
}

/// Whether the last component is valid Unicode and starts with a dot.
pub open spec fn hidden_text(text: Seq<u8>) -> bool {
    match last_name(text) {
        Some(name) => match unicode_text(name) {
            Some(shown) => shown.len() > 0 && shown[0] == '.',
            None => false,
        },
        None => false,
    }
}

/// `PathBuf::as_path`: the borrowed path has the text of the owned one.
pub assume_specification[ PathBuf::as_path ](path: &PathBuf) -> (borrowed: &Path)
    ensures
        path_text(borrowed) == buf_text(path),
;

/// `Path::to_path_buf`: the owned path has the text of the borrowed one.
pub assume_specification[ Path::to_path_buf ](path: &Path) -> (copy: PathBuf)
    ensures
        buf_text(&copy) == path_text(path),
;

/// `PathBuf::clone`: the clone is the same path, letter for letter.
pub assume_specification[ <PathBuf as Clone>::clone ](path: &PathBuf) -> (copy: PathBuf)
    ensures
        copy == *path,
;

/// `Path::to_str`: the text in Unicode, where it is valid UTF-8.
pub assume_specification[ Path::to_str ](path: &Path) -> (shown: Option<&str>)
    ensures
        match shown {
            Some(shown) => unicode_text(path_text(path)) == Some(shown@),
            None => unicode_text(path_text(path)) is None,
        },
;

/// `Path::to_string_lossy`: a function of the text, and the text itself where
/// that is valid Unicode.
pub assume_specification[ Path::to_string_lossy ](path: &Path) -> (shown: Cow<'_, str>)
    ensures
        shown@ == lossy_text(path_text(path)),
        unicode_text(path_text(path)) matches Some(valid) ==> shown@ == valid,
;

/// `Path::parent`: a function of the text. There is a parent unless the path is
/// empty or ends in a root or a prefix, and it is the path without its final
/// component.
pub assume_specification[ Path::parent ](path: &Path) -> (parent: Option<&Path>)
    ensures
        match parent {
            Some(parent) => {
                &&& parent_text(path_text(path)) == Some(path_text(parent))
                &&& parts_of(path_text(path)).len() > 0
                &&& !(parts_of(path_text(path)).last() is Root)
                &&& !(parts_of(path_text(path)).last() is Prefix)
                &&& parts_of(path_text(parent)) == parts_of(path_text(path)).drop_last()
            },
            None => {
                &&& parent_text(path_text(path)) is None
                &&& parts_of(path_text(path)).len() == 0 || parts_of(path_text(path)).last() is Root
                    || parts_of(path_text(path)).last() is Prefix
            },
        },
;

/// `Path::file_name`: the final component, where it is an ordinary name.
#[verifier::external_body]
fn final_name(path: &Path) -> (name: Option<&Path>)
    ensures
        match name {
            Some(name) => last_name(path_text(path)) == Some(path_text(name)),
            None => last_name(path_text(path)) is None,
        },
{
    path.file_name().map(Path::new)
}

/// `Path::eq`: two paths are equal when their components are.
#[verifier::external_body]
pub(crate) fn same_path(left: &Path, right: &Path) -> (same: bool)
    ensures
        same == same_parts(path_text(left), path_text(right)),
{
    left == right
}

/// `Path::starts_with`: whether the components of `base` come first among those
/// of `path`, whole components only.
#[verifier::external_body]
pub(crate) fn starts_with(path: &Path, base: &Path) -> (starts: bool)
    ensures
        starts == parts_of(path_text(base)).is_prefix_of(parts_of(path_text(path))),
{
    path.starts_with(base)
}

/// `Path::join`: a function of the directory's text and the name.
#[verifier::external_body]
pub(crate) fn join(directory: &Path, name: &str) -> (joined: PathBuf)
    ensures
        buf_text(&joined) == joined_text(path_text(directory), name@),
{
    directory.join(name)
}

/// `Path::display`: what it prints is a function of the text, and the text
/// itself where that is valid Unicode.
#[verifier::external_body]
pub(crate) fn display(path: &Path) -> (shown: String)
    ensures
        shown@ == displayed_text(path_text(path)),
        unicode_text(path_text(path)) matches Some(valid) ==> shown@ == valid,
{
    format!("{}", path.display())
}

/// The text of a `Cow`, owned.
pub(crate) fn owned(text: Cow<'_, str>) -> (copy: String)
    ensures
        copy@ == text@,
{
    match text {
        Cow::Borrowed(text) => text.to_owned(),
        Cow::Owned(text) => text,
    }
}

/// The final component of a path for display, or the whole path where it has
/// none.
pub(crate) fn shown_name(path: &Path) -> (name: Cow<'_, str>)
    ensures
        name@ == shown_text(path_text(path)),
{
    match final_name(path) {
        Some(name) => name.to_string_lossy(),
        None => path.to_string_lossy(),
    }
}

/// The final component of a path, for display and for pre-filling a rename.
pub fn file_name(path: &Path) -> (name: String)
    ensures
        name@ == shown_text(path_text(path)),
{
    owned(shown_name(path))
}

/// Whether a path names a dotfile.
pub fn is_hidden(path: &Path) -> (hidden: bool)
    ensures
        hidden == hidden_text(path_text(path)),
{
    match final_name(path) {
        Some(name) => match name.to_str() {
            Some(shown) => !shown.is_empty() && shown.get_char(0) == '.',
            None => false,
        },
        None => false,
    }
}

} // verus!
