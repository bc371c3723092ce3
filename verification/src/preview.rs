//! The document behind the preview pane: reading it, keeping it, and getting
//! it highlighted without stalling the editor.
//!
//! `D` is the editor's own document. What decides about it is held beside it.

use std::path::{Path, PathBuf};
use vstd::prelude::*;

use crate::layout::{center, Rect};
use crate::path::{same_path, starts_with, Part};

verus! {

/// How long the cursor has to rest on a row before its file is parsed, in
/// milliseconds. Holding a movement key down should not queue a parse per row.
pub const HIGHLIGHT_DEBOUNCE: u64 = 150;

/// Bytes read to decide whether a file is binary.
pub const SNIFF_BYTES: u64 = 1024;

/// What a path can show, decided before any of it is read into memory.
#[derive(Debug, Clone, Copy, PartialEq, Eq, Structural)]
pub enum Kind {
    Text,
    Directory,
    Binary,
    TooLarge,
}

/// Why a path can show nothing.
#[derive(Debug, Clone, Copy, PartialEq, Eq, Structural)]
pub enum Unreadable {
    /// The file system says nothing of it: it may not exist.
    NoMetadata,
    /// It is neither a directory nor a regular file, but a fifo or a device,
    /// and was not opened.
    NotRegular,
    /// It could not be opened or read.
    NoContents,
}

/// What the file system says of a path.
#[derive(Debug, Clone, Copy, PartialEq, Eq, Structural)]
pub struct Metadata {
    pub is_dir: bool,
    pub is_file: bool,
    pub len: u64,
}

/// A document as it was read from disk.
#[derive(Debug)]
pub struct Loaded<D> {
    pub document: D,
    /// Whether its language is known, so that there is something to highlight.
    pub has_language: bool,
    /// Whether it has been parsed.
    pub highlighted: bool,
}

/// What a path turned out to hold, once the cache has looked.
#[derive(Debug)]
pub enum Cached<D> {
    Document(Box<Loaded<D>>),
    /// Contents are shown by expanding the row, so the pane stays empty.
    Directory,
    Binary,
    TooLarge,
    Unreadable,
}

/// A preview ready to be drawn.
///
/// Kept apart from [`Cached`] because a file open in the editor is borrowed
/// from there rather than cached: a preview of a buffer with unsaved edits
/// should show the edits, not what is still on disk.
#[derive(Debug)]
pub enum Preview<'cache, 'editor, D> {
    Cached(&'cache Cached<D>),
    Open(&'editor D),
}

/// What the cache has for a path.
#[derive(Debug)]
pub enum Look<'cache, 'editor, D> {
    /// This preview. `highlight` asks for its document to be parsed.
    Show { preview: Preview<'cache, 'editor, D>, highlight: bool },
    /// Nothing yet: the path has to be read first.
    Read,
}

/// Whether it takes a look at the contents to tell what a path can show.
pub open spec fn undecided(metadata: Metadata, limit: u64) -> bool {
    !metadata.is_dir && metadata.is_file && metadata.len <= limit
}

/// What a path can show, or why nothing of it. `metadata` is `None` where the
/// file system has none, `binary` where there was no reading the contents.
pub open spec fn kind_of(metadata: Option<Metadata>, limit: u64, binary: Option<bool>) -> Result<
    Kind,
    Unreadable,
> {
    match metadata {
        None => Err(Unreadable::NoMetadata),
        Some(metadata) => if metadata.is_dir {
            Ok(Kind::Directory)
        } else if !metadata.is_file {
            Err(Unreadable::NotRegular)
        } else if metadata.len > limit {
            Ok(Kind::TooLarge)
        } else {
            match binary {
                Some(true) => Ok(Kind::Binary),
                Some(false) => Ok(Kind::Text),
                None => Err(Unreadable::NoContents),
            }
        },
    }
}

/// A file that is too large, a directory, and whatever is not a regular file
/// are told without reading any of them.
pub proof fn law_decided_without_reading(
    metadata: Metadata,
    limit: u64,
    binary: Option<bool>,
    other: Option<bool>,
)
    requires
        !undecided(metadata, limit),
    ensures
        kind_of(Some(metadata), limit, binary) == kind_of(Some(metadata), limit, other),
{
}

/// Whether the contents have to be sniffed to classify a path.
///
/// Only for regular files of up to `limit` bytes: reading a fifo or a device
/// could block until the end of time.
pub fn needs_sniff(metadata: &Metadata, limit: u64) -> (needed: bool)
    ensures
        needed == undecided(*metadata, limit),
{
    !metadata.is_dir && metadata.is_file && metadata.len <= limit
}

/// Classifies a path: from its metadata, and from whether at most
/// [`SNIFF_BYTES`] of its contents look binary.
pub fn classify(metadata: Option<Metadata>, limit: u64, binary: Option<bool>) -> (kind: Result<
    Kind,
    Unreadable,
>)
    ensures
        kind == kind_of(metadata, limit, binary),
{
    match metadata {
        None => Err(Unreadable::NoMetadata),
        Some(metadata) => {
            if metadata.is_dir {
                return Ok(Kind::Directory);
            }
            // A fifo or a device: reading it could block until the end of time.
            if !metadata.is_file {
                return Err(Unreadable::NotRegular);
            }
            if metadata.len > limit {
                return Ok(Kind::TooLarge);
            }
            match binary {
                Some(binary) => Ok(
                    if binary {
                        Kind::Binary
                    } else {
                        Kind::Text
                    },
                ),
                None => Err(Unreadable::NoContents),
            }
        },
    }
}

impl<D> Cached<D> {
    /// What to keep for a path of this kind. `document` is the document that
    /// was opened for a text, if it could be.
    pub open spec fn of_kind(kind: Result<Kind, Unreadable>, document: Option<Loaded<D>>) -> Cached<D> {
        match kind {
            Ok(Kind::Directory) => Cached::Directory,
            Ok(Kind::Binary) => Cached::Binary,
            Ok(Kind::TooLarge) => Cached::TooLarge,
            Ok(Kind::Text) => match document {
                Some(document) => Cached::Document(Box::new(document)),
                None => Cached::Unreadable,
            },
            Err(_) => Cached::Unreadable,
        }
    }

    /// A document that is still to be parsed.
    pub open spec fn awaits_highlight(self) -> bool {
        self matches Cached::Document(loaded) && !loaded.highlighted
    }

    /// What to keep for a path of this kind. `document` is the document that
    /// was opened for a text, if it could be.
    pub fn read(kind: Result<Kind, Unreadable>, document: Option<Loaded<D>>) -> (cached: Self)
        ensures
            cached == Cached::of_kind(kind, document),
    {
        match kind {
            Ok(Kind::Directory) => Cached::Directory,
            Ok(Kind::Binary) => Cached::Binary,
            Ok(Kind::TooLarge) => Cached::TooLarge,
            Ok(Kind::Text) => match document {
                Some(document) => Cached::Document(Box::new(document)),
                None => Cached::Unreadable,
            },
            Err(_) => Cached::Unreadable,
        }
    }
}

impl<'cache, 'editor, D> Preview<'cache, 'editor, D> {
    /// The document to draw, if there is one.
    pub open spec fn shown(self) -> Option<D> {
        match self {
            Preview::Open(document) => Some(*document),
            Preview::Cached(Cached::Document(loaded)) => Some(loaded.document),
            _ => None,
        }
    }

    pub fn document(&self) -> (document: Option<&D>)
        ensures
            match document {
                Some(document) => self.shown() == Some(*document),
                None => self.shown() is None,
            },
    {
        match self {
            Preview::Open(document) => Some(*document),
            Preview::Cached(cached) => match cached {
                Cached::Document(loaded) => Some(&loaded.document),
                _ => None,
            },
        }
    }

    /// What is said in place of the file's text.
    pub open spec fn said(self) -> Option<Seq<char>> {
        match self {
            Preview::Cached(Cached::Binary) => Some("<binary file>"@),
            Preview::Cached(Cached::TooLarge) => Some("<file too large to preview>"@),
            Preview::Cached(Cached::Unreadable) => Some("<cannot be read>"@),
            _ => None,
        }
    }

    /// The placeholder, and the column and row where it starts so as to stand
    /// in the middle of the pane.
    pub fn placeholder_in(&self, inner: Rect) -> (drawn: Option<(u32, u32, &'static str)>)
        ensures
            match drawn {
                Some((x, y, text)) => {
                    &&& self.said() == Some(text@)
                    &&& (x as int, y as int) == crate::layout::centered(inner, text@.len() as int)
                },
                None => self.said() is None,
            },
    {
        match self.placeholder() {
            Some(text) => {
                proof {
                    reveal_strlit("<binary file>");
                    reveal_strlit("<file too large to preview>");
                    reveal_strlit("<cannot be read>");
                    vstd::string::is_ascii_spec_bytes(text);
                }
                let (x, y) = center(inner, text.len() as u16);
                Some((x, y, text))
            },
            None => None,
        }
    }

    /// What to say in place of the file's text, or `None` where the pane is
    /// better left blank.
    pub fn placeholder(&self) -> (text: Option<&'static str>)
        ensures
            match text {
                Some(text) => self.said() == Some(text@),
                None => self.said() is None,
            },
    {
        match self {
            Preview::Open(_) => None,
            Preview::Cached(cached) => match cached {
                Cached::Document(_) | Cached::Directory => None,
                Cached::Binary => Some("<binary file>"),
                Cached::TooLarge => Some("<file too large to preview>"),
                Cached::Unreadable => Some("<cannot be read>"),
            },
        }
    }
}

/// A preview never has both a document and a placeholder, and only a directory
/// has neither.
pub proof fn law_document_or_placeholder<D>(preview: Preview<'_, '_, D>)
    ensures
        !(preview.shown() is Some && preview.said() is Some),
        preview.shown() is None && preview.said() is None <==> preview == Preview::Cached(
            &Cached::<D>::Directory,
        ),
{
}

/// Every file the cursor has rested on, so that walking back up the tree costs
/// nothing. Dropped with the tree, which is what bounds its size.
#[derive(Debug)]
pub struct Previews<D> {
    entries: Vec<(PathBuf, Cached<D>)>,
}

/// What a path is kept under: its components.
pub open spec fn cache_key(path: PathBuf) -> Seq<Part> {
    crate::path::parts_of(crate::path::buf_text(&path))
}

/// The cache has nothing to show for this path: it is not open in the editor
/// and has not been read.
pub open spec fn must_read<D>(
    cache: Map<Seq<Part>, Cached<D>>,
    key: Seq<Part>,
    open: Option<&D>,
) -> bool {
    open is None && !cache.contains_key(key)
}

/// What the cache has for a path.
pub open spec fn look_at<'cache, 'editor, D>(
    cache: Map<Seq<Part>, Cached<D>>,
    key: Seq<Part>,
    open: Option<&'editor D>,
) -> Look<'cache, 'editor, D> {
    if must_read(cache, key, open) {
        Look::Read
    } else {
        match open {
            Some(document) => Look::Show { preview: Preview::Open(document), highlight: false },
            None => Look::Show {
                preview: Preview::Cached(&cache[key]),
                highlight: cache[key].awaits_highlight(),
            },
        }
    }
}

/// The cache with nothing kept for a path or for anything below it.
pub open spec fn without_below<D>(cache: Map<Seq<Part>, Cached<D>>, base: Seq<Part>) -> Map<
    Seq<Part>,
    Cached<D>,
> {
    Map::new(
        |key: Seq<Part>| cache.contains_key(key) && !base.is_prefix_of(key),
        |key: Seq<Part>| cache[key],
    )
}

/// A file is read once: what was read is shown until it is forgotten, and then
/// it is read again.
pub proof fn law_read_once<D>(
    cache: Map<Seq<Part>, Cached<D>>,
    key: Seq<Part>,
    other: Seq<Part>,
    cached: Cached<D>,
)
    ensures
        !must_read(cache.insert(key, cached), key, None),
        look_at(cache.insert(key, cached), key, None) == (Look::Show {
            preview: Preview::Cached(&cached),
            highlight: cached.awaits_highlight(),
        }),
        must_read(cache.remove(key), key, None),
        other != key ==> must_read(cache.insert(key, cached), other, None) == must_read(
            cache,
            other,
            None,
        ),
        other != key ==> must_read(cache.remove(key), other, None) == must_read(cache, other, None),
{
}

/// A file that is open in the editor is shown as it is there, whatever was read
/// from disk, and is never read for a preview.
pub proof fn law_open_document_wins<D>(
    cache: Map<Seq<Part>, Cached<D>>,
    key: Seq<Part>,
    document: &D,
)
    ensures
        look_at(cache, key, Some(document)) == (Look::Show {
            preview: Preview::Open(document),
            highlight: false,
        }),
{
}

impl<D> View for Previews<D> {
    type V = Map<Seq<Part>, Cached<D>>;

    closed spec fn view(&self) -> Map<Seq<Part>, Cached<D>> {
        kept_map(self.entries@)
    }
}

/// Entry `i` is kept under `key`.
spec fn kept_at<D>(entries: Seq<(PathBuf, Cached<D>)>, i: int, key: Seq<Part>) -> bool {
    0 <= i < entries.len() && cache_key(entries[i].0) == key
}

/// The entries as a map.
spec fn kept_map<D>(entries: Seq<(PathBuf, Cached<D>)>) -> Map<Seq<Part>, Cached<D>> {
    Map::new(
        |key: Seq<Part>| exists|i: int| kept_at(entries, i, key),
        |key: Seq<Part>| entries[choose|i: int| kept_at(entries, i, key)].1,
    )
}

/// No path is kept twice.
spec fn kept_once<D>(entries: Seq<(PathBuf, Cached<D>)>) -> bool {
    forall|i: int, j: int|
        0 <= i < j < entries.len() ==> cache_key((#[trigger] entries[i]).0) != cache_key(
            (#[trigger] entries[j]).0,
        )
}

proof fn lemma_kept<D>(entries: Seq<(PathBuf, Cached<D>)>, i: int)
    requires
        kept_once(entries),
        0 <= i < entries.len(),
    ensures
        kept_map(entries).contains_key(cache_key(entries[i].0)),
        kept_map(entries)[cache_key(entries[i].0)] == entries[i].1,
{
    let key = cache_key(entries[i].0);
    assert(kept_at(entries, i, key));
    let found = choose|k: int| kept_at(entries, k, key);
    assert(kept_at(entries, found, key));
    assert(entries[found].0 == entries[found].0 && entries[i].0 == entries[i].0);
}

/// Changing what is kept for one path changes nothing else.
proof fn lemma_changed<D>(entries: Seq<(PathBuf, Cached<D>)>, i: int, cached: Cached<D>)
    requires
        kept_once(entries),
        0 <= i < entries.len(),
    ensures
        kept_once(entries.update(i, (entries[i].0, cached))),
        kept_map(entries.update(i, (entries[i].0, cached))) == kept_map(entries).insert(
            cache_key(entries[i].0),
            cached,
        ),
{
    let after = entries.update(i, (entries[i].0, cached));
    let key = cache_key(entries[i].0);
    assert forall|a: int, b: int| 0 <= a < b < after.len() implies cache_key((#[trigger] after[a]).0)
        != cache_key((#[trigger] after[b]).0) by {
        assert(cache_key(entries[a].0) != cache_key(entries[b].0));
    }
    assert forall|k: Seq<Part>| kept_map(after).contains_key(k) == kept_map(entries).contains_key(k) by {
        if kept_map(entries).contains_key(k) {
            assert(kept_at(after, choose|j: int| kept_at(entries, j, k), k));
        }
        if kept_map(after).contains_key(k) {
            assert(kept_at(entries, choose|j: int| kept_at(after, j, k), k));
        }
    }
    lemma_kept(entries, i);
    assert forall|k: Seq<Part>| kept_map(after).contains_key(k) implies kept_map(after)[k]
        == kept_map(entries).insert(key, cached)[k] by {
        let j = choose|j: int| kept_at(after, j, k);
        assert(kept_at(after, j, k));
        lemma_kept(after, j);
        if j != i {
            lemma_kept(entries, j);
            assert(entries[j] == after[j]);
        }
        lemma_kept(after, i);
    }
    assert(kept_map(after) =~= kept_map(entries).insert(key, cached));
}

/// Forgetting one entry forgets what was kept under its key.
proof fn lemma_removed<D>(entries: Seq<(PathBuf, Cached<D>)>, index: int)
    requires
        kept_once(entries),
        0 <= index < entries.len(),
    ensures
        kept_once(entries.remove(index)),
        kept_map(entries.remove(index)) == kept_map(entries).remove(cache_key(entries[index].0)),
{
    let after = entries.remove(index);
    let key = cache_key(entries[index].0);
    assert forall|i: int, j: int| 0 <= i < j < after.len() implies cache_key((#[trigger] after[i]).0)
        != cache_key((#[trigger] after[j]).0) by {
        let a = if i < index {
            i
        } else {
            i + 1
        };
        let b = if j < index {
            j
        } else {
            j + 1
        };
        assert(after[i] == entries[a] && after[j] == entries[b]);
    }
    assert forall|k: Seq<Part>| kept_map(after).contains_key(k) == (kept_map(entries).contains_key(k)
        && k != key) by {
        if kept_map(after).contains_key(k) {
            let i = choose|i: int| kept_at(after, i, k);
            let a = if i < index {
                i
            } else {
                i + 1
            };
            assert(after[i] == entries[a]);
            assert(kept_at(entries, a, k));
            assert(entries[a].0 == entries[a].0 && entries[index].0 == entries[index].0);
        }
        if kept_map(entries).contains_key(k) && k != key {
            let a = choose|i: int| kept_at(entries, i, k);
            let i = if a < index {
                a
            } else {
                a - 1
            };
            assert(after[i] == entries[a]);
            assert(kept_at(after, i, k));
        }
    }
    assert forall|k: Seq<Part>| kept_map(after).contains_key(k) implies kept_map(after)[k]
        == kept_map(entries)[k] by {
        let i = choose|i: int| kept_at(after, i, k);
        assert(kept_at(after, i, k));
        let a = if i < index {
            i
        } else {
            i + 1
        };
        assert(after[i] == entries[a]);
        lemma_kept(after, i);
        lemma_kept(entries, a);
    }
    assert(kept_map(after) =~= kept_map(entries).remove(key));
}

impl<D> Previews<D> {
    /// No path is kept twice.
    pub closed spec fn wf(&self) -> bool {
        kept_once(self.entries@)
    }

    pub fn new() -> (previews: Self)
        ensures
            previews.wf(),
            previews@ == Map::<Seq<Part>, Cached<D>>::empty(),
    {
        let previews = Previews { entries: Vec::new() };
        assert forall|key: Seq<Part>| !previews@.contains_key(key) by {
            assert forall|i: int| !kept_at(previews.entries@, i, key) by {}
        }
        assert(previews@ =~= Map::empty());
        previews
    }

    /// Where a path is kept.
    fn index_of(&self, path: &Path) -> (index: Option<usize>)
        requires
            self.wf(),
        ensures
            match index {
                Some(index) => {
                    &&& index < self.entries@.len()
                    &&& cache_key(self.entries@[index as int].0) == crate::path::parts_of(
                        crate::path::path_text(path),
                    )
                    &&& self@.contains_key(crate::path::parts_of(crate::path::path_text(path)))
                    &&& self@[crate::path::parts_of(crate::path::path_text(path))]
                        == self.entries@[index as int].1
                },
                None => {
                    &&& !self@.contains_key(crate::path::parts_of(crate::path::path_text(path)))
                    &&& forall|i: int|
                        0 <= i < self.entries@.len() ==> cache_key(
                            (#[trigger] self.entries@[i]).0,
                        ) != crate::path::parts_of(crate::path::path_text(path))
                },
            },
    {
        let mut index: usize = 0;
        while index < self.entries.len()
            invariant
                self.wf(),
                index <= self.entries@.len(),
                forall|i: int|
                    0 <= i < index ==> cache_key((#[trigger] self.entries@[i]).0)
                        != crate::path::parts_of(crate::path::path_text(path)),
            decreases self.entries.len() - index,
        {
            if same_path(self.entries[index].0.as_path(), path) {
                proof {
                    lemma_kept(self.entries@, index as int);
                }
                return Some(index);
            }
            index = index + 1;
        }
        None
    }

    /// The preview for `path`, as far as it is known. `open` is the document
    /// that the editor has open for it, if any.
    ///
    /// Highlighting is not waited for: the text is returned unhighlighted and a
    /// parse is asked for, which arrives on a later frame.
    pub fn get<'cache, 'editor>(&'cache self, path: &Path, open: Option<&'editor D>) -> (look: Look<
        'cache,
        'editor,
        D,
    >)
        requires
            self.wf(),
        ensures
            look == look_at(self@, crate::path::parts_of(crate::path::path_text(path)), open),
    {
        if let Some(document) = open {
            return Look::Show { preview: Preview::Open(document), highlight: false };
        }
        match self.index_of(path) {
            Some(index) => {
                let cached = &self.entries[index].1;
                let highlight: bool = match cached {
                    Cached::Document(loaded) => !loaded.highlighted,
                    _ => false,
                };
                Look::Show { preview: Preview::Cached(cached), highlight }
            },
            None => Look::Read,
        }
    }

    /// Keeps what was read for `path`.
    pub fn insert(&mut self, path: &Path, cached: Cached<D>)
        requires
            old(self).wf(),
        ensures
            final(self).wf(),
            final(self)@ == old(self)@.insert(
                crate::path::parts_of(crate::path::path_text(path)),
                cached,
            ),
    {
        self.forget(path);
        let ghost before = self.entries@;
        let ghost key = crate::path::parts_of(crate::path::path_text(path));
        assert forall|i: int| 0 <= i < before.len() implies cache_key((#[trigger] before[i]).0)
            != key by {
            lemma_kept(before, i);
        }
        self.entries.push((path.to_path_buf(), cached));
        proof {
            let after = self.entries@;
            assert(kept_once(after));
            assert forall|k: Seq<Part>| kept_map(after).contains_key(k) == (kept_map(
                before,
            ).contains_key(k) || k == key) by {
                if kept_map(before).contains_key(k) {
                    let i = choose|i: int| kept_at(before, i, k);
                    assert(kept_at(after, i, k));
                }
                if k == key {
                    assert(kept_at(after, before.len() as int, k));
                }
                if kept_map(after).contains_key(k) && k != key {
                    let i = choose|i: int| kept_at(after, i, k);
                    assert(kept_at(before, i, k));
                }
            }
            assert forall|k: Seq<Part>| kept_map(after).contains_key(k) implies kept_map(after)[k]
                == kept_map(before).insert(key, cached)[k] by {
                let i = choose|i: int| kept_at(after, i, k);
                assert(kept_at(after, i, k));
                lemma_kept(after, i);
                if k != key {
                    assert(before[i] == after[i]);
                    lemma_kept(before, i);
                }
            }
            assert(self@ =~= old(self)@.insert(key, cached));
        }
    }

    /// Forgets what was read for `path`, so the next look goes back to disk.
    pub fn forget(&mut self, path: &Path)
        requires
            old(self).wf(),
        ensures
            final(self).wf(),
            final(self)@ == old(self)@.remove(crate::path::parts_of(crate::path::path_text(path))),
            !final(self)@.contains_key(crate::path::parts_of(crate::path::path_text(path))),
    {
        let ghost key = crate::path::parts_of(crate::path::path_text(path));
        match self.index_of(path) {
            Some(index) => {
                proof {
                    lemma_removed(self.entries@, index as int);
                }
                self.entries.remove(index);
            },
            None => {
                assert(self@ =~= old(self)@.remove(key));
            },
        }
    }

    /// Forgets what was read for `path` and for everything below it. The tree's
    /// own create, rename and delete all invalidate a preview, and a directory
    /// takes the previews of what is in it along.
    pub fn forget_below(&mut self, path: &Path)
        requires
            old(self).wf(),
        ensures
            final(self).wf(),
            final(self)@ == without_below(
                old(self)@,
                crate::path::parts_of(crate::path::path_text(path)),
            ),
    {
        let ghost base = crate::path::parts_of(crate::path::path_text(path));
        let mut index: usize = 0;
        while index < self.entries.len()
            invariant
                self.wf(),
                index <= self.entries@.len(),
                base == crate::path::parts_of(crate::path::path_text(path)),
                without_below(self@, base) == without_below(old(self)@, base),
                forall|i: int|
                    0 <= i < index ==> !base.is_prefix_of(
                        cache_key((#[trigger] self.entries@[i]).0),
                    ),
            decreases self.entries.len() - index,
        {
            if starts_with(self.entries[index].0.as_path(), path) {
                let ghost before = self.entries@;
                proof {
                    lemma_removed(before, index as int);
                }
                self.entries.remove(index);
                assert(without_below(self@, base) =~= without_below(kept_map(before), base));
                assert forall|i: int| 0 <= i < index implies !base.is_prefix_of(
                    cache_key((#[trigger] self.entries@[i]).0),
                ) by {
                    assert(self.entries@[i] == before[i]);
                }
            } else {
                index = index + 1;
            }
        }
        assert forall|key: Seq<Part>| self@.contains_key(key) implies !base.is_prefix_of(key) by {
            let i = choose|i: int| kept_at(self.entries@, i, key);
            assert(kept_at(self.entries@, i, key));
            assert(cache_key(self.entries@[i].0) == key);
        }
        assert(self@ =~= without_below(self@, base));
    }

    /// The cached document for `path`, if it is still there and still unparsed.
    pub fn awaiting_highlight(&mut self, path: &Path) -> (loaded: Option<&mut Loaded<D>>)
        requires
            old(self).wf(),
        ensures
            final(self).wf(),
            ({
                let key = crate::path::parts_of(crate::path::path_text(path));
                match loaded {
                    Some(loaded) => {
                        &&& old(self)@.contains_key(key)
                        &&& old(self)@[key].awaits_highlight()
                        &&& old(self)@[key] == Cached::Document(Box::new(*loaded))
                        &&& final(self)@ == old(self)@.insert(
                            key,
                            Cached::Document(Box::new(*final(loaded))),
                        )
                    },
                    None => {
                        &&& !(old(self)@.contains_key(key) && old(self)@[key].awaits_highlight())
                        &&& final(self)@ == old(self)@
                    },
                }
            }),
    {
        match self.index_of(path) {
            Some(index) => {
                let waiting: bool = match &self.entries[index].1 {
                    Cached::Document(loaded) => !loaded.highlighted,
                    _ => false,
                };
                if !waiting {
                    return None;
                }
                proof {
                    let before = self.entries@;
                    let i = index as int;
                    assert forall|cached: Cached<D>|
                        #![trigger before.update(i, (before[i].0, cached))]
                        kept_once(before.update(i, (before[i].0, cached))) && kept_map(
                            before.update(i, (before[i].0, cached)),
                        ) == kept_map(before).insert(cache_key(before[i].0), cached) by {
                        lemma_changed(before, i, cached);
                    }
                }
                match &mut self.entries[index].1 {
                    Cached::Document(loaded) => Some(&mut **loaded),
                    _ => None,
                }
            },
            None => None,
        }
    }

    /// The document to parse for `path`: still there, still unparsed, and in a
    /// language that is known.
    pub fn parse_target(&self, path: &Path) -> (loaded: Option<&Loaded<D>>)
        requires
            self.wf(),
        ensures
            ({
                let key = crate::path::parts_of(crate::path::path_text(path));
                match loaded {
                    Some(loaded) => {
                        &&& is_parsable(self@, key)
                        &&& self@[key] == Cached::Document(Box::new(*loaded))
                    },
                    None => !is_parsable(self@, key),
                }
            }),
    {
        match self.index_of(path) {
            Some(index) => match &self.entries[index].1 {
                Cached::Document(loaded) => {
                    if !loaded.highlighted && loaded.has_language {
                        Some(loaded)
                    } else {
                        None
                    }
                },
                _ => None,
            },
            None => None,
        }
    }

    /// A parse of `path` has ended. If it succeeded and the document is still
    /// there and still unparsed, the document counts as highlighted from now on
    /// and is handed out for the result to be put in.
    pub fn finish_highlight(&mut self, path: &Path, parsed: bool) -> (loaded: Option<&mut Loaded<D>>)
        requires
            old(self).wf(),
        ensures
            final(self).wf(),
            ({
                let key = crate::path::parts_of(crate::path::path_text(path));
                let waiting = old(self)@.contains_key(key) && old(self)@[key].awaits_highlight();
                match loaded {
                    Some(loaded) => {
                        &&& parsed && waiting
                        &&& loaded.highlighted
                        &&& old(self)@[key] == Cached::Document(
                            Box::new(Loaded { highlighted: false, ..*loaded }),
                        )
                        &&& final(self)@ == old(self)@.insert(
                            key,
                            Cached::Document(Box::new(*final(loaded))),
                        )
                    },
                    None => {
                        &&& !(parsed && waiting)
                        &&& final(self)@ == old(self)@
                    },
                }
            }),
    {
        if !parsed {
            return None;
        }
        match self.awaiting_highlight(path) {
            Some(loaded) => {
                loaded.highlighted = true;
                Some(loaded)
            },
            None => None,
        }
    }
}

impl<D> Default for Previews<D> {
    fn default() -> (previews: Self)
        ensures
            previews.wf(),
            previews@ == Map::<Seq<Part>, Cached<D>>::empty(),
    {
        Previews::new()
    }
}

/// There is something to parse for a path.
pub open spec fn is_parsable<D>(cache: Map<Seq<Part>, Cached<D>>, key: Seq<Part>) -> bool {
    cache.contains_key(key) && cache[key].awaits_highlight() && cache[key]->Document_0.has_language
}

/// Whether brackets are coloured: as the language says, or else the editor.
pub fn rainbow_brackets(language: Option<bool>, editor: bool) -> (colored: bool)
    ensures
        colored == (match language {
            Some(colored) => colored,
            None => editor,
        }),
{
    match language {
        Some(colored) => colored,
        None => editor,
    }
}

/// Parses a cached preview off the main thread: waits until the cursor has
/// rested on one file for a while.
#[derive(Debug)]
pub struct HighlightHandler {
    trigger: Option<PathBuf>,
}

/// What becomes of the wait when a parse is asked for.
#[derive(Debug, Clone, Copy, PartialEq, Eq, Structural)]
pub enum Wait {
    /// It runs on as it was.
    Keep,
    /// It starts over, for [`HIGHLIGHT_DEBOUNCE`].
    Restart,
}

impl View for HighlightHandler {
    type V = Option<PathBuf>;

    closed spec fn view(&self) -> Option<PathBuf> {
        self.trigger
    }
}

impl Default for HighlightHandler {
    fn default() -> (handler: Self)
        ensures
            handler@ is None,
    {
        HighlightHandler { trigger: None }
    }
}

impl HighlightHandler {
    /// Whether this is the path that is waited for already.
    pub open spec fn waits_for(self, path: PathBuf) -> bool {
        self@ matches Some(trigger) && cache_key(trigger) == cache_key(path)
    }

    /// A parse of `path` is asked for.
    ///
    /// On the same row the wait runs down rather than being restarted, or a
    /// repeating render would hold the parse off forever.
    pub fn handle_event(&mut self, path: PathBuf) -> (wait: Wait)
        ensures
            if old(self).waits_for(path) {
                wait == Wait::Keep && final(self)@ == old(self)@
            } else {
                wait == Wait::Restart && final(self)@ == Some(path)
            },
    {
        let same: bool = match &self.trigger {
            Some(trigger) => same_path(trigger.as_path(), path.as_path()),
            None => false,
        };
        if same {
            Wait::Keep
        } else {
            self.trigger = Some(path);
            Wait::Restart
        }
    }

    /// The wait is over: the path to parse, if there is one.
    pub fn finish_debounce(&mut self) -> (path: Option<PathBuf>)
        ensures
            path == old(self)@,
            final(self)@ is None,
    {
        self.trigger.take()
    }
}

} // verus!
