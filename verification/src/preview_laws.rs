//! What is shown of a file, in terms of what the file system and the editor
//! have of it.

use std::path::PathBuf;
use vstd::prelude::*;

use crate::path::Part;
use crate::preview::{
    Cached, HighlightHandler, Kind, Loaded, Look, Metadata, Preview, Unreadable,
};

verus! {

/// What a path can show. Nothing is known without metadata; a directory is one
/// whatever else is said of it; what is neither directory nor regular file is
/// refused; a file beyond the limit is too large; and else the contents decide,
/// if they could be read.
pub proof fn law_kind(metadata: Option<Metadata>, limit: u64, binary: Option<bool>)
    ensures
        ({
            let kind = crate::preview::kind_of(metadata, limit, binary);
            &&& kind == Err::<Kind, Unreadable>(Unreadable::NoMetadata) <==> metadata is None
            &&& kind == Ok::<Kind, Unreadable>(Kind::Directory) <==> metadata is Some
                && metadata->0.is_dir
            &&& kind == Err::<Kind, Unreadable>(Unreadable::NotRegular) <==> metadata is Some
                && !metadata->0.is_dir && !metadata->0.is_file
            &&& kind == Ok::<Kind, Unreadable>(Kind::TooLarge) <==> metadata is Some
                && !metadata->0.is_dir && metadata->0.is_file && metadata->0.len > limit
            &&& kind == Ok::<Kind, Unreadable>(Kind::Binary) <==> metadata is Some
                && !metadata->0.is_dir && metadata->0.is_file && metadata->0.len <= limit && binary
                == Some(true)
            &&& kind == Ok::<Kind, Unreadable>(Kind::Text) <==> metadata is Some
                && !metadata->0.is_dir && metadata->0.is_file && metadata->0.len <= limit && binary
                == Some(false)
        }),
{
}

/// The contents are looked at exactly where they decide.
pub proof fn law_sniffs_where_it_matters(metadata: Metadata, limit: u64)
    ensures
        crate::preview::undecided(metadata, limit) <==> crate::preview::kind_of(
            Some(metadata),
            limit,
            Some(true),
        ) != crate::preview::kind_of(Some(metadata), limit, Some(false)),
{
}

/// A text is kept as the document that was opened for it; everything else as
/// what it is, and what could not be read or opened as that.
pub proof fn law_kept_as<D>(kind: Result<Kind, Unreadable>, document: Option<Loaded<D>>)
    ensures
        ({
            let cached = Cached::of_kind(kind, document);
            &&& cached == Cached::<D>::Directory <==> kind == Ok::<Kind, Unreadable>(Kind::Directory)
            &&& cached == Cached::<D>::Binary <==> kind == Ok::<Kind, Unreadable>(Kind::Binary)
            &&& cached == Cached::<D>::TooLarge <==> kind == Ok::<Kind, Unreadable>(Kind::TooLarge)
            &&& cached == Cached::<D>::Unreadable <==> kind is Err || kind == Ok::<Kind, Unreadable>(
                Kind::Text,
            ) && document is None
            &&& cached is Document ==> document == Some(*cached->Document_0)
        }),
{
}

/// A document waits for its parse exactly until it has been parsed; nothing else
/// waits.
pub proof fn law_waits_for_a_parse<D>(loaded: Loaded<D>)
    ensures
        Cached::Document(Box::new(loaded)).awaits_highlight() <==> !loaded.highlighted,
        !Cached::<D>::Directory.awaits_highlight(),
        !Cached::<D>::Binary.awaits_highlight(),
        !Cached::<D>::TooLarge.awaits_highlight(),
        !Cached::<D>::Unreadable.awaits_highlight(),
{
}

/// What a preview draws: a document as it was read, a buffer as it is, and in
/// place of what has no text a word on why, or nothing for a directory.
pub proof fn law_drawn<D>(loaded: Loaded<D>, open: D)
    ensures
        ({
            let document = Cached::Document(Box::new(loaded));
            &&& Preview::Cached(&document).shown() == Some(loaded.document)
            &&& Preview::Cached(&document).said() is None
            &&& Preview::<D>::Open(&open).shown() == Some(open)
            &&& Preview::<D>::Open(&open).said() is None
            &&& Preview::Cached(&Cached::<D>::Directory).shown() is None
            &&& Preview::Cached(&Cached::<D>::Directory).said() is None
            &&& Preview::Cached(&Cached::<D>::Binary).shown() is None
            &&& Preview::Cached(&Cached::<D>::Binary).said() == Some("<binary file>"@)
            &&& Preview::Cached(&Cached::<D>::TooLarge).shown() is None
            &&& Preview::Cached(&Cached::<D>::TooLarge).said() == Some(
                "<file too large to preview>"@,
            )
            &&& Preview::Cached(&Cached::<D>::Unreadable).shown() is None
            &&& Preview::Cached(&Cached::<D>::Unreadable).said() == Some("<cannot be read>"@)
        }),
{
}

/// A look shows the buffer that is open; else what was read, and asks for a
/// parse where that waits for one; else it asks to read.
pub proof fn law_look<D>(cache: Map<Seq<Part>, Cached<D>>, key: Seq<Part>, open: Option<&D>)
    ensures
        ({
            let look = crate::preview::look_at(cache, key, open);
            &&& look == Look::<D>::Read <==> open is None && !cache.contains_key(key)
            &&& open matches Some(document) ==> look == (Look::Show {
                preview: Preview::Open(document),
                highlight: false,
            })
            &&& open is None && cache.contains_key(key) ==> look == (Look::Show {
                preview: Preview::Cached(&cache[key]),
                highlight: cache[key] is Document && !cache[key]->Document_0.highlighted,
            })
        }),
{
}

/// There is something to parse exactly for a document that was read, has not
/// been parsed, and whose language is known.
pub proof fn law_parsable<D>(cache: Map<Seq<Part>, Cached<D>>, key: Seq<Part>)
    ensures
        crate::preview::is_parsable(cache, key) <==> {
            &&& cache.contains_key(key)
            &&& cache[key] is Document
            &&& !cache[key]->Document_0.highlighted
            &&& cache[key]->Document_0.has_language
        },
{
}

/// Paths with the same components share what was read, and no others do.
pub proof fn law_cache_key(left: PathBuf, right: PathBuf)
    ensures
        crate::preview::cache_key(left) == crate::path::parts_of(crate::path::buf_text(&left)),
        crate::preview::cache_key(left) == crate::preview::cache_key(right) <==> crate::path::parts_of(
            crate::path::buf_text(&left),
        ) == crate::path::parts_of(crate::path::buf_text(&right)),
{
}

/// What is forgotten with a path is what has its components first, and nothing
/// else changes.
pub proof fn law_without_below<D>(
    cache: Map<Seq<Part>, Cached<D>>,
    base: Seq<Part>,
    key: Seq<Part>,
)
    ensures
        ({
            let kept = crate::preview::without_below(cache, base);
            let below = base.len() <= key.len() && key.take(base.len() as int) == base;
            &&& kept.contains_key(key) <==> cache.contains_key(key) && !below
            &&& kept.contains_key(key) ==> kept[key] == cache[key]
        }),
{
    if base.len() <= key.len() {
        assert(key.take(base.len() as int) == key.subrange(0, base.len() as int));
    }
}

/// A wait is for a path exactly where it was asked for by its components.
pub proof fn law_waits_for(handler: HighlightHandler, path: PathBuf)
    ensures
        handler.waits_for(path) <==> {
            &&& handler@ is Some
            &&& crate::path::parts_of(crate::path::buf_text(&handler@->0)) == crate::path::parts_of(
                crate::path::buf_text(&path),
            )
        },
{
}

} // verus!
