//! The classification cache: the kind of each paste, kept beside the paste so
//! that its content is classified once and not at every request.
//!
//! The store itself lives outside this library. What stands here is what to
//! do with its answers: a hit is read back as a kind, a miss is filled from
//! the content, and a paste that the store has forgotten is gone.

use vstd::prelude::*;
use crate::paste::analyzer::{kind_from_text, kind_of, PasteAnalyzer, PasteType};

verus! {

/// What the store holds for one paste. How long it holds it is settled where
/// the entry is written.
#[derive(Clone, Debug)]
pub struct ClassificationEntry {
    pub paste_id: String,
    pub kind: PasteType,
}

impl ClassificationEntry {
    /// The text that the store keeps under the paste's identifier.
    pub fn value(&self) -> (text: &'static str)
        ensures
            text@ == self.kind.cache_text(),
    {
        self.kind.as_str()
    }
}

/// What a lookup of a paste that is about to be served has shown.
#[derive(Clone, Copy, Debug, PartialEq, Eq, Structural)]
pub enum StoredKind {
    /// The store knows the paste, and this is its kind.
    Known(PasteType),
    /// The store knows nothing of the paste. The paste is gone; where
    /// `remove_object` is set, its content is still there and is to be
    /// deleted.
    Gone { remove_object: bool },
}

/// What the store's answer means: the kind that the text stands for, or
/// nothing where the store had no entry.
pub open spec fn hit(answer: Option<Seq<char>>) -> Option<PasteType> {
    match answer {
        Some(text) => Some(kind_from_text(text)),
        None => None,
    }
}

/// The state of a paste that is about to be served, from the store's answer
/// and from whether the paste's content is there.
pub open spec fn stored_kind(answer: Option<Seq<char>>, object_present: bool) -> StoredKind {
    match hit(answer) {
        Some(kind) => StoredKind::Known(kind),
        None => StoredKind::Gone { remove_object: object_present },
    }
}

/// The text of the store's answer, if there is one.
pub open spec fn answer_text(cached: Option<String>) -> Option<Seq<char>> {
    match cached {
        Some(text) => Some(text@),
        None => None,
    }
}

/// The cache-aside protocol around the store.
pub struct ClassificationCache;

impl ClassificationCache {
    /// Reads the store's answer: the kind on a hit, `None` on a miss. A text
    /// that names no kind is a hit all the same and reads as other content.
    pub fn lookup(cached: Option<String>) -> (kind: Option<PasteType>)
        ensures
            kind == hit(answer_text(cached)),
    {
        match cached {
            Some(text) => Some(PasteType::from(text)),
            None => None,
        }
    }

    /// After a miss: classifies the content and gives the entry to write back.
    pub fn fill(paste_id: String, content: &[u8]) -> (entry: ClassificationEntry)
        ensures
            entry.paste_id == paste_id,
            entry.kind == kind_of(content@),
    {
        ClassificationEntry { paste_id, kind: PasteAnalyzer::new().paste_type(content) }
    }

    /// The kind of the paste `paste_id`, from the store's answer where there
    /// is one, and from the content where there is none. The content is loaded
    /// on a miss only, and then once. On a miss the entry to write back is
    /// returned beside the kind.
    pub fn get_or_compute<L: FnOnce() -> Vec<u8>>(
        paste_id: String,
        cached: Option<String>,
        loader: L,
    ) -> (served: (PasteType, Option<ClassificationEntry>))
        requires
            cached is None ==> call_requires(loader, ()),
        ensures
            match hit(answer_text(cached)) {
                Some(kind) => served.0 == kind && served.1 is None,
                None => {
                    &&& served.1 matches Some(entry)
                    &&& entry.paste_id == paste_id
                    &&& entry.kind == served.0
                    &&& exists|content: Vec<u8>|
                        {
                            &&& #[trigger] call_ensures(loader, (), content)
                            &&& served.0 == kind_of(content@)
                        }
                },
            },
    {
        match ClassificationCache::lookup(cached) {
            Some(kind) => (kind, None),
            None => {
                let content = loader();
                let entry = ClassificationCache::fill(paste_id, content.as_slice());
                (entry.kind, Some(entry))
            },
        }
    }
}

/// Before a paste is served: what the store's answer and the presence of the
/// paste's content say of it. A paste that the store does not know is gone,
/// and what is left of its content is to be removed; a kind is never made up
/// for it.
pub fn get_paste_type(cached: Option<String>, object_present: bool) -> (state: StoredKind)
    ensures
        state == stored_kind(answer_text(cached), object_present),
{
    match ClassificationCache::lookup(cached) {
        Some(kind) => StoredKind::Known(kind),
        None => StoredKind::Gone { remove_object: object_present },
    }
}

/// A call that asks for the kind of a paste, as far as the store sees it.
pub struct Served {
    /// The kind that the call returns.
    pub kind: PasteType,
    /// The store after the call.
    pub store: Map<Seq<char>, Seq<char>>,
    /// Whether the call had to load the content.
    pub loaded: bool,
}

/// One call that asks for the kind of the paste `id` on `store`, where
/// loading the paste gives `content`: on a hit the answer is read back and
/// nothing is loaded; on a miss the content is loaded and classified, and the
/// kind is written to the store.
pub open spec fn served(
    store: Map<Seq<char>, Seq<char>>,
    id: Seq<char>,
    content: Seq<u8>,
) -> Served {
    match hit(store.get(id)) {
        Some(kind) => Served { kind, store, loaded: false },
        None => Served {
            kind: kind_of(content),
            store: store.insert(id, kind_of(content).cache_text()),
            loaded: true,
        },
    }
}

/// Of two calls for the same paste, with nothing else touching the store and
/// no entry expiring in between, the second loads nothing and returns what
/// the first returned: the content is loaded at most once.
pub proof fn lemma_second_call_is_served_from_the_store(
    store: Map<Seq<char>, Seq<char>>,
    id: Seq<char>,
    first_content: Seq<u8>,
    second_content: Seq<u8>,
)
    ensures
        ({
            let first = served(store, id, first_content);
            let second = served(first.store, id, second_content);
            &&& !second.loaded
            &&& second.kind == first.kind
            &&& second.store == first.store
        }),
{
    crate::paste::analyzer::lemma_cache_text_round_trip(kind_of(first_content));
}

} // verus!
