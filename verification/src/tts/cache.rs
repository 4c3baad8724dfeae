//! The engine cache: at most one synthesis engine per voice, kept for as
//! long as the cache lives.
//!
//! Building an engine is slow, so it is done outside the cache: a caller
//! looks the voice up, builds an engine only where none is found, and stores
//! it. Where two callers build an engine for the same voice at once, the one
//! stored last stays.

use vstd::prelude::*;
use crate::text::texts_of;

verus! {

/// The first position at or after `from` of `ids` that holds `voice_id`, if
/// there is one.
pub open spec fn position(ids: Seq<String>, voice_id: Seq<char>, from: int) -> Option<int>
    decreases ids.len() - from,
{
    if from < 0 || from >= ids.len() {
        None
    } else if ids[from]@ == voice_id {
        Some(from)
    } else {
        position(ids, voice_id, from + 1)
    }
}

/// Engines by the identifier of their voice.
pub struct EngineCache<E> {
    ids: Vec<String>,
    engines: Vec<E>,
}

impl<E> View for EngineCache<E> {
    type V = Map<Seq<char>, E>;

    closed spec fn view(&self) -> Map<Seq<char>, E> {
        Map::new(
            |voice_id: Seq<char>| position(self.ids@, voice_id, 0) is Some,
            |voice_id: Seq<char>| self.engines@[position(self.ids@, voice_id, 0).unwrap()],
        )
    }
}

/// A position that `position` gives lies in the sequence, at or after the
/// start of the search, and holds the identifier.
proof fn lemma_position_bounds(ids: Seq<String>, voice_id: Seq<char>, from: int)
    requires
        0 <= from,
    ensures
        position(ids, voice_id, from) matches Some(at) ==> from <= at < ids.len() && ids[at]@
            == voice_id,
    decreases ids.len() - from,
{
    if from < ids.len() && ids[from]@ != voice_id {
        lemma_position_bounds(ids, voice_id, from + 1);
    }
}

/// An identifier that stands at or after the start of the search is found.
proof fn lemma_position_finds(ids: Seq<String>, voice_id: Seq<char>, from: int, at: int)
    requires
        0 <= from <= at < ids.len(),
        ids[at]@ == voice_id,
    ensures
        position(ids, voice_id, from) is Some,
    decreases ids.len() - from,
{
    if ids[from]@ != voice_id {
        lemma_position_finds(ids, voice_id, from + 1, at);
    }
}

/// Where an identifier is added at the end, what was found before is still
/// found where it was, and the new identifier is found at the end if it was
/// not found before.
proof fn lemma_position_push(ids: Seq<String>, added: String, voice_id: Seq<char>, from: int)
    requires
        0 <= from <= ids.len(),
    ensures
        position(ids.push(added), voice_id, from) == match position(ids, voice_id, from) {
            Some(at) => Some(at),
            None => if added@ == voice_id {
                Some(ids.len() as int)
            } else {
                None
            },
        },
    decreases ids.len() - from,
{
    let longer = ids.push(added);
    if from < ids.len() {
        assert(longer[from] == ids[from]);
        if ids[from]@ != voice_id {
            lemma_position_push(ids, added, voice_id, from + 1);
        }
    } else {
        assert(longer[from] == added);
        assert(position(longer, voice_id, from + 1) is None);
    }
}

impl<E> EngineCache<E> {
    /// Whether the cache is in order: every identifier has its engine, and
    /// no identifier occurs twice.
    pub closed spec fn wf(&self) -> bool {
        &&& self.ids@.len() == self.engines@.len()
        &&& texts_of(self.ids@).no_duplicates()
    }

    /// The voices of a cache in order are as many as its identifiers.
    proof fn lemma_voices_are_counted(&self)
        requires
            self.wf(),
        ensures
            self@.dom().finite(),
            self@.dom().len() == self.ids@.len(),
    {
        let texts = texts_of(self.ids@);
        assert forall|voice_id: Seq<char>| self@.dom().contains(voice_id) == texts.to_set().contains(
            voice_id,
        ) by {
            lemma_position_bounds(self.ids@, voice_id, 0);
            if texts.contains(voice_id) {
                let at = choose|at: int| 0 <= at < texts.len() && texts[at] == voice_id;
                lemma_position_finds(self.ids@, voice_id, 0, at);
            }
            if position(self.ids@, voice_id, 0) is Some {
                let at = position(self.ids@, voice_id, 0).unwrap();
                assert(texts[at] == voice_id);
            }
        }
        assert(self@.dom() =~= texts.to_set());
        vstd::seq_lib::seq_to_set_is_finite(texts);
        texts.unique_seq_to_set();
    }

    /// The cache without any engine.
    pub fn new() -> (cache: EngineCache<E>)
        ensures
            cache.wf(),
            cache@ == Map::<Seq<char>, E>::empty(),
    {
        let cache = EngineCache { ids: Vec::new(), engines: Vec::new() };
        assert(cache@ =~= Map::<Seq<char>, E>::empty());
        cache
    }

    /// The position of `voice_id` among the identifiers.
    fn find(&self, voice_id: &String) -> (at: Option<usize>)
        requires
            self.wf(),
        ensures
            match at {
                Some(at) => position(self.ids@, voice_id@, 0) == Some(at as int) && at
                    < self.ids@.len(),
                None => position(self.ids@, voice_id@, 0) is None,
            },
    {
        let mut i: usize = 0;
        while i < self.ids.len()
            invariant
                i <= self.ids.len(),
                position(self.ids@, voice_id@, 0) == position(self.ids@, voice_id@, i as int),
            decreases self.ids.len() - i,
        {
            if self.ids[i] == *voice_id {
                return Some(i);
            }
            i += 1;
        }
        None
    }

    /// The engine of the voice `voice_id`, if the cache holds one. The
    /// cache stays as it is.
    pub fn get(&self, voice_id: &str) -> (engine: Option<&E>)
        requires
            self.wf(),
        ensures
            match engine {
                Some(engine) => self@.contains_key(voice_id@) && *engine == self@[voice_id@],
                None => !self@.contains_key(voice_id@),
            },
    {
        let key = voice_id.to_owned();
        match self.find(&key) {
            Some(at) => Some(&self.engines[at]),
            None => None,
        }
    }

    /// Stores `engine` as the engine of the voice `voice_id`, in place of
    /// the one that the cache held for it, if any. Every other voice keeps
    /// its engine.
    pub fn insert(&mut self, voice_id: &str, engine: E)
        requires
            old(self).wf(),
        ensures
            final(self).wf(),
            final(self)@ == old(self)@.insert(voice_id@, engine),
    {
        let key = voice_id.to_owned();
        match self.find(&key) {
            Some(at) => {
                self.engines.set(at, engine);
                assert forall|other: Seq<char>| #[trigger]
                    self@.contains_key(other) && other != voice_id@ implies self@[other] == old(
                    self,
                )@[other] by {
                    lemma_position_bounds(self.ids@, other, 0);
                    lemma_position_bounds(self.ids@, voice_id@, 0);
                }
                proof {
                    lemma_position_bounds(self.ids@, voice_id@, 0);
                }
                assert(self@ =~= old(self)@.insert(voice_id@, engine));
            },
            None => {
                let ghost added = key;
                self.ids.push(key);
                self.engines.push(engine);
                assert(texts_of(self.ids@) =~= texts_of(old(self).ids@).push(voice_id@));
                assert forall|i: int| 0 <= i < old(self).ids@.len() implies #[trigger] texts_of(
                    old(self).ids@,
                )[i] != voice_id@ by {
                    if old(self).ids@[i]@ == voice_id@ {
                        lemma_position_finds(old(self).ids@, voice_id@, 0, i);
                    }
                }
                assert(texts_of(self.ids@).no_duplicates());
                assert forall|other: Seq<char>|
                    position(self.ids@, other, 0) == (match #[trigger] position(
                        old(self).ids@,
                        other,
                        0,
                    ) {
                        Some(at) => Some(at),
                        None => if other == voice_id@ {
                            Some(old(self).ids@.len() as int)
                        } else {
                            None
                        },
                    }) by {
                    lemma_position_push(old(self).ids@, added, other, 0);
                }
                assert forall|other: Seq<char>| #[trigger]
                    old(self)@.contains_key(other) implies self@[other] == old(self)@[other] by {
                    lemma_position_bounds(old(self).ids@, other, 0);
                    assert(position(self.ids@, other, 0) == position(old(self).ids@, other, 0));
                }
                assert(position(self.ids@, voice_id@, 0) == Some(old(self).ids@.len() as int));
                assert(self@ =~= old(self)@.insert(voice_id@, engine));
            },
        }
    }

    /// The number of voices that have an engine in the cache.
    pub fn len(&self) -> (n: usize)
        requires
            self.wf(),
        ensures
            self@.dom().finite(),
            n == self@.dom().len(),
    {
        proof {
            self.lemma_voices_are_counted();
        }
        self.ids.len()
    }
}

/// Once an engine is stored for a voice, looking that voice up gives this
/// very engine, so nothing has to build another; and the engines of all
/// other voices are the ones they were.
pub proof fn lemma_stored_engine_is_found<E>(
    cache: Map<Seq<char>, E>,
    voice_id: Seq<char>,
    engine: E,
    other: Seq<char>,
)
    ensures
        cache.insert(voice_id, engine).contains_key(voice_id),
        cache.insert(voice_id, engine)[voice_id] == engine,
        other != voice_id ==> cache.insert(voice_id, engine).contains_key(other)
            == cache.contains_key(other),
        other != voice_id && cache.contains_key(other) ==> cache.insert(voice_id, engine)[other]
            == cache[other],
{
}

} // verus!
