//! Vocabularies: namespaces mapping identifiers to ordered lists of word
//! definitions (supporting shadowing), and the registry of named
//! vocabularies with the active search order used during resolution.

use vstd::prelude::*;

use crate::internal_error::InternalError;
use crate::runtime_error::RuntimeError;
use crate::word::Word;

verus! {

/// The most vocabularies that may be active in the search order at once;
/// activating one beyond this bound is refused, not silently truncated.
pub const MAX_ACTIVE_VOCABULARIES: usize = 32;

/// The first element of `s` whose key equals `id`, searching front to back.
spec fn find_keyed<T>(s: Seq<T>, key: spec_fn(T) -> Seq<char>, id: Seq<char>) -> Option<T>
    decreases s.len(),
{
    if s.len() == 0 {
        None
    } else if key(s.first()) == id {
        Some(s.first())
    } else {
        find_keyed(s.drop_first(), key, id)
    }
}

/// When the first `i` elements do not carry the key, the search result is
/// decided by the rest.
proof fn lemma_find_keyed_skip<T>(s: Seq<T>, key: spec_fn(T) -> Seq<char>, id: Seq<char>, i: int)
    requires
        0 <= i <= s.len(),
        forall|j: int| 0 <= j < i ==> key(#[trigger] s[j]) != id,
    ensures
        find_keyed(s, key, id) == find_keyed(s.skip(i), key, id),
    decreases i,
{
    if i > 0 {
        assert(key(s.first()) != id) by {
            assert(s[0] == s.first());
        }
        assert forall|j: int| 0 <= j < i - 1 implies key(#[trigger] s.drop_first()[j]) != id by {
            assert(s.drop_first()[j] == s[j + 1]);
        }
        lemma_find_keyed_skip(s.drop_first(), key, id, i - 1);
        assert(s.drop_first().skip(i - 1) =~= s.skip(i));
    } else {
        assert(s.skip(0) =~= s);
    }
}

/// Replacing the first element that carries a key with another element of
/// the same key changes the search result for that key alone.
proof fn lemma_find_keyed_update<T>(s: Seq<T>, key: spec_fn(T) -> Seq<char>, i: int, e: T)
    requires
        0 <= i < s.len(),
        forall|j: int| 0 <= j < i ==> key(#[trigger] s[j]) != key(s[i]),
        key(e) == key(s[i]),
    ensures
        find_keyed(s.update(i, e), key, key(e)) == Some(e),
        forall|other: Seq<char>|
            other != key(e) ==> find_keyed(s.update(i, e), key, other) == find_keyed(
                s,
                key,
                other,
            ),
    decreases s.len(),
{
    let t = s.update(i, e);
    if i == 0 {
        assert(t.first() == e);
        assert(t.drop_first() =~= s.drop_first());
        assert(key(s.first()) == key(e)) by {
            assert(s[0] == s.first());
        }
        assert forall|other: Seq<char>| other != key(e) implies find_keyed(t, key, other)
            == find_keyed(s, key, other) by {
            assert(find_keyed(t, key, other) == find_keyed(t.drop_first(), key, other));
            assert(find_keyed(s, key, other) == find_keyed(s.drop_first(), key, other));
        }
    } else {
        assert(t.first() == s.first());
        assert(key(s[0]) != key(s[i]));
        assert forall|j: int| 0 <= j < i - 1 implies key(#[trigger] s.drop_first()[j]) != key(
            s.drop_first()[i - 1],
        ) by {
            assert(s.drop_first()[j] == s[j + 1]);
            assert(s.drop_first()[i - 1] == s[i]);
        }
        assert(key(e) == key(s.drop_first()[i - 1]));
        lemma_find_keyed_update(s.drop_first(), key, i - 1, e);
        assert(t.drop_first() =~= s.drop_first().update(i - 1, e));
        assert(find_keyed(t, key, key(e)) == Some(e)) by {
            assert(s[0] == s.first());
            assert(key(t.first()) != key(e));
        }
        assert forall|other: Seq<char>| other != key(e) implies find_keyed(t, key, other)
            == find_keyed(s, key, other) by {
            if key(s.first()) == other {
                assert(find_keyed(t, key, other) == Some(t.first()));
                assert(find_keyed(s, key, other) == Some(s.first()));
            } else {
                assert(find_keyed(t, key, other) == find_keyed(t.drop_first(), key, other));
                assert(find_keyed(s, key, other) == find_keyed(s.drop_first(), key, other));
            }
        }
    }
}

/// Appending an element whose key is not yet present adds a search result
/// for that key alone.
proof fn lemma_find_keyed_push<T>(s: Seq<T>, key: spec_fn(T) -> Seq<char>, e: T)
    requires
        find_keyed(s, key, key(e)) is None,
    ensures
        find_keyed(s.push(e), key, key(e)) == Some(e),
        forall|other: Seq<char>|
            other != key(e) ==> find_keyed(s.push(e), key, other) == find_keyed(s, key, other),
    decreases s.len(),
{
    let t = s.push(e);
    if s.len() == 0 {
        assert(t.first() == e);
        assert(t.drop_first() =~= Seq::<T>::empty());
        assert forall|other: Seq<char>| other != key(e) implies find_keyed(t, key, other)
            == find_keyed(s, key, other) by {
            assert(find_keyed(t, key, other) == find_keyed(t.drop_first(), key, other));
        }
    } else {
        assert(t.first() == s.first());
        assert(key(s.first()) != key(e)) by {
            assert(s[0] == s.first());
        }
        lemma_find_keyed_push(s.drop_first(), key, e);
        assert(t.drop_first() =~= s.drop_first().push(e));
        assert forall|other: Seq<char>| other != key(e) implies find_keyed(t, key, other)
            == find_keyed(s, key, other) by {
            if key(s.first()) == other {
                assert(find_keyed(t, key, other) == Some(t.first()));
                assert(find_keyed(s, key, other) == Some(s.first()));
            } else {
                assert(find_keyed(t, key, other) == find_keyed(t.drop_first(), key, other));
                assert(find_keyed(s, key, other) == find_keyed(s.drop_first(), key, other));
            }
        }
    }
}

/// The most recent definition in `ws` that is not hidden, if any: the one
/// resolution selects from a definition list.
pub open spec fn spec_last_visible(ws: Seq<Word>) -> Option<Word>
    decreases ws.len(),
{
    if ws.len() == 0 {
        None
    } else if !ws.last().hidden {
        Some(ws.last())
    } else {
        spec_last_visible(ws.drop_last())
    }
}

/// When every definition from position `k` on is hidden, the selection is
/// decided by the first `k`.
proof fn lemma_last_visible_take(ws: Seq<Word>, k: int)
    requires
        0 <= k <= ws.len(),
        forall|j: int| k <= j < ws.len() ==> (#[trigger] ws[j]).hidden,
    ensures
        spec_last_visible(ws) == spec_last_visible(ws.take(k)),
    decreases ws.len(),
{
    if k == ws.len() {
        assert(ws.take(k) =~= ws);
    } else {
        assert(ws[ws.len() - 1].hidden);
        assert(ws.last().hidden);
        assert forall|j: int| k <= j < ws.drop_last().len() implies (#[trigger] ws.drop_last()[j]).hidden by {
            assert(ws.drop_last()[j] == ws[j]);
        }
        lemma_last_visible_take(ws.drop_last(), k);
        assert(ws.drop_last().take(k) =~= ws.take(k));
    }
}

/// One identifier's ordered definition list. Appending never removes prior
/// definitions, so older ones stay reachable through references captured
/// before a shadow.
#[derive(Debug)]
struct DictEntry {
    identifier: String,
    words: Vec<Word>,
}

/// The key under which a dictionary entry is found.
spec fn entry_key() -> spec_fn(DictEntry) -> Seq<char> {
    |e: DictEntry| e.identifier@
}

/// One namespace: identifier to ordered list of word definitions. Created
/// once, mutated only through `define_word`, never shrunk.
#[derive(Debug)]
pub struct Vocabulary {
    dictionary: Vec<DictEntry>,
    pub name: String,
}

impl Vocabulary {
    /// This vocabulary's name.
    pub closed spec fn spec_name(&self) -> Seq<char> {
        self.name@
    }

    /// The ordered definition list bound to `id`, oldest first, or `None`
    /// when the identifier was never defined here.
    pub closed spec fn spec_definitions(&self, id: Seq<char>) -> Option<Seq<Word>> {
        match find_keyed(self.dictionary@, entry_key(), id) {
            Some(e) => Some(e.words@),
            None => None,
        }
    }

    /// The definition resolution selects for `id` in this vocabulary: the
    /// most recent non-hidden one, if any.
    pub open spec fn spec_visible(&self, id: Seq<char>) -> Option<Word> {
        match self.spec_definitions(id) {
            Some(ws) => spec_last_visible(ws),
            None => None,
        }
    }

    /// An empty vocabulary with the given name.
    pub fn new_named(name: &str) -> (v: Vocabulary)
        ensures
            v.spec_name() == name@,
            forall|id: Seq<char>| v.spec_definitions(id) is None,
    {
        Vocabulary { dictionary: Vec::new(), name: name.to_owned() }
    }

    /// The position of the entry for `id`, with nothing matching before it.
    fn index_of(&self, id: &String) -> (r: Option<usize>)
        ensures
            match r {
                Some(i) => {
                    &&& i < self.dictionary@.len()
                    &&& self.dictionary@[i as int].identifier@ == id@
                    &&& forall|j: int|
                        0 <= j < i ==> (#[trigger] self.dictionary@[j]).identifier@ != id@
                },
                None => forall|j: int|
                    0 <= j < self.dictionary@.len() ==> (#[trigger] self.dictionary@[j]).identifier@
                        != id@,
            },
    {
        let n = self.dictionary.len();
        let mut i: usize = 0;
        while i < n
            invariant
                n == self.dictionary@.len(),
                i <= n,
                forall|j: int| 0 <= j < i ==> (#[trigger] self.dictionary@[j]).identifier@ != id@,
            decreases n - i,
        {
            if self.dictionary[i].identifier == *id {
                return Some(i);
            }
            i = i + 1;
        }
        None
    }

    /// Appends `word` to the identifier's definition list, creating the list
    /// on first use. Never overwrites or removes earlier definitions, and
    /// never fails; the `Result` is kept for callers that treat definition
    /// as fallible.
    pub fn define_word(&mut self, identifier: &str, word: Word) -> (r: Result<(), RuntimeError>)
        ensures
            r == Ok::<(), RuntimeError>(()),
            final(self).spec_name() == old(self).spec_name(),
            final(self).spec_definitions(identifier@) == match old(self).spec_definitions(
                identifier@,
            ) {
                Some(ws) => Some(ws.push(word)),
                None => Some(seq![word]),
            },
            forall|other: Seq<char>|
                other != identifier@ ==> final(self).spec_definitions(other) == old(
                    self,
                ).spec_definitions(other),
    {
        let id: String = identifier.to_owned();
        match self.index_of(&id) {
            Some(i) => {
                proof {
                    lemma_find_keyed_skip(self.dictionary@, entry_key(), id@, i as int);
                    assert(self.dictionary@.skip(i as int).first() == self.dictionary@[i as int]);
                }
                let mut entry = self.dictionary.remove(i);
                entry.words.push(word);
                let ghost updated = entry;
                self.dictionary.insert(i, entry);
                proof {
                    assert(self.dictionary@ =~= old(self).dictionary@.update(i as int, updated));
                    lemma_find_keyed_update(old(self).dictionary@, entry_key(), i as int, updated);
                }
                Ok(())
            },
            None => {
                proof {
                    lemma_find_keyed_skip(
                        self.dictionary@,
                        entry_key(),
                        id@,
                        self.dictionary@.len() as int,
                    );
                    assert(self.dictionary@.skip(self.dictionary@.len() as int) =~= Seq::<
                        DictEntry,
                    >::empty());
                }
                let mut words: Vec<Word> = Vec::new();
                words.push(word);
                let entry = DictEntry { identifier: id, words };
                let ghost added = entry;
                self.dictionary.push(entry);
                proof {
                    lemma_find_keyed_push(old(self).dictionary@, entry_key(), added);
                    assert(added.words@ =~= seq![word]);
                }
                Ok(())
            },
        }
    }

    /// The definition `feed` would execute for `id` from this vocabulary:
    /// the most recent non-hidden one. Hidden definitions are invisible, so
    /// an identifier whose definitions are all hidden yields `None`.
    pub fn find_visible(&self, id: &String) -> (r: Option<&Word>)
        ensures
            match self.spec_visible(id@) {
                Some(w) => r matches Some(x) && *x == w,
                None => r is None,
            },
    {
        match self.index_of(id) {
            None => {
                proof {
                    lemma_find_keyed_skip(
                        self.dictionary@,
                        entry_key(),
                        id@,
                        self.dictionary@.len() as int,
                    );
                    assert(self.dictionary@.skip(self.dictionary@.len() as int) =~= Seq::<
                        DictEntry,
                    >::empty());
                }
                None
            },
            Some(i) => {
                proof {
                    lemma_find_keyed_skip(self.dictionary@, entry_key(), id@, i as int);
                    assert(self.dictionary@.skip(i as int).first() == self.dictionary@[i as int]);
                }
                let words = &self.dictionary[i].words;
                proof {
                    assert(self.spec_definitions(id@) == Some(words@));
                }
                let n = words.len();
                let mut k = n;
                while k > 0
                    invariant
                        n == words@.len(),
                        k <= n,
                        self.spec_definitions(id@) == Some(words@),
                        forall|j: int| k <= j < n ==> (#[trigger] words@[j]).hidden,
                    decreases k,
                {
                    if !words[k - 1].hidden {
                        proof {
                            lemma_last_visible_take(words@, k as int);
                            assert(words@.take(k as int).last() == words@[k - 1]);
                        }
                        return Some(&words[k - 1]);
                    }
                    k = k - 1;
                }
                proof {
                    lemma_last_visible_take(words@, 0);
                    assert(words@.take(0) =~= Seq::<Word>::empty());
                }
                None
            },
        }
    }
}

/// The key under which a vocabulary is found in the registry.
spec fn vocabulary_key() -> spec_fn(Vocabulary) -> Seq<char> {
    |v: Vocabulary| v.name@
}

/// The registry of named vocabularies, together with the ordered, bounded
/// list of active vocabulary names consulted during resolution, most
/// recently activated first.
#[derive(Debug)]
pub struct Vocabularies {
    vocabularies: Vec<Vocabulary>,
    search_order: Vec<String>,
}

impl Vocabularies {
    /// The registered vocabulary of the given name, if any.
    pub closed spec fn spec_vocabulary(&self, name: Seq<char>) -> Option<Vocabulary> {
        find_keyed(self.vocabularies@, vocabulary_key(), name)
    }

    /// The names of the active vocabularies, in the order resolution
    /// consults them.
    pub closed spec fn spec_search_order(&self) -> Seq<Seq<char>> {
        self.search_order@.map_values(|s: String| s@)
    }

    /// Resolution from position `i` of the search order on: the first
    /// vocabulary in the remaining order that yields a visible definition
    /// decides; names that yield none — unknown, undefined identifier, or
    /// all definitions hidden — are passed over.
    pub open spec fn spec_resolve_from(&self, id: Seq<char>, i: nat) -> Option<Word>
        decreases self.spec_search_order().len() - i,
    {
        if i >= self.spec_search_order().len() {
            None
        } else {
            let here = match self.spec_vocabulary(self.spec_search_order()[i as int]) {
                Some(voc) => voc.spec_visible(id),
                None => None,
            };
            match here {
                Some(w) => Some(w),
                None => self.spec_resolve_from(id, i + 1),
            }
        }
    }

    /// What resolving `id` against the whole search order yields.
    pub open spec fn spec_resolve(&self, id: Seq<char>) -> Option<Word> {
        self.spec_resolve_from(id, 0)
    }

    /// An empty registry: no vocabularies, nothing active.
    pub fn new() -> (vs: Vocabularies)
        ensures
            forall|name: Seq<char>| vs.spec_vocabulary(name) is None,
            vs.spec_search_order() == Seq::<Seq<char>>::empty(),
    {
        let vs = Vocabularies { vocabularies: Vec::new(), search_order: Vec::new() };
        proof {
            assert(vs.spec_search_order() =~= Seq::<Seq<char>>::empty());
        }
        vs
    }

    /// The position of the registered vocabulary named `name`.
    fn index_of_vocabulary(&self, name: &String) -> (r: Option<usize>)
        ensures
            match r {
                Some(i) => {
                    &&& i < self.vocabularies@.len()
                    &&& self.vocabularies@[i as int].name@ == name@
                    &&& forall|j: int|
                        0 <= j < i ==> (#[trigger] self.vocabularies@[j]).name@ != name@
                },
                None => forall|j: int|
                    0 <= j < self.vocabularies@.len() ==> (#[trigger] self.vocabularies@[j]).name@
                        != name@,
            },
    {
        let n = self.vocabularies.len();
        let mut i: usize = 0;
        while i < n
            invariant
                n == self.vocabularies@.len(),
                i <= n,
                forall|j: int| 0 <= j < i ==> (#[trigger] self.vocabularies@[j]).name@ != name@,
            decreases n - i,
        {
            if self.vocabularies[i].name == *name {
                return Some(i);
            }
            i = i + 1;
        }
        None
    }

    /// Registers `vocabulary` under its name, replacing a previous
    /// registration of the same name. The search order is untouched.
    pub fn register(&mut self, vocabulary: Vocabulary)
        ensures
            final(self).spec_vocabulary(vocabulary.spec_name()) == Some(vocabulary),
            forall|other: Seq<char>|
                other != vocabulary.spec_name() ==> final(self).spec_vocabulary(other) == old(
                    self,
                ).spec_vocabulary(other),
            final(self).spec_search_order() == old(self).spec_search_order(),
    {
        let ghost added = vocabulary;
        match self.index_of_vocabulary(&vocabulary.name) {
            Some(i) => {
                let _replaced = self.vocabularies.remove(i);
                self.vocabularies.insert(i, vocabulary);
                proof {
                    assert(self.vocabularies@ =~= old(self).vocabularies@.update(i as int, added));
                    lemma_find_keyed_update(old(self).vocabularies@, vocabulary_key(), i as int, added);
                }
            },
            None => {
                proof {
                    lemma_find_keyed_skip(
                        self.vocabularies@,
                        vocabulary_key(),
                        added.name@,
                        self.vocabularies@.len() as int,
                    );
                    assert(self.vocabularies@.skip(self.vocabularies@.len() as int) =~= Seq::<
                        Vocabulary,
                    >::empty());
                }
                self.vocabularies.push(vocabulary);
                proof {
                    lemma_find_keyed_push(old(self).vocabularies@, vocabulary_key(), added);
                }
            },
        }
    }

    /// Whether `name` is somewhere in the active search order.
    fn order_contains(&self, name: &String) -> (r: bool)
        ensures
            r == self.spec_search_order().contains(name@),
    {
        let n = self.search_order.len();
        let mut i: usize = 0;
        while i < n
            invariant
                n == self.search_order@.len(),
                i <= n,
                forall|j: int| 0 <= j < i ==> (#[trigger] self.search_order@[j])@ != name@,
            decreases n - i,
        {
            if self.search_order[i] == *name {
                proof {
                    assert(self.spec_search_order()[i as int] == name@);
                }
                return true;
            }
            i = i + 1;
        }
        proof {
            assert forall|j: int|
                0 <= j < self.spec_search_order().len() implies #[trigger] self.spec_search_order()[j]
                != name@ by {
                assert(self.spec_search_order()[j] == self.search_order@[j]@);
            }
        }
        false
    }

    /// Puts a registered vocabulary at the front of the search order, where
    /// resolution consults it first. Activating an already-active name
    /// leaves the order as it is; activating beyond the bound, or a name
    /// never registered, is a reportable error that changes nothing.
    pub fn activate(&mut self, name: &str) -> (r: Result<(), RuntimeError>)
        ensures
            forall|n: Seq<char>| final(self).spec_vocabulary(n) == old(self).spec_vocabulary(n),
            old(self).spec_vocabulary(name@) is None ==> ({
                &&& r == Err::<(), RuntimeError>(
                    RuntimeError::InternalError(InternalError::UnknownVocabulary),
                )
                &&& final(self).spec_search_order() == old(self).spec_search_order()
            }),
            old(self).spec_vocabulary(name@) is Some && old(self).spec_search_order().contains(
                name@,
            ) ==> ({
                &&& r == Ok::<(), RuntimeError>(())
                &&& final(self).spec_search_order() == old(self).spec_search_order()
            }),
            old(self).spec_vocabulary(name@) is Some && !old(self).spec_search_order().contains(
                name@,
            ) && old(self).spec_search_order().len() >= MAX_ACTIVE_VOCABULARIES ==> ({
                &&& r == Err::<(), RuntimeError>(RuntimeError::VocabularyCapacityExceeded)
                &&& final(self).spec_search_order() == old(self).spec_search_order()
            }),
            old(self).spec_vocabulary(name@) is Some && !old(self).spec_search_order().contains(
                name@,
            ) && old(self).spec_search_order().len() < MAX_ACTIVE_VOCABULARIES ==> ({
                &&& r == Ok::<(), RuntimeError>(())
                &&& final(self).spec_search_order() == seq![name@] + old(self).spec_search_order()
            }),
    {
        let owned: String = name.to_owned();
        let known = match self.index_of_vocabulary(&owned) {
            Some(vi) => {
                proof {
                    lemma_find_keyed_skip(self.vocabularies@, vocabulary_key(), owned@, vi as int);
                    assert(self.vocabularies@.skip(vi as int).first() == self.vocabularies@[vi as int]);
                }
                true
            },
            None => {
                proof {
                    lemma_find_keyed_skip(
                        self.vocabularies@,
                        vocabulary_key(),
                        owned@,
                        self.vocabularies@.len() as int,
                    );
                    assert(self.vocabularies@.skip(self.vocabularies@.len() as int) =~= Seq::<
                        Vocabulary,
                    >::empty());
                }
                false
            },
        };
        if !known {
            return Err(RuntimeError::InternalError(InternalError::UnknownVocabulary));
        }
        if self.order_contains(&owned) {
            return Ok(());
        }
        if self.search_order.len() >= MAX_ACTIVE_VOCABULARIES {
            return Err(RuntimeError::VocabularyCapacityExceeded);
        }
        self.search_order.insert(0, owned);
        proof {
            assert(self.spec_search_order() =~= seq![name@] + old(self).spec_search_order());
        }
        Ok(())
    }

    /// Takes the first occurrence of `name` out of the search order, leaving
    /// the rest of the order — and the registry — untouched. A name that is
    /// not active is left alone.
    pub fn deactivate(&mut self, name: &str)
        ensures
            forall|n: Seq<char>| final(self).spec_vocabulary(n) == old(self).spec_vocabulary(n),
            match old(self).spec_search_order().index_of_first(name@) {
                Some(i) => final(self).spec_search_order() == old(self).spec_search_order().remove(
                    i,
                ),
                None => final(self).spec_search_order() == old(self).spec_search_order(),
            },
    {
        let owned: String = name.to_owned();
        let n = self.search_order.len();
        let mut i: usize = 0;
        while i < n
            invariant
                *self == *old(self),
                n == self.search_order@.len(),
                i <= n,
                owned@ == name@,
                forall|j: int| 0 <= j < i ==> (#[trigger] self.search_order@[j])@ != name@,
            decreases n - i,
        {
            if self.search_order[i] == owned {
                proof {
                    old(self).spec_search_order().index_of_first_ensures(name@);
                    assert(old(self).spec_search_order()[i as int] == name@);
                    assert forall|j: int| 0 <= j < i implies #[trigger] old(
                        self,
                    ).spec_search_order()[j] != name@ by {
                        assert(old(self).spec_search_order()[j] == old(self).search_order@[j]@);
                    }
                    assert(old(self).spec_search_order().contains(name@)) by {
                        assert(old(self).spec_search_order()[i as int] == name@);
                    }
                    assert(old(self).spec_search_order().index_of_first(name@) == Some(i as int));
                }
                self.search_order.remove(i);
                proof {
                    assert(self.spec_search_order() =~= old(self).spec_search_order().remove(
                        i as int,
                    ));
                }
                return ;
            }
            i = i + 1;
        }
        proof {
            old(self).spec_search_order().index_of_first_ensures(name@);
            assert forall|j: int|
                0 <= j < old(self).spec_search_order().len() implies #[trigger] old(
                self,
            ).spec_search_order()[j] != name@ by {
                assert(old(self).spec_search_order()[j] == old(self).search_order@[j]@);
            }
            assert(!old(self).spec_search_order().contains(name@));
        }
    }

    /// Resolves `id` against the active search order: the first vocabulary
    /// (most recently activated first) that yields a visible definition
    /// decides; a vocabulary whose definitions for `id` are all hidden does
    /// not block the search.
    pub fn resolve(&self, id: &String) -> (r: Option<&Word>)
        ensures
            match self.spec_resolve(id@) {
                Some(w) => r matches Some(x) && *x == w,
                None => r is None,
            },
    {
        let n = self.search_order.len();
        let mut i: usize = 0;
        while i < n
            invariant
                n == self.search_order@.len(),
                i <= n,
                self.spec_resolve(id@) == self.spec_resolve_from(id@, i as nat),
            decreases n - i,
        {
            proof {
                assert(self.spec_search_order()[i as int] == self.search_order@[i as int]@);
            }
            match self.index_of_vocabulary(&self.search_order[i]) {
                Some(vi) => {
                    proof {
                        lemma_find_keyed_skip(
                            self.vocabularies@,
                            vocabulary_key(),
                            self.search_order@[i as int]@,
                            vi as int,
                        );
                        assert(self.vocabularies@.skip(vi as int).first() == self.vocabularies@[vi as int]);
                    }
                    let voc = &self.vocabularies[vi];
                    match voc.find_visible(id) {
                        Some(w) => {
                            return Some(w);
                        },
                        None => {},
                    }
                },
                None => {
                    proof {
                        lemma_find_keyed_skip(
                            self.vocabularies@,
                            vocabulary_key(),
                            self.search_order@[i as int]@,
                            self.vocabularies@.len() as int,
                        );
                        assert(self.vocabularies@.skip(self.vocabularies@.len() as int) =~= Seq::<
                            Vocabulary,
                        >::empty());
                    }
                },
            }
            i = i + 1;
        }
        None
    }
}

impl Default for Vocabularies {
    /// An empty registry.
    fn default() -> (vs: Vocabularies)
        ensures
            forall|name: Seq<char>| vs.spec_vocabulary(name) is None,
            vs.spec_search_order() == Seq::<Seq<char>>::empty(),
    {
        Vocabularies::new()
    }
}

} // verus!
