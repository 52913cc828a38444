//! A word list: each word with the information on where it came from.

use vstd::prelude::*;

use super::types::{metas_view, Meta, MetaView};

verus! {

/// The internal representation of a word list: a hash map from each word to
/// the information on where it came from.
#[verifier::external_body]
#[derive(Debug)]
pub struct WordList {
    map: hashbrown::HashMap<String, Vec<Meta>>,
}

/// Each word of a list with the values of its metas.
pub type WordMap = Map<Seq<char>, Seq<MetaView>>;

/// What a word list holds: each word with the values of its metas.
pub uninterp spec fn wordlist_contents(w: WordList) -> Map<Seq<char>, Seq<MetaView>>;

/// The metas of `w` in `m`, none where `w` is not there.
pub open spec fn metas_of(m: Map<Seq<char>, Seq<MetaView>>, w: Seq<char>) -> Seq<MetaView> {
    if m.contains_key(w) {
        m[w]
    } else {
        Seq::empty()
    }
}

/// `m` with `x` added to the metas of `w`.
pub open spec fn add_meta(m: Map<Seq<char>, Seq<MetaView>>, w: Seq<char>, x: MetaView) -> Map<
    Seq<char>,
    Seq<MetaView>,
> {
    m.insert(w, metas_of(m, w).push(x))
}

impl WordList {
    pub open spec fn contents(&self) -> Map<Seq<char>, Seq<MetaView>> {
        wordlist_contents(*self)
    }

    /// `hashbrown::HashMap::new`: an empty map.
    #[verifier::external_body]
    fn empty_map() -> (r: WordList)
        ensures
            wordlist_contents(r) == WordMap::empty(),
    {
        WordList { map: hashbrown::HashMap::new() }
    }

    /// `hashbrown::HashMap::contains_key`: whether `word` is a key.
    #[verifier::external_body]
    pub(crate) fn contains_key(&self, word: &str) -> (r: bool)
        ensures
            r == wordlist_contents(*self).contains_key(word@),
    {
        self.map.contains_key(word)
    }

    /// `hashbrown::HashMap::get`: the value of `word`, if it is a key.
    #[verifier::external_body]
    pub(crate) fn get(&self, word: &str) -> (r: Option<&Vec<Meta>>)
        ensures
            match r {
                Some(v) => wordlist_contents(*self).contains_key(word@) && metas_view(v@) == wordlist_contents(*self)[word@],
                None => !wordlist_contents(*self).contains_key(word@),
            },
    {
        self.map.get(word)
    }

    /// `hashbrown::HashMap::remove`: take `word` and its value out of the
    /// map.
    #[verifier::external_body]
    fn remove(&mut self, word: &str) -> (r: Option<Vec<Meta>>)
        ensures
            wordlist_contents(*final(self)) == wordlist_contents(*old(self)).remove(word@),
            match r {
                Some(v) => wordlist_contents(*old(self)).contains_key(word@) && metas_view(v@) == wordlist_contents(*old(self))[word@],
                None => !wordlist_contents(*old(self)).contains_key(word@),
            },
    {
        self.map.remove(word)
    }

    /// `hashbrown::HashMap::insert`: set the value of `word`.
    #[verifier::external_body]
    fn insert(&mut self, word: String, metas: Vec<Meta>)
        ensures
            wordlist_contents(*final(self)) == wordlist_contents(*old(self)).insert(word@, metas_view(metas@)),
    {
        self.map.insert(word, metas);
    }

    /// `hashbrown::HashMap::keys`: the words, each once, in the map's own
    /// order, which depends on the seed of its hasher; the order is left
    /// unstated.
    #[verifier::external_body]
    pub(crate) fn keys(&self) -> (r: Vec<String>)
        ensures
            r@.len() == wordlist_contents(*self).len(),
            forall|i: int, j: int| 0 <= i < j < r@.len() ==> r@[i]@ != r@[j]@,
            forall|i: int| 0 <= i < r@.len() ==> wordlist_contents(*self).contains_key(#[trigger] r@[i]@),
            forall|w: Seq<char>| #[trigger] wordlist_contents(*self).contains_key(w) ==> exists|i: int|
                0 <= i < r@.len() && r@[i]@ == w,
    {
        self.map.keys().cloned().collect()
    }

    /// `hashbrown::HashMap::shrink_to_fit`: free spare room; what the map
    /// holds does not change.
    #[verifier::external_body]
    fn shrink_to_fit(&mut self)
        ensures
            wordlist_contents(*final(self)) == wordlist_contents(*old(self)),
    {
        self.map.shrink_to_fit();
    }

    /// Add `meta` to the metas of `word`.
    pub fn add_meta(&mut self, word: &str, meta: Meta)
        ensures
            wordlist_contents(*final(self)) == add_meta(wordlist_contents(*old(self)), word@, meta@),
    {
        let mut metas = match self.remove(word) {
            Some(v) => v,
            None => Vec::new(),
        };
        proof {
            if metas@.len() == 0 {
                assert(metas_view(metas@) =~= Seq::<MetaView>::empty());
            }
            assert(metas_view(metas@) =~= metas_of(wordlist_contents(*old(self)), word@));
        }
        let ghost before = metas@;
        metas.push(meta);
        proof {
            assert(metas_view(metas@) =~= metas_view(before).push(meta@));
        }
        self.insert(word.to_owned(), metas);
        proof {
            assert(wordlist_contents(*self) =~= add_meta(wordlist_contents(*old(self)), word@, meta@));
        }
    }

    /// An empty word list.
    pub fn new() -> (r: WordList)
        ensures
            r.contents() == WordMap::empty(),
    {
        Self::empty_map()
    }

    /// Whether `word` is in the list.
    pub fn contains(&self, word: &str) -> (r: bool)
        ensures
            r == self.contents().contains_key(word@),
    {
        self.contains_key(word)
    }

    /// The words of the list, each once, in no particular order.
    pub fn words(&self) -> (r: Vec<String>)
        ensures
            r@.len() == self.contents().len(),
            forall|i: int, j: int| 0 <= i < j < r@.len() ==> r@[i]@ != r@[j]@,
            forall|i: int| 0 <= i < r@.len() ==> self.contents().contains_key(#[trigger] r@[i]@),
            forall|w: Seq<char>| #[trigger] self.contents().contains_key(w) ==> exists|i: int|
                0 <= i < r@.len() && r@[i]@ == w,
    {
        self.keys()
    }

    /// Free the room that the map does not use.
    pub fn shrink(&mut self)
        ensures
            final(self).contents() == old(self).contents(),
    {
        self.shrink_to_fit();
    }
}

} // verus!
