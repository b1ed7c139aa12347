//! The list of seed words from which a wallet's key manager is restored.
use vstd::prelude::*;

verus! {

/// Seed words, in the order they were added.
pub struct KeyManagerSeedWords {
    words: Vec<String>,
}

impl KeyManagerSeedWords {
    pub closed spec fn spec_words(&self) -> Seq<Seq<char>> {
        self.words@.map_values(|w: String| w@)
    }

    /// An empty list.
    pub fn new() -> (r: Self)
        ensures
            r.spec_words() == Seq::<Seq<char>>::empty(),
    {
        let r = KeyManagerSeedWords { words: Vec::new() };
        assert(r.spec_words() =~= Seq::<Seq<char>>::empty());
        r
    }

    /// The `i`-th word, if there are that many.
    pub fn word(&self, i: usize) -> (r: Option<String>)
        ensures
            match r {
                Some(w) => i < self.spec_words().len() && w@ == self.spec_words()[i as int],
                None => i >= self.spec_words().len(),
            },
    {
        if i < self.words.len() {
            Some(self.words[i].clone())
        } else {
            None
        }
    }

    /// Appends a word.
    pub fn add_word(&mut self, word: String)
        ensures
            final(self).spec_words() == old(self).spec_words().push(word@),
    {
        let ghost before = self.spec_words();
        self.words.push(word);
        assert(self.spec_words() =~= before.push(word@));
    }

    /// Number of words.
    pub fn len(&self) -> (r: usize)
        ensures
            r == self.spec_words().len(),
    {
        self.words.len()
    }
}

} // verus!
