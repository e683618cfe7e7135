use crate::assoc::{
    has_key, key_index, keys_distinct, lemma_map_of_keys, lemma_map_of_len, lemma_map_of_update,
    lemma_map_of_value, map_of,
};
use crate::text::str_equal;
use vstd::prelude::*;

verus! {

/// `pairs` after `value` was put under `key`: in the place of the pair with
/// that key, or at the end where there is none.
pub open spec fn with_pair(
    pairs: Seq<(Seq<char>, Seq<char>)>,
    key: Seq<char>,
    value: Seq<char>,
) -> Seq<(Seq<char>, Seq<char>)> {
    if has_key(pairs, key) {
        pairs.update(key_index(pairs, key), (key, value))
    } else {
        pairs.push((key, value))
    }
}

/// `pairs` with each key kept once: in the place where it first stood, with
/// the value it had last.
pub open spec fn merged(pairs: Seq<(Seq<char>, Seq<char>)>) -> Seq<(Seq<char>, Seq<char>)>
    decreases pairs.len(),
{
    if pairs.len() == 0 {
        Seq::empty()
    } else {
        with_pair(merged(pairs.drop_last()), pairs.last().0, pairs.last().1)
    }
}

/// String parameters handed to a task's handler: a mapping from key to value
/// in which each key occurs once, kept in the order of first insertion.
#[derive(Debug)]
pub struct Parameters {
    entries: Vec<(String, String)>,
}

impl View for Parameters {
    type V = Map<Seq<char>, Seq<char>>;

    open spec fn view(&self) -> Map<Seq<char>, Seq<char>> {
        map_of(self.pairs())
    }
}

impl Parameters {
    /// The key-value pairs in the order in which their keys first came.
    pub closed spec fn pairs(&self) -> Seq<(Seq<char>, Seq<char>)> {
        self.entries@.map_values(|e: (String, String)| (e.0@, e.1@))
    }

    /// Validity: no key occurs twice.
    #[verifier::type_invariant]
    pub open spec fn well_formed(&self) -> bool {
        keys_distinct(self.pairs())
    }

    /// No parameters.
    pub fn new() -> (parameters: Self)
        ensures
            parameters.pairs() == Seq::<(Seq<char>, Seq<char>)>::empty(),
            parameters@ == Map::<Seq<char>, Seq<char>>::empty(),
    {
        let parameters = Parameters { entries: Vec::new() };
        assert(parameters.pairs() =~= Seq::empty());
        parameters
    }

    /// The number of keys.
    pub fn len(&self) -> (n: usize)
        ensures
            n == self.pairs().len(),
            n == self@.dom().len(),
    {
        proof {
            use_type_invariant(self);
            lemma_map_of_len(self.pairs());
        }
        self.entries.len()
    }

    /// Where `key` stands among the pairs, if it does.
    fn position(&self, key: &str) -> (found: Option<usize>)
        ensures
            match found {
                Some(i) => i < self.pairs().len() && self.pairs()[i as int].0 == key@,
                None => !has_key(self.pairs(), key@),
            },
    {
        let mut i: usize = 0;
        while i < self.entries.len()
            invariant
                i <= self.entries.len(),
                forall|j: int| 0 <= j < i ==> self.pairs()[j].0 != key@,
            decreases self.entries.len() - i,
        {
            if str_equal(self.entries[i].0.as_str(), key) {
                return Some(i);
            }
            i += 1;
        }
        None
    }

    /// Whether `key` has a value.
    pub fn contains_key(&self, key: &str) -> (b: bool)
        ensures
            b == self@.contains_key(key@),
    {
        proof {
            lemma_map_of_keys(self.pairs(), key@);
        }
        self.position(key).is_some()
    }

    /// The value under `key`.
    pub fn get(&self, key: &str) -> (value: Option<&String>)
        ensures
            match value {
                Some(v) => self@.contains_key(key@) && v@ == self@[key@],
                None => !self@.contains_key(key@),
            },
    {
        proof {
            use_type_invariant(self);
            lemma_map_of_keys(self.pairs(), key@);
        }
        match self.position(key) {
            Some(i) => {
                proof {
                    lemma_map_of_value(self.pairs(), i as int);
                }
                Some(&self.entries[i].1)
            },
            None => None,
        }
    }

    /// The key of the pair at `index`.
    pub fn key_at(&self, index: usize) -> (key: &String)
        requires
            index < self.pairs().len(),
        ensures
            key@ == self.pairs()[index as int].0,
    {
        &self.entries[index].0
    }

    /// The value of the pair at `index`.
    pub fn value_at(&self, index: usize) -> (value: &String)
        requires
            index < self.pairs().len(),
        ensures
            value@ == self.pairs()[index as int].1,
    {
        &self.entries[index].1
    }

    /// Puts `value` under `key`. A value that stood there is replaced, and the
    /// key keeps its place; a new key goes to the end.
    pub fn insert(&mut self, key: String, value: String)
        ensures
            final(self)@ == old(self)@.insert(key@, value@),
            final(self).pairs() == with_pair(old(self).pairs(), key@, value@),
    {
        proof {
            use_type_invariant(&*self);
        }
        let ghost before = self.pairs();
        let found = self.position(key.as_str());
        let mut entries: Vec<(String, String)> = Vec::new();
        std::mem::swap(&mut entries, &mut self.entries);
        match found {
            Some(i) => {
                proof {
                    lemma_map_of_update(before, i as int, value@);
                    assert(key_index(before, key@) == i as int);
                }
                entries[i] = (key, value);
                assert(entries@.map_values(|e: (String, String)| (e.0@, e.1@)) =~= before.update(
                    i as int,
                    (key@, value@),
                ));
            },
            None => {
                entries.push((key, value));
                assert(entries@.map_values(|e: (String, String)| (e.0@, e.1@)) =~= before.push(
                    (key@, value@),
                ));
                assert(before.push((key@, value@)).drop_last() =~= before);
            },
        }
        self.entries = entries;
    }

    /// The parameters that `pairs` spell out, taken in order: a later pair
    /// replaces the value of an earlier one with the same key.
    pub fn from_pairs(pairs: Vec<(String, String)>) -> (parameters: Self)
        ensures
            parameters.pairs() == merged(pairs@.map_values(|e: (String, String)| (e.0@, e.1@))),
            parameters@ == map_of(pairs@.map_values(|e: (String, String)| (e.0@, e.1@))),
    {
        let ghost given = pairs@.map_values(|e: (String, String)| (e.0@, e.1@));
        let mut parameters = Parameters::new();
        let mut i: usize = 0;
        while i < pairs.len()
            invariant
                i <= pairs.len(),
                given == pairs@.map_values(|e: (String, String)| (e.0@, e.1@)),
                parameters@ == map_of(given.take(i as int)),
                parameters.pairs() == merged(given.take(i as int)),
            decreases pairs.len() - i,
        {
            let key = pairs[i].0.clone();
            let value = pairs[i].1.clone();
            parameters.insert(key, value);
            proof {
                assert(given.take(i + 1).drop_last() =~= given.take(i as int));
            }
            i += 1;
        }
        assert(given.take(pairs.len() as int) =~= given);
        parameters
    }

    /// The pairs, in order, as owned strings.
    pub fn to_pairs(&self) -> (pairs: Vec<(String, String)>)
        ensures
            pairs@.map_values(|e: (String, String)| (e.0@, e.1@)) == self.pairs(),
    {
        let mut pairs: Vec<(String, String)> = Vec::new();
        let mut i: usize = 0;
        while i < self.entries.len()
            invariant
                i <= self.entries.len(),
                pairs@.map_values(|e: (String, String)| (e.0@, e.1@)) == self.pairs().take(
                    i as int,
                ),
            decreases self.entries.len() - i,
        {
            let ghost copied = pairs@.map_values(|e: (String, String)| (e.0@, e.1@));
            let key = self.entries[i].0.clone();
            let value = self.entries[i].1.clone();
            pairs.push((key, value));
            proof {
                let now = pairs@.map_values(|e: (String, String)| (e.0@, e.1@));
                assert(now =~= copied.push((key@, value@)));
                assert(self.pairs().take(i + 1) =~= self.pairs().take(i as int).push(
                    self.pairs()[i as int],
                ));
            }
            i += 1;
        }
        assert(self.pairs().take(self.entries.len() as int) =~= self.pairs());
        pairs
    }
}

impl Clone for Parameters {
    fn clone(&self) -> (copy: Self)
        ensures
            copy.pairs() == self.pairs(),
            copy@ == self@,
    {
        proof {
            use_type_invariant(self);
        }
        let entries = self.to_pairs();
        assert(entries@.map_values(|e: (String, String)| (e.0@, e.1@)) == self.pairs());
        Parameters { entries }
    }
}

} // verus!
