use vstd::prelude::*;
use crate::text::same_text;

verus! {

/// The path under which a configured stream is served: `/` and its name.
pub fn stream_path(name: &str) -> (r: String)
    ensures
        r@ == seq!['/'] + name@,
{
    let r = "/".to_owned().concat(name);
    proof {
        reveal_strlit("/");
    }
    r
}

/// The streams by path. Lookup is by exact, case-sensitive match.
pub struct StreamRegistry<V> {
    paths: Vec<String>,
    values: Vec<V>,
    map: Ghost<Map<Seq<char>, V>>,
}

impl<V> StreamRegistry<V> {
    /// The registered streams, by path.
    pub closed spec fn view(&self) -> Map<Seq<char>, V> {
        self.map@
    }

    /// The registered paths, in the order in which they were first inserted.
    pub closed spec fn order(&self) -> Seq<Seq<char>> {
        self.paths@.map_values(|p: String| p@)
    }

    /// Paths are unique, and each names the value beside it.
    pub closed spec fn wf(&self) -> bool {
        &&& self.paths@.len() == self.values@.len()
        &&& forall|i: int, j: int|
            0 <= i < j < self.paths@.len() ==> #[trigger] self.paths@[i]@ != #[trigger] self.paths@[j]@
        &&& forall|i: int|
            0 <= i < self.paths@.len() ==> #[trigger] self.map@.contains_key(self.paths@[i]@)
                && self.map@[self.paths@[i]@] == self.values@[i]
        &&& forall|k: Seq<char>|
            #[trigger] self.map@.contains_key(k) ==> exists|i: int|
                0 <= i < self.paths@.len() && #[trigger] self.paths@[i]@ == k
    }

    /// An empty registry.
    pub fn new() -> (r: StreamRegistry<V>)
        ensures
            r.wf(),
            r.view() == Map::<Seq<char>, V>::empty(),
            r.order() == Seq::<Seq<char>>::empty(),
    {
        let r = StreamRegistry { paths: Vec::new(), values: Vec::new(), map: Ghost(Map::empty()) };
        assert(r.order() =~= Seq::<Seq<char>>::empty());
        r
    }

    /// The number of registered streams.
    pub fn len(&self) -> (r: usize)
        requires
            self.wf(),
        ensures
            r == self.view().len(),
            r == self.order().len(),
            self.order().no_duplicates(),
            self.order().to_set() == self.view().dom(),
    {
        proof {
            self.lemma_len();
        }
        self.paths.len()
    }

    proof fn lemma_len(&self)
        requires
            self.wf(),
        ensures
            self.paths@.len() == self.map@.len(),
            self.order().no_duplicates(),
            self.order().to_set() == self.map@.dom(),
    {
        let keys = self.order();
        assert forall|i: int, j: int| 0 <= i < j < keys.len() implies keys[i] != keys[j] by {
            assert(self.paths@[i]@ != self.paths@[j]@);
        }
        assert(keys.no_duplicates());
        keys.unique_seq_to_set();
        assert(keys.to_set() =~= self.map@.dom()) by {
            assert forall|k: Seq<char>| self.map@.dom().contains(k) implies keys.to_set().contains(
                k,
            ) by {
                let i = choose|i: int| 0 <= i < self.paths@.len() && #[trigger] self.paths@[i]@ == k;
                assert(keys[i] == k);
            }
            assert forall|k: Seq<char>| keys.to_set().contains(k) implies self.map@.dom().contains(
                k,
            ) by {
                let i = choose|i: int| 0 <= i < keys.len() && keys[i] == k;
                assert(self.paths@[i]@ == k);
            }
        }
    }

    /// The path and value of the `i`-th registered stream.
    pub fn entry(&self, i: usize) -> (r: (&String, &V))
        requires
            self.wf(),
            i < self.view().len(),
        ensures
            r.0@ == self.order()[i as int],
            self.view().contains_key(r.0@),
            self.view()[r.0@] == *r.1,
    {
        proof {
            self.lemma_len();
        }
        (&self.paths[i], &self.values[i])
    }

    /// The index of `path` among the registered paths, if it is one.
    fn position(&self, path: &str) -> (r: Option<usize>)
        requires
            self.wf(),
        ensures
            match r {
                Some(i) => i < self.paths@.len() && self.paths@[i as int]@ == path@,
                None => !self.view().contains_key(path@),
            },
    {
        let mut i: usize = 0;
        while i < self.paths.len()
            invariant
                self.wf(),
                i <= self.paths@.len(),
                forall|j: int| 0 <= j < i ==> #[trigger] self.paths@[j]@ != path@,
            decreases self.paths@.len() - i,
        {
            if same_text(self.paths[i].as_str(), path) {
                return Some(i);
            }
            i = i + 1;
        }
        None
    }

    /// The stream registered under exactly `path`.
    pub fn lookup(&self, path: &str) -> (r: Option<&V>)
        requires
            self.wf(),
        ensures
            match r {
                Some(v) => self.view().contains_key(path@) && *v == self.view()[path@],
                None => !self.view().contains_key(path@),
            },
    {
        match self.position(path) {
            Some(i) => {
                assert(self.map@.contains_key(self.paths@[i as int]@));
                Some(&self.values[i])
            },
            None => None,
        }
    }

    /// Registers `value` under `path`, in place of any stream that was there.
    pub fn insert(&mut self, path: String, value: V)
        requires
            old(self).wf(),
        ensures
            final(self).wf(),
            final(self).view() == old(self).view().insert(path@, value),
            final(self).order() == if old(self).view().contains_key(path@) {
                old(self).order()
            } else {
                old(self).order().push(path@)
            },
    {
        match self.position(path.as_str()) {
            Some(i) => {
                self.map = Ghost(self.map@.insert(path@, value));
                self.values.set(i, value);
                assert forall|j: int| 0 <= j < self.paths@.len() implies #[trigger] self.map@.contains_key(
                    self.paths@[j]@,
                ) && self.map@[self.paths@[j]@] == self.values@[j] by {
                    if j != i {
                        assert(old(self).map@.contains_key(old(self).paths@[j]@));
                        assert(self.paths@[j]@ != self.paths@[i as int]@);
                    }
                }
                assert forall|k: Seq<char>| #[trigger] self.map@.contains_key(k) implies exists|
                    j: int,
                | 0 <= j < self.paths@.len() && #[trigger] self.paths@[j]@ == k by {
                    if k != path@ {
                        assert(old(self).map@.contains_key(k));
                    } else {
                        assert(self.paths@[i as int]@ == k);
                    }
                }
            },
            None => {
                self.map = Ghost(self.map@.insert(path@, value));
                let ghost n = self.paths@.len();
                self.paths.push(path);
                self.values.push(value);
                assert forall|j: int| 0 <= j < self.paths@.len() implies #[trigger] self.map@.contains_key(
                    self.paths@[j]@,
                ) && self.map@[self.paths@[j]@] == self.values@[j] by {
                    if j < n {
                        assert(self.paths@[j] == old(self).paths@[j]);
                        assert(self.values@[j] == old(self).values@[j]);
                        assert(old(self).map@.contains_key(old(self).paths@[j]@));
                        assert(old(self).paths@[j]@ != path@);
                    }
                }
                assert forall|a: int, b: int| 0 <= a < b < self.paths@.len() implies #[trigger] self.paths@[a]@
                    != #[trigger] self.paths@[b]@ by {
                    if b == n {
                        assert(self.paths@[a] == old(self).paths@[a]);
                        assert(old(self).paths@[a]@ != path@);
                    } else {
                        assert(self.paths@[a] == old(self).paths@[a]);
                        assert(self.paths@[b] == old(self).paths@[b]);
                    }
                }
                assert forall|k: Seq<char>| #[trigger] self.map@.contains_key(k) implies exists|
                    j: int,
                | 0 <= j < self.paths@.len() && #[trigger] self.paths@[j]@ == k by {
                    if k != self.paths@[n as int]@ {
                        assert(old(self).map@.contains_key(k));
                        let j = choose|j: int|
                            0 <= j < old(self).paths@.len() && #[trigger] old(self).paths@[j]@
                                == k;
                        assert(self.paths@[j] == old(self).paths@[j]);
                    }
                }
            },
        }
    }
}

} // verus!
