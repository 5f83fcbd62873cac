//! The named launch configurations the master can schedule.
use vstd::prelude::*;
use crate::models::{StartInfo, StartInfoView};

verus! {

/// Launch configurations by name; each name occurs once.
pub struct StartInfos {
    entries: Vec<(String, StartInfo)>,
}

impl StartInfos {
    #[verifier::type_invariant]
    spec fn distinct_names(self) -> bool {
        names_distinct(self.entries@)
    }

    /// The names in the order the configurations were first added.
    pub closed spec fn names(self) -> Seq<Seq<char>> {
        self.entries@.map_values(|e: (String, StartInfo)| e.0@)
    }

    spec fn position(self, name: Seq<char>) -> int {
        choose|i: int| 0 <= i < self.entries@.len() && self.entries@[i].0@ == name
    }
}

/// No name occurs twice.
pub open spec fn names_distinct(entries: Seq<(String, StartInfo)>) -> bool {
    forall|i: int, j: int|
        0 <= i < entries.len() && 0 <= j < entries.len() && i != j ==> #[trigger] entries[i].0@
            != #[trigger] entries[j].0@
}

impl View for StartInfos {
    type V = Map<Seq<char>, StartInfoView>;

    closed spec fn view(&self) -> Map<Seq<char>, StartInfoView> {
        Map::new(
            |name: Seq<char>|
                exists|i: int| 0 <= i < self.entries@.len() && self.entries@[i].0@ == name,
            |name: Seq<char>| self.entries@[self.position(name)].1@,
        )
    }
}

impl StartInfos {
    proof fn lemma_entry(&self, i: int)
        requires
            names_distinct(self.entries@),
            0 <= i < self.entries@.len(),
        ensures
            self@.dom().contains(self.entries@[i].0@),
            self@[self.entries@[i].0@] == self.entries@[i].1@,
    {
        let name = self.entries@[i].0@;
        assert(exists|k: int| 0 <= k < self.entries@.len() && self.entries@[k].0@ == name);
        let p = self.position(name);
        assert(p == i);
    }

    /// A collection with no configurations.
    pub fn new() -> (r: Self)
        ensures
            r@ == Map::<Seq<char>, StartInfoView>::empty(),
            r.names().len() == 0,
    {
        let r = StartInfos { entries: Vec::new() };
        assert(r@ =~= Map::<Seq<char>, StartInfoView>::empty());
        r
    }

    /// Number of configurations.
    pub fn len(&self) -> (n: usize)
        ensures
            n == self@.len(),
            n == self.names().len(),
    {
        proof {
            use_type_invariant(self);
            self.lemma_dom_names();
        }
        self.entries.len()
    }

    /// Whether there is no configuration at all.
    pub fn is_empty(&self) -> (b: bool)
        ensures
            b <==> self@.dom().is_empty(),
            b <==> self.names().len() == 0,
    {
        proof {
            use_type_invariant(self);
            self.lemma_dom_names();
            if self.entries@.len() > 0 {
                self.lemma_entry(0);
            }
        }
        self.entries.len() == 0
    }

    proof fn lemma_dom_names(&self)
        requires
            names_distinct(self.entries@),
        ensures
            self@.dom() =~= self.names().to_set(),
            self.names().no_duplicates(),
            self@.dom().finite(),
            self@.len() == self.names().len(),
    {
        let names = self.names();
        assert forall|n: Seq<char>| self@.dom().contains(n) <==> names.contains(n) by {
            if self@.dom().contains(n) {
                let i = choose|i: int| 0 <= i < self.entries@.len() && self.entries@[i].0@ == n;
                assert(names[i] == n);
            }
            if names.contains(n) {
                let i = choose|i: int| 0 <= i < names.len() && names[i] == n;
                assert(self.entries@[i].0@ == n);
            }
        }
        assert forall|i: int, j: int| 0 <= i < names.len() && 0 <= j < names.len() && i != j
            implies names[i] != names[j] by {
            assert(self.entries@[i].0@ == names[i]);
            assert(self.entries@[j].0@ == names[j]);
        }
        names.unique_seq_to_set();
    }

    /// Index of the entry with the given name, if any.
    fn find(&self, name: &str) -> (r: Option<usize>)
        ensures
            match r {
                Some(i) => i < self.entries@.len() && self.entries@[i as int].0@ == name@,
                None => !self@.dom().contains(name@),
            },
    {
        let wanted = name.to_owned();
        let mut i: usize = 0;
        while i < self.entries.len()
            invariant
                i <= self.entries@.len(),
                wanted@ == name@,
                forall|k: int| 0 <= k < i ==> self.entries@[k].0@ != name@,
            decreases self.entries@.len() - i,
        {
            if self.entries[i].0 == wanted {
                return Some(i);
            }
            i = i + 1;
        }
        None
    }

    /// Whether a configuration has this name.
    pub fn contains_key(&self, name: &str) -> (b: bool)
        ensures
            b <==> self@.dom().contains(name@),
    {
        proof {
            use_type_invariant(self);
        }
        match self.find(name) {
            Some(i) => {
                proof {
                    self.lemma_entry(i as int);
                }
                true
            },
            None => false,
        }
    }

    /// The configuration with this name.
    pub fn get(&self, name: &str) -> (r: Option<&StartInfo>)
        ensures
            match r {
                Some(info) => self@.dom().contains(name@) && info@ == self@[name@],
                None => !self@.dom().contains(name@),
            },
    {
        proof {
            use_type_invariant(self);
        }
        match self.find(name) {
            Some(i) => {
                proof {
                    self.lemma_entry(i as int);
                }
                Some(&self.entries[i].1)
            },
            None => None,
        }
    }

    /// One of the names, if there is any: the first one added.
    pub fn first_key(&self) -> (r: Option<String>)
        ensures
            match r {
                Some(name) => self@.dom().contains(name@) && self.names().len() > 0 && name@
                    == self.names()[0],
                None => self@.dom().is_empty() && self.names().len() == 0,
            },
    {
        proof {
            use_type_invariant(self);
            self.lemma_dom_names();
        }
        if self.entries.len() == 0 {
            None
        } else {
            proof {
                self.lemma_entry(0);
            }
            Some(self.entries[0].0.clone())
        }
    }

    /// Stores `info` under `name`, replacing and returning the configuration
    /// that had this name before.
    pub fn insert(&mut self, name: String, info: StartInfo) -> (previous: Option<StartInfo>)
        ensures
            final(self)@ == old(self)@.insert(name@, info@),
            match previous {
                Some(p) => old(self)@.dom().contains(name@) && p@ == old(self)@[name@],
                None => !old(self)@.dom().contains(name@),
            },
            old(self)@.dom().contains(name@) ==> final(self).names() == old(self).names(),
            !old(self)@.dom().contains(name@) ==> final(self).names() == old(self).names().push(
                name@,
            ),
    {
        proof {
            use_type_invariant(&*self);
        }
        let ghost old_self = *self;
        let found = self.find(name.as_str());
        let mut entries: Vec<(String, StartInfo)> = Vec::new();
        std::mem::swap(&mut entries, &mut self.entries);
        assert(entries@ == old_self.entries@);
        match found {
            Some(i) => {
                proof {
                    old_self.lemma_entry(i as int);
                }
                let previous = entries[i].1.clone();
                let ghost slot_name = entries@[i as int].0@;
                entries.set(i, (name, info));
                assert(entries@ == old_self.entries@.update(i as int, entries@[i as int]));
                assert(names_distinct(entries@)) by {
                    assert forall|a: int, b: int|
                        0 <= a < entries@.len() && 0 <= b < entries@.len() && a != b implies
                        #[trigger] entries@[a].0@ != #[trigger] entries@[b].0@ by {
                        assert(old_self.entries@[a].0@ == entries@[a].0@);
                        assert(old_self.entries@[b].0@ == entries@[b].0@);
                    }
                }
                *self = StartInfos { entries };
                proof {
                    assert(self.names() =~= old_self.names());
                    assert(self@ =~= old_self@.insert(slot_name, self.entries@[i as int].1@)) by {
                        assert forall|n: Seq<char>| #[trigger] self@.dom().contains(n)
                            <==> old_self@.dom().insert(slot_name).contains(n) by {
                            if self@.dom().contains(n) {
                                let k = choose|k: int|
                                    0 <= k < self.entries@.len() && self.entries@[k].0@ == n;
                                if k != i {
                                    old_self.lemma_entry(k);
                                }
                            }
                            if old_self@.dom().contains(n) {
                                let k = choose|k: int|
                                    0 <= k < old_self.entries@.len() && old_self.entries@[k].0@
                                        == n;
                                self.lemma_entry(k);
                            }
                        }
                        assert forall|n: Seq<char>| #[trigger] self@.dom().contains(n) implies self@[n]
                            == old_self@.insert(slot_name, self.entries@[i as int].1@)[n] by {
                            let k = choose|k: int|
                                0 <= k < self.entries@.len() && self.entries@[k].0@ == n;
                            self.lemma_entry(k);
                            if k != i {
                                old_self.lemma_entry(k);
                            }
                        }
                    }
                }
                Some(previous)
            },
            None => {
                let ghost name_view = name@;
                entries.push((name, info));
                assert(names_distinct(entries@)) by {
                    assert forall|a: int, b: int|
                        0 <= a < entries@.len() && 0 <= b < entries@.len() && a != b implies
                        #[trigger] entries@[a].0@ != #[trigger] entries@[b].0@ by {
                        let last = old_self.entries@.len() as int;
                        if a == last {
                            assert(entries@[b] == old_self.entries@[b]);
                            old_self.lemma_entry(b);
                        } else if b == last {
                            assert(entries@[a] == old_self.entries@[a]);
                            old_self.lemma_entry(a);
                        } else {
                            assert(entries@[a] == old_self.entries@[a]);
                            assert(entries@[b] == old_self.entries@[b]);
                        }
                    }
                }
                *self = StartInfos { entries };
                proof {
                    let last = old_self.entries@.len() as int;
                    assert(self.names() =~= old_self.names().push(name@));
                    self.lemma_entry(last);
                    assert(self@ =~= old_self@.insert(name@, info@)) by {
                        assert forall|n: Seq<char>| #[trigger] self@.dom().contains(n)
                            <==> old_self@.dom().insert(name@).contains(n) by {
                            if self@.dom().contains(n) {
                                let k = choose|k: int|
                                    0 <= k < self.entries@.len() && self.entries@[k].0@ == n;
                                if k != last {
                                    old_self.lemma_entry(k);
                                }
                            }
                            if old_self@.dom().contains(n) {
                                let k = choose|k: int|
                                    0 <= k < old_self.entries@.len() && old_self.entries@[k].0@
                                        == n;
                                self.lemma_entry(k);
                            }
                        }
                        assert forall|n: Seq<char>| #[trigger] self@.dom().contains(n) implies self@[n]
                            == old_self@.insert(name@, info@)[n] by {
                            let k = choose|k: int|
                                0 <= k < self.entries@.len() && self.entries@[k].0@ == n;
                            self.lemma_entry(k);
                            if k != last {
                                old_self.lemma_entry(k);
                            }
                        }
                    }
                }
                None
            },
        }
    }
}

} // verus!
