//! The configuration mapping of a report.
//!
//! Keys map to values, both strings; keys are unique, and inserting under
//! an existing key replaces its value (a later header line wins).  The
//! mathematical view is a `Map<Seq<char>, Seq<char>>`, and equality of two
//! configurations is equality of their views — no order among entries is
//! promised.

use vstd::prelude::*;

verus! {

/// The mapping that a sequence of entries denotes; later entries win.
pub open spec fn map_of(entries: Seq<(String, String)>) -> Map<Seq<char>, Seq<char>>
    decreases entries.len(),
{
    if entries.len() == 0 {
        Map::empty()
    } else {
        map_of(entries.drop_last()).insert(entries.last().0@, entries.last().1@)
    }
}

pub open spec fn keys_unique(entries: Seq<(String, String)>) -> bool {
    forall|i: int, j: int|
        0 <= i < j < entries.len() ==> (#[trigger] entries[i]).0@ != (#[trigger] entries[j]).0@
}

proof fn lemma_map_of_contains(entries: Seq<(String, String)>, k: Seq<char>)
    ensures
        map_of(entries).contains_key(k) <==> exists|i: int|
            0 <= i < entries.len() && (#[trigger] entries[i]).0@ == k,
    decreases entries.len(),
{
    if entries.len() > 0 {
        lemma_map_of_contains(entries.drop_last(), k);
        if entries.last().0@ == k {
            assert(entries[entries.len() - 1].0@ == k);
        } else if map_of(entries).contains_key(k) {
            let i = choose|i: int|
                0 <= i < entries.drop_last().len() && (#[trigger] entries.drop_last()[i]).0@ == k;
            assert(entries[i].0@ == k);
        } else {
            assert forall|i: int| 0 <= i < entries.len() implies (#[trigger] entries[i]).0@
                != k by {
                if i < entries.len() - 1 {
                    assert(entries.drop_last()[i].0@ == entries[i].0@);
                }
            }
        }
    }
}

proof fn lemma_map_of_value(entries: Seq<(String, String)>, i: int)
    requires
        keys_unique(entries),
        0 <= i < entries.len(),
    ensures
        map_of(entries).contains_key(entries[i].0@),
        map_of(entries)[entries[i].0@] == entries[i].1@,
    decreases entries.len(),
{
    if i + 1 < entries.len() {
        assert(entries.drop_last()[i] == entries[i]);
        lemma_map_of_value(entries.drop_last(), i);
    }
}

proof fn lemma_map_of_card(entries: Seq<(String, String)>)
    requires
        keys_unique(entries),
    ensures
        map_of(entries).dom().finite(),
        map_of(entries).dom().len() == entries.len(),
    decreases entries.len(),
{
    if entries.len() == 0 {
        assert(map_of(entries).dom() =~= Set::empty());
    } else {
        lemma_map_of_card(entries.drop_last());
        lemma_map_of_contains(entries.drop_last(), entries.last().0@);
        assert forall|i: int| 0 <= i < entries.drop_last().len() implies (#[trigger] entries.drop_last()[i]).0@
            != entries.last().0@ by {
            assert(entries.drop_last()[i].0@ == entries[i].0@);
        }
        assert(!map_of(entries.drop_last()).contains_key(entries.last().0@));
        assert(map_of(entries).dom() =~= map_of(entries.drop_last()).dom().insert(
            entries.last().0@,
        ));
    }
}

proof fn lemma_map_of_update(entries: Seq<(String, String)>, j: int, e: (String, String))
    requires
        keys_unique(entries),
        0 <= j < entries.len(),
        entries[j].0@ == e.0@,
    ensures
        map_of(entries.update(j, e)) =~= map_of(entries).insert(e.0@, e.1@),
    decreases entries.len(),
{
    let upd = entries.update(j, e);
    if j + 1 == entries.len() {
        assert(upd.drop_last() =~= entries.drop_last());
        assert(upd.last() == e);
    } else {
        assert(upd.drop_last() =~= entries.drop_last().update(j, e));
        assert(entries.drop_last()[j] == entries[j]);
        lemma_map_of_update(entries.drop_last(), j, e);
        assert(upd.last() == entries.last());
        // the final inserts commute: the replaced key differs from the last key
        assert(entries[j].0@ != entries.last().0@);
    }
}

/// The configurations passed to a report: a string-to-string mapping.
#[derive(Debug)]
pub struct Config {
    entries: Vec<(String, String)>,
}

impl View for Config {
    type V = Map<Seq<char>, Seq<char>>;

    closed spec fn view(&self) -> Map<Seq<char>, Seq<char>> {
        map_of(self.entries@)
    }
}

impl Config {
    #[verifier::type_invariant]
    spec fn wf(self) -> bool {
        keys_unique(self.entries@)
    }

    /// An empty configuration.
    pub fn new() -> (r: Config)
        ensures
            r@ == Map::<Seq<char>, Seq<char>>::empty(),
    {
        Config { entries: Vec::new() }
    }

    /// How many keys are set.
    pub fn len(&self) -> (r: usize)
        ensures
            r == self@.dom().len(),
    {
        proof {
            use_type_invariant(self);
            lemma_map_of_card(self.entries@);
        }
        self.entries.len()
    }

    /// The value stored under a key.
    pub fn get(&self, key: &str) -> (r: Option<&String>)
        ensures
            match r {
                Some(v) => self@.contains_key(key@) && v@ == self@[key@],
                None => !self@.contains_key(key@),
            },
    {
        proof {
            use_type_invariant(self);
        }
        let k = String::from_str(key);
        let mut i: usize = 0;
        while i < self.entries.len()
            invariant
                i <= self.entries@.len(),
                k@ == key@,
                keys_unique(self.entries@),
                forall|l: int| 0 <= l < i ==> (#[trigger] self.entries@[l]).0@ != key@,
            decreases self.entries@.len() - i,
        {
            if self.entries[i].0 == k {
                proof {
                    lemma_map_of_value(self.entries@, i as int);
                }
                return Some(&self.entries[i].1);
            }
            i += 1;
        }
        proof {
            lemma_map_of_contains(self.entries@, key@);
        }
        None
    }

    /// Set a key to a value; an existing entry for the key is replaced.
    #[verifier::loop_isolation(false)]
    pub fn insert(self, key: String, value: String) -> (r: Config)
        ensures
            r@ == self@.insert(key@, value@),
    {
        proof {
            use_type_invariant(&self);
        }
        let ghost orig = self.entries@;
        let Config { mut entries } = self;
        let ghost k0 = key@;
        let ghost v0 = value@;
        let mut i: usize = 0;
        while i < entries.len()
            invariant
                i <= entries@.len(),
                entries@ == orig,
                key@ == k0,
                value@ == v0,
                keys_unique(entries@),
                forall|l: int| 0 <= l < i ==> (#[trigger] entries@[l]).0@ != key@,
            decreases entries@.len() - i,
        {
            if entries[i].0 == key {
                proof {
                    lemma_map_of_update(orig, i as int, (key, value));
                }
                let ghost e = (key, value);
                vstd::pervasive::VecAdditionalExecFns::set(&mut entries, i, (key, value));
                proof {
                    assert(entries@ =~= orig.update(i as int, e));
                    assert forall|l: int, j: int| 0 <= l < j < entries@.len() implies (
                    #[trigger] entries@[l]).0@ != (#[trigger] entries@[j]).0@ by {
                        assert(orig[l].0@ != orig[j].0@);
                        assert(entries@[l].0@ == if l == i { e.0@ } else { orig[l].0@ });
                        assert(entries@[j].0@ == if j == i { e.0@ } else { orig[j].0@ });
                    }
                    assert(map_of(entries@) == map_of(orig).insert(e.0@, e.1@));
                }
                return Config { entries };
            }
            i += 1;
        }
        entries.push((key, value));
        proof {
            assert(entries@.drop_last() =~= orig);
            assert forall|l: int, j: int| 0 <= l < j < entries@.len() implies (
            #[trigger] entries@[l]).0@ != (#[trigger] entries@[j]).0@ by {
                if j + 1 == entries@.len() {
                    assert(entries@[l].0@ == orig[l].0@);
                }
            }
        }
        Config { entries }
    }
}

impl PartialEq for Config {
    fn eq(&self, other: &Config) -> (r: bool) {
        proof {
            use_type_invariant(self);
            use_type_invariant(other);
        }
        let mut i: usize = 0;
        while i < self.entries.len()
            invariant
                i <= self.entries@.len(),
                keys_unique(self.entries@),
                keys_unique(other.entries@),
                forall|l: int| #![auto]
                    0 <= l < i ==> other@.contains_key(self.entries@[l].0@) && other@[self.entries@[l].0@]
                        == self.entries@[l].1@,
            decreases self.entries@.len() - i,
        {
            proof {
                lemma_map_of_value(self.entries@, i as int);
            }
            match other.get(self.entries[i].0.as_str()) {
                Some(v) => {
                    if !(*v == self.entries[i].1) {
                        return false;
                    }
                },
                None => {
                    return false;
                },
            }
            i += 1;
        }
        let mut j: usize = 0;
        while j < other.entries.len()
            invariant
                j <= other.entries@.len(),
                keys_unique(self.entries@),
                keys_unique(other.entries@),
                forall|l: int| #![auto]
                    0 <= l < self.entries@.len() ==> other@.contains_key(self.entries@[l].0@)
                        && other@[self.entries@[l].0@] == self.entries@[l].1@,
                forall|l: int| #![auto] 0 <= l < j ==> self@.contains_key(other.entries@[l].0@),
            decreases other.entries@.len() - j,
        {
            proof {
                lemma_map_of_value(other.entries@, j as int);
            }
            match self.get(other.entries[j].0.as_str()) {
                Some(_) => {},
                None => {
                    return false;
                },
            }
            j += 1;
        }
        proof {
            assert forall|k: Seq<char>|
                #![trigger self@.dom().contains(k)]
                #![trigger other@.dom().contains(k)]
                self@.dom().contains(k) == other@.dom().contains(k) && (self@.dom().contains(k)
                    ==> self@[k] == other@[k]) by {
                lemma_map_of_contains(self.entries@, k);
                lemma_map_of_contains(other.entries@, k);
                if self@.contains_key(k) {
                    let l = choose|l: int|
                        0 <= l < self.entries@.len() && (#[trigger] self.entries@[l]).0@ == k;
                    lemma_map_of_value(self.entries@, l);
                }
                if other@.contains_key(k) {
                    let l = choose|l: int|
                        0 <= l < other.entries@.len() && (#[trigger] other.entries@[l]).0@ == k;
                    assert(self@.contains_key(other.entries@[l].0@));
                }
            }
            assert(self@.dom() =~= other@.dom());
            assert(self@ =~= other@);
        }
        true
    }
}

impl vstd::std_specs::cmp::PartialEqSpecImpl for Config {
    open spec fn obeys_eq_spec() -> bool {
        true
    }

    open spec fn eq_spec(&self, other: &Config) -> bool {
        self@ == other@
    }
}

} // verus!
