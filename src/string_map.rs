use vstd::prelude::*;
use crate::order::{compare_names, lemma_name_cmp, lemma_name_cmp_trans, name_cmp};
use crate::text::{is_prefix_of, starts_with};

verus! {

/// A table from strings to strings, each key bound once.
pub struct StringMap {
    entries: Vec<(String, String)>,
}

pub open spec fn pairs_view(s: Seq<(String, String)>) -> Seq<(Seq<char>, Seq<char>)> {
    s.map_values(|p: (String, String)| (p.0@, p.1@))
}

pub open spec fn keys_unique(s: Seq<(Seq<char>, Seq<char>)>) -> bool {
    forall|i: int, j: int| 0 <= i < s.len() && 0 <= j < s.len() && i != j ==> s[i].0 != s[j].0
}

/// The map that an association list with unique keys stands for.
pub open spec fn assoc_map(s: Seq<(Seq<char>, Seq<char>)>) -> Map<Seq<char>, Seq<char>> {
    Map::new(
        |k: Seq<char>| exists|i: int| 0 <= i < s.len() && s[i].0 == k,
        |k: Seq<char>| s[choose|i: int| 0 <= i < s.len() && s[i].0 == k].1,
    )
}

impl View for StringMap {
    type V = Map<Seq<char>, Seq<char>>;

    closed spec fn view(&self) -> Map<Seq<char>, Seq<char>> {
        assoc_map(pairs_view(self.entries@))
    }
}

proof fn lemma_assoc_at(s: Seq<(Seq<char>, Seq<char>)>, i: int)
    requires
        keys_unique(s),
        0 <= i < s.len(),
    ensures
        assoc_map(s).contains_key(s[i].0),
        assoc_map(s)[s[i].0] == s[i].1,
{
    let k = s[i].0;
    assert(assoc_map(s).contains_key(k));
    let j = choose|j: int| 0 <= j < s.len() && s[j].0 == k;
    assert(j == i);
}

/// `k` is the least key, by code points, that `m` binds to `v`.
pub open spec fn is_least_key_for(m: Map<Seq<char>, Seq<char>>, v: Seq<char>, k: Seq<char>) -> bool {
    &&& m.contains_key(k)
    &&& m[k] == v
    &&& forall|k2: Seq<char>| #[trigger] m.contains_key(k2) && m[k2] == v ==> name_cmp(k, k2) <= 0
}

/// At most one key is the least one bound to a value.
pub proof fn lemma_least_key_unique(m: Map<Seq<char>, Seq<char>>, v: Seq<char>, k1: Seq<char>, k2: Seq<char>)
    requires
        is_least_key_for(m, v, k1),
        is_least_key_for(m, v, k2),
    ensures
        k1 == k2,
{
    lemma_name_cmp(k1, k2);
}

impl StringMap {
    #[verifier::type_invariant]
    spec fn keys_bound_once(self) -> bool {
        keys_unique(pairs_view(self.entries@))
    }

    pub fn new() -> (r: StringMap)
        ensures
            r@ == Map::<Seq<char>, Seq<char>>::empty(),
    {
        let r = StringMap { entries: Vec::new() };
        assert(pairs_view(r.entries@) =~= Seq::empty());
        assert(r@ =~= Map::<Seq<char>, Seq<char>>::empty());
        r
    }

    /// The position of `key`, if it is bound.
    fn position(&self, key: &str) -> (r: Option<usize>)
        ensures
            r matches Some(i) ==> i < self.entries@.len() && self.entries@[i as int].0@ == key@,
            r is None ==> forall|j: int| 0 <= j < self.entries@.len() ==> self.entries@[j].0@ != key@,
    {
        let mut i: usize = 0;
        while i < self.entries.len()
            invariant
                i <= self.entries@.len(),
                forall|j: int| 0 <= j < i ==> self.entries@[j].0@ != key@,
            decreases self.entries@.len() - i,
        {
            if compare_names(self.entries[i].0.as_str(), key) == 0 {
                proof {
                    lemma_name_cmp(self.entries@[i as int].0@, key@);
                }
                return Some(i);
            }
            proof {
                lemma_name_cmp(self.entries@[i as int].0@, key@);
            }
            i += 1;
        }
        None
    }

    /// Binds `key` to `value`, replacing an earlier binding of `key`.
    pub fn insert(&mut self, key: String, value: String)
        ensures
            final(self)@ == old(self)@.insert(key@, value@),
    {
        proof {
            use_type_invariant(&*self);
        }
        let ghost s = pairs_view(self.entries@);
        assert forall|x: int| 0 <= x < s.len() implies #[trigger] s[x] == (
            self.entries@[x].0@,
            self.entries@[x].1@,
        ) by {}
        let found = self.position(key.as_str());
        let ghost t: Seq<(Seq<char>, Seq<char>)> = match found {
            Some(p) => s.update(p as int, (key@, value@)),
            None => s.push((key@, value@)),
        };
        let mut out: Vec<(String, String)> = Vec::new();
        let mut j: usize = 0;
        while j < self.entries.len()
            invariant
                j <= self.entries@.len(),
                s == pairs_view(self.entries@),
                found matches Some(p) ==> p < s.len() && t == s.update(p as int, (key@, value@)),
                found is None ==> t == s.push((key@, value@)),
                forall|x: int| 0 <= x < s.len() ==> #[trigger] s[x] == (
                    self.entries@[x].0@,
                    self.entries@[x].1@,
                ),
                out@.len() == j,
                pairs_view(out@) =~= t.subrange(0, j as int),
            decreases self.entries@.len() - j,
        {
            let hit = match found {
                Some(p) => p == j,
                None => false,
            };
            let ghost before = out@;
            if hit {
                out.push((key.clone(), value.clone()));
                assert(t[j as int] == (key@, value@));
            } else {
                out.push((self.entries[j].0.clone(), self.entries[j].1.clone()));
                assert(t[j as int] == s[j as int]);
            }
            assert(out@ == before.push(out@[j as int]));
            assert(pairs_view(out@)[j as int] == t[j as int]);
            assert forall|m: int| 0 <= m < j implies pairs_view(out@)[m] == t[m] by {
                assert(out@[m] == before[m]);
                assert(pairs_view(before)[m] == t.subrange(0, j as int)[m]);
            }
            j += 1;
            assert(pairs_view(out@) =~= t.subrange(0, j as int));
        }
        let ghost before = out@;
        if found.is_none() {
            out.push((key, value));
            assert(pairs_view(out@)[s.len() as int] == t[s.len() as int]);
            assert forall|m: int| 0 <= m < s.len() implies pairs_view(out@)[m] == t[m] by {
                assert(out@[m] == before[m]);
                assert(pairs_view(before)[m] == t.subrange(0, s.len() as int)[m]);
            }
        }
        proof {
            assert(pairs_view(out@) =~= t);
            assert(keys_unique(t)) by {
                assert forall|a: int, b: int| 0 <= a < t.len() && 0 <= b < t.len() && a != b implies t[a].0
                    != t[b].0 by {
                    match found {
                        Some(p) => {
                            assert(s[p as int].0 == key@);
                            if a != p {
                                assert(t[a] == s[a]);
                            }
                            if b != p {
                                assert(t[b] == s[b]);
                            }
                        },
                        None => {
                            if a < s.len() {
                                assert(t[a] == s[a]);
                            }
                            if b < s.len() {
                                assert(t[b] == s[b]);
                            }
                        },
                    }
                }
            }
            let m = old(self)@.insert(key@, value@);
            assert forall|k: Seq<char>| #[trigger] assoc_map(t).contains_key(k) <==> m.contains_key(k) by {
                if assoc_map(t).contains_key(k) {
                    let i = choose|i: int| 0 <= i < t.len() && t[i].0 == k;
                    if k != key@ {
                        assert(s[i] == t[i]);
                        assert(old(self)@.contains_key(k));
                    }
                }
                if m.contains_key(k) {
                    if k == key@ {
                        match found {
                            Some(p) => assert(t[p as int].0 == k),
                            None => assert(t[s.len() as int].0 == k),
                        }
                    } else {
                        let i = choose|i: int| 0 <= i < s.len() && s[i].0 == k;
                        assert(t[i] == s[i]);
                    }
                }
            }
            assert forall|k: Seq<char>| #[trigger] assoc_map(t).contains_key(k) implies assoc_map(t)[k]
                == m[k] by {
                let i = choose|i: int| 0 <= i < t.len() && t[i].0 == k;
                lemma_assoc_at(t, i);
                if k != key@ {
                    assert(s[i] == t[i]);
                    lemma_assoc_at(s, i);
                } else {
                    match found {
                        Some(p) => {
                            assert(s[p as int].0 == key@);
                            if i != p {
                                assert(t[i] == s[i]);
                            }
                        },
                        None => {
                            if i < s.len() {
                                assert(t[i] == s[i]);
                            }
                        },
                    }
                }
            }
            assert(assoc_map(t) =~= m);
        }
        self.entries = out;
    }

    /// The value bound to `key`.
    pub fn get(&self, key: &str) -> (r: Option<&String>)
        ensures
            r matches Some(v) ==> self@.contains_key(key@) && v@ == self@[key@],
            r is None <==> !self@.contains_key(key@),
    {
        proof {
            use_type_invariant(self);
        }
        let ghost s = pairs_view(self.entries@);
        match self.position(key) {
            Some(i) => {
                proof {
                    assert(s[i as int] == (self.entries@[i as int].0@, self.entries@[i as int].1@));
                    lemma_assoc_at(s, i as int);
                }
                Some(&self.entries[i].1)
            },
            None => {
                proof {
                    if self@.contains_key(key@) {
                        let i = choose|i: int| 0 <= i < s.len() && s[i].0 == key@;
                        assert(s[i].0 == self.entries@[i].0@);
                    }
                }
                None
            },
        }
    }

    /// The least key, by code points, bound to `value`.
    pub fn find_key_by_action_name(&self, value: &str) -> (r: Option<&String>)
        ensures
            r matches Some(k) ==> is_least_key_for(self@, value@, k@),
            r is None <==> !exists|k2: Seq<char>| #[trigger] self@.contains_key(k2) && self@[k2] == value@,
    {
        proof {
            use_type_invariant(self);
        }
        let ghost s = pairs_view(self.entries@);
        let mut best: Option<usize> = None;
        let mut i: usize = 0;
        while i < self.entries.len()
            invariant
                i <= self.entries@.len(),
                s == pairs_view(self.entries@),
                keys_unique(s),
                best matches Some(b) ==> b < i && s[b as int].1 == value@ && forall|j: int|
                    0 <= j < i && #[trigger] s[j].1 == value@ ==> name_cmp(s[b as int].0, s[j].0) <= 0,
                best is None ==> forall|j: int| 0 <= j < i ==> #[trigger] s[j].1 != value@,
            decreases self.entries@.len() - i,
        {
            assert(s[i as int] == (self.entries@[i as int].0@, self.entries@[i as int].1@));
            if compare_names(self.entries[i].1.as_str(), value) == 0 {
                proof {
                    lemma_name_cmp(s[i as int].1, value@);
                }
                match best {
                    None => {
                        best = Some(i);
                        proof {
                            lemma_name_cmp(s[i as int].0, s[i as int].0);
                        }
                    },
                    Some(b) => {
                        assert(s[b as int] == (self.entries@[b as int].0@, self.entries@[b as int].1@));
                        if compare_names(self.entries[i].0.as_str(), self.entries[b].0.as_str()) < 0 {
                            proof {
                                assert forall|j: int| 0 <= j < i + 1 && #[trigger] s[j].1 == value@ implies name_cmp(
                                    s[i as int].0,
                                    s[j].0,
                                ) <= 0 by {
                                    lemma_name_cmp(s[i as int].0, s[b as int].0);
                                    if j < i {
                                        lemma_name_cmp_trans(s[i as int].0, s[b as int].0, s[j].0);
                                    } else {
                                        lemma_name_cmp(s[i as int].0, s[i as int].0);
                                    }
                                }
                            }
                            best = Some(i);
                        } else {
                            proof {
                                lemma_name_cmp(s[i as int].0, s[b as int].0);
                            }
                        }
                    },
                }
            } else {
                proof {
                    lemma_name_cmp(s[i as int].1, value@);
                }
            }
            i += 1;
        }
        match best {
            Some(b) => {
                proof {
                    assert(s[b as int] == (self.entries@[b as int].0@, self.entries@[b as int].1@));
                    lemma_assoc_at(s, b as int);
                    assert(self@.contains_key(s[b as int].0) && self@[s[b as int].0] == value@);
                    assert forall|k2: Seq<char>| #[trigger] self@.contains_key(k2) && self@[k2] == value@ implies name_cmp(
                        s[b as int].0,
                        k2,
                    ) <= 0 by {
                        let j = choose|j: int| 0 <= j < s.len() && s[j].0 == k2;
                        lemma_assoc_at(s, j);
                    }
                }
                Some(&self.entries[b].0)
            },
            None => {
                proof {
                    if exists|k2: Seq<char>| #[trigger] self@.contains_key(k2) && self@[k2] == value@ {
                        let k2 = choose|k2: Seq<char>| #[trigger] self@.contains_key(k2) && self@[k2] == value@;
                        let j = choose|j: int| 0 <= j < s.len() && s[j].0 == k2;
                        lemma_assoc_at(s, j);
                    }
                }
                None
            },
        }
    }

    /// Whether some key starts with `prefix`.
    pub fn has_key_starting_with(&self, prefix: &str) -> (r: bool)
        ensures
            r == exists|k: Seq<char>| #[trigger] self@.contains_key(k) && is_prefix_of(prefix@, k),
    {
        proof {
            use_type_invariant(self);
        }
        let ghost s = pairs_view(self.entries@);
        let mut i: usize = 0;
        while i < self.entries.len()
            invariant
                i <= self.entries@.len(),
                s == pairs_view(self.entries@),
                keys_unique(s),
                forall|j: int| 0 <= j < i ==> !is_prefix_of(prefix@, #[trigger] s[j].0),
            decreases self.entries@.len() - i,
        {
            assert(s[i as int] == (self.entries@[i as int].0@, self.entries@[i as int].1@));
            if starts_with(self.entries[i].0.as_str(), prefix) {
                proof {
                    lemma_assoc_at(s, i as int);
                    assert(self@.contains_key(s[i as int].0) && is_prefix_of(prefix@, s[i as int].0));
                }
                return true;
            }
            i += 1;
        }
        proof {
            if exists|k: Seq<char>| #[trigger] self@.contains_key(k) && is_prefix_of(prefix@, k) {
                let k = choose|k: Seq<char>| #[trigger] self@.contains_key(k) && is_prefix_of(prefix@, k);
                let j = choose|j: int| 0 <= j < s.len() && s[j].0 == k;
            }
        }
        false
    }
}

/// Looking a key up by the action that it is bound to.
pub trait FindKeyByActionName {
    fn find_key_by_action_name<'a>(&'a self, action_name: &'a str) -> Option<&'a str>;
}

impl FindKeyByActionName for StringMap {
    fn find_key_by_action_name<'a>(&'a self, action_name: &'a str) -> Option<&'a str> {
        match StringMap::find_key_by_action_name(self, action_name) {
            Some(k) => Some(k.as_str()),
            None => None,
        }
    }
}

} // verus!
