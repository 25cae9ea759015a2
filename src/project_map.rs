use vstd::prelude::*;

verus! {

/// One binding between a local directory and a remote project.
#[derive(Debug, Clone)]
pub struct LinkedProject {
    pub project_path: String,
    pub name: Option<String>,
    pub project: String,
    pub environment: String,
    pub environment_name: Option<String>,
    pub service: Option<String>,
}

/// Copies an optional string, keeping its contents.
pub fn copy_opt_string(s: &Option<String>) -> (r: Option<String>)
    ensures
        r == *s,
{
    match s {
        Some(v) => Some(v.clone()),
        None => None,
    }
}

impl LinkedProject {
    /// A field-by-field copy of this entry.
    pub fn duplicate(&self) -> (r: LinkedProject)
        ensures
            r == *self,
    {
        LinkedProject {
            project_path: self.project_path.clone(),
            name: copy_opt_string(&self.name),
            project: self.project.clone(),
            environment: self.environment.clone(),
            environment_name: copy_opt_string(&self.environment_name),
            service: copy_opt_string(&self.service),
        }
    }

    /// The same entry with its service replaced.
    pub open spec fn with_service(self, service: Option<String>) -> LinkedProject {
        LinkedProject { service, ..self }
    }
}

/// Linked projects keyed by directory path, each path at most once.
pub struct ProjectMap {
    entries: Vec<(String, LinkedProject)>,
}

/// Whether no two entries share a key.
pub open spec fn keys_unique(s: Seq<(String, LinkedProject)>) -> bool {
    forall|i: int, j: int|
        0 <= i < s.len() && 0 <= j < s.len() && i != j ==> #[trigger] s[i].0@ != #[trigger] s[j].0@
}

/// Whether some entry has key `k`.
pub open spec fn has_key(s: Seq<(String, LinkedProject)>, k: Seq<char>) -> bool {
    exists|i: int| 0 <= i < s.len() && #[trigger] s[i].0@ == k
}

/// The map that inserting the entries in order builds: where a key
/// repeats, its last entry stands.
pub open spec fn last_wins_map(s: Seq<(String, LinkedProject)>) -> Map<Seq<char>, LinkedProject>
    decreases s.len(),
{
    if s.len() == 0 {
        Map::empty()
    } else {
        last_wins_map(s.drop_last()).insert(s.last().0@, s.last().1)
    }
}

/// The entries as a map from path to project.
pub open spec fn map_of(s: Seq<(String, LinkedProject)>) -> Map<Seq<char>, LinkedProject> {
    Map::new(
        |k: Seq<char>| has_key(s, k),
        |k: Seq<char>| s[choose|i: int| 0 <= i < s.len() && #[trigger] s[i].0@ == k].1,
    )
}

proof fn lemma_map_of_at(s: Seq<(String, LinkedProject)>, i: int)
    requires
        keys_unique(s),
        0 <= i < s.len(),
    ensures
        map_of(s).contains_key(s[i].0@),
        map_of(s)[s[i].0@] == s[i].1,
{
    let k = s[i].0@;
    assert(has_key(s, k));
    let j = choose|j: int| 0 <= j < s.len() && #[trigger] s[j].0@ == k;
    assert(j == i);
}

proof fn lemma_map_of_update(s: Seq<(String, LinkedProject)>, i: int)
    requires
        keys_unique(s),
        0 <= i < s.len(),
    ensures
        forall|key: String, v: LinkedProject|
            #![trigger s.update(i, (key, v))]
            key@ == s[i].0@ ==> keys_unique(s.update(i, (key, v))) && map_of(s.update(i, (key, v)))
                == map_of(s).insert(s[i].0@, v),
{
    assert forall|key: String, v: LinkedProject|
        #![trigger s.update(i, (key, v))]
        key@ == s[i].0@ implies keys_unique(s.update(i, (key, v))) && map_of(
            s.update(i, (key, v)),
        ) == map_of(s).insert(s[i].0@, v) by {
        let t = s.update(i, (key, v));
        let kv = s[i].0@;
        assert forall|a: int, b: int|
            0 <= a < t.len() && 0 <= b < t.len() && a != b implies #[trigger] t[a].0@
            != #[trigger] t[b].0@ by {
            assert(s[a].0@ != s[b].0@);
        }
        assert forall|q: Seq<char>| #[trigger] has_key(t, q) == has_key(s, q) by {
            if has_key(t, q) {
                let a = choose|a: int| 0 <= a < t.len() && #[trigger] t[a].0@ == q;
                assert(s[a].0@ == q);
            }
            if has_key(s, q) {
                let a = choose|a: int| 0 <= a < s.len() && #[trigger] s[a].0@ == q;
                assert(t[a].0@ == q);
            }
        }
        assert forall|q: Seq<char>| #[trigger] has_key(t, q) implies map_of(t)[q] == (if q
            == kv {
            v
        } else {
            map_of(s)[q]
        }) by {
            let a = choose|a: int| 0 <= a < t.len() && #[trigger] t[a].0@ == q;
            lemma_map_of_at(t, a);
            if q != kv {
                lemma_map_of_at(s, a);
            }
        }
        lemma_map_of_at(s, i);
        assert(map_of(t) =~= map_of(s).insert(kv, v));
    }
}

impl View for ProjectMap {
    type V = Map<Seq<char>, LinkedProject>;

    closed spec fn view(&self) -> Map<Seq<char>, LinkedProject> {
        map_of(self.entries@)
    }
}

impl ProjectMap {
    /// Keys are unique.
    pub closed spec fn wf(&self) -> bool {
        keys_unique(self.entries@)
    }

    /// The entries in their stored order.
    pub closed spec fn entry_seq(&self) -> Seq<(String, LinkedProject)> {
        self.entries@
    }

    /// The entries handed out hold each key once and make up the map, so a
    /// map built again from them is the same map.
    pub proof fn law_entries_reload(&self)
        requires
            self.wf(),
        ensures
            keys_unique(self.entry_seq()),
            self@ == map_of(self.entry_seq()),
    {
    }

    /// An empty map.
    pub fn new() -> (r: ProjectMap)
        ensures
            r.wf(),
            r@ == Map::<Seq<char>, LinkedProject>::empty(),
    {
        let r = ProjectMap { entries: Vec::new() };
        assert(r@ =~= Map::<Seq<char>, LinkedProject>::empty());
        r
    }

    /// The position of the entry with key `k`, if any.
    fn find(&self, k: &str) -> (r: Option<usize>)
        requires
            self.wf(),
        ensures
            r is None <==> !self@.contains_key(k@),
            r matches Some(i) ==> i < self.entries@.len() && self.entries@[i as int].0@ == k@,
    {
        let mut i: usize = 0;
        while i < self.entries.len()
            invariant
                i <= self.entries@.len(),
                forall|j: int| 0 <= j < i ==> #[trigger] self.entries@[j].0@ != k@,
            decreases self.entries@.len() - i,
        {
            if str_eq(self.entries[i].0.as_str(), k) {
                return Some(i);
            }
            i += 1;
        }
        None
    }

    /// Whether `k` has an entry.
    pub fn contains_key(&self, k: &str) -> (r: bool)
        requires
            self.wf(),
        ensures
            r == self@.contains_key(k@),
    {
        self.find(k).is_some()
    }

    /// The entry with key `k`, if any.
    pub fn get(&self, k: &str) -> (r: Option<&LinkedProject>)
        requires
            self.wf(),
        ensures
            r is None <==> !self@.contains_key(k@),
            r matches Some(p) ==> *p == self@[k@],
    {
        match self.find(k) {
            Some(i) => {
                proof {
                    lemma_map_of_at(self.entries@, i as int);
                }
                Some(&self.entries[i].1)
            },
            None => None,
        }
    }

    /// Adds the entry for `k`, replacing any earlier one.
    pub fn insert(&mut self, k: String, v: LinkedProject)
        requires
            old(self).wf(),
        ensures
            final(self).wf(),
            final(self)@ == old(self)@.insert(k@, v),
    {
        let ghost kv = k@;
        match self.find(k.as_str()) {
            Some(i) => {
                proof {
                    lemma_map_of_update(self.entries@, i as int);
                }
                self.entries.set(i, (k, v));
            },
            None => {
                self.entries.push((k, v));
                proof {
                    let s = self.entries@;
                    let o = old(self).entries@;
                    assert(s[o.len() as int].0@ == kv);
                    assert forall|q: Seq<char>| #[trigger] has_key(s, q) == (has_key(o, q) || q
                        == kv) by {
                        if has_key(o, q) {
                            let a = choose|a: int| 0 <= a < o.len() && #[trigger] o[a].0@ == q;
                            assert(s[a].0@ == q);
                        }
                        if has_key(s, q) && q != kv {
                            let a = choose|a: int| 0 <= a < s.len() && #[trigger] s[a].0@ == q;
                            assert(o[a].0@ == q);
                        }
                    }
                    assert forall|q: Seq<char>| #[trigger] has_key(s, q) implies map_of(s)[q] == (
                    if q == kv {
                        v
                    } else {
                        map_of(o)[q]
                    }) by {
                        let a = choose|a: int| 0 <= a < s.len() && #[trigger] s[a].0@ == q;
                        lemma_map_of_at(s, a);
                        if q != kv {
                            lemma_map_of_at(o, a);
                        }
                    }
                    assert(map_of(s) =~= map_of(o).insert(kv, v));
                }
            },
        }
    }

    /// Drops the entry for `k`, if any.
    pub fn remove(&mut self, k: &str)
        requires
            old(self).wf(),
        ensures
            final(self).wf(),
            final(self)@ == old(self)@.remove(k@),
    {
        match self.find(k) {
            Some(i) => {
                self.entries.remove(i);
                proof {
                    let s = self.entries@;
                    let o = old(self).entries@;
                    assert forall|a: int| 0 <= a < s.len() implies #[trigger] s[a] == (if a < i {
                        o[a]
                    } else {
                        o[a + 1]
                    }) by {}
                    assert forall|a: int, b: int|
                        0 <= a < s.len() && 0 <= b < s.len() && a != b implies #[trigger] s[a].0@
                        != #[trigger] s[b].0@ by {
                        let a2 = if a < i { a } else { a + 1 };
                        let b2 = if b < i { b } else { b + 1 };
                        assert(o[a2].0@ != o[b2].0@);
                    }
                    assert forall|q: Seq<char>| #[trigger] has_key(s, q) == (has_key(o, q) && q
                        != k@) by {
                        if has_key(s, q) {
                            let a = choose|a: int| 0 <= a < s.len() && #[trigger] s[a].0@ == q;
                            let a2 = if a < i { a } else { a + 1 };
                            assert(o[a2].0@ == q);
                            assert(a2 != i);
                        }
                        if has_key(o, q) && q != k@ {
                            let a = choose|a: int| 0 <= a < o.len() && #[trigger] o[a].0@ == q;
                            assert(a != i);
                            let a2 = if a < i { a } else { a - 1 };
                            assert(s[a2].0@ == q);
                        }
                    }
                    assert forall|q: Seq<char>| #[trigger] has_key(s, q) implies map_of(s)[q]
                        == map_of(o)[q] by {
                        let a = choose|a: int| 0 <= a < s.len() && #[trigger] s[a].0@ == q;
                        let a2 = if a < i { a } else { a + 1 };
                        lemma_map_of_at(s, a);
                        lemma_map_of_at(o, a2);
                    }
                    assert(map_of(s) =~= map_of(o).remove(k@));
                }
            },
            None => {
                assert(self@ =~= old(self)@.remove(k@));
            },
        }
    }

    /// A mutable handle to the entry for `k`; what is written through it
    /// becomes that entry.
    pub fn get_mut(&mut self, k: &str) -> (r: &mut LinkedProject)
        requires
            old(self).wf(),
            old(self)@.contains_key(k@),
        ensures
            *r == old(self)@[k@],
            final(self).wf(),
            final(self)@ == old(self)@.insert(k@, *final(r)),
    {
        let i = self.find(k).unwrap();
        proof {
            lemma_map_of_at(self.entries@, i as int);
            lemma_map_of_update(self.entries@, i as int);
        }
        &mut self.entries[i].1
    }

    /// The entries, each key once, in their stored order.
    pub fn entries(&self) -> (r: &Vec<(String, LinkedProject)>)
        ensures
            r@ == self.entry_seq(),
    {
        &self.entries
    }

    /// A map holding the given entries; where a key repeats, the later entry wins.
    pub fn from_entries(items: Vec<(String, LinkedProject)>) -> (r: ProjectMap)
        ensures
            r.wf(),
            r@ == last_wins_map(items@),
            keys_unique(items@) ==> r@ == map_of(items@),
    {
        let mut r = ProjectMap::new();
        let mut i: usize = 0;
        while i < items.len()
            invariant
                i <= items@.len(),
                r.wf(),
                r@ == last_wins_map(items@.take(i as int)),
                keys_unique(items@) ==> r@ == map_of(items@.take(i as int)),
            decreases items@.len() - i,
        {
            let key = items[i].0.clone();
            let val = items[i].1.duplicate();
            r.insert(key, val);
            proof {
                assert(items@.take(i + 1).drop_last() =~= items@.take(i as int));
                assert(items@.take(i + 1).last() == items@[i as int]);
                if keys_unique(items@) {
                    let t = items@.take(i as int);
                    let t1 = items@.take(i + 1);
                    assert(keys_unique(t1));
                    assert(keys_unique(t));
                    assert forall|q: Seq<char>| #[trigger] has_key(t1, q) == (has_key(t, q) || q
                        == items@[i as int].0@) by {
                        if has_key(t1, q) {
                            let a = choose|a: int| 0 <= a < t1.len() && #[trigger] t1[a].0@ == q;
                            if a < i {
                                assert(t[a].0@ == q);
                            }
                        }
                        if has_key(t, q) {
                            let a = choose|a: int| 0 <= a < t.len() && #[trigger] t[a].0@ == q;
                            assert(t1[a].0@ == q);
                        }
                        assert(t1[i as int] == items@[i as int]);
                    }
                    assert forall|q: Seq<char>| #[trigger] has_key(t1, q) implies map_of(t1)[q]
                        == map_of(t).insert(items@[i as int].0@, items@[i as int].1)[q] by {
                        let a = choose|a: int| 0 <= a < t1.len() && #[trigger] t1[a].0@ == q;
                        lemma_map_of_at(t1, a);
                        if a < i {
                            assert(t[a] == t1[a]);
                            lemma_map_of_at(t, a);
                        }
                    }
                    assert(map_of(t1) =~= map_of(t).insert(items@[i as int].0@, items@[i as int].1));
                }
            }
            i += 1;
        }
        proof {
            assert(items@.take(items@.len() as int) =~= items@);
        }
        r
    }
}

/// Whether two strings hold the same characters.
pub fn str_eq(a: &str, b: &str) -> (r: bool)
    ensures
        r == (a@ == b@),
{
    let n = a.unicode_len();
    if n != b.unicode_len() {
        return false;
    }
    let mut i: usize = 0;
    while i < n
        invariant
            n == a@.len(),
            n == b@.len(),
            i <= n,
            forall|j: int| 0 <= j < i ==> a@[j] == b@[j],
        decreases n - i,
    {
        if a.get_char(i) != b.get_char(i) {
            return false;
        }
        i += 1;
    }
    assert(a@ =~= b@);
    true
}

} // verus!
