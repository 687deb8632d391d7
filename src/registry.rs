//! The session registry: at most one session per identifier.

use vstd::prelude::*;

verus! {

/// No two entries of `e` carry the same identifier.
pub open spec fn keys_unique<S>(e: Seq<(String, S)>) -> bool {
    forall|i: int, j: int|
        0 <= i < e.len() && 0 <= j < e.len() && i != j ==> #[trigger] e[i].0@ != #[trigger] e[j].0@
}

/// Whether some entry of `e` carries the identifier `k`.
pub open spec fn has_key<S>(e: Seq<(String, S)>, k: Seq<char>) -> bool {
    exists|i: int| 0 <= i < e.len() && #[trigger] e[i].0@ == k
}

/// The map from identifier to session that the entries `e` spell out.
pub open spec fn entries_map<S>(e: Seq<(String, S)>) -> Map<Seq<char>, S> {
    Map::new(
        |k: Seq<char>| has_key(e, k),
        |k: Seq<char>| e[choose|i: int| 0 <= i < e.len() && #[trigger] e[i].0@ == k].1,
    )
}

pub proof fn lemma_entries_map_at<S>(e: Seq<(String, S)>, i: int)
    requires
        keys_unique(e),
        0 <= i < e.len(),
    ensures
        entries_map(e).contains_key(e[i].0@),
        entries_map(e)[e[i].0@] == e[i].1,
{
    let k = e[i].0@;
    assert(has_key(e, k));
    let j = choose|j: int| 0 <= j < e.len() && #[trigger] e[j].0@ == k;
    assert(j == i);
}

proof fn lemma_entries_map_push<S>(e: Seq<(String, S)>, k: String, v: S)
    requires
        keys_unique(e),
        !has_key(e, k@),
    ensures
        keys_unique(e.push((k, v))),
        entries_map(e.push((k, v))) == entries_map(e).insert(k@, v),
{
    let f = e.push((k, v));
    assert forall|i: int, j: int|
        0 <= i < f.len() && 0 <= j < f.len() && i != j implies #[trigger] f[i].0@
        != #[trigger] f[j].0@ by {
        if i < e.len() && j < e.len() {
            assert(f[i] == e[i] && f[j] == e[j]);
        } else if i < e.len() {
            assert(f[i] == e[i]);
            assert(f[j].0@ == k@);
            assert(e[i].0@ != k@);
        } else {
            assert(f[j] == e[j]);
            assert(f[i].0@ == k@);
            assert(e[j].0@ != k@);
        }
    }
    let m = entries_map(e).insert(k@, v);
    assert forall|key: Seq<char>| #[trigger] m.contains_key(key) == entries_map(f).contains_key(
        key,
    ) by {
        if has_key(e, key) {
            let i = choose|i: int| 0 <= i < e.len() && #[trigger] e[i].0@ == key;
            assert(f[i] == e[i]);
        }
        if key == k@ {
            assert(f[e.len() as int].0@ == key);
        }
        if has_key(f, key) && key != k@ {
            let i = choose|i: int| 0 <= i < f.len() && #[trigger] f[i].0@ == key;
            assert(f[i] == e[i]);
        }
    }
    assert forall|key: Seq<char>| #[trigger] m.contains_key(key) implies m[key] == entries_map(
        f,
    )[key] by {
        if key == k@ {
            lemma_entries_map_at(f, e.len() as int);
        } else {
            let i = choose|i: int| 0 <= i < e.len() && #[trigger] e[i].0@ == key;
            lemma_entries_map_at(e, i);
            assert(f[i] == e[i]);
            lemma_entries_map_at(f, i);
        }
    }
    assert(m =~= entries_map(f));
}

proof fn lemma_entries_map_update<S>(e: Seq<(String, S)>, i: int, v: S)
    requires
        keys_unique(e),
        0 <= i < e.len(),
    ensures
        keys_unique(e.update(i, (e[i].0, v))),
        entries_map(e.update(i, (e[i].0, v))) == entries_map(e).insert(e[i].0@, v),
{
    let f = e.update(i, (e[i].0, v));
    assert forall|a: int| 0 <= a < f.len() implies #[trigger] f[a].0 == e[a].0 by {}
    assert forall|a: int, b: int|
        0 <= a < f.len() && 0 <= b < f.len() && a != b implies #[trigger] f[a].0@
        != #[trigger] f[b].0@ by {
        assert(f[a].0 == e[a].0 && f[b].0 == e[b].0);
    }
    let m = entries_map(e).insert(e[i].0@, v);
    assert forall|key: Seq<char>| #[trigger] m.contains_key(key) == entries_map(f).contains_key(
        key,
    ) by {
        if has_key(e, key) {
            let a = choose|a: int| 0 <= a < e.len() && #[trigger] e[a].0@ == key;
            assert(f[a].0 == e[a].0);
        }
        if has_key(f, key) {
            let a = choose|a: int| 0 <= a < f.len() && #[trigger] f[a].0@ == key;
            assert(f[a].0 == e[a].0);
        }
    }
    assert forall|key: Seq<char>| #[trigger] m.contains_key(key) implies m[key] == entries_map(
        f,
    )[key] by {
        if key == e[i].0@ {
            lemma_entries_map_at(f, i);
        } else {
            let a = choose|a: int| 0 <= a < e.len() && #[trigger] e[a].0@ == key;
            lemma_entries_map_at(e, a);
            assert(f[a] == e[a]);
            lemma_entries_map_at(f, a);
        }
    }
    assert(m =~= entries_map(f));
}

proof fn lemma_entries_map_remove<S>(e: Seq<(String, S)>, i: int)
    requires
        keys_unique(e),
        0 <= i < e.len(),
    ensures
        keys_unique(e.remove(i)),
        !has_key(e.remove(i), e[i].0@),
        entries_map(e.remove(i)) == entries_map(e).remove(e[i].0@),
{
    let f = e.remove(i);
    let k = e[i].0@;
    assert forall|a: int| 0 <= a < f.len() implies #[trigger] f[a] == (if a < i {
        e[a]
    } else {
        e[a + 1]
    }) by {}
    assert forall|a: int, b: int|
        0 <= a < f.len() && 0 <= b < f.len() && a != b implies #[trigger] f[a].0@
        != #[trigger] f[b].0@ by {
        let a2 = if a < i { a } else { a + 1 };
        let b2 = if b < i { b } else { b + 1 };
        assert(f[a] == e[a2] && f[b] == e[b2]);
    }
    if has_key(f, k) {
        let a = choose|a: int| 0 <= a < f.len() && #[trigger] f[a].0@ == k;
        let a2 = if a < i { a } else { a + 1 };
        assert(f[a] == e[a2]);
    }
    let m = entries_map(e).remove(k);
    assert forall|key: Seq<char>| #[trigger] m.contains_key(key) == entries_map(f).contains_key(
        key,
    ) by {
        if has_key(e, key) && key != k {
            let a = choose|a: int| 0 <= a < e.len() && #[trigger] e[a].0@ == key;
            let a2 = if a < i { a } else { a - 1 };
            assert(f[a2] == e[a]);
        }
        if has_key(f, key) {
            let a = choose|a: int| 0 <= a < f.len() && #[trigger] f[a].0@ == key;
            let a2 = if a < i { a } else { a + 1 };
            assert(f[a] == e[a2]);
        }
    }
    assert forall|key: Seq<char>| #[trigger] m.contains_key(key) implies m[key] == entries_map(
        f,
    )[key] by {
        let a = choose|a: int| 0 <= a < e.len() && #[trigger] e[a].0@ == key;
        lemma_entries_map_at(e, a);
        let a2 = if a < i { a } else { a - 1 };
        assert(f[a2] == e[a]);
        lemma_entries_map_at(f, a2);
    }
    assert(m =~= entries_map(f));
}

/// A map from session identifier to session, holding at most one session per
/// identifier.
pub struct SessionRegistry<S> {
    entries: Vec<(String, S)>,
}

impl<S> SessionRegistry<S> {
    /// The sessions held, by identifier.
    pub closed spec fn view(&self) -> Map<Seq<char>, S> {
        entries_map(self.entries@)
    }

    /// The registry's internal invariant.
    pub closed spec fn wf(&self) -> bool {
        keys_unique(self.entries@)
    }

    /// An empty registry.
    pub fn new() -> (r: Self)
        ensures
            r.wf(),
            r@ == Map::<Seq<char>, S>::empty(),
    {
        let r = SessionRegistry { entries: Vec::new() };
        assert(r@ =~= Map::<Seq<char>, S>::empty());
        r
    }

    /// Where the session of `id` stands among the entries, if there is one.
    fn position(&self, id: &str) -> (r: Option<usize>)
        requires
            self.wf(),
        ensures
            match r {
                Some(i) => i < self.entries@.len() && self.entries@[i as int].0@ == id@,
                None => !has_key(self.entries@, id@),
            },
    {
        let key = String::from_str(id);
        let mut i: usize = 0;
        while i < self.entries.len()
            invariant
                i <= self.entries@.len(),
                key@ == id@,
                forall|j: int| 0 <= j < i ==> #[trigger] self.entries@[j].0@ != id@,
            decreases self.entries@.len() - i,
        {
            if self.entries[i].0 == key {
                return Some(i);
            }
            i = i + 1;
        }
        None
    }

    /// Whether a session is registered under `id`.
    pub fn contains(&self, id: &str) -> (r: bool)
        requires
            self.wf(),
        ensures
            r == self@.contains_key(id@),
    {
        self.position(id).is_some()
    }

    /// The number of sessions registered.
    pub fn len(&self) -> (r: usize)
        requires
            self.wf(),
        ensures
            r == self@.len(),
            self@.dom().finite(),
    {
        proof {
            self.lemma_len();
        }
        self.entries.len()
    }

    proof fn lemma_len(&self)
        requires
            self.wf(),
        ensures
            self@.dom().finite(),
            self@.len() == self.entries@.len(),
        decreases self.entries@.len(),
    {
        let e = self.entries@;
        if e.len() == 0 {
            assert(self@.dom() =~= Set::<Seq<char>>::empty());
        } else {
            let keys = Set::new(|k: Seq<char>| has_key(e, k));
            assert(self@.dom() =~= keys);
            let f = |i: int| e[i].0@;
            let idx = Set::new(|i: int| 0 <= i < e.len());
            assert(idx =~= vstd::set_lib::set_int_range(0, e.len() as int));
            vstd::set_lib::lemma_int_range(0, e.len() as int);
            assert(keys =~= idx.map(f)) by {
                assert forall|k: Seq<char>| keys.contains(k) implies #[trigger] idx.map(f).contains(
                    k,
                ) by {
                    let i = choose|i: int| 0 <= i < e.len() && #[trigger] e[i].0@ == k;
                    assert(idx.contains(i) && f(i) == k);
                }
            }
            assert(vstd::relations::injective_on(f, idx)) by {
                assert forall|a: int, b: int|
                    idx.contains(a) && idx.contains(b) && #[trigger] f(a) == #[trigger] f(b)
                    implies a == b by {}
            }
            vstd::set_lib::lemma_map_size(idx, keys, f);
        }
    }

    /// The session registered under `id`.
    pub fn get(&self, id: &str) -> (r: Option<&S>)
        requires
            self.wf(),
        ensures
            match r {
                Some(s) => self@.contains_key(id@) && *s == self@[id@],
                None => !self@.contains_key(id@),
            },
    {
        match self.position(id) {
            Some(i) => {
                proof {
                    lemma_entries_map_at(self.entries@, i as int);
                }
                Some(&self.entries[i].1)
            },
            None => None,
        }
    }

    /// The session registered under `id`, for use in place.
    pub fn get_mut(&mut self, id: &str) -> (r: Option<&mut S>)
        requires
            old(self).wf(),
        ensures
            final(self).wf(),
            match r {
                Some(s) => {
                    &&& old(self)@.contains_key(id@)
                    &&& *s == old(self)@[id@]
                    &&& final(self)@ == old(self)@.insert(id@, *final(s))
                },
                None => {
                    &&& !old(self)@.contains_key(id@)
                    &&& final(self)@ == old(self)@
                },
            },
    {
        match self.position(id) {
            Some(i) => {
                proof {
                    let e = self.entries@;
                    lemma_entries_map_at(e, i as int);
                    assert forall|v: S|
                        keys_unique(#[trigger] e.update(i as int, (e[i as int].0, v)))
                            && entries_map(e.update(i as int, (e[i as int].0, v))) == entries_map(
                            e,
                        ).insert(e[i as int].0@, v) by {
                        lemma_entries_map_update(e, i as int, v);
                    }
                }
                let entry = &mut self.entries[i];
                Some(&mut entry.1)
            },
            None => None,
        }
    }

    /// Takes the session of `id` out of the registry.
    pub fn remove(&mut self, id: &str) -> (r: Option<S>)
        requires
            old(self).wf(),
        ensures
            final(self).wf(),
            final(self)@ == old(self)@.remove(id@),
            match r {
                Some(s) => old(self)@.contains_key(id@) && s == old(self)@[id@],
                None => !old(self)@.contains_key(id@),
            },
    {
        match self.position(id) {
            Some(i) => {
                proof {
                    lemma_entries_map_at(self.entries@, i as int);
                    lemma_entries_map_remove(self.entries@, i as int);
                }
                let (_, s) = self.entries.remove(i);
                Some(s)
            },
            None => {
                assert(self@.remove(id@) =~= self@);
                None
            },
        }
    }

    /// Registers `session` under `id`, handing back the session it displaces.
    pub fn insert(&mut self, id: String, session: S) -> (r: Option<S>)
        requires
            old(self).wf(),
        ensures
            final(self).wf(),
            final(self)@ == old(self)@.insert(id@, session),
            match r {
                Some(s) => old(self)@.contains_key(id@) && s == old(self)@[id@],
                None => !old(self)@.contains_key(id@),
            },
    {
        let displaced = self.remove(id.as_str());
        proof {
            assert(!self@.contains_key(id@));
            lemma_entries_map_push(self.entries@, id, session);
        }
        self.entries.push((id, session));
        proof {
            assert(old(self)@.remove(id@).insert(id@, session) =~= old(self)@.insert(id@, session));
        }
        displaced
    }

    /// Empties the registry, handing back every entry it held.
    pub fn drain(&mut self) -> (r: Vec<(String, S)>)
        requires
            old(self).wf(),
        ensures
            final(self).wf(),
            final(self)@ == Map::<Seq<char>, S>::empty(),
            keys_unique(r@),
            entries_map(r@) == old(self)@,
    {
        let mut out: Vec<(String, S)> = Vec::new();
        std::mem::swap(&mut self.entries, &mut out);
        assert(self@ =~= Map::<Seq<char>, S>::empty());
        out
    }
}

} // verus!
