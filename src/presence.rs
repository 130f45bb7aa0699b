use vstd::prelude::*;

verus! {

pub open spec fn has_entry(s: Seq<(usize, String)>, id: usize) -> bool {
    exists|i: int| 0 <= i < s.len() && s[i].0 == id
}

/// Index of the entry of `id`, where there is one.
pub open spec fn entry_index(s: Seq<(usize, String)>, id: usize) -> int {
    choose|i: int| 0 <= i < s.len() && s[i].0 == id
}

/// No id has two entries.
pub open spec fn ids_unique(s: Seq<(usize, String)>) -> bool {
    forall|i: int, j: int| 0 <= i < s.len() && 0 <= j < s.len() && i != j ==> s[i].0 != s[j].0
}

/// The display name of `id`, if it has one.
pub open spec fn name_of(s: Seq<(usize, String)>, id: usize) -> Option<String> {
    if has_entry(s, id) {
        Some(s[entry_index(s, id)].1)
    } else {
        None
    }
}

/// The entries after an upsert of `name` for `id`: a prior entry is
/// overwritten in place, otherwise one is added at the end.
pub open spec fn renamed(s: Seq<(usize, String)>, id: usize, name: String) -> Seq<(usize, String)> {
    if has_entry(s, id) {
        s.update(entry_index(s, id), (id, name))
    } else {
        s.push((id, name))
    }
}

/// The entries with that of `id` taken out, if there is one.
pub open spec fn without(s: Seq<(usize, String)>, id: usize) -> Seq<(usize, String)> {
    if has_entry(s, id) {
        s.remove(entry_index(s, id))
    } else {
        s
    }
}

/// Display names of connections, in order of first naming.
pub struct PresenceDirectory {
    pub entries: Vec<(usize, String)>,
}

impl View for PresenceDirectory {
    type V = Seq<(usize, String)>;

    open spec fn view(&self) -> Seq<(usize, String)> {
        self.entries@
    }
}

/// An empty directory of display names.
pub fn get_user_map() -> (r: PresenceDirectory)
    ensures
        r@ == Seq::<(usize, String)>::empty(),
        r.wf(),
{
    PresenceDirectory { entries: Vec::new() }
}

impl PresenceDirectory {
    pub open spec fn wf(&self) -> bool {
        ids_unique(self@)
    }

    fn find(&self, id: usize) -> (r: Option<usize>)
        requires
            self.wf(),
        ensures
            match r {
                Some(i) => i < self@.len() && self@[i as int].0 == id && entry_index(self@, id) == i,
                None => !has_entry(self@, id),
            },
    {
        let mut i: usize = 0;
        while i < self.entries.len()
            invariant
                i <= self@.len(),
                self.wf(),
                forall|k: int| 0 <= k < i ==> self@[k].0 != id,
            decreases self@.len() - i,
        {
            if self.entries[i].0 == id {
                assert(has_entry(self@, id));
                proof {
                    let j = entry_index(self@, id);
                    assert(self@[j].0 == id);
                    if j != i as int {
                        assert(self@[i as int].0 != self@[j].0);
                    }
                }
                return Some(i);
            }
            i = i + 1;
        }
        None
    }

    /// Sets the display name of `id`, overwriting any earlier one.
    pub fn set_name(&mut self, id: usize, name: String)
        requires
            old(self).wf(),
        ensures
            final(self).wf(),
            final(self)@ == renamed(old(self)@, id, name),
    {
        match self.find(id) {
            Some(i) => {
                self.entries.set(i, (id, name));
                let ghost s = self@;
                assert forall|a: int, b: int| 0 <= a < s.len() && 0 <= b < s.len() && a != b implies s[a].0 != s[b].0 by {
                    if a != i && b != i {
                        assert(old(self)@[a].0 != old(self)@[b].0);
                    } else if a == i {
                        assert(old(self)@[b].0 != old(self)@[a].0);
                    } else {
                        assert(old(self)@[a].0 != old(self)@[b].0);
                    }
                }
            },
            None => {
                self.entries.push((id, name));
                let ghost s = self@;
                assert forall|a: int, b: int| 0 <= a < s.len() && 0 <= b < s.len() && a != b implies s[a].0 != s[b].0 by {
                    if a < s.len() - 1 && b < s.len() - 1 {
                        assert(old(self)@[a].0 != old(self)@[b].0);
                    } else if a == s.len() - 1 {
                        assert(old(self)@[b].0 != id);
                    } else {
                        assert(old(self)@[a].0 != id);
                    }
                }
            },
        }
    }

    /// Removes the entry of `id`, if any.
    pub fn remove(&mut self, id: usize)
        requires
            old(self).wf(),
        ensures
            final(self).wf(),
            final(self)@ == without(old(self)@, id),
    {
        match self.find(id) {
            Some(i) => {
                self.entries.remove(i);
                let ghost s = self@;
                let ghost o = old(self)@;
                assert forall|a: int, b: int| 0 <= a < s.len() && 0 <= b < s.len() && a != b implies s[a].0 != s[b].0 by {
                    let oa = if a < i { a } else { a + 1 };
                    let ob = if b < i { b } else { b + 1 };
                    assert(s[a] == o[oa] && s[b] == o[ob]);
                }
            },
            None => {},
        }
    }

    /// A point-in-time copy of all entries, in order.
    pub fn get_all(&self) -> (r: Vec<(usize, String)>)
        ensures
            r@ == self@,
    {
        let mut r: Vec<(usize, String)> = Vec::new();
        let mut i: usize = 0;
        while i < self.entries.len()
            invariant
                i <= self@.len(),
                r@ == self@.subrange(0, i as int),
            decreases self@.len() - i,
        {
            let id = self.entries[i].0;
            let name = self.entries[i].1.clone();
            r.push((id, name));
            i = i + 1;
            assert(r@ =~= self@.subrange(0, i as int));
        }
        assert(r@ =~= self@);
        r
    }
}

/// A rename leaves exactly one entry for the id, holding the new name, and
/// every other id's name as it was; of two renames the later one wins.
pub proof fn lemma_rename_latest(s: Seq<(usize, String)>, id: usize, first: String, second: String)
    requires
        ids_unique(s),
    ensures
        ids_unique(renamed(s, id, first)),
        name_of(renamed(s, id, first), id) == Some(first),
        forall|k: int, l: int|
            0 <= k < renamed(s, id, first).len() && 0 <= l < renamed(s, id, first).len()
                && renamed(s, id, first)[k].0 == id && renamed(s, id, first)[l].0 == id ==> k == l,
        forall|x: usize| x != id ==> #[trigger] name_of(renamed(s, id, first), x) == name_of(s, x),
        renamed(renamed(s, id, first), id, second) == renamed(s, id, second),
{
    lemma_renamed_facts(s, id, first);
    let t = renamed(s, id, first);
    assert(has_entry(t, id));
    let p = entry_index(t, id);
    if has_entry(s, id) {
        assert(entry_index(s, id) == p);
        assert(renamed(t, id, second) =~= renamed(s, id, second));
    } else {
        assert(p == s.len());
        assert(renamed(t, id, second) =~= renamed(s, id, second));
    }
}

proof fn lemma_renamed_facts(s: Seq<(usize, String)>, id: usize, name: String)
    requires
        ids_unique(s),
    ensures
        ids_unique(renamed(s, id, name)),
        name_of(renamed(s, id, name), id) == Some(name),
        forall|x: usize| x != id ==> #[trigger] name_of(renamed(s, id, name), x) == name_of(s, x),
{
    let t = renamed(s, id, name);
    let p = if has_entry(s, id) { entry_index(s, id) } else { s.len() as int };
    assert(t[p] == (id, name));
    assert forall|a: int, b: int| 0 <= a < t.len() && 0 <= b < t.len() && a != b implies t[a].0 != t[b].0 by {
        if a != p && b != p {
            assert(t[a] == s[a] && t[b] == s[b]);
        } else if a == p {
            assert(t[b] == s[b]);
            if s[b].0 == id {
                assert(has_entry(s, id));
            }
        } else {
            assert(t[a] == s[a]);
            if s[a].0 == id {
                assert(has_entry(s, id));
            }
        }
    }
    assert(has_entry(t, id));
    assert(entry_index(t, id) == p);
    assert forall|x: usize| x != id implies #[trigger] name_of(t, x) == name_of(s, x) by {
        if has_entry(s, x) {
            let q = entry_index(s, x);
            assert(q != p);
            assert(t[q] == s[q]);
            assert(has_entry(t, x));
            assert(entry_index(t, x) == q);
        }
        if has_entry(t, x) {
            let q = entry_index(t, x);
            assert(q != p);
            assert(t[q] == s[q]);
            assert(has_entry(s, x));
        }
    }
}

} // verus!
