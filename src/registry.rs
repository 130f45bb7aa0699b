use vstd::prelude::*;

verus! {

/// Index of an occurrence of `id` in `s`, where `s` contains it.
pub open spec fn position(s: Seq<usize>, id: usize) -> int {
    choose|i: int| 0 <= i < s.len() && s[i] == id
}

/// `s` with `id` taken out, or `s` itself where `id` is not there.
pub open spec fn unregistered(s: Seq<usize>, id: usize) -> Seq<usize> {
    if s.contains(id) {
        s.remove(position(s, id))
    } else {
        s
    }
}

/// The registry of live connections, keyed by connection id, each with the
/// handle that writes to its channel. Ids are kept in order of registration.
pub struct UserManager<H> {
    pub members: Vec<(usize, H)>,
}

impl<H> UserManager<H> {
    /// The registered ids, in order of registration.
    pub open spec fn ids(&self) -> Seq<usize> {
        self.members@.map_values(|m: (usize, H)| m.0)
    }

    /// The handle registered under `id`, where `id` is registered.
    pub open spec fn handle_of(&self, id: usize) -> H {
        self.members@[position(self.ids(), id)].1
    }

    /// No id is registered twice.
    pub open spec fn wf(&self) -> bool {
        self.ids().no_duplicates()
    }

    pub fn new() -> (r: UserManager<H>)
        ensures
            r.ids() == Seq::<usize>::empty(),
            r.wf(),
    {
        let r = UserManager { members: Vec::new() };
        assert(r.ids() =~= Seq::<usize>::empty());
        r
    }

    fn find(&self, id: usize) -> (r: Option<usize>)
        ensures
            match r {
                Some(i) => i < self.ids().len() && self.ids()[i as int] == id,
                None => !self.ids().contains(id),
            },
    {
        let mut i: usize = 0;
        while i < self.members.len()
            invariant
                i <= self.members@.len(),
                forall|k: int| 0 <= k < i ==> self.ids()[k] != id,
            decreases self.members@.len() - i,
        {
            if self.members[i].0 == id {
                return Some(i);
            }
            i = i + 1;
        }
        None
    }

    /// Whether `id` is registered.
    pub fn contains(&self, id: usize) -> (r: bool)
        ensures
            r == self.ids().contains(id),
    {
        self.find(id).is_some()
    }

    /// Registers `handle` under `id`, which is not registered yet.
    pub fn add_user(&mut self, id: usize, handle: H)
        requires
            old(self).wf(),
            !old(self).ids().contains(id),
        ensures
            final(self).wf(),
            final(self).ids() == old(self).ids().push(id),
            final(self).handle_of(id) == handle,
            forall|x: usize| #[trigger] old(self).ids().contains(x) ==> final(self).handle_of(x) == old(self).handle_of(x),
    {
        self.members.push((id, handle));
        let ghost s = self.ids();
        assert(s =~= old(self).ids().push(id));
        assert(s[s.len() - 1] == id);
        assert forall|x: usize| #[trigger] old(self).ids().contains(x) implies self.handle_of(x) == old(self).handle_of(x) by {
            let p = position(old(self).ids(), x);
            assert(s[p] == x);
            assert(position(s, x) == p);
        }
    }

    /// The handle registered under `id`, if any.
    pub fn get_user(&self, id: usize) -> (r: Option<&H>)
        requires
            self.wf(),
        ensures
            r.is_some() == self.ids().contains(id),
            r.is_some() ==> *r.unwrap() == self.handle_of(id),
    {
        match self.find(id) {
            Some(i) => {
                assert(self.ids()[i as int] == id);
                assert(position(self.ids(), id) == i);
                Some(&self.members[i].1)
            },
            None => None,
        }
    }

    /// Removes `id` if it is registered; does nothing otherwise.
    pub fn remove_user(&mut self, id: usize)
        requires
            old(self).wf(),
        ensures
            final(self).wf(),
            final(self).ids() == unregistered(old(self).ids(), id),
            forall|x: usize| #[trigger] final(self).ids().contains(x) ==> final(self).handle_of(x) == old(self).handle_of(x),
    {
        match self.find(id) {
            Some(i) => {
                let ghost s0 = self.ids();
                assert(position(s0, id) == i);
                self.members.remove(i);
                let ghost s1 = self.ids();
                assert(s1 =~= s0.remove(i as int));
                assert forall|x: usize| #[trigger] s1.contains(x) implies self.handle_of(x) == old(self).handle_of(x) by {
                    let p = position(s1, x);
                    if p < i {
                        assert(s0[p] == x);
                        assert(position(s0, x) == p);
                    } else {
                        assert(s0[p + 1] == x);
                        assert(position(s0, x) == p + 1);
                    }
                }
            },
            None => {},
        }
    }

    /// A point-in-time copy of the registered ids, in order of registration.
    pub fn get_users(&self) -> (r: Vec<usize>)
        ensures
            r@ == self.ids(),
    {
        let mut r: Vec<usize> = Vec::new();
        let mut i: usize = 0;
        while i < self.members.len()
            invariant
                i <= self.members@.len(),
                r@ == self.ids().subrange(0, i as int),
            decreases self.members@.len() - i,
        {
            r.push(self.members[i].0);
            i = i + 1;
            assert(r@ =~= self.ids().subrange(0, i as int));
        }
        assert(r@ =~= self.ids());
        r
    }
}

/// A registration or a removal, as a step of a run of the registry.
pub enum RegistryOp {
    Register(usize),
    Unregister(usize),
}

/// The registered ids after one step, as `add_user` and `remove_user` state it.
pub open spec fn after_op(s: Seq<usize>, op: RegistryOp) -> Seq<usize> {
    match op {
        RegistryOp::Register(id) => s.push(id),
        RegistryOp::Unregister(id) => unregistered(s, id),
    }
}

/// The registered ids after a run of steps from an empty registry.
pub open spec fn after_ops(ops: Seq<RegistryOp>) -> Seq<usize>
    decreases ops.len(),
{
    if ops.len() == 0 {
        Seq::empty()
    } else {
        after_op(after_ops(ops.drop_last()), ops.last())
    }
}

pub open spec fn registered_in(ops: Seq<RegistryOp>, id: usize) -> bool {
    exists|k: int| 0 <= k < ops.len() && ops[k] == RegistryOp::Register(id)
}

pub open spec fn unregistered_in(ops: Seq<RegistryOp>, id: usize) -> bool {
    exists|k: int| 0 <= k < ops.len() && ops[k] == RegistryOp::Unregister(id)
}

/// A run the generator and the transport can produce: no id is registered
/// twice, and no id is registered after a removal of it.
pub open spec fn well_ordered(ops: Seq<RegistryOp>) -> bool {
    &&& forall|a: int, b: int, id: usize|
        0 <= a < b < ops.len() && ops[a] == RegistryOp::Register(id) ==> ops[b] != RegistryOp::Register(id)
    &&& forall|a: int, b: int, id: usize|
        0 <= a < b < ops.len() && ops[a] == RegistryOp::Unregister(id) ==> ops[b] != RegistryOp::Register(id)
}

proof fn lemma_unregistered_members(s: Seq<usize>, id: usize)
    requires
        s.no_duplicates(),
    ensures
        unregistered(s, id).no_duplicates(),
        forall|x: usize| #[trigger] unregistered(s, id).contains(x) <==> (s.contains(x) && x != id),
{
    if s.contains(id) {
        let p = position(s, id);
        let t = s.remove(p);
        assert forall|x: usize| #[trigger] t.contains(x) <==> (s.contains(x) && x != id) by {
            if t.contains(x) {
                let k = choose|k: int| 0 <= k < t.len() && t[k] == x;
                if k < p {
                    assert(s[k] == x);
                } else {
                    assert(s[k + 1] == x);
                }
            }
            if s.contains(x) && x != id {
                let k = choose|k: int| 0 <= k < s.len() && s[k] == x;
                if k < p {
                    assert(t[k] == x);
                } else {
                    assert(k != p);
                    assert(t[k - 1] == x);
                }
            }
        }
        assert forall|i: int, j: int| 0 <= i < t.len() && 0 <= j < t.len() && i != j implies t[i] != t[j] by {
            let si = if i < p { i } else { i + 1 };
            let sj = if j < p { j } else { j + 1 };
            assert(t[i] == s[si] && t[j] == s[sj]);
        }
    }
}

/// Whatever the order of the steps, the registry ends up holding exactly
/// the ids that were registered and not removed, each once.
pub proof fn lemma_registry_membership(ops: Seq<RegistryOp>)
    requires
        well_ordered(ops),
    ensures
        after_ops(ops).no_duplicates(),
        forall|x: usize|
            #[trigger] after_ops(ops).contains(x) <==> (registered_in(ops, x) && !unregistered_in(ops, x)),
    decreases ops.len(),
{
    if ops.len() > 0 {
        let pre = ops.drop_last();
        assert(well_ordered(pre));
        lemma_registry_membership(pre);
        let s = after_ops(pre);
        let n = ops.len() - 1;
        assert forall|x: usize| registered_in(ops, x) <==> (registered_in(pre, x) || ops.last() == RegistryOp::Register(x)) by {
            if registered_in(ops, x) {
                let k = choose|k: int| 0 <= k < ops.len() && ops[k] == RegistryOp::Register(x);
                if k < n {
                    assert(pre[k] == ops[k]);
                }
            }
            if registered_in(pre, x) {
                let k = choose|k: int| 0 <= k < pre.len() && pre[k] == RegistryOp::Register(x);
                assert(ops[k] == pre[k]);
            }
        }
        assert forall|x: usize| unregistered_in(ops, x) <==> (unregistered_in(pre, x) || ops.last() == RegistryOp::Unregister(x)) by {
            if unregistered_in(ops, x) {
                let k = choose|k: int| 0 <= k < ops.len() && ops[k] == RegistryOp::Unregister(x);
                if k < n {
                    assert(pre[k] == ops[k]);
                }
            }
            if unregistered_in(pre, x) {
                let k = choose|k: int| 0 <= k < pre.len() && pre[k] == RegistryOp::Unregister(x);
                assert(ops[k] == pre[k]);
            }
        }
        match ops.last() {
            RegistryOp::Register(id) => {
                assert(!registered_in(pre, id)) by {
                    if registered_in(pre, id) {
                        let k = choose|k: int| 0 <= k < pre.len() && pre[k] == RegistryOp::Register(id);
                        assert(ops[k] == RegistryOp::Register(id));
                    }
                }
                assert(!unregistered_in(pre, id)) by {
                    if unregistered_in(pre, id) {
                        let k = choose|k: int| 0 <= k < pre.len() && pre[k] == RegistryOp::Unregister(id);
                        assert(ops[k] == RegistryOp::Unregister(id));
                    }
                }
                assert(!s.contains(id));
                let t = s.push(id);
                assert(after_ops(ops) == t);
                assert forall|x: usize| #[trigger] t.contains(x) <==> (s.contains(x) || x == id) by {
                    if t.contains(x) {
                        let k = choose|k: int| 0 <= k < t.len() && t[k] == x;
                        if k < s.len() {
                            assert(s[k] == x);
                        }
                    }
                    if s.contains(x) {
                        let k = choose|k: int| 0 <= k < s.len() && s[k] == x;
                        assert(t[k] == x);
                    }
                    if x == id {
                        assert(t[s.len() as int] == x);
                    }
                }
                assert forall|i: int, j: int| 0 <= i < t.len() && 0 <= j < t.len() && i != j implies t[i] != t[j] by {
                    if i == s.len() as int {
                        assert(s[j] == t[j]);
                    } else if j == s.len() as int {
                        assert(s[i] == t[i]);
                    }
                }
            },
            RegistryOp::Unregister(id) => {
                lemma_unregistered_members(s, id);
                assert(after_ops(ops) == unregistered(s, id));
            },
        }
    }
}

/// Removing an id a second time changes nothing more than removing it once.
pub proof fn lemma_remove_idempotent(s: Seq<usize>, id: usize)
    requires
        s.no_duplicates(),
    ensures
        unregistered(unregistered(s, id), id) == unregistered(s, id),
        !unregistered(s, id).contains(id),
{
    lemma_unregistered_members(s, id);
}

} // verus!
