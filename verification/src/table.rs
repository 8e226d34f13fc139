use vstd::prelude::*;
use std::collections::HashMap;
use crate::user::User;

verus! {

broadcast use vstd::std_specs::hash::group_hash_axioms;

/// `s` lists the entries of `m`, each once, in some order.
pub open spec fn lists(s: Seq<(i32, User)>, m: Map<i32, User>) -> bool {
    &&& s.len() == m.dom().len()
    &&& forall|i: int| 0 <= i < s.len() ==> m.contains_key(#[trigger] s[i].0) && m[s[i].0] == s[i].1
    &&& forall|i: int, j: int| 0 <= i < j < s.len() ==> #[trigger] s[i].0 != #[trigger] s[j].0
    &&& forall|k: i32| #[trigger] m.contains_key(k) ==> exists|i: int| 0 <= i < s.len() && #[trigger] s[i].0 == k
}

/// The users a peer knows, by id.
#[derive(Debug)]
pub struct UserTable {
    users: HashMap<i32, User>,
}

impl UserTable {
    /// The users by id.
    pub closed spec fn entries(&self) -> Map<i32, User> {
        self.users@
    }

    /// An empty table.
    pub fn new() -> (t: UserTable)
        ensures
            t.entries() == Map::<i32, User>::empty(),
    {
        UserTable { users: HashMap::new() }
    }

    /// Puts `user` under `id`, in place of any user there before.
    pub fn insert(&mut self, id: i32, user: User)
        ensures
            final(self).entries() == old(self).entries().insert(id, user),
    {
        self.users.insert(id, user);
    }

    /// Takes out the user under `id`, if there is one.
    pub fn remove(&mut self, id: i32)
        ensures
            final(self).entries() == old(self).entries().remove(id),
    {
        self.users.remove(&id);
    }

    /// The number of users.
    pub fn len(&self) -> (n: usize)
        ensures
            n == self.entries().len(),
    {
        self.users.len()
    }

    /// The endpoint that the user under `id` receives on, if there is one.
    pub fn recv_addr_of(&self, id: i32) -> (res: Option<(String, u16)>)
        ensures
            self.entries().contains_key(id) ==> res == Some(self.entries()[id].recv_endpoint()),
            !self.entries().contains_key(id) ==> res is None,
    {
        match self.users.get(&id) {
            Some(user) => Some(user.get_recv_addr()),
            None => None,
        }
    }

    /// A copy of every entry, each once, in the table's own order.
    pub fn snapshot(&self) -> (res: Vec<(i32, User)>)
        ensures
            lists(res@, self.entries()),
    {
        let mut res: Vec<(i32, User)> = Vec::new();
        let ghost m = self.users@;
        if self.users.len() == 0 {
            assert(m.dom() =~= Set::<i32>::empty());
            return res;
        }
        for (k, v) in it: self.users.iter()
            invariant
                m == self.users@,
                it.seq().len() == m.dom().len(),
                it.seq().no_duplicates(),
                forall|i: int| 0 <= i < it.seq().len() ==> m.contains_key(*(#[trigger] it.seq()[i]).0) && m[*it.seq()[i].0] == *it.seq()[i].1,
                forall|k: i32| #[trigger] m.contains_key(k) ==> it.seq().contains((&k, &m[k])),
                res.len() == it.index(),
                forall|i: int| 0 <= i < res.len() ==> #[trigger] res@[i] == (*it.seq()[i].0, *it.seq()[i].1),
                forall|i: int| 0 <= i < res.len() ==> m.contains_key(#[trigger] res@[i].0) && m[res@[i].0] == res@[i].1,
                forall|i: int, j: int| 0 <= i < j < res.len() ==> #[trigger] res@[i].0 != #[trigger] res@[j].0,
                forall|k: i32| #[trigger] m.contains_key(k) ==>
                    (exists|i: int| 0 <= i < res.len() && #[trigger] res@[i].0 == k)
                    || (exists|j: int| it.index() <= j < it.seq().len() && #[trigger] it.seq()[j] == (&k, &m[k])),
        {
            let ghost before = res@;
            res.push((*k, v.clone()));
            proof {
                let n = before.len() as int;
                assert(res@[n] == (*it.seq()[n].0, *it.seq()[n].1));
                assert forall|i: int, j: int| 0 <= i < j < res@.len() implies #[trigger] res@[i].0 != #[trigger] res@[j].0 by {
                    if j == n && res@[i].0 == res@[j].0 {
                        assert(it.seq()[i] == it.seq()[j]);
                    }
                }
                assert forall|key: i32| #[trigger] m.contains_key(key) implies
                    (exists|i: int| 0 <= i < res@.len() && #[trigger] res@[i].0 == key)
                    || (exists|j: int| it.index() + 1 <= j < it.seq().len() && #[trigger] it.seq()[j] == (&key, &m[key])) by {
                    if exists|i: int| 0 <= i < before.len() && #[trigger] before[i].0 == key {
                        let i = choose|i: int| 0 <= i < before.len() && #[trigger] before[i].0 == key;
                        assert(res@[i].0 == key);
                    } else {
                        let j = choose|j: int| it.index() <= j < it.seq().len() && #[trigger] it.seq()[j] == (&key, &m[key]);
                        if j == n {
                            assert(res@[n].0 == key);
                        }
                    }
                }
            }
        }
        res
    }
}

} // verus!
