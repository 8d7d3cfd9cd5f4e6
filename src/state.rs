//! The process-wide table of the players logged in through the proxy.
use vstd::prelude::*;

verus! {

/// The players logged in through the proxy: each name once, with its UUID.
pub struct OnlinePlayers {
    entries: Vec<(String, u128)>,
}

impl OnlinePlayers {
    /// Name to UUID.
    pub closed spec fn view(&self) -> Map<Seq<char>, u128> {
        Map::new(
            |n: Seq<char>| exists|i: int| 0 <= i < self.entries@.len() && self.entries@[i].0@ == n,
            |n: Seq<char>|
                self.entries@[choose|i: int| 0 <= i < self.entries@.len() && self.entries@[i].0@ == n].1,
        )
    }

    /// No name appears twice.
    pub closed spec fn wf(&self) -> bool {
        forall|i: int, j: int|
            0 <= i < j < self.entries@.len() ==> self.entries@[i].0@ != self.entries@[j].0@
    }

    /// The number of players.
    pub closed spec fn count(&self) -> nat {
        self.entries@.len()
    }

    /// An empty table.
    pub fn new() -> (r: OnlinePlayers)
        ensures
            r.wf(),
            r.view() == Map::<Seq<char>, u128>::empty(),
            r.count() == 0,
    {
        let r = OnlinePlayers { entries: Vec::new() };
        assert(r.view() =~= Map::<Seq<char>, u128>::empty());
        r
    }

    fn find(&self, name: &str) -> (r: Option<usize>)
        ensures
            match r {
                Some(i) => i < self.entries@.len() && self.entries@[i as int].0@ == name@,
                None => forall|i: int| 0 <= i < self.entries@.len() ==> self.entries@[i].0@ != name@,
            },
    {
        let target: String = name.to_owned();
        let mut i: usize = 0;
        while i < self.entries.len()
            invariant
                i <= self.entries@.len(),
                target@ == name@,
                forall|j: int| 0 <= j < i ==> self.entries@[j].0@ != name@,
            decreases self.entries@.len() - i,
        {
            if self.entries[i].0 == target {
                return Some(i);
            }
            i = i + 1;
        }
        None
    }

    proof fn lemma_view_at(&self, i: int)
        requires
            self.wf(),
            0 <= i < self.entries@.len(),
        ensures
            self.view().contains_key(self.entries@[i].0@),
            self.view()[self.entries@[i].0@] == self.entries@[i].1,
    {
        let n = self.entries@[i].0@;
        let j = choose|j: int| 0 <= j < self.entries@.len() && self.entries@[j].0@ == n;
        assert(j == i);
    }

    /// Whether a player of this name is online.
    pub fn exists_online_player(&self, name: &str) -> (r: bool)
        requires
            self.wf(),
        ensures
            r == self.view().contains_key(name@),
    {
        match self.find(name) {
            Some(i) => {
                proof {
                    self.lemma_view_at(i as int);
                }
                true
            },
            None => false,
        }
    }

    /// Records `name` as online with `uuid`, replacing an earlier entry of that name.
    pub fn add_online_player(&mut self, name: String, uuid: u128)
        requires
            old(self).wf(),
        ensures
            final(self).wf(),
            final(self).view() == old(self).view().insert(name@, uuid),
    {
        let ghost old_view = self.view();
        self.remove_online_player(name.as_str());
        let ghost mid = self.view();
        let ghost n = name@;
        let ghost pre = self.entries@;
        proof {
            assert(!mid.contains_key(n));
        }
        self.entries.push((name, uuid));
        proof {
            let last = self.entries@.len() - 1;
            assert forall|a: int, b: int| 0 <= a < b < self.entries@.len() implies self.entries@[a].0@
                != self.entries@[b].0@ by {
                if b == last {
                    if self.entries@[a].0@ == n {
                        assert(old(self).entries@.len() >= 0);
                        let pre = self.entries@[a];
                        assert(mid.contains_key(n));
                    }
                }
            }
            assert forall|k: Seq<char>| #[trigger] self.view().contains_key(k)
                == mid.insert(n, uuid).contains_key(k) by {
                if mid.contains_key(k) {
                    let j = choose|j: int| 0 <= j < pre.len() && pre[j].0@ == k;
                    assert(self.entries@[j] == pre[j]);
                }
                if k == n {
                    assert(self.entries@[last].0@ == n);
                }
                if self.view().contains_key(k) && k != n {
                    let j = choose|j: int| 0 <= j < self.entries@.len() && self.entries@[j].0@ == k;
                    assert(j < last);
                }
            }
            assert forall|k: Seq<char>| #[trigger] self.view().contains_key(k) implies self.view()[k]
                == mid.insert(n, uuid)[k] by {
                let j = choose|j: int| 0 <= j < self.entries@.len() && self.entries@[j].0@ == k;
                self.lemma_view_at(j);
                if k != n {
                    assert(j < last);
                    assert(self.entries@[j] == pre[j]);
                    let jj = choose|jj: int| 0 <= jj < pre.len() && pre[jj].0@ == k;
                    assert(jj == j);
                }
            }
            assert(self.view() =~= mid.insert(n, uuid));
            assert(mid.insert(n, uuid) =~= old_view.insert(n, uuid));
        }
    }

    /// Removes the player of this name, if online.
    pub fn remove_online_player(&mut self, name: &str)
        requires
            old(self).wf(),
        ensures
            final(self).wf(),
            final(self).view() == old(self).view().remove(name@),
    {
        let ghost old_view = self.view();
        match self.find(name) {
            Some(i) => {
                self.entries.remove(i);
                proof {
                    assert forall|a: int, b: int| 0 <= a < b < self.entries@.len() implies self.entries@[a].0@
                        != self.entries@[b].0@ by {
                        let oa = if a < i { a } else { a + 1 };
                        let ob = if b < i { b } else { b + 1 };
                        assert(self.entries@[a] == old(self).entries@[oa]);
                        assert(self.entries@[b] == old(self).entries@[ob]);
                    }
                    assert forall|k: Seq<char>| #[trigger] self.view().contains_key(k)
                        == old_view.remove(name@).contains_key(k) by {
                        if old_view.contains_key(k) && k != name@ {
                            let j = choose|j: int|
                                0 <= j < old(self).entries@.len() && old(self).entries@[j].0@ == k;
                            assert(j != i);
                            let nj = if j < i { j } else { j - 1 };
                            assert(self.entries@[nj] == old(self).entries@[j]);
                        }
                        if self.view().contains_key(k) {
                            let j = choose|j: int|
                                0 <= j < self.entries@.len() && self.entries@[j].0@ == k;
                            let oj = if j < i { j } else { j + 1 };
                            assert(self.entries@[j] == old(self).entries@[oj]);
                            assert(oj != i);
                        }
                    }
                    assert forall|k: Seq<char>| #[trigger] self.view().contains_key(k) implies self.view()[k]
                        == old_view.remove(name@)[k] by {
                        let j = choose|j: int| 0 <= j < self.entries@.len() && self.entries@[j].0@ == k;
                        self.lemma_view_at(j);
                        let oj = if j < i { j } else { j + 1 };
                        assert(self.entries@[j] == old(self).entries@[oj]);
                        old(self).lemma_view_at(oj);
                    }
                    assert(self.view() =~= old_view.remove(name@));
                }
            },
            None => {
                proof {
                    assert(!old_view.contains_key(name@));
                    assert(self.view() =~= old_view.remove(name@));
                }
            },
        }
    }

    /// The players as (name, UUID) pairs.
    pub fn read_online_players(&self) -> (r: Vec<(String, u128)>)
        requires
            self.wf(),
        ensures
            r@.len() == self.count(),
            forall|i: int| 0 <= i < r@.len() ==> #[trigger] self.view().contains_key(r@[i].0@)
                && self.view()[r@[i].0@] == r@[i].1,
    {
        let mut r: Vec<(String, u128)> = Vec::new();
        let mut i: usize = 0;
        while i < self.entries.len()
            invariant
                self.wf(),
                i <= self.entries@.len(),
                r@.len() == i,
                forall|j: int| 0 <= j < i ==> r@[j].0@ == self.entries@[j].0@ && r@[j].1 == self.entries@[j].1,
            decreases self.entries@.len() - i,
        {
            let name = self.entries[i].0.clone();
            r.push((name, self.entries[i].1));
            i = i + 1;
        }
        proof {
            assert forall|j: int| 0 <= j < r@.len() implies #[trigger] self.view().contains_key(r@[j].0@)
                && self.view()[r@[j].0@] == r@[j].1 by {
                self.lemma_view_at(j);
            }
        }
        r
    }

    /// How many players are online.
    pub fn len(&self) -> (r: usize)
        ensures
            r == self.count(),
    {
        self.entries.len()
    }
}

} // verus!
