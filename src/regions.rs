use vstd::prelude::*;

verus! {

/// Why a region request failed.
#[derive(Debug, Clone, Copy, PartialEq, Eq)]
pub enum RegionError {
    /// The operating system could not provide the shared memory.
    AllocationFailed,
    /// No uninitialized region has that identifier (already sent, or never allocated).
    UnknownRegion,
    /// A region with that identifier is already tracked.
    DuplicateRegion,
}

/// The identifiers of a list of entries.
pub open spec fn ids_of<M>(s: Seq<(String, M)>) -> Set<Seq<char>> {
    Set::new(|k: Seq<char>| exists|i: int| 0 <= i < s.len() && #[trigger] s[i].0@ == k)
}

/// No identifier occurs twice in the list.
pub open spec fn unique_ids<M>(s: Seq<(String, M)>) -> bool {
    forall|i: int, j: int|
        0 <= i < s.len() && 0 <= j < s.len() && i != j ==> #[trigger] s[i].0@ != #[trigger] s[j].0@
}

/// Tracks shared memory regions by identifier through their lifecycle: first
/// uninitialized (reserved, awaiting its payload), then sent out (kept alive
/// while consumers may read it).
pub struct RegionManager<M> {
    uninit: Vec<(String, M)>,
    sent: Vec<(String, M)>,
}

impl<M> RegionManager<M> {
    /// Identifiers of the uninitialized regions.
    pub closed spec fn uninit_ids(&self) -> Set<Seq<char>> {
        ids_of(self.uninit@)
    }

    /// Identifiers of the regions that were sent out.
    pub closed spec fn sent_ids(&self) -> Set<Seq<char>> {
        ids_of(self.sent@)
    }

    /// `m` is the uninitialized region stored under `id`.
    pub closed spec fn holds_uninit(&self, id: Seq<char>, m: M) -> bool {
        exists|i: int| 0 <= i < self.uninit@.len() && #[trigger] self.uninit@[i] == (self.uninit@[i].0, m)
            && self.uninit@[i].0@ == id
    }

    /// `m` is the sent-out region stored under `id`.
    pub closed spec fn holds_sent(&self, id: Seq<char>, m: M) -> bool {
        exists|i: int| 0 <= i < self.sent@.len() && #[trigger] self.sent@[i] == (self.sent@[i].0, m)
            && self.sent@[i].0@ == id
    }

    /// In a well-formed manager an uninitialized identifier stands for one region only.
    pub proof fn lemma_holds_uninit_unique(&self, id: Seq<char>, a: M, b: M)
        requires
            self.wf(),
            self.holds_uninit(id, a),
            self.holds_uninit(id, b),
        ensures
            a == b,
    {
        let i = choose|i: int| 0 <= i < self.uninit@.len() && #[trigger] self.uninit@[i] == (self.uninit@[i].0, a)
            && self.uninit@[i].0@ == id;
        let j = choose|j: int| 0 <= j < self.uninit@.len() && #[trigger] self.uninit@[j] == (self.uninit@[j].0, b)
            && self.uninit@[j].0@ == id;
        assert(i == j);
    }

    /// Each identifier is tracked at most once, in exactly one of the two lists.
    pub closed spec fn wf(&self) -> bool {
        &&& unique_ids(self.uninit@)
        &&& unique_ids(self.sent@)
        &&& self.uninit_ids().disjoint(self.sent_ids())
    }

    pub fn new() -> (r: Self)
        ensures
            r.wf(),
            r.uninit_ids() == Set::<Seq<char>>::empty(),
            r.sent_ids() == Set::<Seq<char>>::empty(),
    {
        let r = RegionManager { uninit: Vec::new(), sent: Vec::new() };
        assert(r.uninit_ids() =~= Set::<Seq<char>>::empty());
        assert(r.sent_ids() =~= Set::<Seq<char>>::empty());
        r
    }

    fn position(v: &Vec<(String, M)>, id: &String) -> (r: Option<usize>)
        ensures
            match r {
                Some(i) => i < v@.len() && v@[i as int].0@ == id@,
                None => !ids_of(v@).contains(id@),
            },
    {
        let mut i: usize = 0;
        while i < v.len()
            invariant
                i <= v@.len(),
                forall|j: int| 0 <= j < i ==> #[trigger] v@[j].0@ != id@,
            decreases v@.len() - i,
        {
            if v[i].0 == *id {
                return Some(i);
            }
            i = i + 1;
        }
        None
    }

    /// Whether `id` is an uninitialized region.
    pub fn is_uninit(&self, id: &String) -> (r: bool)
        ensures
            r == self.uninit_ids().contains(id@),
    {
        Self::position(&self.uninit, id).is_some()
    }

    /// The uninitialized region stored under `id`, if there is one.
    pub fn get_uninit(&self, id: &String) -> (r: Option<&M>)
        ensures
            r is None <==> !self.uninit_ids().contains(id@),
            r matches Some(m) ==> self.holds_uninit(id@, *m),
    {
        match Self::position(&self.uninit, id) {
            None => None,
            Some(i) => {
                assert(self.uninit@[i as int] == (self.uninit@[i as int].0, self.uninit@[i as int].1));
                Some(&self.uninit[i].1)
            },
        }
    }

    /// Whether `id` is a sent-out region.
    pub fn is_sent(&self, id: &String) -> (r: bool)
        ensures
            r == self.sent_ids().contains(id@),
    {
        Self::position(&self.sent, id).is_some()
    }

    /// Whether `id` is tracked, uninitialized or sent out.
    pub fn is_tracked(&self, id: &String) -> (r: bool)
        ensures
            r == (self.uninit_ids().contains(id@) || self.sent_ids().contains(id@)),
    {
        Self::position(&self.uninit, id).is_some() || Self::position(&self.sent, id).is_some()
    }

    /// Starts tracking a freshly allocated region as uninitialized.
    pub fn insert_uninit(&mut self, id: String, memory: M) -> (r: Result<(), RegionError>)
        requires
            old(self).wf(),
        ensures
            final(self).wf(),
            final(self).sent_ids() == old(self).sent_ids(),
            old(self).uninit_ids().contains(id@) || old(self).sent_ids().contains(id@) ==> {
                &&& r == Err::<(), RegionError>(RegionError::DuplicateRegion)
                &&& final(self).uninit_ids() == old(self).uninit_ids()
            },
            !(old(self).uninit_ids().contains(id@) || old(self).sent_ids().contains(id@)) ==> {
                &&& r == Ok::<(), RegionError>(())
                &&& final(self).uninit_ids() == old(self).uninit_ids().insert(id@)
                &&& final(self).holds_uninit(id@, memory)
            },
    {
        if self.is_tracked(&id) {
            return Err(RegionError::DuplicateRegion);
        }
        let ghost k = id@;
        let ghost before = self.uninit@;
        self.uninit.push((id, memory));
        proof {
            let n = before.len() as int;
            assert(self.uninit@[n].0@ == k);
            assert forall|i: int| 0 <= i < n implies #[trigger] self.uninit@[i] == before[i] by {}
            assert(self.uninit_ids() =~= ids_of(before).insert(k)) by {
                assert forall|x: Seq<char>| ids_of(before).insert(k).contains(x) implies self.uninit_ids().contains(x) by {
                    if x != k {
                        let i = choose|i: int| 0 <= i < before.len() && #[trigger] before[i].0@ == x;
                        assert(self.uninit@[i].0@ == x);
                    }
                }
            }
            assert(self.holds_uninit(k, memory)) by {
                assert(self.uninit@[n] == (self.uninit@[n].0, memory));
            }
        }
        Ok(())
    }

    /// Takes the uninitialized region `id` out for distribution.
    pub fn commit(&mut self, id: &String) -> (r: Result<M, RegionError>)
        requires
            old(self).wf(),
        ensures
            final(self).wf(),
            final(self).sent_ids() == old(self).sent_ids(),
            r is Ok <==> old(self).uninit_ids().contains(id@),
            r is Err ==> r == Err::<M, RegionError>(RegionError::UnknownRegion) && final(self).uninit_ids()
                == old(self).uninit_ids(),
            r matches Ok(m) ==> old(self).holds_uninit(id@, m) && final(self).uninit_ids() == old(
                self,
            ).uninit_ids().remove(id@),
    {
        match Self::position(&self.uninit, id) {
            None => Err(RegionError::UnknownRegion),
            Some(i) => {
                let ghost before = self.uninit@;
                let (_, m) = self.uninit.remove(i);
                proof {
                    let k = id@;
                    assert(before[i as int] == (before[i as int].0, m));
                    assert forall|j: int| 0 <= j < self.uninit@.len() implies #[trigger] self.uninit@[j]
                        == if j < i { before[j] } else { before[j + 1] } by {}
                    assert(self.uninit_ids() =~= ids_of(before).remove(k)) by {
                        assert forall|x: Seq<char>| ids_of(before).remove(k).contains(x) implies self.uninit_ids().contains(x) by {
                            let j = choose|j: int| 0 <= j < before.len() && #[trigger] before[j].0@ == x;
                            if j < i {
                                assert(self.uninit@[j].0@ == x);
                            } else {
                                assert(self.uninit@[j - 1].0@ == x);
                            }
                        }
                        assert forall|x: Seq<char>| self.uninit_ids().contains(x) implies ids_of(before).remove(k).contains(x) by {
                            let j = choose|j: int| 0 <= j < self.uninit@.len() && #[trigger] self.uninit@[j].0@ == x;
                            if j < i {
                                assert(before[j].0@ == x);
                            } else {
                                assert(before[j + 1].0@ == x);
                            }
                        }
                    }
                }
                Ok(m)
            },
        }
    }

    /// Keeps a distributed region alive among the sent-out ones.
    pub fn retire(&mut self, id: String, memory: M) -> (r: Result<(), RegionError>)
        requires
            old(self).wf(),
        ensures
            final(self).wf(),
            final(self).uninit_ids() == old(self).uninit_ids(),
            old(self).uninit_ids().contains(id@) || old(self).sent_ids().contains(id@) ==> {
                &&& r == Err::<(), RegionError>(RegionError::DuplicateRegion)
                &&& final(self).sent_ids() == old(self).sent_ids()
            },
            !(old(self).uninit_ids().contains(id@) || old(self).sent_ids().contains(id@)) ==> {
                &&& r == Ok::<(), RegionError>(())
                &&& final(self).sent_ids() == old(self).sent_ids().insert(id@)
                &&& final(self).holds_sent(id@, memory)
            },
    {
        if self.is_tracked(&id) {
            return Err(RegionError::DuplicateRegion);
        }
        let ghost k = id@;
        let ghost before = self.sent@;
        self.sent.push((id, memory));
        proof {
            let n = before.len() as int;
            assert(self.sent@[n].0@ == k);
            assert forall|i: int| 0 <= i < n implies #[trigger] self.sent@[i] == before[i] by {}
            assert(self.holds_sent(k, memory)) by {
                assert(self.sent@[n] == (self.sent@[n].0, memory));
            }
            assert(self.sent_ids() =~= ids_of(before).insert(k)) by {
                assert forall|x: Seq<char>| ids_of(before).insert(k).contains(x) implies self.sent_ids().contains(x) by {
                    if x != k {
                        let i = choose|i: int| 0 <= i < before.len() && #[trigger] before[i].0@ == x;
                        assert(self.sent@[i].0@ == x);
                    }
                }
            }
        }
        Ok(())
    }
}

/// In a well-formed manager no identifier is both uninitialized and sent out.
pub proof fn lemma_region_exclusive<M>(regions: &RegionManager<M>, id: Seq<char>)
    requires
        regions.wf(),
    ensures
        !(regions.uninit_ids().contains(id) && regions.sent_ids().contains(id)),
{
}

} // verus!
