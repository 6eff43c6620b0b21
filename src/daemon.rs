use vstd::prelude::*;
use crate::outside::{create_shmem, shmem_os_id};
use crate::regions::{lemma_region_exclusive, RegionError, RegionManager};
use crate::session::{session_step, DaemonEvent, NodeEvent, Reply, Request, SessionAction};

verus! {

/// The registry after node `n` registers: unchanged if `n` is already in it.
pub open spec fn registry_after(registry: Seq<Seq<char>>, n: Seq<char>) -> Seq<Seq<char>> {
    if registry.contains(n) {
        registry
    } else {
        registry.push(n)
    }
}

/// A shared memory region together with its length in bytes.
pub struct Region {
    pub memory: shared_memory::Shmem,
    pub len: usize,
}

/// The daemon's state, owned by its core loop alone: which nodes registered, and
/// the shared memory regions handed out to them.
pub struct Daemon {
    registry: Vec<String>,
    regions: RegionManager<Region>,
}

impl Daemon {
    /// Ids of the registered nodes, in order of first registration.
    pub closed spec fn registered(&self) -> Seq<Seq<char>> {
        self.registry@.map_values(|s: String| s@)
    }

    /// Identifiers of the regions that await their payload.
    pub closed spec fn uninit_ids(&self) -> Set<Seq<char>> {
        self.regions.uninit_ids()
    }

    /// Identifiers of the regions that were sent out.
    pub closed spec fn sent_ids(&self) -> Set<Seq<char>> {
        self.regions.sent_ids()
    }

    /// `m` is the uninitialized region kept under `id`.
    pub closed spec fn holds_uninit(&self, id: Seq<char>, m: Region) -> bool {
        self.regions.holds_uninit(id, m)
    }

    /// `m` is the sent-out region kept under `id`.
    pub closed spec fn holds_sent(&self, id: Seq<char>, m: Region) -> bool {
        self.regions.holds_sent(id, m)
    }

    /// The uninitialized region kept under `id` is `len` bytes long.
    pub open spec fn uninit_len(&self, id: Seq<char>, len: usize) -> bool {
        exists|m: Region| #[trigger] self.holds_uninit(id, m) && m.len == len
    }

    /// In a well-formed daemon no region is both uninitialized and sent out.
    pub proof fn lemma_regions_disjoint(&self)
        requires
            self.wf(),
        ensures
            self.uninit_ids().disjoint(self.sent_ids()),
    {
        assert forall|x: Seq<char>| !(self.uninit_ids().contains(x) && self.sent_ids().contains(x)) by {
            lemma_region_exclusive(&self.regions, x);
        }
    }

    pub closed spec fn wf(&self) -> bool {
        &&& self.registered().no_duplicates()
        &&& self.regions.wf()
    }

    /// What an allocation of `len` bytes does: a zero size always fails, a failure
    /// changes nothing, and a success tracks a new, previously unknown region.
    pub open spec fn prepare_post(
        before: Daemon,
        after: Daemon,
        len: usize,
        r: Result<String, RegionError>,
    ) -> bool {
        &&& after.wf()
        &&& after.registered() == before.registered()
        &&& after.sent_ids() == before.sent_ids()
        &&& len == 0 ==> r == Err::<String, RegionError>(RegionError::AllocationFailed)
        &&& r is Err ==> after.uninit_ids() == before.uninit_ids()
        &&& r is Err ==> r == Err::<String, RegionError>(RegionError::AllocationFailed) || r == Err::<
            String,
            RegionError,
        >(RegionError::DuplicateRegion)
        &&& r matches Ok(id) ==> {
            &&& after.uninit_len(id@, len)
            &&& !before.uninit_ids().contains(id@)
            &&& !before.sent_ids().contains(id@)
            &&& after.uninit_ids() == before.uninit_ids().insert(id@)
        }
    }

    /// What handing out region `id` does: it moves, the very region that was
    /// allocated for it, from uninitialized to sent out; or, when it is not
    /// uninitialized, nothing changes and `UnknownRegion` comes back.
    pub open spec fn send_out_post(
        before: Daemon,
        after: Daemon,
        id: Seq<char>,
        r: Result<(), RegionError>,
    ) -> bool {
        &&& after.wf()
        &&& after.registered() == before.registered()
        &&& if before.uninit_ids().contains(id) {
            &&& r == Ok::<(), RegionError>(())
            &&& after.uninit_ids() == before.uninit_ids().remove(id)
            &&& after.sent_ids() == before.sent_ids().insert(id)
            &&& forall|m: Region| #[trigger] before.holds_uninit(id, m) ==> after.holds_sent(id, m)
        } else {
            &&& r == Err::<(), RegionError>(RegionError::UnknownRegion)
            &&& after.uninit_ids() == before.uninit_ids()
            &&& after.sent_ids() == before.sent_ids()
        }
    }

    pub fn new() -> (r: Self)
        ensures
            r.wf(),
            r.registered() == Seq::<Seq<char>>::empty(),
            r.uninit_ids() == Set::<Seq<char>>::empty(),
            r.sent_ids() == Set::<Seq<char>>::empty(),
    {
        let r = Daemon { registry: Vec::new(), regions: RegionManager::new() };
        assert(r.registered() =~= Seq::<Seq<char>>::empty());
        r
    }

    /// Whether `id` is a region that awaits its payload.
    pub fn is_uninit(&self, id: &String) -> (r: bool)
        ensures
            r == self.uninit_ids().contains(id@),
    {
        self.regions.is_uninit(id)
    }

    /// The length of the uninitialized region `id`, if there is one.
    pub fn uninit_region_len(&self, id: &String) -> (r: Option<usize>)
        ensures
            r is None <==> !self.uninit_ids().contains(id@),
            r matches Some(n) ==> self.uninit_len(id@, n),
    {
        match self.regions.get_uninit(id) {
            None => None,
            Some(m) => {
                assert(self.holds_uninit(id@, *m));
                Some(m.len)
            },
        }
    }

    /// Whether `id` is a region that was sent out.
    pub fn is_sent(&self, id: &String) -> (r: bool)
        ensures
            r == self.sent_ids().contains(id@),
    {
        self.regions.is_sent(id)
    }

    /// Number of registered nodes.
    pub fn registered_count(&self) -> (r: usize)
        ensures
            r == self.registered().len(),
    {
        self.registry.len()
    }

    /// Whether a node registered under `node_id`.
    pub fn is_registered(&self, node_id: &String) -> (r: bool)
        ensures
            r == self.registered().contains(node_id@),
    {
        let mut i: usize = 0;
        while i < self.registry.len()
            invariant
                i <= self.registry@.len(),
                forall|j: int| 0 <= j < i ==> #[trigger] self.registry@[j]@ != node_id@,
            decreases self.registry@.len() - i,
        {
            if self.registry[i] == *node_id {
                assert(self.registered()[i as int] == node_id@);
                return true;
            }
            i = i + 1;
        }
        proof {
            if self.registered().contains(node_id@) {
                let j = choose|j: int| 0 <= j < self.registered().len() && self.registered()[j] == node_id@;
                assert(self.registry@[j]@ == node_id@);
            }
        }
        false
    }

    /// Records that node `node_id` registered; a repeated registration changes nothing.
    pub fn register(&mut self, node_id: String)
        requires
            old(self).wf(),
        ensures
            final(self).wf(),
            final(self).registered() == registry_after(old(self).registered(), node_id@),
            final(self).uninit_ids() == old(self).uninit_ids(),
            final(self).sent_ids() == old(self).sent_ids(),
    {
        if self.is_registered(&node_id) {
            return;
        }
        let ghost before = self.registered();
        self.registry.push(node_id);
        assert(self.registered() =~= before.push(node_id@));
    }

    /// Tracks a region that the OS just allocated under `id` as uninitialized, and
    /// answers with its identifier.
    pub fn accept_region(&mut self, id: String, memory: shared_memory::Shmem, len: usize) -> (r: Result<String, RegionError>)
        requires
            old(self).wf(),
        ensures
            final(self).wf(),
            final(self).registered() == old(self).registered(),
            final(self).sent_ids() == old(self).sent_ids(),
            old(self).uninit_ids().contains(id@) || old(self).sent_ids().contains(id@) ==> {
                &&& r == Err::<String, RegionError>(RegionError::DuplicateRegion)
                &&& final(self).uninit_ids() == old(self).uninit_ids()
            },
            !(old(self).uninit_ids().contains(id@) || old(self).sent_ids().contains(id@)) ==> {
                &&& r == Ok::<String, RegionError>(id)
                &&& final(self).uninit_ids() == old(self).uninit_ids().insert(id@)
                &&& final(self).holds_uninit(id@, (Region { memory, len }))
            },
    {
        let answer = id.clone();
        match self.regions.insert_uninit(id, Region { memory, len }) {
            Ok(()) => Ok(answer),
            Err(e) => Err(e),
        }
    }

    /// Allocates a shared memory region of `len` bytes for a node's next message.
    pub fn prepare_output(&mut self, len: usize) -> (r: Result<String, RegionError>)
        requires
            old(self).wf(),
        ensures
            Self::prepare_post(*old(self), *final(self), len, r),
    {
        match create_shmem(len) {
            Err(_) => Err(RegionError::AllocationFailed),
            Ok((memory, n)) => {
                let id = shmem_os_id(&memory);
                self.accept_region(id, memory, n)
            },
        }
    }

    /// Hands out the uninitialized region `id` and keeps it alive among the sent ones.
    pub fn send_out(&mut self, id: &String) -> (r: Result<(), RegionError>)
        requires
            old(self).wf(),
        ensures
            Self::send_out_post(*old(self), *final(self), id@, r),
    {
        proof {
            lemma_region_exclusive(&self.regions, id@);
        }
        match self.regions.commit(id) {
            Err(e) => Err(e),
            Ok(memory) => {
                proof {
                    assert forall|m: Region| #[trigger] old(self).holds_uninit(id@, m) implies m == memory by {
                        old(self).regions.lemma_holds_uninit_unique(id@, m, memory);
                    }
                }
                match self.regions.retire(id.clone(), memory) {
                    Ok(()) => Ok(()),
                    Err(e) => Err(e),
                }
            },
        }
    }

    /// Acts on one event of a session. A registration is recorded (its reply was
    /// already sent by the session); a node request is carried out and answered.
    pub fn handle_event(&mut self, event: DaemonEvent) -> (r: Option<Reply>)
        requires
            old(self).wf(),
        ensures
            final(self).wf(),
            final(self).uninit_ids().disjoint(final(self).sent_ids()),
            match event {
                DaemonEvent::Register { node_id } => {
                    &&& r is None
                    &&& final(self).registered() == registry_after(old(self).registered(), node_id@)
                    &&& final(self).uninit_ids() == old(self).uninit_ids()
                    &&& final(self).sent_ids() == old(self).sent_ids()
                },
                DaemonEvent::Node { id: _, event: NodeEvent::PrepareOutputMessage { len } } => {
                    r matches Some(Reply::PrepareOutputResult(res))
                        && Self::prepare_post(*old(self), *final(self), len, res)
                },
                DaemonEvent::Node { id: _, event: NodeEvent::SendOutMessage { id } } => {
                    r matches Some(Reply::SendOutResult(res))
                        && Self::send_out_post(*old(self), *final(self), id@, res)
                },
            },
    {
        let r = match event {
            DaemonEvent::Register { node_id } => {
                self.register(node_id);
                None
            },
            DaemonEvent::Node { id: _, event: NodeEvent::PrepareOutputMessage { len } } => {
                Some(Reply::PrepareOutputResult(self.prepare_output(len)))
            },
            DaemonEvent::Node { id: _, event: NodeEvent::SendOutMessage { id } } => {
                Some(Reply::SendOutResult(self.send_out(&id)))
            },
        };
        proof {
            self.lemma_regions_disjoint();
        }
        r
    }
}

/// Registering node `n` twice on one connection is answered with `Ok` both
/// times, and leaves `n` in the registry exactly once: the second registration
/// changes nothing.
pub proof fn lemma_register_twice(session_id: Option<String>, registry: Seq<Seq<char>>, n: String)
    requires
        registry.no_duplicates(),
    ensures
        ({
            let (s1, a1) = session_step(session_id, Request::Register { node_id: n });
            let (s2, a2) = session_step(s1, Request::Register { node_id: n });
            let expected = SessionAction::ReplyAndForward {
                reply: Reply::RegisterResult(Ok(())),
                event: DaemonEvent::Register { node_id: n },
            };
            &&& a1 == expected
            &&& a2 == expected
            &&& s2 == Some(n)
        }),
        registry_after(registry_after(registry, n@), n@) == registry_after(registry, n@),
        registry_after(registry, n@).contains(n@),
        registry_after(registry, n@).no_duplicates(),
{
    let m = n@;
    if !registry.contains(m) {
        let r = registry.push(m);
        assert(r[r.len() - 1] == m);
        assert forall|i: int, j: int| 0 <= i < r.len() && 0 <= j < r.len() && i != j implies r[i] != r[j] by {
            if i == r.len() - 1 {
                assert(registry[j] == r[j]);
            } else if j == r.len() - 1 {
                assert(registry[i] == r[i]);
            }
        }
    }
}

} // verus!
