//! The registrations that a client keeps alive.
use crate::keyed::Keyed;
use vstd::prelude::*;

verus! {

/// A registration that a client holds: the lease that its keys hang off, and the task that keeps
/// the lease alive.
pub struct Registration<H> {
    pub lease_id: String,
    pub keep_alive: H,
}

/// The registrations that a client holds, each under the id of its service.
pub struct Registrations<H> {
    live: Keyed<Registration<H>>,
}

impl<H> View for Registrations<H> {
    type V = Map<Seq<char>, Registration<H>>;

    closed spec fn view(&self) -> Map<Seq<char>, Registration<H>> {
        self.live@
    }
}

impl<H> Registrations<H> {
    /// No registrations.
    pub fn new() -> (registrations: Self)
        ensures
            registrations@ == Map::<Seq<char>, Registration<H>>::empty(),
    {
        Registrations { live: Keyed::new() }
    }

    /// Notes the registration of `service_id`. Gives the task of the registration that it
    /// supersedes, which is to stop, so that the old lease expires.
    pub fn record(&mut self, service_id: &str, lease_id: String, keep_alive: H) -> (superseded:
        Option<H>)
        ensures
            final(self)@ == old(self)@.insert(service_id@, Registration { lease_id, keep_alive }),
            superseded == if old(self)@.contains_key(service_id@) {
                Some(old(self)@[service_id@].keep_alive)
            } else {
                None
            },
    {
        match self.live.insert(service_id, Registration { lease_id, keep_alive }) {
            Some(previous) => Some(previous.keep_alive),
            None => None,
        }
    }

    /// Takes away the registration of `service_id`, if this client holds it. Its task is to
    /// stop.
    pub fn take_registration(&mut self, service_id: &str) -> (taken: Option<Registration<H>>)
        ensures
            final(self)@ == old(self)@.remove(service_id@),
            taken == if old(self)@.contains_key(service_id@) {
                Some(old(self)@[service_id@])
            } else {
                None
            },
    {
        self.live.remove(service_id)
    }

    /// The tasks of all registrations, each once.
    pub fn keep_alives(&self) -> (tasks: Vec<&H>)
        ensures
            exists|ids: Seq<Seq<char>>|
                {
                    &&& #[trigger] ids.no_duplicates()
                    &&& ids.to_set() == self@.dom()
                    &&& ids.len() == tasks@.len()
                    &&& forall|i: int|
                        0 <= i < ids.len() ==> *(#[trigger] tasks@[i]) == self@[ids[i]].keep_alive
                },
    {
        let count = self.live.len();
        let mut tasks: Vec<&H> = Vec::new();
        let mut next: usize = 0;
        let ghost ids = self.live.walk();
        while next < count
            invariant
                next <= count,
                count == ids.len(),
                ids == self.live.walk(),
                ids.no_duplicates(),
                ids.to_set() == self.live@.dom(),
                tasks@.len() == next,
                forall|i: int|
                    0 <= i < next ==> *(#[trigger] tasks@[i]) == self@[ids[i]].keep_alive,
            decreases count - next,
        {
            let registration = self.live.at(next);
            tasks.push(&registration.keep_alive);
            next = next + 1;
        }
        assert(ids.no_duplicates());
        tasks
    }
}

} // verus!
