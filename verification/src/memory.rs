//! In-memory service discovery, for tests and development.
use crate::error::{DiscoveryError, ErrorView};
use crate::keyed::Keyed;
use crate::names::{ascending, sorted_distinct, texts};
use crate::outcome::outcome;
use crate::service::{instances, InstanceView, ServiceInstance};
use vstd::prelude::*;

verus! {

/// Service discovery over a table in memory. Registrations stay until they are deregistered.
pub struct InMemoryDiscovery {
    services: Keyed<ServiceInstance>,
}

impl View for InMemoryDiscovery {
    type V = Map<Seq<char>, InstanceView>;

    /// The registered instances, each under its id.
    closed spec fn view(&self) -> Map<Seq<char>, InstanceView> {
        self.services@.map_values(|instance: ServiceInstance| instance@)
    }
}

/// Each instance is registered under its own id.
pub open spec fn under_own_ids(registered: Map<Seq<char>, InstanceView>) -> bool {
    forall|id: Seq<char>| #[trigger] registered.contains_key(id) ==> registered[id].id == id
}

/// `list` holds each of the registered instances whose service is `name`, each once, and nothing
/// else.
pub open spec fn are_the_instances(
    list: Seq<InstanceView>,
    registered: Map<Seq<char>, InstanceView>,
    name: Seq<char>,
) -> bool {
    &&& list.no_duplicates()
    &&& forall|instance: InstanceView| #[trigger]
        list.contains(instance) <==> registered.contains_key(instance.id)
            && registered[instance.id] == instance && instance.name == name
}

/// The instance that is registered under `id`, or that there is none.
pub open spec fn registered_under(
    registered: Map<Seq<char>, InstanceView>,
    id: Seq<char>,
) -> Result<InstanceView, ErrorView> {
    if registered.contains_key(id) {
        Ok(registered[id])
    } else {
        Err(ErrorView::ServiceNotFound(id))
    }
}

/// `names` are the services of the registered instances, sorted, each once.
pub open spec fn are_the_services(
    names: Seq<Seq<char>>,
    registered: Map<Seq<char>, InstanceView>,
) -> bool {
    &&& ascending(names)
    &&& forall|name: Seq<char>| #[trigger]
        names.contains(name) <==> exists|id: Seq<char>| #[trigger]
            registered.contains_key(id) && registered[id].name == name
}

impl InMemoryDiscovery {
    /// Every instance is registered under its own id.
    #[verifier::type_invariant]
    spec fn under_own_id(self) -> bool {
        forall|id: Seq<char>| #[trigger]
            self.services@.contains_key(id) ==> self.services@[id].id@ == id
    }

    /// No registrations.
    pub fn new() -> (discovery: Self)
        ensures
            discovery@ == Map::<Seq<char>, InstanceView>::empty(),
    {
        let discovery = InMemoryDiscovery { services: Keyed::new() };
        assert(discovery@ =~= Map::empty());
        discovery
    }

    /// Takes away all registrations.
    pub fn clear(&mut self)
        ensures
            final(self)@ == Map::<Seq<char>, InstanceView>::empty(),
    {
        self.services = Keyed::new();
        assert(self@ =~= Map::empty());
    }

    /// How many instances are registered.
    pub fn count(&self) -> (count: usize)
        ensures
            count == self@.len(),
            self@.dom().finite(),
    {
        assert(self@.dom() =~= self.services@.dom());
        self.services.len()
    }

    /// Registers an instance under its id, in place of the one that was there.
    pub fn register(&mut self, service: &ServiceInstance) -> (result: Result<(), DiscoveryError>)
        ensures
            result is Ok,
            final(self)@ == old(self)@.insert(service@.id, service@),
            under_own_ids(final(self)@),
    {
        let mut services: Keyed<ServiceInstance> = Keyed::new();
        proof {
            use_type_invariant(&*self);
        }
        std::mem::swap(&mut services, &mut self.services);
        let _ = services.insert(&service.id, service.clone());
        self.services = services;
        assert(self@ =~= old(self)@.insert(service@.id, service@));
        Ok(())
    }

    /// Takes away the instance `service_id`.
    pub fn deregister(&mut self, service_id: &str) -> (result: Result<(), DiscoveryError>)
        ensures
            final(self)@ == old(self)@.remove(service_id@),
            under_own_ids(final(self)@),
            outcome(result) == if old(self)@.contains_key(service_id@) {
                Ok(())
            } else {
                Err(ErrorView::ServiceNotFound(service_id@))
            },
    {
        let mut services: Keyed<ServiceInstance> = Keyed::new();
        proof {
            use_type_invariant(&*self);
        }
        std::mem::swap(&mut services, &mut self.services);
        let removed = services.remove(service_id);
        self.services = services;
        assert(self@ =~= old(self)@.remove(service_id@));
        match removed {
            Some(_) => Ok(()),
            None => Err(DiscoveryError::ServiceNotFound(service_id.to_owned())),
        }
    }

    /// The registered instances of the service `service_name`, in no particular order. That
    /// there are none is no error.
    pub fn discover(&self, service_name: &str) -> (result: Result<
        Vec<ServiceInstance>,
        DiscoveryError,
    >)
        ensures
            result is Ok,
            are_the_instances(instances(result->Ok_0@), self@, service_name@),
            under_own_ids(self@),
    {
        let wanted = service_name.to_owned();
        let count = self.services.len();
        let mut found: Vec<ServiceInstance> = Vec::new();
        let mut next: usize = 0;
        let ghost walk = self.services.walk();
        while next < count
            invariant
                next <= count,
                count == walk.len(),
                walk == self.services.walk(),
                walk.no_duplicates(),
                walk.to_set() == self.services@.dom(),
                wanted@ == service_name@,
                forall|i: int|
                    0 <= i < found@.len() ==> exists|j: int|
                        0 <= j < next && (#[trigger] found@[i])@ == #[trigger] self@[walk[j]]
                            && found@[i].name@ == wanted@,
                forall|j: int|
                    0 <= j < next && self.services@[#[trigger] walk[j]].name@ == wanted@
                        ==> instances(found@).contains(self@[walk[j]]),
                forall|i: int, j: int|
                    0 <= i < found@.len() && 0 <= j < found@.len() && i != j ==> found@[i].id@
                        != found@[j].id@,
            decreases count - next,
        {
            let service = self.services.at(next);
            let ghost before = found@;
            proof {
                use_type_invariant(self);
                assert(walk.to_set().contains(walk[next as int]));
                assert(self@[walk[next as int]] == service@);
            }
            if service.name == wanted {
                found.push(service.clone());
                proof {
                    assert(found@.last()@ == self@[walk[next as int]]);
                    assert(instances(found@).last() == self@[walk[next as int]]);
                    assert forall|j: int|
                        0 <= j < next + 1 && self.services@[#[trigger] walk[j]].name@
                            == wanted@ implies instances(found@).contains(self@[walk[j]]) by {
                        if j < next {
                            assert(instances(before).contains(self@[walk[j]]));
                            let k = choose|k: int|
                                0 <= k < instances(before).len() && instances(before)[k]
                                    == self@[walk[j]];
                            assert(instances(found@)[k] == self@[walk[j]]);
                        } else {
                            assert(instances(found@)[found@.len() - 1] == self@[walk[j]]);
                        }
                    }
                    assert forall|i: int| 0 <= i < found@.len() implies exists|j: int|
                        0 <= j < next + 1 && (#[trigger] found@[i])@ == #[trigger] self@[walk[j]]
                            && found@[i].name@ == wanted@ by {
                        if i < before.len() {
                            assert(found@[i] == before[i]);
                        } else {
                            assert(found@[i]@ == self@[walk[next as int]]);
                        }
                    }
                    assert forall|i: int, j: int|
                        0 <= i < found@.len() && 0 <= j < found@.len() && i
                            != j implies found@[i].id@ != found@[j].id@ by {
                        let lo = if i < j { i } else { j };
                        let hi = if i < j { j } else { i };
                        assert(found@[lo] == before[lo]);
                        if hi < before.len() {
                            assert(found@[hi] == before[hi]);
                        } else {
                            let k = choose|k: int|
                                0 <= k < next && (#[trigger] before[lo])@ == #[trigger] self@[walk[k]]
                                    && before[lo].name@ == wanted@;
                            assert(walk.to_set().contains(walk[k]));
                            assert(before[lo]@.id == walk[k]);
                            assert(walk[k] != walk[next as int]);
                        }
                    }
                }
            }
            next = next + 1;
        }
        proof {
            use_type_invariant(self);
            let list = instances(found@);
            assert forall|instance: InstanceView| #[trigger]
                list.contains(instance) <==> self@.contains_key(instance.id)
                    && self@[instance.id] == instance && instance.name == service_name@ by {
                if list.contains(instance) {
                    let i = choose|i: int| 0 <= i < list.len() && list[i] == instance;
                    assert(found@[i]@ == instance);
                    let j = choose|j: int|
                        0 <= j < next && (#[trigger] found@[i])@ == #[trigger] self@[walk[j]]
                            && found@[i].name@ == wanted@;
                    assert(walk.to_set().contains(walk[j]));
                    assert(self@.contains_key(walk[j]));
                }
                if self@.contains_key(instance.id) && self@[instance.id] == instance
                    && instance.name == service_name@ {
                    let id = instance.id;
                    assert(walk.to_set().contains(id));
                    let j = choose|j: int| 0 <= j < walk.len() && walk[j] == id;
                    assert(self.services@[walk[j]].name@ == wanted@);
                }
            }
            assert forall|i: int, j: int|
                0 <= i < list.len() && 0 <= j < list.len() && i != j implies list[i] != list[j] by {
                assert(list[i].id == found@[i].id@);
                assert(list[j].id == found@[j].id@);
            }
        }
        Ok(found)
    }

    /// The instance `service_id`.
    pub fn get_service(&self, service_id: &str) -> (result: Result<ServiceInstance, DiscoveryError>)
        ensures
            outcome(result) == registered_under(self@, service_id@),
            under_own_ids(self@),
    {
        proof {
            use_type_invariant(self);
        }
        match self.services.get(service_id) {
            Some(service) => Ok(service.clone()),
            None => Err(DiscoveryError::ServiceNotFound(service_id.to_owned())),
        }
    }

    /// The services of the registered instances, sorted, each once.
    pub fn list_services(&self) -> (result: Result<Vec<String>, DiscoveryError>)
        ensures
            result is Ok,
            are_the_services(texts(result->Ok_0@), self@),
            under_own_ids(self@),
    {
        let count = self.services.len();
        let mut names: Vec<String> = Vec::new();
        let mut next: usize = 0;
        let ghost walk = self.services.walk();
        while next < count
            invariant
                next <= count,
                count == walk.len(),
                walk == self.services.walk(),
                walk.to_set() == self.services@.dom(),
                names@.len() == next,
                forall|j: int| 0 <= j < next ==> (#[trigger] names@[j])@ == self@[walk[j]].name,
            decreases count - next,
        {
            let service = self.services.at(next);
            proof {
                assert(walk.to_set().contains(walk[next as int]));
            }
            names.push(service.name.clone());
            next = next + 1;
        }
        let sorted = sorted_distinct(names);
        proof {
            use_type_invariant(self);
            assert forall|name: Seq<char>| #[trigger]
                texts(sorted@).contains(name) <==> exists|id: Seq<char>| #[trigger]
                    self@.contains_key(id) && self@[id].name == name by {
                assert(texts(sorted@).contains(name) <==> texts(sorted@).to_set().contains(name));
                assert(texts(names@).contains(name) <==> texts(names@).to_set().contains(name));
                if texts(names@).contains(name) {
                    let j = choose|j: int| 0 <= j < texts(names@).len() && texts(names@)[j] == name;
                    assert(names@[j]@ == name);
                    assert(walk.to_set().contains(walk[j]));
                    assert(self@.contains_key(walk[j]));
                }
                if exists|id: Seq<char>| #[trigger]
                    self@.contains_key(id) && self@[id].name == name {
                    let id = choose|id: Seq<char>| #[trigger]
                        self@.contains_key(id) && self@[id].name == name;
                    assert(walk.to_set().contains(id));
                    let j = choose|j: int| 0 <= j < walk.len() && walk[j] == id;
                    assert(names@[j]@ == name);
                    assert(texts(names@)[j] == name);
                }
            }
        }
        Ok(sorted)
    }
}

impl Default for InMemoryDiscovery {
    fn default() -> (discovery: Self)
        ensures
            discovery@ == Map::<Seq<char>, InstanceView>::empty(),
    {
        InMemoryDiscovery::new()
    }
}

/// A registered instance is found under its id and among the instances of its service, and
/// nothing changes under the other ids.
pub proof fn register_is_read_back(
    before: Map<Seq<char>, InstanceView>,
    service: InstanceView,
    other: Seq<char>,
    list: Seq<InstanceView>,
)
    requires
        are_the_instances(list, before.insert(service.id, service), service.name),
    ensures
        registered_under(before.insert(service.id, service), service.id) == Ok::<
            InstanceView,
            ErrorView,
        >(service),
        list.contains(service),
        other != service.id ==> registered_under(before.insert(service.id, service), other)
            == registered_under(before, other),
{
}

/// To register again under the same id is to have registered the later instance only; the count
/// grows with a new id and stays with an old one.
pub proof fn later_registration_replaces(
    before: Map<Seq<char>, InstanceView>,
    earlier: InstanceView,
    later: InstanceView,
)
    requires
        before.dom().finite(),
        earlier.id == later.id,
    ensures
        before.insert(earlier.id, earlier).insert(later.id, later) == before.insert(
            later.id,
            later,
        ),
        before.insert(later.id, later).len() == if before.contains_key(later.id) {
            before.len()
        } else {
            before.len() + 1
        },
{
    assert(before.insert(earlier.id, earlier).insert(later.id, later) =~= before.insert(
        later.id,
        later,
    ));
}

/// To deregister an instance right after it was registered under a new id leaves what was there
/// before.
pub proof fn deregister_undoes_register(
    before: Map<Seq<char>, InstanceView>,
    service: InstanceView,
)
    requires
        !before.contains_key(service.id),
    ensures
        before.insert(service.id, service).remove(service.id) == before,
{
    assert(before.insert(service.id, service).remove(service.id) =~= before);
}

/// A deregistered instance is found neither under its id nor among the instances of any service,
/// and nothing changes under the other ids.
pub proof fn deregistered_is_gone(
    before: Map<Seq<char>, InstanceView>,
    id: Seq<char>,
    other: Seq<char>,
    name: Seq<char>,
    list: Seq<InstanceView>,
)
    requires
        are_the_instances(list, before.remove(id), name),
    ensures
        registered_under(before.remove(id), id) == Err::<InstanceView, ErrorView>(
            ErrorView::ServiceNotFound(id),
        ),
        forall|i: int| 0 <= i < list.len() ==> (#[trigger] list[i]).id != id,
        other != id ==> registered_under(before.remove(id), other) == registered_under(
            before,
            other,
        ),
{
    assert forall|i: int| 0 <= i < list.len() implies (#[trigger] list[i]).id != id by {
        assert(list.contains(list[i]));
    }
}

/// A service is listed if and only if it has an instance, and both lists agree on that: a name
/// that is not listed has no instances.
pub proof fn listed_services_have_instances(
    registered: Map<Seq<char>, InstanceView>,
    names: Seq<Seq<char>>,
    name: Seq<char>,
    list: Seq<InstanceView>,
)
    requires
        under_own_ids(registered),
        are_the_services(names, registered),
        are_the_instances(list, registered, name),
    ensures
        names.contains(name) <==> list.len() > 0,
{
    if names.contains(name) {
        let id = choose|id: Seq<char>| #[trigger]
            registered.contains_key(id) && registered[id].name == name;
        assert(list.contains(registered[id]));
    }
    if list.len() > 0 {
        assert(list.contains(list[0]));
        assert(registered.contains_key(list[0].id));
    }
}

} // verus!
