//! What discovery over a table in memory promises, over calls that follow each other.
use crate::error::DiscoveryError;
use crate::lookup_promises::{is_one_of, rising};
use crate::memory::InMemoryDiscovery;
use crate::names::{sorted_distinct, texts};
use crate::order::text_lt;
use crate::range::{in_range, prefix_range_end, scan_covers_prefix};
use crate::service::{instances, ServiceInstance};
use crate::service_promises::{same_instance, value_tells_every_field};
use vstd::prelude::*;

verus! {

/// `instance` is one of a list of instances, as it is.
pub open spec fn lists(list: Seq<ServiceInstance>, instance: ServiceInstance) -> bool {
    exists|i: int| 0 <= i < list.len() && same_instance(#[trigger] list[i], instance)
}

/// An instance that was registered is found under its id, in every field as it was registered,
/// and among the instances of its service, and its service is listed.
pub proof fn registered_instance_is_found(
    table: &mut InMemoryDiscovery,
    service: ServiceInstance,
    registered: Result<(), DiscoveryError>,
    after: InMemoryDiscovery,
    id: &str,
    name: &str,
    got: Result<ServiceInstance, DiscoveryError>,
    found: Result<Vec<ServiceInstance>, DiscoveryError>,
    listed: Result<Vec<String>, DiscoveryError>,
)
    requires
        call_ensures(InMemoryDiscovery::register, (table, &service), registered),
        after@ == final(table)@,
        id@ == service.id@,
        name@ == service.name@,
        call_ensures(InMemoryDiscovery::get_service, (&after, id), got),
        call_ensures(InMemoryDiscovery::discover, (&after, name), found),
        call_ensures(InMemoryDiscovery::list_services, (&after,), listed),
    ensures
        registered is Ok,
        got matches Ok(instance) && same_instance(instance, service),
        found is Ok,
        lists(found->Ok_0@, service),
        listed is Ok,
        is_one_of(service.name@, listed->Ok_0@),
{
    value_tells_every_field(got->Ok_0, service);
    let list = found->Ok_0@;
    let views = instances(list);
    assert(views.contains(service@));
    let i = choose|i: int| 0 <= i < views.len() && views[i] == service@;
    assert(views[i] == list[i]@);
    value_tells_every_field(list[i], service);
    assert(lists(list, service));
    let names = listed->Ok_0@;
    let all = texts(names);
    assert(after@.contains_key(service@.id) && after@[service@.id].name == service.name@);
    assert(all.contains(service.name@));
    let j = choose|j: int| 0 <= j < all.len() && all[j] == service.name@;
    assert(names[j]@ == service.name@);
}

/// Discovery gives instances of the service that it was asked for and of no other, each of them
/// registered as it is, no id twice, and none of those that are registered is left out.
pub proof fn discovery_gives_the_instances_of_the_service(
    table: InMemoryDiscovery,
    name: &str,
    found: Result<Vec<ServiceInstance>, DiscoveryError>,
    id: &str,
    got: Result<ServiceInstance, DiscoveryError>,
)
    requires
        call_ensures(InMemoryDiscovery::discover, (&table, name), found),
        call_ensures(InMemoryDiscovery::get_service, (&table, id), got),
    ensures
        found is Ok,
        forall|i: int|
            0 <= i < found->Ok_0@.len() ==> (#[trigger] found->Ok_0@[i]).name@ == name@
                && table@.contains_key(found->Ok_0@[i].id@) && table@[found->Ok_0@[i].id@]
                == found->Ok_0@[i]@,
        forall|i: int, j: int|
            0 <= i < j < found->Ok_0@.len() ==> (#[trigger] found->Ok_0@[i]).id@ != (
            #[trigger] found->Ok_0@[j]).id@,
        got matches Ok(instance) ==> instance.id@ == id@ && (lists(found->Ok_0@, instance)
            <==> instance.name@ == name@),
{
    let list = found->Ok_0@;
    let views = instances(list);
    assert forall|i: int| 0 <= i < list.len() implies (#[trigger] list[i]).name@ == name@
        && table@.contains_key(list[i].id@) && table@[list[i].id@] == list[i]@ by {
        assert(views[i] == list[i]@);
        assert(views.contains(views[i]));
    }
    assert forall|i: int, j: int| 0 <= i < j < list.len() implies (#[trigger] list[i]).id@ != (
    #[trigger] list[j]).id@ by {
        assert(views[i] == list[i]@ && views[j] == list[j]@);
        assert(views.contains(views[i]) && views.contains(views[j]));
        assert(views[i] != views[j]);
    }
    if let Ok(instance) = got {
        assert(table@[id@].id == id@);
        if instance.name@ == name@ {
            assert(views.contains(instance@));
            let i = choose|i: int| 0 <= i < views.len() && views[i] == instance@;
            assert(views[i] == list[i]@);
            value_tells_every_field(list[i], instance);
            assert(lists(list, instance));
        }
        if lists(list, instance) {
            let i = choose|i: int| 0 <= i < list.len() && same_instance(#[trigger] list[i], instance);
            assert(list[i].name@ == name@);
        }
    }
}

/// An instance that was deregistered is found no more, and only what is registered can be
/// deregistered or looked up: any other id is told as not found, by itself.
pub proof fn deregistered_instance_is_found_no_more(
    table: &mut InMemoryDiscovery,
    id: &str,
    deregistered: Result<(), DiscoveryError>,
    before: InMemoryDiscovery,
    got_before: Result<ServiceInstance, DiscoveryError>,
    after: InMemoryDiscovery,
    got: Result<ServiceInstance, DiscoveryError>,
    other: &str,
    other_before: Result<ServiceInstance, DiscoveryError>,
    other_after: Result<ServiceInstance, DiscoveryError>,
)
    requires
        before@ == old(table)@,
        call_ensures(InMemoryDiscovery::get_service, (&before, id), got_before),
        call_ensures(InMemoryDiscovery::deregister, (table, id), deregistered),
        after@ == final(table)@,
        call_ensures(InMemoryDiscovery::get_service, (&after, id), got),
        other@ != id@,
        call_ensures(InMemoryDiscovery::get_service, (&before, other), other_before),
        call_ensures(InMemoryDiscovery::get_service, (&after, other), other_after),
    ensures
        deregistered is Ok <==> got_before is Ok,
        deregistered is Err ==> (deregistered matches Err(DiscoveryError::ServiceNotFound(told))
            && told@ == id@),
        got matches Err(DiscoveryError::ServiceNotFound(told)) && told@ == id@,
        other_before is Ok <==> other_after is Ok,
        other_before matches Ok(instance) ==> same_instance(instance, other_after->Ok_0),
{
    if let Ok(instance) = other_before {
        value_tells_every_field(instance, other_after->Ok_0);
    }
}

/// To register under an id changes nothing under another.
pub proof fn registration_leaves_other_ids(
    table: &mut InMemoryDiscovery,
    service: ServiceInstance,
    registered: Result<(), DiscoveryError>,
    before: InMemoryDiscovery,
    after: InMemoryDiscovery,
    other: &str,
    other_before: Result<ServiceInstance, DiscoveryError>,
    other_after: Result<ServiceInstance, DiscoveryError>,
)
    requires
        before@ == old(table)@,
        call_ensures(InMemoryDiscovery::register, (table, &service), registered),
        after@ == final(table)@,
        other@ != service.id@,
        call_ensures(InMemoryDiscovery::get_service, (&before, other), other_before),
        call_ensures(InMemoryDiscovery::get_service, (&after, other), other_after),
    ensures
        other_before is Ok <==> other_after is Ok,
        other_before matches Ok(instance) ==> same_instance(instance, other_after->Ok_0),
{
    if let Ok(instance) = other_before {
        value_tells_every_field(instance, other_after->Ok_0);
    }
}

/// The count goes up by one with a new id, stays with one that is there, goes down by one with an
/// id that is taken away, and is zero in a new table and in a cleared one.
pub proof fn count_follows_the_registrations(
    table: &mut InMemoryDiscovery,
    service: ServiceInstance,
    registered: Result<(), DiscoveryError>,
    before: InMemoryDiscovery,
    count_before: usize,
    after: InMemoryDiscovery,
    count_after: usize,
    second: &mut InMemoryDiscovery,
    id: &str,
    deregistered: Result<(), DiscoveryError>,
    last: InMemoryDiscovery,
    count_last: usize,
    third: &mut InMemoryDiscovery,
    cleared: InMemoryDiscovery,
    count_cleared: usize,
    fresh: InMemoryDiscovery,
    count_fresh: usize,
)
    requires
        before@ == old(table)@,
        call_ensures(InMemoryDiscovery::count, (&before,), count_before),
        call_ensures(InMemoryDiscovery::register, (table, &service), registered),
        after@ == final(table)@,
        call_ensures(InMemoryDiscovery::count, (&after,), count_after),
        old(second)@ == final(table)@,
        id@ == service.id@,
        call_ensures(InMemoryDiscovery::deregister, (second, id), deregistered),
        last@ == final(second)@,
        call_ensures(InMemoryDiscovery::count, (&last,), count_last),
        call_ensures(InMemoryDiscovery::clear, (third,), ()),
        cleared@ == final(third)@,
        call_ensures(InMemoryDiscovery::count, (&cleared,), count_cleared),
        call_ensures(InMemoryDiscovery::new, (), fresh),
        call_ensures(InMemoryDiscovery::count, (&fresh,), count_fresh),
    ensures
        count_after == if before@.contains_key(service.id@) {
            count_before as int
        } else {
            count_before + 1
        },
        deregistered is Ok,
        count_last == count_after - 1,
        count_cleared == 0,
        count_fresh == 0,
{
    assert(before@.dom().finite());
    assert(after@.dom().finite());
    assert(after@ == before@.insert(service@.id, service@));
    assert(after@.dom() =~= before@.dom().insert(service.id@));
    assert(last@.dom() =~= after@.dom().remove(service.id@));
    assert(cleared@.dom() =~= Set::empty());
    assert(fresh@.dom() =~= Set::empty());
}

/// The listing gives the services that have instances and no others, each once, in the order of
/// texts.
pub proof fn listing_gives_the_services_with_instances(
    table: InMemoryDiscovery,
    listed: Result<Vec<String>, DiscoveryError>,
    name: &str,
    found: Result<Vec<ServiceInstance>, DiscoveryError>,
)
    requires
        call_ensures(InMemoryDiscovery::list_services, (&table,), listed),
        call_ensures(InMemoryDiscovery::discover, (&table, name), found),
    ensures
        listed is Ok,
        rising(listed->Ok_0@),
        is_one_of(name@, listed->Ok_0@) <==> found->Ok_0@.len() > 0,
{
    let names = listed->Ok_0@;
    let all = texts(names);
    assert forall|i: int, j: int| 0 <= i < j < names.len() implies text_lt(
        (#[trigger] names[i])@,
        (#[trigger] names[j])@,
    ) by {
        assert(all[i] == names[i]@ && all[j] == names[j]@);
        assert(text_lt(all[i], all[j]));
    }
    let list = found->Ok_0@;
    let views = instances(list);
    if is_one_of(name@, names) {
        let i = choose|i: int| 0 <= i < names.len() && (#[trigger] names[i])@ == name@;
        assert(all[i] == name@);
        assert(all.contains(name@));
        let id = choose|id: Seq<char>| #[trigger]
            table@.contains_key(id) && table@[id].name == name@;
        assert(views.contains(table@[id]));
    }
    if list.len() > 0 {
        assert(views[0] == list[0]@);
        assert(views.contains(views[0]));
        assert(table@.contains_key(list[0].id@));
        assert(all.contains(name@));
        let i = choose|i: int| 0 <= i < all.len() && all[i] == name@;
        assert(names[i]@ == name@);
    }
}

/// Sorting names without repetition gives the names that were given and no others, each once, in
/// the order of texts.
pub proof fn sorting_keeps_the_names(given: Vec<String>, sorted: Vec<String>, name: Seq<char>)
    requires
        call_ensures(sorted_distinct, (given,), sorted),
    ensures
        rising(sorted@),
        is_one_of(name, given@) <==> is_one_of(name, sorted@),
{
    let a = texts(given@);
    let b = texts(sorted@);
    assert forall|i: int, j: int| 0 <= i < j < sorted@.len() implies text_lt(
        (#[trigger] sorted@[i])@,
        (#[trigger] sorted@[j])@,
    ) by {
        assert(b[i] == sorted@[i]@ && b[j] == sorted@[j]@);
        assert(text_lt(b[i], b[j]));
    }
    assert(a.to_set() == b.to_set());
    if is_one_of(name, given@) {
        let i = choose|i: int| 0 <= i < given@.len() && (#[trigger] given@[i])@ == name;
        assert(a[i] == name);
        assert(a.to_set().contains(name));
        assert(b.contains(name));
        let j = choose|j: int| 0 <= j < b.len() && b[j] == name;
        assert(sorted@[j]@ == name);
    }
    if is_one_of(name, sorted@) {
        let j = choose|j: int| 0 <= j < sorted@.len() && (#[trigger] sorted@[j])@ == name;
        assert(b[j] == name);
        assert(b.to_set().contains(name));
        assert(a.contains(name));
        let i = choose|i: int| 0 <= i < a.len() && a[i] == name;
        assert(given@[i]@ == name);
    }
}

/// A key lies between a prefix and the end of its range if and only if it starts with the prefix.
pub proof fn range_end_bounds_the_prefix(prefix: &[u8], end: Vec<u8>, key: Seq<u8>)
    requires
        call_ensures(prefix_range_end, (prefix,), end),
    ensures
        in_range(key, prefix@, end@) <==> prefix@.len() <= key.len() && forall|i: int|
            0 <= i < prefix@.len() ==> #[trigger] key[i] == prefix@[i],
{
    scan_covers_prefix(prefix@, key);
    if prefix@.is_prefix_of(key) {
        assert forall|i: int| 0 <= i < prefix@.len() implies #[trigger] key[i] == prefix@[i] by {
            assert(key.subrange(0, prefix@.len() as int)[i] == key[i]);
        }
    }
    if prefix@.len() <= key.len() && forall|i: int|
        0 <= i < prefix@.len() ==> #[trigger] key[i] == prefix@[i] {
        assert(prefix@ =~= key.subrange(0, prefix@.len() as int));
    }
}

} // verus!
