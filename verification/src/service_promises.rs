//! What the operations on instances promise, from what they are given to what comes out.
use crate::keyed::Keyed;
use crate::service::ServiceInstance;
use vstd::prelude::*;

verus! {

/// Two lists hold the same texts in the same order.
pub open spec fn same_texts(a: Seq<String>, b: Seq<String>) -> bool {
    a.len() == b.len() && forall|i: int| 0 <= i < a.len() ==> (#[trigger] a[i])@ == b[i]@
}

/// Two tables have the same keys, and the same texts under them.
pub open spec fn same_table(a: Keyed<String>, b: Keyed<String>) -> bool {
    &&& forall|key: Seq<char>| #[trigger] a@.contains_key(key) <==> b@.contains_key(key)
    &&& forall|key: Seq<char>| #[trigger] a@.contains_key(key) ==> a@[key]@ == b@[key]@
}

/// Both texts are there and the same, or neither is there.
pub open spec fn same_option(a: Option<String>, b: Option<String>) -> bool {
    match (a, b) {
        (Some(x), Some(y)) => x@ == y@,
        (None, None) => true,
        _ => false,
    }
}

/// Two instances agree in what says where they are and what they are.
pub open spec fn same_core(a: ServiceInstance, b: ServiceInstance) -> bool {
    a.id@ == b.id@ && a.name@ == b.name@ && a.address@ == b.address@ && a.port == b.port
}

/// Two instances agree in every field.
pub open spec fn same_instance(a: ServiceInstance, b: ServiceInstance) -> bool {
    &&& same_core(a, b)
    &&& same_texts(a.tags@, b.tags@)
    &&& same_table(a.metadata, b.metadata)
    &&& same_option(a.health_check_url, b.health_check_url)
}

/// Instances with the same value agree in every field: the value leaves nothing out.
pub proof fn value_tells_every_field(a: ServiceInstance, b: ServiceInstance)
    ensures
        a@ == b@ <==> same_instance(a, b),
{
    if a@ == b@ {
        assert(a@.tags == b@.tags);
        assert forall|i: int| 0 <= i < a.tags@.len() implies (#[trigger] a.tags@[i])@
            == b.tags@[i]@ by {
            assert(a@.tags[i] == b@.tags[i]);
        }
        assert forall|key: Seq<char>| #[trigger]
            a.metadata@.contains_key(key) <==> b.metadata@.contains_key(key) by {
            assert(a@.metadata.contains_key(key) <==> b@.metadata.contains_key(key));
        }
        assert forall|key: Seq<char>| #[trigger]
            a.metadata@.contains_key(key) implies a.metadata@[key]@ == b.metadata@[key]@ by {
            assert(a@.metadata.contains_key(key));
            assert(a@.metadata[key] == b@.metadata[key]);
        }
    }
    if same_instance(a, b) {
        assert(a@.tags =~= b@.tags);
        assert(a@.metadata =~= b@.metadata);
        assert(a@.health_check_url == b@.health_check_url);
    }
}

/// A new instance is what it was made of, and has nothing else.
pub proof fn new_instance_is_what_it_was_made_of(
    id: &str,
    name: &str,
    address: &str,
    port: u16,
    instance: ServiceInstance,
)
    requires
        call_ensures(ServiceInstance::new, (id, name, address, port), instance),
    ensures
        instance.id@ == id@,
        instance.name@ == name@,
        instance.address@ == address@,
        instance.port == port,
        instance.tags@.len() == 0,
        forall|key: Seq<char>| !(#[trigger] instance.metadata@.contains_key(key)),
        instance.health_check_url is None,
{
    assert(instance@.tags.len() == 0);
    assert forall|key: Seq<char>| !(#[trigger] instance.metadata@.contains_key(key)) by {
        assert(!instance@.metadata.contains_key(key));
    }
}

/// A tag comes behind the tags that were there, and nothing else changes.
pub proof fn tag_is_added_last(instance: ServiceInstance, tag: &str, tagged: ServiceInstance)
    requires
        call_ensures(ServiceInstance::with_tag, (instance, tag), tagged),
    ensures
        same_core(instance, tagged),
        same_table(instance.metadata, tagged.metadata),
        same_option(instance.health_check_url, tagged.health_check_url),
        tagged.tags@.len() == instance.tags@.len() + 1,
        tagged.tags@.last()@ == tag@,
        same_texts(tagged.tags@.drop_last(), instance.tags@),
{
    let before = instance@.tags;
    let after = tagged@.tags;
    assert(after == before.push(tag@));
    assert(after.len() == tagged.tags@.len());
    assert(before.len() == instance.tags@.len());
    assert(tagged.tags@.last()@ == after[after.len() - 1]);
    assert forall|i: int| 0 <= i < instance.tags@.len() implies (
    #[trigger] tagged.tags@.drop_last()[i])@ == instance.tags@[i]@ by {
        assert(after[i] == before[i]);
    }
    assert forall|key: Seq<char>| #[trigger]
        instance.metadata@.contains_key(key) <==> tagged.metadata@.contains_key(key) by {
        assert(instance@.metadata.contains_key(key) <==> tagged@.metadata.contains_key(key));
    }
    assert forall|key: Seq<char>| #[trigger] instance.metadata@.contains_key(key) implies
        instance.metadata@[key]@ == tagged.metadata@[key]@ by {
        assert(instance@.metadata[key] == tagged@.metadata[key]);
    }
}

/// A health check is at the URL that was given, and nothing else changes.
pub proof fn health_check_is_set(instance: ServiceInstance, url: &str, checked: ServiceInstance)
    requires
        call_ensures(ServiceInstance::with_health_check, (instance, url), checked),
    ensures
        same_core(instance, checked),
        same_texts(instance.tags@, checked.tags@),
        same_table(instance.metadata, checked.metadata),
        checked.health_check_url matches Some(found) && found@ == url@,
{
    assert(instance@.tags == checked@.tags);
    assert(instance@.tags.len() == instance.tags@.len());
    assert(checked@.tags.len() == checked.tags@.len());
    assert forall|i: int| 0 <= i < instance.tags@.len() implies (#[trigger] instance.tags@[i])@
        == checked.tags@[i]@ by {
        assert(instance@.tags[i] == checked@.tags[i]);
    }
    assert forall|key: Seq<char>| #[trigger]
        instance.metadata@.contains_key(key) <==> checked.metadata@.contains_key(key) by {
        assert(instance@.metadata.contains_key(key) <==> checked@.metadata.contains_key(key));
    }
    assert forall|key: Seq<char>| #[trigger] instance.metadata@.contains_key(key) implies
        instance.metadata@[key]@ == checked.metadata@[key]@ by {
        assert(instance@.metadata[key] == checked@.metadata[key]);
    }
}

/// A copy agrees with what was copied in every field.
pub proof fn copy_agrees_in_every_field(instance: ServiceInstance, copy: ServiceInstance)
    requires
        call_ensures(<ServiceInstance as Clone>::clone, (&instance,), copy),
    ensures
        same_instance(instance, copy),
{
    value_tells_every_field(instance, copy);
}

} // verus!
