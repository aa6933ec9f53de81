//! What looking instances up in etcd promises, from what is given to what comes out.
use crate::codec::{base64_decoded, utf8_fault};
use crate::error::DiscoveryError;
use crate::etcd::{decoded_kv, kv_views, pair_outcome, EtcdKV, KvView};
use crate::etcd_promises::{is_made_of, lemma_status_message};
use crate::http::Reply;
use crate::lookup::{
    collected, discover_reply, found_texts, get_service_reply, list_services_reply, names_of,
    scan_is_read_whole, scanned_pair, scanned_pairs, scanned_texts, stored_instance, ScannedPair,
};
use crate::names::texts;
use crate::order::text_lt;
use crate::service::ServiceInstance;
use crate::service_promises::{same_instance, value_tells_every_field};
use vstd::prelude::*;
use vstd::utf8::*;

verus! {

/// The pair was read as a key and an instance.
pub open spec fn is_read(item: ScannedPair) -> bool {
    item matches Ok((key, Ok(instance)))
}

/// `error` is what went wrong with the pair: its own error where it has one, or that its value is
/// malformed, with the message that says why.
pub open spec fn is_fault_of(error: DiscoveryError, item: ScannedPair) -> bool {
    match item {
        Err(own) => error@ == own@,
        Ok((_, Err(message))) => error matches DiscoveryError::InvalidConfiguration(told) && told@
            == message@,
        Ok((_, Ok(_))) => false,
    }
}

proof fn lemma_first_error<A, E>(items: Seq<Result<A, E>>) -> (at: int)
    requires
        collected(items) is Err,
    ensures
        0 <= at < items.len(),
        items[at] == Err::<A, E>(collected(items)->Err_0),
        forall|j: int| 0 <= j < at ==> #[trigger] items[j] is Ok,
    decreases items.len(),
{
    let less = items.drop_last();
    if collected(less) is Err {
        let at = lemma_first_error(less);
        assert forall|j: int| 0 <= j < at implies #[trigger] items[j] is Ok by {
            assert(less[j] is Ok);
        }
        at
    } else {
        scan_is_read_whole(less);
        assert forall|j: int| 0 <= j < less.len() implies #[trigger] items[j] is Ok by {
            assert(less[j] is Ok);
        }
        less.len() as int
    }
}

/// Where every pair of a scan can be read, discovery gives one instance for each, in the same
/// order, which agrees in every field with what the value was parsed to. Otherwise it fails with
/// the fault of the first that cannot.
pub proof fn discovery_gives_what_was_parsed(
    items: Vec<ScannedPair>,
    pairs: Result<Vec<(String, ServiceInstance)>, DiscoveryError>,
    result: Result<Vec<ServiceInstance>, DiscoveryError>,
)
    requires
        call_ensures(scanned_pairs, (items,), pairs),
        call_ensures(discover_reply, (pairs,), result),
    ensures
        result is Ok <==> forall|i: int| 0 <= i < items@.len() ==> is_read(#[trigger] items@[i]),
        result matches Ok(found) ==> found@.len() == items@.len() && forall|i: int|
            0 <= i < items@.len() ==> same_instance(
                #[trigger] found@[i],
                items@[i]->Ok_0.1->Ok_0,
            ),
        result matches Err(error) ==> exists|i: int|
            {
                &&& 0 <= i < items@.len()
                &&& is_fault_of(error, #[trigger] items@[i])
                &&& forall|j: int| 0 <= j < i ==> is_read(#[trigger] items@[j])
            },
{
    let views = items@.map_values(|item: ScannedPair| scanned_pair(item));
    scan_is_read_whole(views);
    if result is Err {
        let at = lemma_first_error(views);
        assert(views[at] == scanned_pair(items@[at]));
        assert forall|j: int| 0 <= j < at implies is_read(#[trigger] items@[j]) by {
            assert(views[j] == scanned_pair(items@[j]));
        }
        assert(is_fault_of(result->Err_0, items@[at]));
        assert(!is_read(items@[at]));
    } else {
        let found = result->Ok_0@;
        assert forall|i: int| 0 <= i < items@.len() implies is_read(#[trigger] items@[i]) by {
            assert(views[i] == scanned_pair(items@[i]));
        }
        assert forall|i: int| 0 <= i < items@.len() implies same_instance(
            #[trigger] found[i],
            items@[i]->Ok_0.1->Ok_0,
        ) by {
            assert(is_read(items@[i]));
            value_tells_every_field(found[i], items@[i]->Ok_0.1->Ok_0);
        }
    }
}

/// The keys of a scan come with their instances, each as it was read.
pub proof fn scan_keeps_keys_and_instances_together(
    items: Vec<ScannedPair>,
    pairs: Result<Vec<(String, ServiceInstance)>, DiscoveryError>,
)
    requires
        call_ensures(scanned_pairs, (items,), pairs),
    ensures
        pairs matches Ok(list) ==> list@.len() == items@.len() && forall|i: int|
            0 <= i < items@.len() ==> (#[trigger] list@[i]).0@ == items@[i]->Ok_0.0@
                && same_instance(list@[i].1, items@[i]->Ok_0.1->Ok_0),
{
    if let Ok(list) = pairs {
        assert forall|i: int| 0 <= i < items@.len() implies (#[trigger] list@[i]).0@
            == items@[i]->Ok_0.0@ && same_instance(list@[i].1, items@[i]->Ok_0.1->Ok_0) by {
            assert(items@[i] is Ok);
            value_tells_every_field(list@[i].1, items@[i]->Ok_0.1->Ok_0);
        }
    }
}

/// Each text of a list comes before the later ones in the order of texts.
pub open spec fn rising(list: Seq<String>) -> bool {
    forall|i: int, j: int|
        0 <= i < j < list.len() ==> text_lt((#[trigger] list[i])@, (#[trigger] list[j])@)
}

/// `text` is one of a list of texts.
pub open spec fn is_one_of(text: Seq<char>, list: Seq<String>) -> bool {
    exists|i: int| 0 <= i < list.len() && (#[trigger] list[i])@ == text
}

/// `name` is the name of one of the instances of a list of pairs.
pub open spec fn names_one_of(name: Seq<char>, pairs: Seq<(String, ServiceInstance)>) -> bool {
    exists|j: int| 0 <= j < pairs.len() && (#[trigger] pairs[j]).1.name@ == name
}

/// A listing gives the names of the services that the scan found, all of them, each once, in the
/// order of texts; and where the scan failed, its error.
pub proof fn listing_gives_the_names_that_were_found(
    pairs: Vec<(String, ServiceInstance)>,
    error: DiscoveryError,
    result: Result<Vec<String>, DiscoveryError>,
    failed: Result<Vec<String>, DiscoveryError>,
)
    requires
        call_ensures(list_services_reply, (Ok(pairs),), result),
        call_ensures(list_services_reply, (Err(error),), failed),
    ensures
        failed matches Err(told) && told == error,
        result is Ok,
        rising(result->Ok_0@),
        forall|i: int|
            0 <= i < result->Ok_0@.len() ==> names_one_of(
                (#[trigger] result->Ok_0@[i])@,
                pairs@,
            ),
        forall|j: int|
            0 <= j < pairs@.len() ==> is_one_of((#[trigger] pairs@[j]).1.name@, result->Ok_0@),
{
    let names = result->Ok_0@;
    let a = texts(names);
    let b = names_of(pairs@);
    assert(a.to_set() == b.to_set());
    assert forall|i: int, j: int| 0 <= i < j < names.len() implies text_lt(
        (#[trigger] names[i])@,
        (#[trigger] names[j])@,
    ) by {
        assert(a[i] == names[i]@ && a[j] == names[j]@);
        assert(text_lt(a[i], a[j]));
    }
    assert forall|i: int| 0 <= i < names.len() implies names_one_of(
        (#[trigger] names[i])@,
        pairs@,
    ) by {
        assert(a[i] == names[i]@);
        assert(a.to_set().contains(a[i]));
        assert(b.contains(a[i]));
        let j = choose|j: int| 0 <= j < b.len() && b[j] == a[i];
        assert(pairs@[j].1.name@ == names[i]@);
    }
    assert forall|j: int| 0 <= j < pairs@.len() implies is_one_of(
        (#[trigger] pairs@[j]).1.name@,
        names,
    ) by {
        assert(b[j] == pairs@[j].1.name@);
        assert(b.to_set().contains(b[j]));
        assert(a.contains(b[j]));
        let i = choose|i: int| 0 <= i < a.len() && a[i] == b[j];
        assert(names[i]@ == pairs@[j].1.name@);
    }
}

/// A lookup by id gives the instance that was found, in every field, or that it was not found, by
/// its id; a value that was parsed is given on as it is.
pub proof fn lookup_gives_what_was_found(
    service_id: &str,
    found: Result<Option<ServiceInstance>, DiscoveryError>,
    result: Result<ServiceInstance, DiscoveryError>,
    parsed: Result<ServiceInstance, String>,
    stored: Result<ServiceInstance, DiscoveryError>,
)
    requires
        call_ensures(get_service_reply, (service_id, found), result),
        call_ensures(stored_instance, (parsed,), stored),
    ensures
        found matches Ok(Some(instance)) ==> (result matches Ok(given) && same_instance(
            given,
            instance,
        )),
        found matches Ok(None) ==> (result matches Err(DiscoveryError::ServiceNotFound(told))
            && told@ == service_id@),
        found matches Err(error) ==> (result matches Err(told) && told@ == error@),
        parsed matches Ok(instance) ==> (stored matches Ok(given) && same_instance(given, instance)),
        parsed matches Err(message) ==> (stored matches Err(
            DiscoveryError::InvalidConfiguration(told),
        ) && told@ == message@),
{
    if let Ok(Some(instance)) = found {
        value_tells_every_field(result->Ok_0, instance);
    }
    if let Ok(instance) = parsed {
        value_tells_every_field(stored->Ok_0, instance);
    }
}

/// `encoded` is the base64 text of something that is UTF-8.
pub open spec fn stands_for_text(encoded: Seq<char>) -> bool {
    base64_decoded(encoded) matches Ok(bytes) && valid_utf8(bytes)
}

/// `told` says why `encoded` stands for no text.
pub open spec fn tells_fault(told: Seq<char>, encoded: Seq<char>) -> bool {
    match base64_decoded(encoded) {
        Ok(bytes) => !valid_utf8(bytes) && told == utf8_fault(bytes),
        Err(message) => told == message,
    }
}

/// `pair` is what `kv` stands for: the UTF-8 bytes of its key and of its value are those of the
/// base64 texts; and it is an error where one of them stands for no text, with the reason of the
/// first.
pub open spec fn is_read_from(pair: Result<(String, String), DiscoveryError>, kv: EtcdKV) -> bool {
    match pair {
        Ok((key, value)) => base64_decoded(kv.key@) == Ok::<Seq<u8>, Seq<char>>(encode_utf8(key@))
            && base64_decoded(kv.value@) == Ok::<Seq<u8>, Seq<char>>(encode_utf8(value@)),
        Err(error) => error matches DiscoveryError::InvalidConfiguration(told) && tells_fault(
            told@,
            if stands_for_text(kv.key@) {
                kv.value@
            } else {
                kv.key@
            },
        ),
    }
}

proof fn lemma_read_from(pair: Result<(String, String), DiscoveryError>, kv: EtcdKV)
    requires
        pair_outcome(pair) == decoded_kv(kv@),
    ensures
        is_read_from(pair, kv),
{
    if let Ok(bytes) = base64_decoded(kv.key@) {
        if valid_utf8(bytes) {
            decode_utf8_encode_utf8(bytes);
        }
    }
    if let Ok(bytes) = base64_decoded(kv.value@) {
        if valid_utf8(bytes) {
            decode_utf8_encode_utf8(bytes);
        }
    }
}

/// A scan reads each pair of the reply for itself, all of them and in their order; a lookup reads
/// the first.
pub proof fn each_pair_is_read_for_itself(
    text: &str,
    kvs: Vec<EtcdKV>,
    scanned: Result<Vec<Result<(String, String), DiscoveryError>>, DiscoveryError>,
    found: Result<Option<(String, String)>, DiscoveryError>,
)
    requires
        call_ensures(scanned_texts, (text, Reply::Accepted(Ok(Some(kvs)))), scanned),
        call_ensures(found_texts, (text, Reply::Accepted(Ok(Some(kvs)))), found),
    ensures
        scanned matches Ok(items) && items@.len() == kvs@.len() && forall|i: int|
            0 <= i < kvs@.len() ==> is_read_from(#[trigger] items@[i], kvs@[i]),
        kvs@.len() == 0 ==> found matches Ok(None),
        kvs@.len() > 0 ==> (found matches Ok(Some(pair)) ==> is_read_from(Ok(pair), kvs@[0])),
        kvs@.len() > 0 ==> (found matches Err(error) ==> is_read_from(Err(error), kvs@[0])),
        kvs@.len() > 0 ==> !(found matches Ok(None)),
{
    let items = scanned->Ok_0@;
    let views = items.map_values(
        |item: Result<(String, String), DiscoveryError>| pair_outcome(item),
    );
    let wanted = kv_views(kvs@).map_values(|kv: KvView| decoded_kv(kv));
    assert(views == wanted);
    assert(views.len() == items.len() && wanted.len() == kvs@.len());
    assert forall|i: int| 0 <= i < kvs@.len() implies is_read_from(
        #[trigger] items[i],
        kvs@[i],
    ) by {
        assert(views[i] == wanted[i]);
        assert(kv_views(kvs@)[i] == kvs@[i]@);
        lemma_read_from(items[i], kvs@[i]);
    }
    if kvs@.len() > 0 {
        if let Ok(Some(pair)) = found {
            lemma_read_from(Ok(pair), kvs@[0]);
        }
        if let Err(error) = found {
            lemma_read_from(Err(error), kvs@[0]);
        }
    }
}

/// Where there is nothing to read, a scan and a lookup by key fail as the reply did.
pub proof fn failed_lookups_fail_as_the_reply_did(
    text: &str,
    reply: Reply<Option<Vec<EtcdKV>>>,
    scanned: Result<Vec<Result<(String, String), DiscoveryError>>, DiscoveryError>,
    found: Result<Option<(String, String)>, DiscoveryError>,
)
    requires
        call_ensures(scanned_texts, (text, reply), scanned),
        call_ensures(found_texts, (text, reply), found),
    ensures
        scanned is Ok <==> (reply is Accepted && reply->Accepted_0 is Ok),
        reply matches Reply::Lost(message) ==> (scanned matches Err(DiscoveryError::Http(told))
            && told@ == message@),
        reply matches Reply::Lost(message) ==> (found matches Err(DiscoveryError::Http(told))
            && told@ == message@),
        reply matches Reply::Accepted(Err(message)) ==> (scanned matches Err(
            DiscoveryError::Http(told),
        ) && told@ == message@),
        reply matches Reply::Accepted(Err(message)) ==> (found matches Err(DiscoveryError::Http(told))
            && told@ == message@),
        reply matches Reply::Refused { status, text: _ } ==> (scanned matches Err(
            DiscoveryError::InvalidConfiguration(told),
        ) && is_made_of(
            told@,
            seq!["etcd range scan over "@, text@, " failed with status "@, status@],
        )),
        reply matches Reply::Refused { status, text: _ } ==> (found matches Err(
            DiscoveryError::InvalidConfiguration(told),
        ) && is_made_of(
            told@,
            seq!["etcd point get for "@, text@, " failed with status "@, status@],
        )),
        reply matches Reply::Accepted(Ok(None)) ==> found matches Ok(None),
        reply matches Reply::Accepted(Ok(None)) ==> (scanned matches Ok(items) && items@.len() == 0),
{
    if let Reply::Refused { status, text: _ } = reply {
        lemma_status_message(
            "etcd range scan over "@,
            text@,
            " failed with status "@,
            status@,
        );
        lemma_status_message("etcd point get for "@, text@, " failed with status "@, status@);
    }
    if let Reply::Accepted(Ok(None)) = reply {
        let items = scanned->Ok_0@;
        let views = items.map_values(
            |item: Result<(String, String), DiscoveryError>| pair_outcome(item),
        );
        assert(views.len() == items.len());
    }
}

} // verus!
