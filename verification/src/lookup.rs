//! Looking instances up in etcd: what discovery makes of the pairs that a reply holds.
use crate::codec::arrives;
use crate::error::{DiscoveryError, ErrorView};
use crate::etcd::{
    decode_kv, decoded_kv, get_key_reply, get_outcome, kv_views, pair_outcome, scan_outcome,
    scan_prefix_reply, EtcdDiscovery, EtcdKV, KvView,
};
use crate::http::{Reply, Request};
use crate::names::{ascending, sorted_distinct, texts};
use crate::outcome::outcome;
use crate::range::successor;
use crate::service::{instances, InstanceView, ServiceInstance};
use crate::store::{gets, scans};
use vstd::prelude::*;
use vstd::utf8::encode_utf8;

verus! {

/// A stored instance, given what reading its JSON text gave.
pub fn stored_instance(parsed: Result<ServiceInstance, String>) -> (instance: Result<
    ServiceInstance,
    DiscoveryError,
>)
    ensures
        outcome(instance) == match parsed {
            Ok(found) => Ok(found@),
            Err(message) => Err(ErrorView::InvalidConfiguration(message@)),
        },
        parsed matches Ok(found) ==> (instance matches Ok(given) && given == found),
{
    match parsed {
        Ok(found) => Ok(found),
        Err(message) => Err(DiscoveryError::InvalidConfiguration(message)),
    }
}

/// What a list of results holds, if all of them are values; otherwise the first error.
pub open spec fn collected<A, E>(items: Seq<Result<A, E>>) -> Result<Seq<A>, E>
    decreases items.len(),
{
    if items.len() == 0 {
        Ok(Seq::empty())
    } else {
        match collected(items.drop_last()) {
            Err(error) => Err(error),
            Ok(list) => match items.last() {
                Err(error) => Err(error),
                Ok(item) => Ok(list.push(item)),
            },
        }
    }
}

/// A pair of a scan, given its texts and what reading the value as an instance gave.
pub type ScannedPair = Result<(String, Result<ServiceInstance, String>), DiscoveryError>;

/// The key and the instance of a pair of a scan, or why it has none.
pub open spec fn scanned_pair(item: ScannedPair) -> Result<(Seq<char>, InstanceView), ErrorView> {
    match item {
        Err(error) => Err(error@),
        Ok((_, Err(message))) => Err(ErrorView::InvalidConfiguration(message@)),
        Ok((key, Ok(instance))) => Ok((key@, instance@)),
    }
}

/// The views of a list of pairs.
pub open spec fn pair_views(pairs: Seq<(String, ServiceInstance)>) -> Seq<
    (Seq<char>, InstanceView),
> {
    pairs.map_values(|pair: (String, ServiceInstance)| (pair.0@, pair.1@))
}

/// The views of a list of pairs, or of an error.
pub open spec fn pairs_outcome(
    result: Result<Vec<(String, ServiceInstance)>, DiscoveryError>,
) -> Result<Seq<(Seq<char>, InstanceView)>, ErrorView> {
    match result {
        Ok(pairs) => Ok(pair_views(pairs@)),
        Err(error) => Err(error@),
    }
}

/// The views of a list of decoded pairs, or of an error.
pub open spec fn texts_outcome(
    result: Result<Vec<Result<(String, String), DiscoveryError>>, DiscoveryError>,
) -> Result<Seq<Result<(Seq<char>, Seq<char>), ErrorView>>, ErrorView> {
    match result {
        Ok(items) => Ok(
            items@.map_values(
                |item: Result<(String, String), DiscoveryError>| pair_outcome(item),
            ),
        ),
        Err(error) => Err(error@),
    }
}

/// The texts of the pairs that a scan over `prefix` finds, each with its own fault where it has
/// one.
pub fn scanned_texts(prefix: &str, reply: Reply<Option<Vec<EtcdKV>>>) -> (result: Result<
    Vec<Result<(String, String), DiscoveryError>>,
    DiscoveryError,
>)
    ensures
        texts_outcome(result) == match scan_outcome(prefix@, reply) {
            Ok(kvs) => Ok(kvs.map_values(|kv: KvView| decoded_kv(kv))),
            Err(error) => Err(error),
        },
{
    match scan_prefix_reply(prefix, reply) {
        Err(error) => Err(error),
        Ok(kvs) => {
            let ghost all = kvs@;
            let mut items: Vec<Result<(String, String), DiscoveryError>> = Vec::new();
            for kv in walk: kvs
                invariant
                    walk.seq() == all,
                    items@.len() == walk.index(),
                    forall|i: int|
                        0 <= i < walk.index() ==> pair_outcome(#[trigger] items@[i]) == decoded_kv(
                            all[i]@,
                        ),
            {
                items.push(decode_kv(kv));
            }
            assert(items@.map_values(
                |item: Result<(String, String), DiscoveryError>| pair_outcome(item),
            ) =~= kv_views(all).map_values(|kv: KvView| decoded_kv(kv)));
            Ok(items)
        },
    }
}

/// The pairs of a scan, if every one of them could be read; otherwise the first fault.
pub fn scanned_pairs(items: Vec<ScannedPair>) -> (result: Result<
    Vec<(String, ServiceInstance)>,
    DiscoveryError,
>)
    ensures
        pairs_outcome(result) == collected(
            items@.map_values(|item: ScannedPair| scanned_pair(item)),
        ),
        result matches Ok(pairs) ==> pairs@.len() == items@.len() && forall|i: int|
            0 <= i < items@.len() ==> (#[trigger] items@[i] matches Ok((key, Ok(instance)))
                && pairs@[i] == (key, instance)),
{
    let mut pairs: Vec<(String, ServiceInstance)> = Vec::new();
    let ghost all = items@.map_values(|item: ScannedPair| scanned_pair(item));
    let ghost given = items@;
    assert(pair_views(pairs@) =~= Seq::empty());
    assert(all.take(0) =~= Seq::empty());
    for item in walk: items
        invariant
            walk.seq() == given,
            all == given.map_values(|item: ScannedPair| scanned_pair(item)),
            pairs@.len() == walk.index(),
            forall|i: int|
                0 <= i < walk.index() ==> (#[trigger] given[i] matches Ok((key, Ok(instance)))
                    && pairs@[i] == (key, instance)),
            collected(all.take(walk.index() as int)) == Ok::<
                Seq<(Seq<char>, InstanceView)>,
                ErrorView,
            >(pair_views(pairs@)),
    {
        let ghost next = walk.index() as int;
        proof {
            assert(all.take(next + 1).drop_last() =~= all.take(next));
            assert(all.take(next + 1).last() == scanned_pair(given[next]));
        }
        match item {
            Err(error) => {
                proof {
                    lemma_first_fault(all, next + 1);
                }
                return Err(error);
            },
            Ok((key, parsed)) => match stored_instance(parsed) {
                Err(error) => {
                    proof {
                        lemma_first_fault(all, next + 1);
                    }
                    return Err(error);
                },
                Ok(instance) => {
                    let ghost before = pairs@;
                    pairs.push((key, instance));
                    assert(pair_views(pairs@) =~= pair_views(before).push((key@, instance@)));
                },
            },
        }
    }
    assert(all.take(all.len() as int) =~= all);
    Ok(pairs)
}

proof fn lemma_first_fault<A, E>(items: Seq<Result<A, E>>, n: int)
    requires
        0 <= n <= items.len(),
        collected(items.take(n)) is Err,
    ensures
        collected(items) == collected(items.take(n)),
    decreases items.len() - n,
{
    if n < items.len() {
        assert(items.take(n + 1).drop_last() =~= items.take(n));
        lemma_first_fault(items, n + 1);
    } else {
        assert(items.take(n) =~= items);
    }
}

/// A scan is read if and only if each of its pairs is, and then none is left out.
pub proof fn scan_is_read_whole<A, E>(items: Seq<Result<A, E>>)
    ensures
        collected(items) is Ok <==> forall|i: int| 0 <= i < items.len() ==> #[trigger] items[i] is Ok,
        collected(items) matches Ok(list) ==> list.len() == items.len() && forall|i: int|
            0 <= i < items.len() ==> #[trigger] items[i] == Ok::<A, E>(list[i]),
    decreases items.len(),
{
    if items.len() > 0 {
        let less = items.drop_last();
        scan_is_read_whole(less);
        assert forall|i: int| 0 <= i < less.len() implies #[trigger] items[i] == less[i] by {}
        if collected(items) is Ok {
            assert forall|i: int| 0 <= i < items.len() implies #[trigger] items[i] == Ok::<A, E>(
                collected(items)->Ok_0[i],
            ) by {
                if i < less.len() {
                    assert(less[i] == Ok::<A, E>(collected(less)->Ok_0[i]));
                }
            }
        } else if forall|i: int| 0 <= i < items.len() ==> #[trigger] items[i] is Ok {
            assert forall|i: int| 0 <= i < less.len() implies #[trigger] less[i] is Ok by {
                assert(items[i] is Ok);
            }
            assert(items[items.len() - 1] is Ok);
        }
    }
}

/// The views of a pair that may be absent, or of an error.
pub open spec fn text_outcome(result: Result<Option<(String, String)>, DiscoveryError>) -> Result<
    Option<(Seq<char>, Seq<char>)>,
    ErrorView,
> {
    match result {
        Ok(Some(pair)) => Ok(Some((pair.0@, pair.1@))),
        Ok(None) => Ok(None),
        Err(error) => Err(error@),
    }
}

/// The texts of the pair under `key`, if there is one.
pub fn found_texts(key: &str, reply: Reply<Option<Vec<EtcdKV>>>) -> (result: Result<
    Option<(String, String)>,
    DiscoveryError,
>)
    ensures
        text_outcome(result) == match get_outcome(key@, reply) {
            Ok(Some(kv)) => match decoded_kv(kv) {
                Ok(pair) => Ok(Some(pair)),
                Err(error) => Err(error),
            },
            Ok(None) => Ok(None),
            Err(error) => Err(error),
        },
{
    match get_key_reply(key, reply) {
        Err(error) => Err(error),
        Ok(None) => Ok(None),
        Ok(Some(kv)) => match decode_kv(kv) {
            Ok(pair) => Ok(Some(pair)),
            Err(error) => Err(error),
        },
    }
}

/// The instances of a list of pairs.
pub open spec fn instances_of(pairs: Seq<(String, ServiceInstance)>) -> Seq<InstanceView> {
    pairs.map_values(|pair: (String, ServiceInstance)| pair.1@)
}

/// The service names of a list of pairs.
pub open spec fn names_of(pairs: Seq<(String, ServiceInstance)>) -> Seq<Seq<char>> {
    pairs.map_values(|pair: (String, ServiceInstance)| pair.1@.name)
}

/// The instances that discovery finds, given the pairs of the scan, in their order. That there
/// are none is no error.
pub fn discover_reply(scanned: Result<Vec<(String, ServiceInstance)>, DiscoveryError>) -> (result:
    Result<Vec<ServiceInstance>, DiscoveryError>)
    ensures
        match scanned {
            Ok(pairs) => result matches Ok(found) && instances(found@) == instances_of(pairs@)
                && found@.len() == pairs@.len() && forall|i: int|
                0 <= i < pairs@.len() ==> #[trigger] found@[i] == pairs@[i].1,
            Err(error) => result matches Err(found) && found == error,
        },
{
    match scanned {
        Err(error) => Err(error),
        Ok(pairs) => {
            let ghost all = pairs@;
            let mut found: Vec<ServiceInstance> = Vec::new();
            for pair in walk: pairs
                invariant
                    walk.seq() == all,
                    found@.len() == walk.index(),
                    forall|i: int| 0 <= i < walk.index() ==> #[trigger] found@[i] == all[i].1,
            {
                found.push(pair.1);
            }
            assert(instances(found@) =~= instances_of(all));
            Ok(found)
        },
    }
}

/// The services that a scan over all instances finds, sorted, each once.
pub fn list_services_reply(scanned: Result<Vec<(String, ServiceInstance)>, DiscoveryError>) -> (
    result: Result<Vec<String>, DiscoveryError>)
    ensures
        match scanned {
            Ok(pairs) => result matches Ok(names) && ascending(texts(names@)) && texts(
                names@,
            ).to_set() == names_of(pairs@).to_set(),
            Err(error) => result matches Err(found) && found == error,
        },
{
    match scanned {
        Err(error) => Err(error),
        Ok(pairs) => {
            let ghost all = pairs@;
            let mut names: Vec<String> = Vec::new();
            for pair in walk: pairs
                invariant
                    walk.seq() == all,
                    names@.len() == walk.index(),
                    forall|i: int| 0 <= i < walk.index() ==> #[trigger] names@[i] == all[i].1.name,
            {
                names.push(pair.1.name);
            }
            assert(texts(names@) =~= names_of(all));
            Ok(sorted_distinct(names))
        },
    }
}

/// The instance `service_id`, given what the lookup of its index key found.
pub fn get_service_reply(
    service_id: &str,
    found: Result<Option<ServiceInstance>, DiscoveryError>,
) -> (result: Result<ServiceInstance, DiscoveryError>)
    ensures
        outcome(result) == match found {
            Ok(Some(instance)) => Ok(instance@),
            Ok(None) => Err(ErrorView::ServiceNotFound(service_id@)),
            Err(error) => Err(error@),
        },
{
    match found {
        Ok(Some(instance)) => Ok(instance),
        Ok(None) => Err(DiscoveryError::ServiceNotFound(service_id.to_owned())),
        Err(error) => Err(error),
    }
}

impl EtcdDiscovery {
    /// The request that finds the instances of `service_name`.
    pub fn discover_request(&self, service_name: &str) -> (request: Request)
        ensures
            request@ == self@.scan_request(self@.service_name_prefix(service_name@)),
            scans(request@, self@.service_name_prefix(service_name@)),
            arrives(encode_utf8(self@.service_name_prefix(service_name@))),
            arrives(successor(encode_utf8(self@.service_name_prefix(service_name@)))),
    {
        let prefix = self.service_name_prefix(service_name);
        self.scan_prefix_request(&prefix)
    }

    /// The request that finds the instance `service_id`.
    pub fn get_service_request(&self, service_id: &str) -> (request: Request)
        ensures
            request@ == self@.get_request(self@.idx_key(service_id@)),
            gets(request@, self@.idx_key(service_id@)),
            arrives(encode_utf8(self@.idx_key(service_id@))),
    {
        let key = self.idx_key(service_id);
        self.get_key_request(&key)
    }

    /// The request that finds all instances.
    pub fn list_services_request(&self) -> (request: Request)
        ensures
            request@ == self@.scan_request(self@.all_services_prefix()),
            scans(request@, self@.all_services_prefix()),
            arrives(encode_utf8(self@.all_services_prefix())),
            arrives(successor(encode_utf8(self@.all_services_prefix()))),
    {
        let prefix = self.all_services_prefix();
        self.scan_prefix_request(&prefix)
    }
}

} // verus!
