//! Which keys the scans of an etcd client cover, and so what it finds of what it writes.
use crate::etcd::EtcdView;
use crate::http::RequestView;
use crate::range::{in_range, scan_covers_prefix, successor};
use crate::service::InstanceView;
use crate::store::{committed, erases, found_by, gets, scans, writes};
use vstd::prelude::*;
use vstd::utf8::*;

verus! {

/// The scan over `prefix` covers `key`.
pub open spec fn covers(prefix: Seq<char>, key: Seq<char>) -> bool {
    in_range(encode_utf8(key), encode_utf8(prefix), successor(encode_utf8(prefix)))
}

/// `name` holds no slash.
pub open spec fn slashless(name: Seq<char>) -> bool {
    !name.contains('/')
}

proof fn lemma_encode_utf8_concat(a: Seq<char>, b: Seq<char>)
    ensures
        encode_utf8(a + b) == encode_utf8(a) + encode_utf8(b),
    decreases a.len(),
{
    if a.len() == 0 {
        assert(a + b =~= b);
        assert(encode_utf8(a) + encode_utf8(b) =~= encode_utf8(b));
    } else {
        lemma_encode_utf8_concat(a.drop_first(), b);
        assert((a + b).drop_first() =~= a.drop_first() + b);
        let first = encode_scalar(a[0] as u32);
        assert(first + (encode_utf8(a.drop_first()) + encode_utf8(b)) =~= (first + encode_utf8(
            a.drop_first(),
        )) + encode_utf8(b));
    }
}

proof fn lemma_prefix_by_bytes(prefix: Seq<char>, key: Seq<char>)
    requires
        encode_utf8(prefix).is_prefix_of(encode_utf8(key)),
    ensures
        prefix.is_prefix_of(key),
    decreases prefix.len(),
{
    if prefix.len() > 0 {
        let p = encode_utf8(prefix);
        let k = encode_utf8(key);
        encode_utf8_first_scalar(prefix);
        assert forall|i: int| 0 <= i < p.len() implies p[i] == k[i] by {
            assert(k.subrange(0, p.len() as int)[i] == k[i]);
        }
        assert(key.len() > 0);
        encode_utf8_first_scalar(key);
        assert(decode_first_scalar(p) == decode_first_scalar(k));
        char_u32_cast(prefix[0], prefix[0] as u32);
        char_u32_cast(key[0], key[0] as u32);
        assert(prefix[0] == key[0]);
        let n = encode_scalar(key[0] as u32).len() as int;
        assert(encode_utf8(prefix.drop_first()) =~= p.skip(n));
        assert(encode_utf8(key.drop_first()) =~= k.skip(n));
        assert(p.skip(n) =~= k.skip(n).subrange(0, p.skip(n).len() as int));
        lemma_prefix_by_bytes(prefix.drop_first(), key.drop_first());
        let rest = prefix.drop_first();
        assert forall|i: int| 0 <= i < prefix.len() implies prefix[i] == key[i] by {
            if i > 0 {
                assert(rest[i - 1] == key.drop_first().subrange(0, rest.len() as int)[i - 1]);
            }
        }
        assert(prefix =~= key.subrange(0, prefix.len() as int));
    } else {
        assert(prefix =~= key.subrange(0, 0));
    }
}

/// A scan over `prefix` covers the keys that start with `prefix`, all of them and no others.
pub proof fn scan_covers_texts(prefix: Seq<char>, key: Seq<char>)
    ensures
        covers(prefix, key) <==> prefix.is_prefix_of(key),
{
    scan_covers_prefix(encode_utf8(prefix), encode_utf8(key));
    if prefix.is_prefix_of(key) {
        let rest = key.skip(prefix.len() as int);
        assert(key =~= prefix + rest);
        lemma_encode_utf8_concat(prefix, rest);
        assert(encode_utf8(prefix) =~= encode_utf8(key).subrange(
            0,
            encode_utf8(prefix).len() as int,
        ));
    }
    if encode_utf8(prefix).is_prefix_of(encode_utf8(key)) {
        lemma_prefix_by_bytes(prefix, key);
    }
}

/// The scan for a service covers the key that an instance of it is written under, and that key
/// goes on with the id alone. The scan for all services covers it too.
pub proof fn instance_is_scanned(etcd: EtcdView, service_name: Seq<char>, service_id: Seq<char>)
    ensures
        covers(
            etcd.service_name_prefix(service_name),
            etcd.composite_key(service_name, service_id),
        ),
        etcd.composite_key(service_name, service_id).skip(
            etcd.service_name_prefix(service_name).len() as int,
        ) == service_id,
        covers(etcd.all_services_prefix(), etcd.composite_key(service_name, service_id)),
{
    let key = etcd.composite_key(service_name, service_id);
    let prefix = etcd.service_name_prefix(service_name);
    let all = etcd.all_services_prefix();
    scan_covers_texts(prefix, key);
    scan_covers_texts(all, key);
    assert(prefix =~= key.subrange(0, prefix.len() as int));
    assert(all =~= key.subrange(0, all.len() as int));
    assert(key.skip(prefix.len() as int) =~= service_id);
}

/// Where neither name holds a slash, the scan for one service covers the key of an instance of
/// another only if the two are the same service, whatever the id holds.
pub proof fn scan_is_of_one_service(
    etcd: EtcdView,
    scanned: Seq<char>,
    service_name: Seq<char>,
    service_id: Seq<char>,
)
    requires
        slashless(scanned),
        slashless(service_name),
    ensures
        covers(etcd.service_name_prefix(scanned), etcd.composite_key(service_name, service_id))
            <==> scanned == service_name,
{
    let prefix = etcd.service_name_prefix(scanned);
    let key = etcd.composite_key(service_name, service_id);
    scan_covers_texts(prefix, key);
    if scanned == service_name {
        instance_is_scanned(etcd, service_name, service_id);
    }
    if prefix.is_prefix_of(key) {
        reveal_strlit("/");
        let start = etcd.prefix.len() as int + 1;
        assert forall|i: int| 0 <= i < prefix.len() implies prefix[i] == key[i] by {
            assert(key.subrange(0, prefix.len() as int)[i] == key[i]);
        }
        let n = scanned.len() as int;
        let m = service_name.len() as int;
        assert(prefix[start + n] == '/');
        assert(key[start + m] == '/');
        if n < m {
            assert(key[start + n] == service_name[n]);
            assert(service_name.contains('/'));
        } else if m < n {
            assert(prefix[start + m] == scanned[m]);
            assert(scanned.contains('/'));
        }
        assert forall|i: int| 0 <= i < n implies scanned[i] == service_name[i] by {
            assert(prefix[start + i] == scanned[i]);
            assert(key[start + i] == service_name[i]);
        }
        assert(scanned =~= service_name);
    }
}

/// No scan, be it for one service or for all, covers the key that an instance is found under by
/// its id.
pub proof fn index_key_is_not_scanned(
    etcd: EtcdView,
    service_name: Seq<char>,
    service_id: Seq<char>,
)
    ensures
        !covers(etcd.all_services_prefix(), etcd.idx_key(service_id)),
        !covers(etcd.service_name_prefix(service_name), etcd.idx_key(service_id)),
{
    let key = etcd.idx_key(service_id);
    let all = etcd.all_services_prefix();
    let prefix = etcd.service_name_prefix(service_name);
    scan_covers_texts(all, key);
    scan_covers_texts(prefix, key);
    reveal_strlit("/");
    reveal_strlit("__idx/");
    let at = etcd.prefix.len() as int;
    assert(key[at] == '_');
    assert(all[at] == '/');
    assert(prefix[at] == '/');
    if all.is_prefix_of(key) {
        assert(key.subrange(0, all.len() as int)[at] == key[at]);
    }
    if prefix.is_prefix_of(key) {
        assert(key.subrange(0, prefix.len() as int)[at] == key[at]);
    }
}

/// Two instances share the key by id only if they have the same id, and no key by id is a key by
/// name.
pub proof fn index_keys_are_distinct(
    etcd: EtcdView,
    first: Seq<char>,
    second: Seq<char>,
    service_name: Seq<char>,
)
    ensures
        etcd.idx_key(first) == etcd.idx_key(second) ==> first == second,
        etcd.idx_key(first) != etcd.composite_key(service_name, second),
{
    let at = (etcd.prefix + "__idx/"@).len() as int;
    assert(etcd.idx_key(first).skip(at) =~= first);
    assert(etcd.idx_key(second).skip(at) =~= second);
    index_key_is_not_scanned(etcd, service_name, first);
    instance_is_scanned(etcd, service_name, second);
}

/// Two instances of services without a slash in their names share the key by name only if they
/// have the same service and the same id.
pub proof fn composite_keys_are_distinct(
    etcd: EtcdView,
    first_name: Seq<char>,
    first_id: Seq<char>,
    second_name: Seq<char>,
    second_id: Seq<char>,
)
    requires
        slashless(first_name),
        slashless(second_name),
        etcd.composite_key(first_name, first_id) == etcd.composite_key(second_name, second_id),
    ensures
        first_name == second_name,
        first_id == second_id,
{
    instance_is_scanned(etcd, first_name, first_id);
    instance_is_scanned(etcd, second_name, second_id);
    scan_is_of_one_service(etcd, first_name, second_name, second_id);
}

/// The scans for one service and for all have an upper bound: they never run on to the end of
/// the key space.
pub proof fn scans_are_bounded(etcd: EtcdView, service_name: Seq<char>)
    ensures
        successor(encode_utf8(etcd.all_services_prefix())).len() > 0,
        successor(encode_utf8(etcd.service_name_prefix(service_name))).len() > 0,
{
    reveal_strlit("/");
    is_ascii_chars_encode_utf8("/"@);
    let slash = encode_utf8("/"@);
    assert(slash.last() == 47);
    lemma_encode_utf8_concat(etcd.prefix, "/"@);
    lemma_encode_utf8_concat(etcd.prefix + "/"@ + service_name, "/"@);
    assert(encode_utf8(etcd.all_services_prefix()).last() == slash.last());
    assert(encode_utf8(etcd.service_name_prefix(service_name)).last() == slash.last());
}

/// What a scan over `prefix` finds in `store`.
pub open spec fn scanned(store: Map<Seq<char>, Seq<char>>, prefix: Seq<char>) -> Map<
    Seq<char>,
    Seq<char>,
> {
    store.restrict(Set::new(|key: Seq<char>| covers(prefix, key)))
}

/// A registration is found. Once its transaction is committed, the lookup by id finds its value,
/// and the scans for its service and for all services find one pair more than before, that of its
/// key by name. The premises hold of the requests that the client makes.
pub proof fn registration_is_found(
    etcd: EtcdView,
    store: Map<Seq<char>, Seq<char>>,
    service: InstanceView,
    value: Seq<char>,
    write: RequestView,
    get: RequestView,
    scan: RequestView,
    scan_all: RequestView,
)
    requires
        writes(
            write,
            etcd.composite_key(service.name, service.id),
            etcd.idx_key(service.id),
            value,
        ),
        gets(get, etcd.idx_key(service.id)),
        scans(scan, etcd.service_name_prefix(service.name)),
        scans(scan_all, etcd.all_services_prefix()),
    ensures
        ({
            let after = committed(store, write);
            let key = etcd.composite_key(service.name, service.id);
            &&& found_by(after, get) == map![etcd.idx_key(service.id) => value]
            &&& found_by(after, scan) == found_by(store, scan).insert(key, value)
            &&& found_by(after, scan_all) == found_by(store, scan_all).insert(key, value)
        }),
{
    let after = committed(store, write);
    let key = etcd.composite_key(service.name, service.id);
    instance_is_scanned(etcd, service.name, service.id);
    index_key_is_not_scanned(etcd, service.name, service.id);
    assert(found_by(after, get) =~= map![etcd.idx_key(service.id) => value]);
    assert(found_by(after, scan) =~= found_by(store, scan).insert(key, value));
    assert(found_by(after, scan_all) =~= found_by(store, scan_all).insert(key, value));
}

/// A registration changes nothing under other ids, nor for other services, as far as neither
/// name holds a slash.
pub proof fn registration_leaves_the_others(
    etcd: EtcdView,
    store: Map<Seq<char>, Seq<char>>,
    service: InstanceView,
    value: Seq<char>,
    other_name: Seq<char>,
    other_id: Seq<char>,
    write: RequestView,
    get: RequestView,
    scan: RequestView,
)
    requires
        writes(
            write,
            etcd.composite_key(service.name, service.id),
            etcd.idx_key(service.id),
            value,
        ),
        gets(get, etcd.idx_key(other_id)),
        scans(scan, etcd.service_name_prefix(other_name)),
    ensures
        slashless(service.name) && slashless(other_name) && other_name != service.name ==> found_by(
            committed(store, write),
            scan,
        ) == found_by(store, scan),
        other_id != service.id ==> found_by(committed(store, write), get) == found_by(store, get),
{
    let after = committed(store, write);
    index_keys_are_distinct(etcd, other_id, service.id, service.name);
    if other_id != service.id {
        assert(found_by(after, get) =~= found_by(store, get));
    }
    if slashless(service.name) && slashless(other_name) && other_name != service.name {
        scan_is_of_one_service(etcd, other_name, service.name, service.id);
        index_key_is_not_scanned(etcd, other_name, service.id);
        assert(found_by(after, scan) =~= found_by(store, scan));
    }
}

/// A deregistration undoes a registration: the store is as if nothing had been registered, and
/// neither the lookup by id nor the scan for the service finds the instance. The premises hold of
/// the requests that the client makes.
pub proof fn deregistration_undoes_registration(
    etcd: EtcdView,
    store: Map<Seq<char>, Seq<char>>,
    service: InstanceView,
    value: Seq<char>,
    write: RequestView,
    erase: RequestView,
    get: RequestView,
    scan: RequestView,
)
    requires
        writes(
            write,
            etcd.composite_key(service.name, service.id),
            etcd.idx_key(service.id),
            value,
        ),
        erases(
            erase,
            etcd.composite_key(service.name, service.id),
            etcd.idx_key(service.id),
        ),
        gets(get, etcd.idx_key(service.id)),
        scans(scan, etcd.service_name_prefix(service.name)),
    ensures
        ({
            let undone = committed(committed(store, write), erase);
            let key = etcd.composite_key(service.name, service.id);
            &&& undone == committed(store, erase)
            &&& found_by(undone, get) == Map::<Seq<char>, Seq<char>>::empty()
            &&& found_by(undone, scan) == found_by(store, scan).remove(key)
            &&& !store.contains_key(etcd.idx_key(service.id)) && !store.contains_key(key) ==> undone
                == store
        }),
{
    let undone = committed(committed(store, write), erase);
    let key = etcd.composite_key(service.name, service.id);
    index_key_is_not_scanned(etcd, service.name, service.id);
    assert(undone =~= committed(store, erase));
    assert(found_by(undone, get) =~= Map::empty());
    assert(found_by(undone, scan) =~= found_by(store, scan).remove(key));
    if !store.contains_key(etcd.idx_key(service.id)) && !store.contains_key(key) {
        assert(undone =~= store);
    }
}

} // verus!
