//! What the operations on etcd promise, from what they are given to what comes out.
use crate::codec::{base64_decoded, decode_text, encode_text, lemma_text_arrives, utf8_fault};
use crate::document::{document_member, document_text, Member, MemberView};
use crate::duration::Duration;
use crate::error::DiscoveryError;
use crate::etcd::{
    decode_kv, decoded_pair, delete_op, get_key_reply, grant_lease_reply, kv_views, named_lease_id,
    put_op, revoke_lease_reply, scan_prefix_reply, txn_reply, EtcdDiscovery, EtcdKV,
};
use crate::http::{Method, Reply, Request, RequestView};
use crate::json::{Json, JsonView};
use crate::keyspace::{covers, scan_covers_texts};
use crate::range::{in_range, successor};
use crate::store::{lemma_members, member};
use vstd::prelude::*;
use vstd::utf8::*;

verus! {

/// `etcd` is a new client of the etcd at `base`, with its keys under `prefix`.
pub open spec fn is_new(etcd: EtcdDiscovery, base: &str, prefix: &str) -> bool {
    exists|made: Result<EtcdDiscovery, DiscoveryError>| #[trigger]
        call_ensures(EtcdDiscovery::new, (base, prefix), made) && made == Ok::<
            EtcdDiscovery,
            DiscoveryError,
        >(etcd)
}

/// `etcd` was made for the etcd at `base`, with its keys under `prefix`, whether or not it was
/// then given another lifetime for its leases.
pub open spec fn made_with(etcd: EtcdDiscovery, base: &str, prefix: &str) -> bool {
    ||| is_new(etcd, base, prefix)
    ||| exists|made: EtcdDiscovery, ttl: Duration| #[trigger]
        call_ensures(EtcdDiscovery::with_lease_ttl, (made, ttl), etcd) && is_new(made, base, prefix)
}

/// Making a client never fails.
pub proof fn client_is_made(
    base: &str,
    prefix: &str,
    made: Result<EtcdDiscovery, DiscoveryError>,
)
    requires
        call_ensures(EtcdDiscovery::new, (base, prefix), made),
    ensures
        made is Ok,
        is_new(made->Ok_0, base, prefix),
{
}

/// Setting another lifetime for leases leaves the rest of a client as it is.
pub proof fn lifetime_changes_nothing_else(
    etcd: EtcdDiscovery,
    ttl: Duration,
    longer: EtcdDiscovery,
    name: &str,
    id: &str,
    key: String,
    same_key: String,
    idx_key: String,
    same_idx_key: String,
    request: Request,
    same_request: Request,
)
    requires
        call_ensures(EtcdDiscovery::with_lease_ttl, (etcd, ttl), longer),
        call_ensures(EtcdDiscovery::composite_key, (&etcd, name, id), key),
        call_ensures(EtcdDiscovery::composite_key, (&longer, name, id), same_key),
        call_ensures(EtcdDiscovery::idx_key, (&etcd, id), idx_key),
        call_ensures(EtcdDiscovery::idx_key, (&longer, id), same_idx_key),
        call_ensures(EtcdDiscovery::get_key_request, (&etcd, name), request),
        call_ensures(EtcdDiscovery::get_key_request, (&longer, name), same_request),
    ensures
        key@ == same_key@,
        idx_key@ == same_idx_key@,
        request.url@ == same_request.url@,
{
}

/// `text` is `parts`, one behind the other.
pub open spec fn is_made_of(text: Seq<char>, parts: Seq<Seq<char>>) -> bool
    decreases parts.len(),
{
    if parts.len() == 0 {
        text.len() == 0
    } else {
        &&& parts[0].len() <= text.len()
        &&& forall|i: int| 0 <= i < parts[0].len() ==> #[trigger] text[i] == parts[0][i]
        &&& is_made_of(text.skip(parts[0].len() as int), parts.drop_first())
    }
}

/// What is made of parts is made of them alone.
pub proof fn lemma_made_of(text: Seq<char>, part: Seq<char>, rest: Seq<Seq<char>>, tail: Seq<char>)
    requires
        text == part + tail,
        is_made_of(tail, rest),
    ensures
        is_made_of(text, seq![part] + rest),
{
    let parts = seq![part] + rest;
    assert(parts.drop_first() =~= rest);
    assert(text.skip(part.len() as int) =~= tail);
}

proof fn lemma_one_part(text: Seq<char>)
    ensures
        is_made_of(text, seq![text]),
{
    reveal_with_fuel(is_made_of, 2);
    assert(seq![text].drop_first() =~= Seq::empty());
}

/// Every key and every prefix of a client starts with the prefix that the client was made with.
/// Behind it stand, in this order: for a service, a slash, its name and a slash; for an instance
/// by name, its id behind that; for an instance by id, `__idx/` and the id; and for all services
/// a slash alone.
pub proof fn keys_start_with_the_prefix_of_the_client(
    etcd: EtcdDiscovery,
    base: &str,
    prefix: &str,
    name: &str,
    id: &str,
    service_prefix: String,
    composite_key: String,
    idx_key: String,
    all: String,
)
    requires
        made_with(etcd, base, prefix),
        call_ensures(EtcdDiscovery::service_name_prefix, (&etcd, name), service_prefix),
        call_ensures(EtcdDiscovery::composite_key, (&etcd, name, id), composite_key),
        call_ensures(EtcdDiscovery::idx_key, (&etcd, id), idx_key),
        call_ensures(EtcdDiscovery::all_services_prefix, (&etcd,), all),
    ensures
        is_made_of(service_prefix@, seq![prefix@, seq!['/'], name@, seq!['/']]),
        is_made_of(composite_key@, seq![prefix@, seq!['/'], name@, seq!['/'], id@]),
        is_made_of(idx_key@, seq![prefix@, seq!['_', '_', 'i', 'd', 'x', '/'], id@]),
        is_made_of(all@, seq![prefix@, seq!['/']]),
{
    reveal_strlit("/");
    reveal_strlit("__idx/");
    let slash = seq!['/'];
    let index = seq!['_', '_', 'i', 'd', 'x', '/'];
    assert("/"@ =~= slash);
    assert("__idx/"@ =~= index);
    lemma_one_part(slash);
    lemma_one_part(id@);
    // all services
    lemma_made_of(all@, prefix@, seq![slash], slash);
    assert(seq![prefix@] + seq![slash] =~= seq![prefix@, slash]);
    // by id
    lemma_made_of(index + id@, index, seq![id@], id@);
    assert(seq![index] + seq![id@] =~= seq![index, id@]);
    assert(idx_key@ =~= prefix@ + (index + id@));
    lemma_made_of(idx_key@, prefix@, seq![index, id@], index + id@);
    assert(seq![prefix@] + seq![index, id@] =~= seq![prefix@, index, id@]);
    // a service
    lemma_made_of(name@ + slash, name@, seq![slash], slash);
    assert(seq![name@] + seq![slash] =~= seq![name@, slash]);
    lemma_made_of(slash + (name@ + slash), slash, seq![name@, slash], name@ + slash);
    assert(seq![slash] + seq![name@, slash] =~= seq![slash, name@, slash]);
    assert(service_prefix@ =~= prefix@ + (slash + (name@ + slash)));
    lemma_made_of(
        service_prefix@,
        prefix@,
        seq![slash, name@, slash],
        slash + (name@ + slash),
    );
    assert(seq![prefix@] + seq![slash, name@, slash] =~= seq![prefix@, slash, name@, slash]);
    // by name
    let last = slash + id@;
    lemma_made_of(last, slash, seq![id@], id@);
    assert(seq![slash] + seq![id@] =~= seq![slash, id@]);
    lemma_made_of(name@ + last, name@, seq![slash, id@], last);
    assert(seq![name@] + seq![slash, id@] =~= seq![name@, slash, id@]);
    lemma_made_of(slash + (name@ + last), slash, seq![name@, slash, id@], name@ + last);
    assert(seq![slash] + seq![name@, slash, id@] =~= seq![slash, name@, slash, id@]);
    assert(composite_key@ =~= prefix@ + (slash + (name@ + last)));
    lemma_made_of(
        composite_key@,
        prefix@,
        seq![slash, name@, slash, id@],
        slash + (name@ + last),
    );
    assert(seq![prefix@] + seq![slash, name@, slash, id@] =~= seq![
        prefix@,
        slash,
        name@,
        slash,
        id@,
    ]);
}

/// Neither of two texts starts with the other.
pub open spec fn apart(a: Seq<char>, b: Seq<char>) -> bool {
    !a.is_prefix_of(b) && !b.is_prefix_of(a)
}

proof fn lemma_apart(a: Seq<char>, b: Seq<char>, x: Seq<char>, y: Seq<char>)
    requires
        apart(a, b),
    ensures
        !(a + x).is_prefix_of(b + y),
        a + x != b + y,
{
    let left = a + x;
    let right = b + y;
    if left.is_prefix_of(right) || left == right {
        let n = if a.len() <= b.len() {
            a.len() as int
        } else {
            b.len() as int
        };
        assert forall|i: int| 0 <= i < n implies a[i] == b[i] by {
            assert(left[i] == a[i]);
            assert(right[i] == b[i]);
            if left.is_prefix_of(right) {
                assert(right.subrange(0, left.len() as int)[i] == right[i]);
            }
        }
        if a.len() <= b.len() {
            assert(a =~= b.subrange(0, a.len() as int));
        } else {
            assert(b =~= a.subrange(0, b.len() as int));
        }
    }
}

/// Clients whose prefixes are apart never meet: no key of the one is covered by a scan of the
/// other, nor looked up or deleted by it, whatever the names and ids.
pub proof fn clients_with_other_prefixes_never_meet(
    one: EtcdDiscovery,
    one_base: &str,
    one_prefix: &str,
    other: EtcdDiscovery,
    other_base: &str,
    other_prefix: &str,
    name: &str,
    id: &str,
    other_name: &str,
    other_id: &str,
    composite_key: String,
    idx_key: String,
    other_composite_key: String,
    other_idx_key: String,
    other_service: String,
    other_all: String,
)
    requires
        made_with(one, one_base, one_prefix),
        made_with(other, other_base, other_prefix),
        apart(one_prefix@, other_prefix@),
        call_ensures(EtcdDiscovery::composite_key, (&one, name, id), composite_key),
        call_ensures(EtcdDiscovery::idx_key, (&one, id), idx_key),
        call_ensures(
            EtcdDiscovery::composite_key,
            (&other, other_name, other_id),
            other_composite_key,
        ),
        call_ensures(EtcdDiscovery::idx_key, (&other, other_id), other_idx_key),
        call_ensures(EtcdDiscovery::service_name_prefix, (&other, other_name), other_service),
        call_ensures(EtcdDiscovery::all_services_prefix, (&other,), other_all),
    ensures
        !covers(other_service@, composite_key@),
        !covers(other_service@, idx_key@),
        !covers(other_all@, composite_key@),
        !covers(other_all@, idx_key@),
        composite_key@ != other_composite_key@,
        composite_key@ != other_idx_key@,
        idx_key@ != other_composite_key@,
        idx_key@ != other_idx_key@,
{
    let a = one_prefix@;
    let b = other_prefix@;
    let ck = composite_key@.skip(a.len() as int);
    let ik = idx_key@.skip(a.len() as int);
    let other_ck = other_composite_key@.skip(b.len() as int);
    let other_ik = other_idx_key@.skip(b.len() as int);
    let service = other_service@.skip(b.len() as int);
    let all = other_all@.skip(b.len() as int);
    assert(composite_key@ =~= a + ck);
    assert(idx_key@ =~= a + ik);
    assert(other_composite_key@ =~= b + other_ck);
    assert(other_idx_key@ =~= b + other_ik);
    assert(other_service@ =~= b + service);
    assert(other_all@ =~= b + all);
    scan_covers_texts(other_service@, composite_key@);
    scan_covers_texts(other_service@, idx_key@);
    scan_covers_texts(other_all@, composite_key@);
    scan_covers_texts(other_all@, idx_key@);
    lemma_apart(b, a, service, ck);
    lemma_apart(b, a, service, ik);
    lemma_apart(b, a, all, ck);
    lemma_apart(b, a, all, ik);
    lemma_apart(b, a, other_ck, ck);
    lemma_apart(b, a, other_ck, ik);
    lemma_apart(b, a, other_ik, ck);
    lemma_apart(b, a, other_ik, ik);
}

/// `request` is a POST to the endpoint `path` of the etcd at `base`.
pub open spec fn posts_to(request: RequestView, base: Seq<char>, path: Seq<char>) -> bool {
    &&& request.method == Method::Post
    &&& request.body is Some
    &&& request.url.len() == base.len() + path.len()
    &&& base.is_prefix_of(request.url)
    &&& path.is_suffix_of(request.url)
}

/// The body of `request` has a member `name` that is the text `text`.
pub open spec fn says(request: RequestView, name: Seq<char>, text: Seq<char>) -> bool {
    request.body matches Some(body) && member(body, name) == Some(JsonView::Text(text))
}

/// The body of `request` has a member `name` whose base64 text stands for `bytes`.
pub open spec fn sends(request: RequestView, name: Seq<char>, bytes: Seq<u8>) -> bool {
    request.body matches Some(body) && member(body, name) matches Some(JsonView::Text(text))
        && base64_decoded(text) == Ok::<Seq<u8>, Seq<char>>(bytes)
}

/// `json` is an object with one member for each of `names` and with no others.
pub open spec fn has_only(json: JsonView, names: Seq<Seq<char>>) -> bool {
    json matches JsonView::Object(members) && members.len() == names.len() && forall|i: int|
        0 <= i < members.len() ==> names.contains((#[trigger] members[i]).0)
}

/// An object whose members have the names `names`, in that order, has only those.
pub proof fn lemma_has_only(json: JsonView, names: Seq<Seq<char>>)
    requires
        json is Object,
        json->Object_0.len() == names.len(),
        forall|i: int| 0 <= i < names.len() ==> json->Object_0[i].0 == #[trigger] names[i],
    ensures
        has_only(json, names),
{
    let members = json->Object_0;
    assert forall|i: int| 0 <= i < members.len() implies names.contains(
        (#[trigger] members[i]).0,
    ) by {
        assert(names[i] == members[i].0);
    }
}

/// A POST to the base URL with a path behind it posts to that endpoint.
pub proof fn lemma_posts(base: Seq<char>, path: Seq<char>, body: JsonView)
    ensures
        posts_to(
            (RequestView { method: Method::Post, url: base + path, body: Some(body) }),
            base,
            path,
        ),
{
    let url = base + path;
    assert(base =~= url.subrange(0, base.len() as int));
    assert(path =~= url.subrange((url.len() - path.len()) as int, url.len() as int));
}

/// A lease is asked for with the lifetime that the client was configured with: the whole seconds
/// of it, and a second where it is shorter. A client that was not configured asks for half a
/// minute.
pub proof fn lease_is_asked_for_as_configured(
    made: EtcdDiscovery,
    base: &str,
    prefix: &str,
    ttl: Duration,
    configured: EtcdDiscovery,
    by_default: Request,
    request: Request,
    secs: u64,
)
    requires
        is_new(made, base, prefix),
        call_ensures(EtcdDiscovery::with_lease_ttl, (made, ttl), configured),
        call_ensures(EtcdDiscovery::grant_lease_request, (&made,), by_default),
        call_ensures(EtcdDiscovery::grant_lease_request, (&configured,), request),
        call_ensures(EtcdDiscovery::lease_ttl_secs, (&configured,), secs),
    ensures
        posts_to(request@, base@, "/v3/lease/grant"@),
        posts_to(by_default@, base@, "/v3/lease/grant"@),
        member(by_default@.body->Some_0, "TTL"@) == Some(JsonView::Number(30)),
        member(request@.body->Some_0, "TTL"@) matches Some(JsonView::Number(asked)) && asked >= 1
            && asked == secs && (ttl@ >= 1_000_000_000 ==> asked * 1_000_000_000 <= ttl@ < (asked
            + 1) * 1_000_000_000) && (ttl@ < 1_000_000_000 ==> asked == 1),
        has_only(request@.body->Some_0, seq!["TTL"@]),
        has_only(by_default@.body->Some_0, seq!["TTL"@]),
{
    lemma_has_only(request@.body->Some_0, seq!["TTL"@]);
    lemma_has_only(by_default@.body->Some_0, seq!["TTL"@]);
    lemma_posts(base@, "/v3/lease/grant"@, request@.body->Some_0);
    lemma_posts(base@, "/v3/lease/grant"@, by_default@.body->Some_0);
    lemma_members(request@.body->Some_0->Object_0);
    lemma_members(by_default@.body->Some_0->Object_0);
    assert(request@.body->Some_0->Object_0[0].0 == "TTL"@);
    assert(by_default@.body->Some_0->Object_0[0].0 == "TTL"@);
}

/// A lease is refreshed at every third of what was asked for.
pub proof fn lease_is_refreshed_in_time(etcd: EtcdDiscovery, pause: Duration, secs: u64)
    requires
        call_ensures(EtcdDiscovery::keep_alive_interval, (&etcd,), pause),
        call_ensures(EtcdDiscovery::lease_ttl_secs, (&etcd,), secs),
    ensures
        3 * pause@ <= secs * 1_000_000_000 < 3 * (pause@ + 1),
        pause@ >= 100_000_000,
{
}

/// A lease is revoked and refreshed by its own id, each at its own endpoint.
pub proof fn lease_is_named_by_its_id(
    etcd: EtcdDiscovery,
    base: &str,
    prefix: &str,
    lease_id: &str,
    revoke: Request,
    refresh: Request,
)
    requires
        made_with(etcd, base, prefix),
        call_ensures(EtcdDiscovery::revoke_lease_request, (&etcd, lease_id), revoke),
        call_ensures(EtcdDiscovery::keep_alive_request, (&etcd, lease_id), refresh),
    ensures
        posts_to(revoke@, base@, "/v3/lease/revoke"@),
        posts_to(refresh@, base@, "/v3/lease/keepalive"@),
        says(revoke@, "ID"@, lease_id@),
        says(refresh@, "ID"@, lease_id@),
        has_only(revoke@.body->Some_0, seq!["ID"@]),
        has_only(refresh@.body->Some_0, seq!["ID"@]),
{
    lemma_has_only(revoke@.body->Some_0, seq!["ID"@]);
    lemma_has_only(refresh@.body->Some_0, seq!["ID"@]);
    lemma_posts(base@, "/v3/lease/revoke"@, revoke@.body->Some_0);
    lemma_posts(base@, "/v3/lease/keepalive"@, refresh@.body->Some_0);
    lemma_members(revoke@.body->Some_0->Object_0);
    lemma_members(refresh@.body->Some_0->Object_0);
    assert(revoke@.body->Some_0->Object_0[0].0 == "ID"@);
    assert(refresh@.body->Some_0->Object_0[0].0 == "ID"@);
}

/// A lookup sends the key that it is for, and no range; a scan sends its prefix, and the end of
/// the range of all keys that start with it.
pub proof fn lookups_send_their_key(
    etcd: EtcdDiscovery,
    base: &str,
    prefix: &str,
    text: &str,
    get: Request,
    scan: Request,
)
    requires
        made_with(etcd, base, prefix),
        call_ensures(EtcdDiscovery::get_key_request, (&etcd, text), get),
        call_ensures(EtcdDiscovery::scan_prefix_request, (&etcd, text), scan),
    ensures
        posts_to(get@, base@, "/v3/kv/range"@),
        posts_to(scan@, base@, "/v3/kv/range"@),
        sends(get@, "key"@, encode_utf8(text@)),
        member(get@.body->Some_0, "range_end"@) is None,
        sends(scan@, "key"@, encode_utf8(text@)),
        exists|end: Seq<u8>| #[trigger] sends(scan@, "range_end"@, end),
        forall|key: Seq<char>, end: Seq<u8>|
            sends(scan@, "range_end"@, end) ==> (#[trigger] text@.is_prefix_of(key)
                <==> #[trigger] in_range(encode_utf8(key), encode_utf8(text@), end)),
        has_only(get@.body->Some_0, seq!["key"@]),
        has_only(scan@.body->Some_0, seq!["key"@, "range_end"@]),
{
    lemma_has_only(get@.body->Some_0, seq!["key"@]);
    lemma_has_only(scan@.body->Some_0, seq!["key"@, "range_end"@]);
    reveal_strlit("key");
    reveal_strlit("range_end");
    assert("key"@.len() != "range_end"@.len());
    lemma_posts(base@, "/v3/kv/range"@, get@.body->Some_0);
    lemma_posts(base@, "/v3/kv/range"@, scan@.body->Some_0);
    let one = get@.body->Some_0->Object_0;
    let two = scan@.body->Some_0->Object_0;
    lemma_members(one);
    lemma_members(two);
    assert(one[0].0 == "key"@ && two[0].0 == "key"@ && two[1].0 == "range_end"@);
    assert(sends(scan@, "range_end"@, successor(encode_utf8(text@))));
    assert forall|key: Seq<char>, end: Seq<u8>|
        sends(scan@, "range_end"@, end) implies (#[trigger] text@.is_prefix_of(key)
        <==> #[trigger] in_range(encode_utf8(key), encode_utf8(text@), end)) by {
        scan_covers_texts(text@, key);
    }
}

/// Discovery scans the keys of the service by that name, a listing those of all services, and a
/// lookup by id looks up the key for that id alone.
pub proof fn each_lookup_is_for_its_keys(
    etcd: EtcdDiscovery,
    base: &str,
    prefix: &str,
    name: &str,
    id: &str,
    discover: Request,
    list: Request,
    get: Request,
    service_prefix: String,
    all: String,
    idx_key: String,
)
    requires
        made_with(etcd, base, prefix),
        call_ensures(EtcdDiscovery::discover_request, (&etcd, name), discover),
        call_ensures(EtcdDiscovery::list_services_request, (&etcd,), list),
        call_ensures(EtcdDiscovery::get_service_request, (&etcd, id), get),
        call_ensures(EtcdDiscovery::service_name_prefix, (&etcd, name), service_prefix),
        call_ensures(EtcdDiscovery::all_services_prefix, (&etcd,), all),
        call_ensures(EtcdDiscovery::idx_key, (&etcd, id), idx_key),
    ensures
        posts_to(discover@, base@, "/v3/kv/range"@),
        posts_to(list@, base@, "/v3/kv/range"@),
        posts_to(get@, base@, "/v3/kv/range"@),
        sends(discover@, "key"@, encode_utf8(service_prefix@)),
        sends(list@, "key"@, encode_utf8(all@)),
        sends(get@, "key"@, encode_utf8(idx_key@)),
        member(get@.body->Some_0, "range_end"@) is None,
        forall|key: Seq<char>, end: Seq<u8>|
            sends(discover@, "range_end"@, end) ==> (#[trigger] service_prefix@.is_prefix_of(key)
                <==> #[trigger] in_range(encode_utf8(key), encode_utf8(service_prefix@), end)),
        forall|key: Seq<char>, end: Seq<u8>|
            sends(list@, "range_end"@, end) ==> (#[trigger] all@.is_prefix_of(key)
                <==> #[trigger] in_range(encode_utf8(key), encode_utf8(all@), end)),
        exists|end: Seq<u8>| #[trigger] sends(discover@, "range_end"@, end),
        exists|end: Seq<u8>| #[trigger] sends(list@, "range_end"@, end),
        has_only(discover@.body->Some_0, seq!["key"@, "range_end"@]),
        has_only(list@.body->Some_0, seq!["key"@, "range_end"@]),
        has_only(get@.body->Some_0, seq!["key"@]),
{
    lemma_has_only(discover@.body->Some_0, seq!["key"@, "range_end"@]);
    lemma_has_only(list@.body->Some_0, seq!["key"@, "range_end"@]);
    lemma_has_only(get@.body->Some_0, seq!["key"@]);
    reveal_strlit("key");
    reveal_strlit("range_end");
    assert("key"@.len() != "range_end"@.len());
    lemma_posts(base@, "/v3/kv/range"@, discover@.body->Some_0);
    lemma_posts(base@, "/v3/kv/range"@, list@.body->Some_0);
    lemma_posts(base@, "/v3/kv/range"@, get@.body->Some_0);
    let one = discover@.body->Some_0->Object_0;
    let two = list@.body->Some_0->Object_0;
    let three = get@.body->Some_0->Object_0;
    lemma_members(one);
    lemma_members(two);
    lemma_members(three);
    assert(one[0].0 == "key"@ && one[1].0 == "range_end"@);
    assert(two[0].0 == "key"@ && two[1].0 == "range_end"@);
    assert(three[0].0 == "key"@);
    assert(sends(discover@, "range_end"@, successor(encode_utf8(service_prefix@))));
    assert(sends(list@, "range_end"@, successor(encode_utf8(all@))));
    assert forall|key: Seq<char>, end: Seq<u8>| sends(discover@, "range_end"@, end) implies (
    #[trigger] service_prefix@.is_prefix_of(key) <==> #[trigger] in_range(
        encode_utf8(key),
        encode_utf8(service_prefix@),
        end,
    )) by {
        scan_covers_texts(service_prefix@, key);
    }
    assert forall|key: Seq<char>, end: Seq<u8>| sends(list@, "range_end"@, end) implies (
    #[trigger] all@.is_prefix_of(key) <==> #[trigger] in_range(
        encode_utf8(key),
        encode_utf8(all@),
        end,
    )) by {
        scan_covers_texts(all@, key);
    }
}

/// An operation that writes sends the key and the value that it was given, attached to the lease
/// that it was given; one that deletes sends the key.
pub proof fn operations_send_what_they_were_given(
    key: &str,
    value: &str,
    lease_id: &str,
    put: Json,
    delete: Json,
)
    requires
        call_ensures(put_op, (key, value, lease_id), put),
        call_ensures(delete_op, (key,), delete),
    ensures
        member(put@, "requestPut"@) matches Some(sent) && puts(sent, key@, value@, lease_id@),
        member(put@, "requestDeleteRange"@) is None,
        member(delete@, "requestDeleteRange"@) matches Some(sent) && bytes_of(
            sent,
            "key"@,
        ) == Some(encode_utf8(key@)) && has_only(sent, seq!["key"@]),
        member(delete@, "requestPut"@) is None,
        has_only(put@, seq!["requestPut"@]),
        has_only(delete@, seq!["requestDeleteRange"@]),
{
    lemma_has_only(put@, seq!["requestPut"@]);
    lemma_has_only(delete@, seq!["requestDeleteRange"@]);
    lemma_has_only(put@->Object_0[0].1, seq!["key"@, "value"@, "lease"@]);
    lemma_has_only(delete@->Object_0[0].1, seq!["key"@]);
    reveal_strlit("requestPut");
    reveal_strlit("requestDeleteRange");
    assert("requestPut"@.len() != "requestDeleteRange"@.len());
    lemma_members(put@->Object_0);
    lemma_members(delete@->Object_0);
    assert(put@->Object_0[0].0 == "requestPut"@);
    assert(delete@->Object_0[0].0 == "requestDeleteRange"@);
    let fields = put@->Object_0[0].1->Object_0;
    reveal_strlit("key");
    reveal_strlit("value");
    reveal_strlit("lease");
    assert("lease"@[0] != "value"@[0] && "key"@.len() == 3 && "value"@.len() == 5 && "lease"@.len()
        == 5);
    lemma_members(fields);
    assert(fields[0].0 == "key"@ && fields[1].0 == "value"@ && fields[2].0 == "lease"@);
    let range = delete@->Object_0[0].1->Object_0;
    lemma_members(range);
    assert(range[0].0 == "key"@);
}

/// The bytes that the member `name` of `json` stands for in base64, if there is such a member.
pub open spec fn bytes_of(json: JsonView, name: Seq<char>) -> Option<Seq<u8>> {
    match member(json, name) {
        Some(JsonView::Text(text)) => match base64_decoded(text) {
            Ok(bytes) => Some(bytes),
            Err(_) => None,
        },
        _ => None,
    }
}

/// `put` writes `value` under `key`, attached to the lease `lease_id`, and asks for nothing else.
pub open spec fn puts(
    put: JsonView,
    key: Seq<char>,
    value: Seq<char>,
    lease_id: Seq<char>,
) -> bool {
    &&& bytes_of(put, "key"@) == Some(encode_utf8(key))
    &&& bytes_of(put, "value"@) == Some(encode_utf8(value))
    &&& member(put, "lease"@) == Some(JsonView::Text(lease_id))
    &&& has_only(put, seq!["key"@, "value"@, "lease"@])
}

/// A transaction sends its operations, all of them and in their order, in one request.
pub proof fn transaction_sends_all_operations(
    etcd: EtcdDiscovery,
    base: &str,
    prefix: &str,
    operations: Vec<Json>,
    request: Request,
)
    requires
        made_with(etcd, base, prefix),
        call_ensures(EtcdDiscovery::txn_request, (&etcd, operations), request),
    ensures
        posts_to(request@, base@, "/v3/kv/txn"@),
        member(request@.body->Some_0, "success"@) matches Some(JsonView::List(sent)) && sent.len()
            == operations@.len() && forall|i: int|
            0 <= i < sent.len() ==> #[trigger] sent[i] == operations@[i]@,
        has_only(request@.body->Some_0, seq!["success"@]),
{
    lemma_has_only(request@.body->Some_0, seq!["success"@]);
    lemma_posts(base@, "/v3/kv/txn"@, request@.body->Some_0);
    let members = request@.body->Some_0->Object_0;
    lemma_members(members);
    assert(members[0].0 == "success"@);
}

/// `told` ends with the body of a refusal, or says that it is unknown.
pub open spec fn ends_with_body(told: Seq<char>, text: Option<String>) -> bool {
    match text {
        Some(body) => body@.is_suffix_of(told),
        None => "Unknown error"@.is_suffix_of(told),
    }
}

/// `told` is `head`, and behind it the body of a refusal, or that it is unknown.
pub open spec fn tells_body(told: Seq<char>, head: Seq<char>, text: Option<String>) -> bool {
    match text {
        Some(body) => is_made_of(told, seq![head, body@]),
        None => is_made_of(told, seq![head, "Unknown error"@]),
    }
}

/// One text behind another is made of both.
pub proof fn lemma_two_parts(head: Seq<char>, tail: Seq<char>)
    ensures
        is_made_of(head + tail, seq![head, tail]),
{
    lemma_one_part(tail);
    lemma_made_of(head + tail, head, seq![tail], tail);
    assert(seq![head] + seq![tail] =~= seq![head, tail]);
}

/// What comes last in a text is what it ends with.
pub proof fn lemma_suffix(head: Seq<char>, tail: Seq<char>)
    ensures
        tail.is_suffix_of(head + tail),
{
    let whole = head + tail;
    assert(tail =~= whole.subrange((whole.len() - tail.len()) as int, whole.len() as int));
}

/// A transaction and a revocation succeed if and only if they were accepted; a refusal is told
/// with its body, and a loss with its message.
pub proof fn writes_succeed_where_accepted<T>(
    reply: Reply<T>,
    written: Result<(), DiscoveryError>,
    revoked: Result<(), DiscoveryError>,
)
    requires
        call_ensures(txn_reply::<T>, (reply,), written),
        call_ensures(revoke_lease_reply::<T>, (reply,), revoked),
    ensures
        written is Ok <==> reply is Accepted,
        revoked is Ok <==> reply is Accepted,
        reply matches Reply::Lost(message) ==> (written matches Err(DiscoveryError::Http(told))
            && told@ == message@),
        reply matches Reply::Lost(message) ==> (revoked matches Err(DiscoveryError::Http(told))
            && told@ == message@),
        reply matches Reply::Refused { status, text } ==> (written matches Err(
            DiscoveryError::InvalidConfiguration(told),
        ) && ends_with_body(told@, text) && tells_body(told@, "etcd transaction failed: "@, text)),
        reply matches Reply::Refused { status, text } ==> (revoked matches Err(
            DiscoveryError::DeregistrationFailed(told),
        ) && ends_with_body(told@, text) && tells_body(told@, "etcd lease revoke failed: "@, text)),
{
    if let Reply::Refused { status, text } = reply {
        let body = match text {
            Some(body) => body@,
            None => "Unknown error"@,
        };
        lemma_suffix("etcd transaction failed: "@, body);
        lemma_suffix("etcd lease revoke failed: "@, body);
        lemma_two_parts("etcd transaction failed: "@, body);
        lemma_two_parts("etcd lease revoke failed: "@, body);
    }
}

/// The lease that is granted is the one that the reply names by its ID, as a text or as a number,
/// and zero names none. Where none is named the registration fails, and the whole reply is told.
pub proof fn granted_lease_is_the_named_one(
    reply: Reply<Vec<u8>>,
    lease: Result<String, DiscoveryError>,
)
    requires
        call_ensures(grant_lease_reply, (reply,), lease),
    ensures
        lease matches Ok(id) ==> id@ != "0"@ && (reply matches Reply::Accepted(Ok(body)) && (
        document_member(body@, "ID"@) == Ok::<MemberView, Seq<char>>(MemberView::Text(id@))
            || document_member(body@, "ID"@) == Ok::<MemberView, Seq<char>>(
            MemberView::Number(id@),
        ))),
        reply matches Reply::Accepted(Ok(body)) ==> (document_member(body@, "ID"@) matches Ok(
            MemberView::Text(id),
        ) ==> id != "0"@ ==> lease is Ok),
        reply matches Reply::Accepted(Ok(body)) ==> (document_member(body@, "ID"@) matches Ok(
            MemberView::Number(id),
        ) ==> id != "0"@ ==> lease is Ok),
        reply matches Reply::Accepted(Ok(body)) ==> (document_member(body@, "ID"@) is Ok && lease is Err
            ==> (lease matches Err(DiscoveryError::RegistrationFailed(told)) && document_text(
            body@,
        )->Ok_0.is_suffix_of(told@) && is_made_of(
            told@,
            seq!["etcd lease grant returned no usable lease id: "@, document_text(body@)->Ok_0],
        ))),
        reply matches Reply::Accepted(Ok(body)) ==> (document_member(body@, "ID"@) is Err ==> (
        lease matches Err(DiscoveryError::Http(told)) && told@ == "error decoding response body"@)),
        reply matches Reply::Accepted(Err(message)) ==> (lease matches Err(DiscoveryError::Http(told))
            && told@ == message@),
        reply matches Reply::Lost(message) ==> (lease matches Err(DiscoveryError::Http(told))
            && told@ == message@),
        reply matches Reply::Refused { status, text } ==> (lease matches Err(
            DiscoveryError::RegistrationFailed(told),
        ) && ends_with_body(told@, text) && tells_body(told@, "etcd lease grant failed: "@, text)),
{
    if let Reply::Refused { status, text } = reply {
        let body = match text {
            Some(body) => body@,
            None => "Unknown error"@,
        };
        lemma_suffix("etcd lease grant failed: "@, body);
        lemma_two_parts("etcd lease grant failed: "@, body);
    }
    if let Reply::Accepted(Ok(body)) = reply {
        lemma_suffix(
            "etcd lease grant returned no usable lease id: "@,
            document_text(body@)->Ok_0,
        );
        lemma_two_parts(
            "etcd lease grant returned no usable lease id: "@,
            document_text(body@)->Ok_0,
        );
    }
}

/// A lease id is taken as it was read.
pub proof fn lease_id_is_taken_as_read(
    member: Result<Member, String>,
    text: Result<String, String>,
    lease: Result<String, DiscoveryError>,
)
    requires
        call_ensures(named_lease_id, (member, text), lease),
    ensures
        lease matches Ok(id) ==> id@ != "0"@ && ((member matches Ok(Member::Text(read)) && read@
            == id@) || (member matches Ok(Member::Number(read)) && read@ == id@)),
        member matches Ok(Member::Text(read)) ==> read@ != "0"@ ==> lease is Ok,
        member matches Ok(Member::Number(read)) ==> read@ != "0"@ ==> lease is Ok,
        member is Err ==> (lease matches Err(DiscoveryError::Http(told)) && told@
            == "error decoding response body"@),
        member is Ok && text is Err && lease is Err ==> (lease matches Err(DiscoveryError::Http(told))
            && told@ == "error decoding response body"@),
        member is Ok && text is Ok && lease is Err ==> (lease matches Err(
            DiscoveryError::RegistrationFailed(told),
        ) && text->Ok_0@.is_suffix_of(told@) && is_made_of(
            told@,
            seq!["etcd lease grant returned no usable lease id: "@, text->Ok_0@],
        )),
{
    if let Ok(shown) = text {
        lemma_suffix("etcd lease grant returned no usable lease id: "@, shown@);
        lemma_two_parts("etcd lease grant returned no usable lease id: "@, shown@);
    }
}

/// `part` stands somewhere in `text`.
pub open spec fn holds(text: Seq<char>, part: Seq<char>) -> bool {
    exists|at: int|
        0 <= at && at + part.len() <= text.len() && #[trigger] text.subrange(at, at + part.len())
            == part
}

/// What is told of a refused lookup is made of its four parts.
pub proof fn lemma_status_message(
    head: Seq<char>,
    part: Seq<char>,
    middle: Seq<char>,
    status: Seq<char>,
)
    ensures
        is_made_of(head + part + middle + status, seq![head, part, middle, status]),
        holds(head + part + middle + status, part),
        status.is_suffix_of(head + part + middle + status),
{
    let told = head + part + middle + status;
    let at = head.len() as int;
    assert(told.subrange(at, at + part.len()) =~= part);
    lemma_suffix(head + part + middle, status);
    lemma_two_parts(middle, status);
    lemma_made_of(part + (middle + status), part, seq![middle, status], middle + status);
    assert(seq![part] + seq![middle, status] =~= seq![part, middle, status]);
    assert(told =~= head + (part + (middle + status)));
    lemma_made_of(told, head, seq![part, middle, status], part + (middle + status));
    assert(seq![head] + seq![part, middle, status] =~= seq![head, part, middle, status]);
}

/// A scan gives the pairs that the reply holds, all of them and in their order; a lookup gives
/// the first of them, if there is one. Refusals are told with what was looked for and the status.
pub proof fn lookups_give_the_pairs_of_the_reply(
    text: &str,
    reply: Reply<Option<Vec<EtcdKV>>>,
    scanned: Result<Vec<EtcdKV>, DiscoveryError>,
    found: Result<Option<EtcdKV>, DiscoveryError>,
)
    requires
        call_ensures(scan_prefix_reply, (text, reply), scanned),
        call_ensures(get_key_reply, (text, reply), found),
    ensures
        reply matches Reply::Accepted(Ok(Some(kvs))) ==> (scanned matches Ok(list) && list@.len()
            == kvs@.len() && forall|i: int|
            0 <= i < kvs@.len() ==> (#[trigger] list@[i]).key@ == kvs@[i].key@ && list@[i].value@
                == kvs@[i].value@),
        reply matches Reply::Accepted(Ok(Some(kvs))) ==> (if kvs@.len() > 0 {
            found matches Ok(Some(kv)) && kv.key@ == kvs@[0].key@ && kv.value@ == kvs@[0].value@
        } else {
            found matches Ok(None)
        }),
        reply matches Reply::Accepted(Ok(None)) ==> (scanned matches Ok(list) && list@.len() == 0),
        reply matches Reply::Accepted(Ok(None)) ==> found matches Ok(None),
        reply matches Reply::Accepted(Err(message)) ==> (scanned matches Err(
            DiscoveryError::Http(told),
        ) && told@ == message@),
        reply matches Reply::Accepted(Err(message)) ==> (found matches Err(DiscoveryError::Http(told))
            && told@ == message@),
        reply matches Reply::Lost(message) ==> (scanned matches Err(DiscoveryError::Http(told))
            && told@ == message@),
        reply matches Reply::Lost(message) ==> (found matches Err(DiscoveryError::Http(told))
            && told@ == message@),
        reply matches Reply::Refused { status, text: _ } ==> (scanned matches Err(
            DiscoveryError::InvalidConfiguration(told),
        ) && holds(told@, text@) && status@.is_suffix_of(told@) && is_made_of(
            told@,
            seq!["etcd range scan over "@, text@, " failed with status "@, status@],
        )),
        reply matches Reply::Refused { status, text: _ } ==> (found matches Err(
            DiscoveryError::InvalidConfiguration(told),
        ) && holds(told@, text@) && status@.is_suffix_of(told@) && is_made_of(
            told@,
            seq!["etcd point get for "@, text@, " failed with status "@, status@],
        )),
{
    if let Reply::Refused { status, text: _ } = reply {
        lemma_status_message(
            "etcd range scan over "@,
            text@,
            " failed with status "@,
            status@,
        );
        lemma_status_message("etcd point get for "@, text@, " failed with status "@, status@);
    }
    if let Reply::Accepted(Ok(Some(kvs))) = reply {
        let list = scanned->Ok_0;
        let a = kv_views(list@);
        let b = kv_views(kvs@);
        assert(a == b);
        assert(a.len() == list@.len() && b.len() == kvs@.len());
        assert forall|i: int| 0 <= i < kvs@.len() implies (#[trigger] list@[i]).key@ == kvs@[i].key@
            && list@[i].value@ == kvs@[i].value@ by {
            assert(a[i] == b[i]);
        }
    }
    if let Reply::Accepted(Ok(None)) = reply {
        assert(kv_views(scanned->Ok_0@).len() == scanned->Ok_0@.len());
    }
}

/// What a text stands for: the bytes of its base64 form are the UTF-8 form of the result. What is
/// encoded is read again.
pub proof fn texts_stand_for_their_bytes(
    text: &str,
    encoded: String,
    given: &str,
    decoded: Result<String, String>,
    again: Result<String, String>,
)
    requires
        call_ensures(encode_text, (text,), encoded),
        call_ensures(decode_text, (given,), decoded),
        given@ == encoded@ ==> call_ensures(decode_text, (given,), again),
    ensures
        base64_decoded(encoded@) == Ok::<Seq<u8>, Seq<char>>(encode_utf8(text@)),
        decoded matches Ok(found) ==> base64_decoded(given@) == Ok::<Seq<u8>, Seq<char>>(
            encode_utf8(found@),
        ),
        base64_decoded(given@) matches Err(message) ==> (decoded matches Err(told) && told@
            == message),
        base64_decoded(given@) matches Ok(bytes) ==> (if valid_utf8(bytes) {
            decoded is Ok
        } else {
            decoded matches Err(told) && told@ == utf8_fault(bytes)
        }),
        given@ == encoded@ ==> (again matches Ok(found) && found@ == text@),
{
    if let Ok(bytes) = base64_decoded(given@) {
        if valid_utf8(bytes) {
            decode_utf8_encode_utf8(bytes);
        }
    }
    lemma_text_arrives(text@);
}

/// A pair stands for the key and the value that its two texts stand for; the first that stands
/// for nothing is told.
pub proof fn pair_stands_for_its_texts(
    kv: EtcdKV,
    pair: Result<(String, String), DiscoveryError>,
    key: Result<String, String>,
    value: Result<String, String>,
    both: Result<(String, String), DiscoveryError>,
)
    requires
        call_ensures(decode_kv, (kv,), pair),
        call_ensures(decoded_pair, (key, value), both),
    ensures
        pair matches Ok((k, v)) ==> base64_decoded(kv.key@) == Ok::<Seq<u8>, Seq<char>>(
            encode_utf8(k@),
        ) && base64_decoded(kv.value@) == Ok::<Seq<u8>, Seq<char>>(encode_utf8(v@)),
        pair is Err ==> pair matches Err(DiscoveryError::InvalidConfiguration(_)),
        base64_decoded(kv.key@) matches Err(message) ==> (pair matches Err(
            DiscoveryError::InvalidConfiguration(told),
        ) && told@ == message),
        both matches Ok((k, v)) ==> k@ == key->Ok_0@ && v@ == value->Ok_0@,
        both is Ok <==> key is Ok && value is Ok,
        key matches Err(message) ==> (both matches Err(DiscoveryError::InvalidConfiguration(told))
            && told@ == message@),
        key is Ok ==> (value matches Err(message) ==> (both matches Err(
            DiscoveryError::InvalidConfiguration(told),
        ) && told@ == message@)),
{
    if let Ok(bytes) = base64_decoded(kv.key@) {
        if valid_utf8(bytes) {
            decode_utf8_encode_utf8(bytes);
        }
    }
    if let Ok(bytes) = base64_decoded(kv.value@) {
        if valid_utf8(bytes) {
            decode_utf8_encode_utf8(bytes);
        }
    }
}

} // verus!
