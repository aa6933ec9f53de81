//! What registering with etcd and deregistering from it promise, from what is given to what is
//! sent and told.
use crate::codec::arrives;
use crate::document::{document_member, MemberView};
use crate::error::DiscoveryError;
use crate::etcd::{
    delete_operation, grant_lease_reply, put_operation, txn_reply, EtcdDiscovery,
};
use crate::etcd_promises::{
    bytes_of, ends_with_body, has_only, lemma_has_only, lemma_posts, lemma_suffix, made_with,
    posts_to, puts, says, sends,
};
use crate::http::{Reply, Request, RequestView};
use crate::json::JsonView;
use crate::lease::{Registration, Registrations};
use crate::registration::{
    deregister_reply, DeregisterStep, RegisterStep, Registering,
};
use crate::service::ServiceInstance;
use crate::store::{lemma_members, member};
use vstd::prelude::*;
use vstd::utf8::encode_utf8;

verus! {

/// The operations that the body of `request` holds.
pub open spec fn operations_of(request: RequestView) -> Seq<JsonView> {
    match request.body {
        Some(body) => match member(body, "success"@) {
            Some(JsonView::List(operations)) => operations,
            _ => Seq::empty(),
        },
        None => Seq::empty(),
    }
}

/// `operation` writes `value` under `key`, attached to the lease `lease_id`, and does nothing
/// else.
pub open spec fn writes_pair(
    operation: JsonView,
    key: Seq<char>,
    value: Seq<char>,
    lease_id: Seq<char>,
) -> bool {
    &&& member(operation, "requestPut"@) matches Some(put) && puts(put, key, value, lease_id)
    &&& has_only(operation, seq!["requestPut"@])
}

/// `operation` deletes `key`, that one alone, and does nothing else.
pub open spec fn deletes_key(operation: JsonView, key: Seq<char>) -> bool {
    &&& member(operation, "requestDeleteRange"@) matches Some(delete) && bytes_of(delete, "key"@)
        == Some(encode_utf8(key)) && has_only(delete, seq!["key"@])
    &&& has_only(operation, seq!["requestDeleteRange"@])
}

/// `lease_id` is the lease that the body of a grant names.
pub open spec fn names_lease(body: Seq<u8>, lease_id: Seq<char>) -> bool {
    &&& lease_id != "0"@
    &&& document_member(body, "ID"@) == Ok::<MemberView, Seq<char>>(MemberView::Text(lease_id))
        || document_member(body, "ID"@) == Ok::<MemberView, Seq<char>>(
        MemberView::Number(lease_id),
    )
}

proof fn lemma_writes_pair(key: Seq<char>, value: Seq<char>, lease_id: Seq<char>)
    requires
        arrives(encode_utf8(key)),
        arrives(encode_utf8(value)),
    ensures
        writes_pair(put_operation(key, value, lease_id), key, value, lease_id),
{
    let operation = put_operation(key, value, lease_id);
    let outer = operation->Object_0;
    let fields = outer[0].1->Object_0;
    reveal_strlit("key");
    reveal_strlit("value");
    reveal_strlit("lease");
    assert("lease"@[0] != "value"@[0] && "key"@.len() == 3 && "value"@.len() == 5 && "lease"@.len()
        == 5);
    lemma_members(outer);
    lemma_members(fields);
    assert(outer[0].0 == "requestPut"@);
    assert(fields[0].0 == "key"@ && fields[1].0 == "value"@ && fields[2].0 == "lease"@);
    lemma_has_only(operation, seq!["requestPut"@]);
    lemma_has_only(outer[0].1, seq!["key"@, "value"@, "lease"@]);
}

proof fn lemma_deletes_key(key: Seq<char>)
    requires
        arrives(encode_utf8(key)),
    ensures
        deletes_key(delete_operation(key), key),
{
    let operation = delete_operation(key);
    let outer = operation->Object_0;
    let fields = outer[0].1->Object_0;
    lemma_members(outer);
    lemma_members(fields);
    assert(outer[0].0 == "requestDeleteRange"@);
    assert(fields[0].0 == "key"@);
    lemma_has_only(operation, seq!["requestDeleteRange"@]);
    lemma_has_only(outer[0].1, seq!["key"@]);
}

/// A registration starts by asking for a lease, with the lifetime of the client. Where the
/// instance has no text it fails, and sends nothing.
pub proof fn registration_starts_with_a_lease(
    etcd: EtcdDiscovery,
    base: &str,
    prefix: &str,
    service: ServiceInstance,
    text: Result<String, String>,
    step: RegisterStep,
    secs: u64,
)
    requires
        made_with(etcd, base, prefix),
        call_ensures(EtcdDiscovery::register, (&etcd, &service, text), step),
        call_ensures(EtcdDiscovery::lease_ttl_secs, (&etcd,), secs),
    ensures
        text matches Err(message) ==> (step matches RegisterStep::Failed(
            DiscoveryError::InvalidConfiguration(told),
        ) && told@ == message@),
        text is Ok ==> (step matches RegisterStep::Send { request, then } && then is Granting
            && posts_to(request@, base@, "/v3/lease/grant"@) && member(
            request@.body->Some_0,
            "TTL"@,
        ) == Some(JsonView::Number(secs as nat)) && has_only(
            request@.body->Some_0,
            seq!["TTL"@],
        )),
{
    if let RegisterStep::Send { request, then } = step {
        lemma_has_only(request@.body->Some_0, seq!["TTL"@]);
        lemma_posts(base@, "/v3/lease/grant"@, request@.body->Some_0);
        let members = request@.body->Some_0->Object_0;
        lemma_members(members);
        assert(members[0].0 == "TTL"@);
    }
}

/// Where a lease is granted, one transaction writes the instance's text under its two keys, both
/// attached to the lease that was granted. Where none is, the registration fails and nothing more
/// is sent.
pub proof fn registration_writes_both_keys_under_the_lease(
    etcd: EtcdDiscovery,
    base: &str,
    prefix: &str,
    service: ServiceInstance,
    text: String,
    start: RegisterStep,
    asked: Request,
    granting: Registering,
    reply: Reply<Vec<u8>>,
    next: RegisterStep,
    name: &str,
    id: &str,
    composite_key: String,
    idx_key: String,
    lease: Result<String, DiscoveryError>,
)
    requires
        made_with(etcd, base, prefix),
        call_ensures(grant_lease_reply, (reply,), lease),
        call_ensures(EtcdDiscovery::register, (&etcd, &service, Ok(text)), start),
        start == (RegisterStep::Send { request: asked, then: granting }),
        call_ensures(EtcdDiscovery::register_reply, (&etcd, granting, reply), next),
        name@ == service.name@,
        id@ == service.id@,
        call_ensures(EtcdDiscovery::composite_key, (&etcd, name, id), composite_key),
        call_ensures(EtcdDiscovery::idx_key, (&etcd, id), idx_key),
    ensures
        next is Send || next is Failed,
        next matches RegisterStep::Send { request, then } ==> (then matches Registering::Writing {
            lease_id,
        } && (reply matches Reply::Accepted(Ok(body)) && names_lease(body@, lease_id@)) && posts_to(
            request@,
            base@,
            "/v3/kv/txn"@,
        ) && operations_of(request@).len() == 2 && writes_pair(
            operations_of(request@)[0],
            composite_key@,
            text@,
            lease_id@,
        ) && writes_pair(operations_of(request@)[1], idx_key@, text@, lease_id@) && has_only(
            request@.body->Some_0,
            seq!["success"@],
        )),
        lease matches Ok(id) ==> (next matches RegisterStep::Send { request, then } && (
        then matches Registering::Writing { lease_id } && lease_id@ == id@)),
        lease matches Err(error) ==> (next matches RegisterStep::Failed(told) && told@ == error@),
        reply matches Reply::Accepted(Ok(body)) ==> (forall|lease_id: Seq<char>| #[trigger]
            names_lease(body@, lease_id) ==> next is Send),
        reply matches Reply::Refused { status, text: _ } ==> next matches RegisterStep::Failed(
            DiscoveryError::RegistrationFailed(_),
        ),
        reply matches Reply::Lost(message) ==> (next matches RegisterStep::Failed(
            DiscoveryError::Http(told),
        ) && told@ == message@),
{
    if let RegisterStep::Send { request, then } = next {
        lemma_posts(base@, "/v3/kv/txn"@, request@.body->Some_0);
        let members = request@.body->Some_0->Object_0;
        lemma_has_only(request@.body->Some_0, seq!["success"@]);
        lemma_members(members);
        assert(members[0].0 == "success"@);
        let operations = operations_of(request@);
        let lease_id = then->lease_id@;
        lemma_writes_pair(composite_key@, text@, lease_id);
        lemma_writes_pair(idx_key@, text@, lease_id);
        assert(operations[0] == put_operation(composite_key@, text@, lease_id));
        assert(operations[1] == put_operation(idx_key@, text@, lease_id));
    }
}

/// Where the transaction is accepted the instance is registered under the lease that its keys are
/// attached to. Otherwise that lease is revoked, and whatever becomes of that, the registration
/// fails, and the failure of the transaction is told.
pub proof fn registration_ends_with_its_lease_kept_or_revoked(
    etcd: EtcdDiscovery,
    base: &str,
    prefix: &str,
    lease_id: String,
    reply: Reply<Vec<u8>>,
    next: RegisterStep,
    undoing: Registering,
    last_reply: Reply<Vec<u8>>,
    last: RegisterStep,
    written: Result<(), DiscoveryError>,
    error: DiscoveryError,
    words: String,
)
    requires
        call_ensures(txn_reply::<Vec<u8>>, (reply,), written),
        written is Err ==> written->Err_0 == error,
        call_ensures(DiscoveryError::message, (&error,), words),
        made_with(etcd, base, prefix),
        call_ensures(
            EtcdDiscovery::register_reply,
            (&etcd, Registering::Writing { lease_id }, reply),
            next,
        ),
        next matches RegisterStep::Send { request, then } ==> then == undoing,
        call_ensures(EtcdDiscovery::register_reply, (&etcd, undoing, last_reply), last),
    ensures
        reply is Accepted ==> (next matches RegisterStep::Registered { lease_id: kept } && kept@
            == lease_id@),
        !(reply is Accepted) ==> (next matches RegisterStep::Send { request, then } && posts_to(
            request@,
            base@,
            "/v3/lease/revoke"@,
        ) && says(request@, "ID"@, lease_id@) && has_only(request@.body->Some_0, seq!["ID"@])),
        !(reply is Accepted) ==> (last matches RegisterStep::Failed(
            DiscoveryError::RegistrationFailed(told),
        ) && told@ == words@ && (reply matches Reply::Lost(message) ==> message@.is_suffix_of(told@)) && (
        reply matches Reply::Refused { status, text } ==> ends_with_body(told@, text))),
{
    if let RegisterStep::Send { request, then } = next {
        lemma_posts(base@, "/v3/lease/revoke"@, request@.body->Some_0);
        let members = request@.body->Some_0->Object_0;
        lemma_has_only(request@.body->Some_0, seq!["ID"@]);
        lemma_members(members);
        assert(members[0].0 == "ID"@);
    }
    if let Reply::Lost(message) = reply {
        lemma_suffix("HTTP error: "@, message@);
    }
    if let Reply::Refused { status, text } = reply {
        let body = match text {
            Some(body) => body@,
            None => "Unknown error"@,
        };
        let told = "Invalid configuration: "@ + ("etcd transaction failed: "@ + body);
        assert(told =~= ("Invalid configuration: "@ + "etcd transaction failed: "@) + body);
        lemma_suffix("Invalid configuration: "@ + "etcd transaction failed: "@, body);
    }
}

/// Deregistering an id that this client holds stops its own task and revokes its own lease, and
/// nothing else is sent; afterwards the client holds what it held but for that id. Deregistering
/// any other id looks up the key for that id, and changes nothing that the client holds.
pub proof fn deregistration_starts_with_what_is_held<H>(
    etcd: EtcdDiscovery,
    base: &str,
    prefix: &str,
    registrations: &mut Registrations<H>,
    service_id: &str,
    step: DeregisterStep<H>,
    idx_key: String,
    other: Seq<char>,
)
    requires
        made_with(etcd, base, prefix),
        call_ensures(EtcdDiscovery::deregister::<H>, (&etcd, registrations, service_id), step),
        call_ensures(EtcdDiscovery::idx_key, (&etcd, service_id), idx_key),
        other != service_id@,
    ensures
        old(registrations)@.contains_key(service_id@) ==> (step matches DeregisterStep::Revoke {
            keep_alive,
            request,
        } && keep_alive == old(registrations)@[service_id@].keep_alive && posts_to(
            request@,
            base@,
            "/v3/lease/revoke"@,
        ) && says(request@, "ID"@, old(registrations)@[service_id@].lease_id@) && has_only(
            request@.body->Some_0,
            seq!["ID"@],
        )),
        !old(registrations)@.contains_key(service_id@) ==> (step matches DeregisterStep::Lookup {
            request,
        } && posts_to(request@, base@, "/v3/kv/range"@) && sends(
            request@,
            "key"@,
            encode_utf8(idx_key@),
        ) && has_only(request@.body->Some_0, seq!["key"@])),
        !final(registrations)@.contains_key(service_id@),
        final(registrations)@.contains_key(other) <==> old(registrations)@.contains_key(other),
        final(registrations)@.contains_key(other) ==> final(registrations)@[other] == old(
            registrations,
        )@[other],
{
    match step {
        DeregisterStep::Revoke { keep_alive, request } => {
            lemma_posts(base@, "/v3/lease/revoke"@, request@.body->Some_0);
            lemma_has_only(request@.body->Some_0, seq!["ID"@]);
            let members = request@.body->Some_0->Object_0;
            lemma_members(members);
            assert(members[0].0 == "ID"@);
        },
        DeregisterStep::Lookup { request } => {
            lemma_posts(base@, "/v3/kv/range"@, request@.body->Some_0);
            lemma_has_only(request@.body->Some_0, seq!["key"@]);
            let members = request@.body->Some_0->Object_0;
            lemma_members(members);
            assert(members[0].0 == "key"@);
        },
    }
}

/// An instance of another process that the lookup found is deleted under both of its keys, in one
/// transaction: that by its name and id, and that of the id that was asked for. An id that was
/// not found is told by itself, and a failed lookup as it failed.
pub proof fn deregistration_deletes_both_keys(
    etcd: EtcdDiscovery,
    base: &str,
    prefix: &str,
    service_id: &str,
    found: Result<Option<ServiceInstance>, DiscoveryError>,
    request: Result<Request, DiscoveryError>,
    name: &str,
    id: &str,
    composite_key: String,
    idx_key: String,
)
    requires
        made_with(etcd, base, prefix),
        call_ensures(EtcdDiscovery::deregister_found, (&etcd, service_id, found), request),
        found matches Ok(Some(instance)) ==> name@ == instance.name@ && id@ == instance.id@,
        call_ensures(EtcdDiscovery::composite_key, (&etcd, name, id), composite_key),
        call_ensures(EtcdDiscovery::idx_key, (&etcd, service_id), idx_key),
    ensures
        found matches Ok(Some(instance)) ==> (request matches Ok(erase) && posts_to(
            erase@,
            base@,
            "/v3/kv/txn"@,
        ) && operations_of(erase@).len() == 2 && deletes_key(
            operations_of(erase@)[0],
            composite_key@,
        ) && deletes_key(operations_of(erase@)[1], idx_key@) && has_only(
            erase@.body->Some_0,
            seq!["success"@],
        )),
        found matches Ok(None) ==> (request matches Err(DiscoveryError::ServiceNotFound(told))
            && told@ == service_id@),
        found matches Err(error) ==> (request matches Err(told) && told@ == error@),
{
    if let Ok(erase) = request {
        lemma_posts(base@, "/v3/kv/txn"@, erase@.body->Some_0);
        lemma_has_only(erase@.body->Some_0, seq!["success"@]);
        let members = erase@.body->Some_0->Object_0;
        lemma_members(members);
        assert(members[0].0 == "success"@);
        let operations = operations_of(erase@);
        lemma_deletes_key(composite_key@);
        lemma_deletes_key(idx_key@);
        assert(operations[0] == delete_operation(composite_key@));
        assert(operations[1] == delete_operation(idx_key@));
    }
}

/// A deregistration by deletion succeeds if and only if it was accepted, and what went wrong is
/// told.
pub proof fn deletion_succeeds_where_accepted<T>(
    reply: Reply<T>,
    result: Result<(), DiscoveryError>,
    written: Result<(), DiscoveryError>,
    error: DiscoveryError,
    words: String,
)
    requires
        call_ensures(txn_reply::<T>, (reply,), written),
        written is Err ==> written->Err_0 == error,
        call_ensures(DiscoveryError::message, (&error,), words),
        call_ensures(deregister_reply::<T>, (reply,), result),
    ensures
        result is Ok <==> reply is Accepted,
        result is Err ==> (result matches Err(DiscoveryError::DeregistrationFailed(told)) && told@
            == words@),
        reply matches Reply::Lost(message) ==> (result matches Err(
            DiscoveryError::DeregistrationFailed(told),
        ) && message@.is_suffix_of(told@)),
        reply matches Reply::Refused { status, text } ==> (result matches Err(
            DiscoveryError::DeregistrationFailed(told),
        ) && ends_with_body(told@, text)),
{
    if let Reply::Lost(message) = reply {
        lemma_suffix("HTTP error: "@, message@);
    }
    if let Reply::Refused { status, text } = reply {
        let body = match text {
            Some(body) => body@,
            None => "Unknown error"@,
        };
        let told = "Invalid configuration: "@ + ("etcd transaction failed: "@ + body);
        assert(told =~= ("Invalid configuration: "@ + "etcd transaction failed: "@) + body);
        lemma_suffix("Invalid configuration: "@ + "etcd transaction failed: "@, body);
    }
}

/// What was recorded last under an id is what is taken from it, the task that it superseded is
/// given back, and other ids are not touched.
pub proof fn recorded_registration_is_the_one_taken<H>(
    first: &mut Registrations<H>,
    service_id: &str,
    lease_id: String,
    keep_alive: H,
    superseded: Option<H>,
    second: &mut Registrations<H>,
    taken: Option<Registration<H>>,
    other: Seq<char>,
)
    requires
        call_ensures(
            Registrations::<H>::record,
            (first, service_id, lease_id, keep_alive),
            superseded,
        ),
        old(second)@ == final(first)@,
        call_ensures(Registrations::<H>::take_registration, (second, service_id), taken),
        other != service_id@,
    ensures
        taken matches Some(registration) && registration.lease_id == lease_id
            && registration.keep_alive == keep_alive,
        old(first)@.contains_key(service_id@) ==> superseded == Some(
            old(first)@[service_id@].keep_alive,
        ),
        !old(first)@.contains_key(service_id@) ==> superseded is None,
        !final(second)@.contains_key(service_id@),
        final(second)@.contains_key(other) <==> old(first)@.contains_key(other),
        final(second)@.contains_key(other) ==> final(second)@[other] == old(first)@[other],
{
}

} // verus!
