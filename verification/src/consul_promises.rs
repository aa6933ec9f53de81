//! What the operations on Consul promise, from what they are given to what comes out.
use crate::address::{
    all_plain, bare, bytes_size, continued, continued_with_pair, dots, fits, has_segments,
    hierarchical, names_file, path_end, rooted, segments_size, slices, special, steady, until,
    url_fits, url_joined, url_parsed, url_queried,
};
use crate::consul::{
    checked_url, deregister_reply, described, described_instance, discover_reply, get_service_reply,
    list_services_reply, register_reply, registration_document, registration_payload,
    ConsulDiscovery, ConsulServiceDetail,
};
use crate::document::document_keys;
use crate::error::DiscoveryError;
use crate::etcd_promises::{has_only, lemma_has_only};
use crate::http::{Method, Reply, Request};
use crate::json::{Json, JsonView};
use crate::names::texts;
use crate::service::{instances, ServiceInstance};
use crate::service_promises::same_texts;
use crate::store::{lemma_members, member};
use vstd::prelude::*;
use vstd::utf8::encode_utf8;

verus! {

/// `json` is a list of the texts `items`, in their order.
pub open spec fn lists_texts(json: JsonView, items: Seq<String>) -> bool {
    json matches JsonView::List(list) && list.len() == items.len() && forall|i: int|
        0 <= i < items.len() ==> #[trigger] list[i] == JsonView::Text(items[i]@)
}

/// The document `json` tells Consul each field of `service`: its id, name, address, port, tags
/// and metadata, whatever else it tells.
pub open spec fn tells_the_instance(json: JsonView, service: ServiceInstance) -> bool {
    &&& member(json, "ID"@) == Some(JsonView::Text(service.id@))
    &&& member(json, "Name"@) == Some(JsonView::Text(service.name@))
    &&& member(json, "Address"@) == Some(JsonView::Text(service.address@))
    &&& member(json, "Port"@) == Some(JsonView::Number(service.port as nat))
    &&& member(json, "Tags"@) matches Some(tags) && lists_texts(tags, service.tags@)
    &&& member(json, "Meta"@) matches Some(JsonView::Texts(meta)) && (forall|key: Seq<char>| #[trigger]
        meta.contains_key(key) <==> service.metadata@.contains_key(key)) && (forall|
        key: Seq<char>,
    | #[trigger]
        meta.contains_key(key) ==> meta[key] == service.metadata@[key]@)
}

/// The document `json` asks for a health check if and only if there is one in `url`: by HTTP at
/// that URL, every ten seconds, with five seconds to answer. It has the fields of an instance
/// besides, and no others.
pub open spec fn asks_for_the_check(json: JsonView, url: Option<String>) -> bool {
    match url {
        None => member(json, "Check"@) is None && has_only(
            json,
            seq!["ID"@, "Name"@, "Address"@, "Port"@, "Tags"@, "Meta"@],
        ),
        Some(url) => member(json, "Check"@) matches Some(check) && member(check, "HTTP"@) == Some(
            JsonView::Text(url@),
        ) && member(check, "Interval"@) == Some(JsonView::Text("10s"@)) && member(
            check,
            "Timeout"@,
        ) == Some(JsonView::Text("5s"@)) && has_only(
            check,
            seq!["HTTP"@, "Interval"@, "Timeout"@],
        ) && has_only(
            json,
            seq!["ID"@, "Name"@, "Address"@, "Port"@, "Tags"@, "Meta"@, "Check"@],
        ),
    }
}

proof fn lemma_document(service: ServiceInstance)
    ensures
        tells_the_instance(registration_document(service@), service),
        asks_for_the_check(registration_document(service@), service.health_check_url),
{
    reveal_strlit("ID");
    reveal_strlit("Name");
    reveal_strlit("Address");
    reveal_strlit("Port");
    reveal_strlit("Tags");
    reveal_strlit("Meta");
    reveal_strlit("Check");
    reveal_strlit("HTTP");
    reveal_strlit("Interval");
    reveal_strlit("Timeout");
    assert("Name"@[0] == 'N' && "Port"@[0] == 'P' && "Tags"@[0] == 'T' && "Meta"@[0] == 'M');
    assert("ID"@.len() == 2 && "Address"@.len() == 7 && "Check"@.len() == 5);
    assert("HTTP"@.len() == 4 && "Interval"@.len() == 8 && "Timeout"@.len() == 7);
    let json = registration_document(service@);
    let members = json->Object_0;
    lemma_members(members);
    if let Some(url) = service.health_check_url {
        let check = member(json, "Check"@)->Some_0;
        let parts = check->Object_0;
        assert(members[6].0 == "Check"@);
        lemma_members(parts);
        assert(parts[0].0 == "HTTP"@);
        lemma_has_only(check, seq!["HTTP"@, "Interval"@, "Timeout"@]);
        lemma_has_only(
            json,
            seq!["ID"@, "Name"@, "Address"@, "Port"@, "Tags"@, "Meta"@, "Check"@],
        );
    } else {
        lemma_has_only(json, seq!["ID"@, "Name"@, "Address"@, "Port"@, "Tags"@, "Meta"@]);
    }
    let tags = members[4].1;
    assert(lists_texts(tags, service.tags@));
    assert forall|key: Seq<char>| #[trigger]
        service@.metadata.contains_key(key) <==> service.metadata@.contains_key(key) by {}
    assert forall|key: Seq<char>| #[trigger] service@.metadata.contains_key(key) implies
        service@.metadata[key] == service.metadata@[key]@ by {}
}

/// A registration tells Consul each field of the instance, whether it has a health check or not,
/// and asks for a check if and only if it has one.
pub proof fn registration_tells_the_instance(
    consul: ConsulDiscovery,
    service: ServiceInstance,
    plan: Option<Result<Request, DiscoveryError>>,
    request: Request,
    document: Json,
)
    requires
        call_ensures(ConsulDiscovery::register_request, (&consul, &service), plan),
        plan matches Some(Ok(sent)) && sent == request,
        call_ensures(registration_payload, (&service,), document),
    ensures
        request.method == Method::Put,
        request.body matches Some(body) && tells_the_instance(body@, service)
            && asks_for_the_check(body@, service.health_check_url) && body@ == document@,
        tells_the_instance(document@, service),
        asks_for_the_check(document@, service.health_check_url),
{
    lemma_document(service);
}

/// A health check only adds to what a registration tells: of an instance with one and the same
/// instance without, the same fields are told, and nothing but the check besides.
pub proof fn health_check_only_adds(
    service: ServiceInstance,
    url: &str,
    checked: ServiceInstance,
    without: Json,
    with: Json,
    name: Seq<char>,
)
    requires
        service.health_check_url is None,
        call_ensures(ServiceInstance::with_health_check, (service, url), checked),
        call_ensures(registration_payload, (&service,), without),
        call_ensures(registration_payload, (&checked,), with),
        name != "Check"@,
    ensures
        member(with@, name) == member(without@, name),
        member(without@, "Check"@) is None,
        member(with@, "Check"@) is Some,
{
    lemma_document(service);
    lemma_document(checked);
    let fewer = without@->Object_0;
    let more = with@->Object_0;
    assert(service@.tags == checked@.tags && service@.metadata == checked@.metadata);
    assert(more.drop_last() =~= fewer);
    assert(more.last().0 == "Check"@);
}

/// The base URL that a client was made with is the one that its requests go to.
pub open spec fn made_with(consul: ConsulDiscovery, base: &str) -> bool {
    exists|made: Result<ConsulDiscovery, DiscoveryError>| #[trigger]
        call_ensures(ConsulDiscovery::new, (base,), made) && made == Ok::<
            ConsulDiscovery,
            DiscoveryError,
        >(consul)
}

/// Making a client never fails.
pub proof fn client_is_made(base: &str, made: Result<ConsulDiscovery, DiscoveryError>)
    requires
        call_ensures(ConsulDiscovery::new, (base,), made),
    ensures
        made is Ok,
        made_with(made->Ok_0, base),
{
}

/// The requests for one id: to take it away or to look it up. Each goes to the base URL that the
/// client was made with, and the id is the last segment of its path, unless it is dots or comes
/// to dots.
pub proof fn id_is_the_last_segment(
    consul: ConsulDiscovery,
    base: &str,
    service_id: &str,
    deregister: Option<Result<Request, DiscoveryError>>,
    get: Option<Result<Request, DiscoveryError>>,
)
    requires
        made_with(consul, base),
        steady(service_id@),
        !dots(service_id@),
        call_ensures(ConsulDiscovery::deregister_request, (&consul, service_id), deregister),
        call_ensures(ConsulDiscovery::get_service_request, (&consul, service_id), get),
    ensures
        deregister matches Some(Ok(request)) ==> request.method == Method::Put && request.body is None
            && continued(
            request.url@,
            url_parsed(base@)->Ok_0,
            seq!["v1"@, "agent"@, "service"@, "deregister"@, service_id@],
        ),
        get matches Some(Ok(request)) ==> request.method == Method::Get && request.body is None
            && continued(
            request.url@,
            url_parsed(base@)->Ok_0,
            seq!["v1"@, "agent"@, "service"@, service_id@],
        ),
{
    assert(seq!["v1"@, "agent"@, "service"@, "deregister"@].push(service_id@) =~= seq![
        "v1"@,
        "agent"@,
        "service"@,
        "deregister"@,
        service_id@,
    ]);
    assert(seq!["v1"@, "agent"@, "service"@].push(service_id@) =~= seq![
        "v1"@,
        "agent"@,
        "service"@,
        service_id@,
    ]);
}

/// An id or a name that is dots adds nothing to a path: the requests for it go to the path before
/// it.
pub proof fn dots_add_nothing_to_a_path(
    consul: ConsulDiscovery,
    base: &str,
    text: &str,
    deregister: Option<Result<Request, DiscoveryError>>,
    get: Option<Result<Request, DiscoveryError>>,
    discover: Option<Result<Request, DiscoveryError>>,
)
    requires
        made_with(consul, base),
        dots(text@),
        call_ensures(ConsulDiscovery::deregister_request, (&consul, text), deregister),
        call_ensures(ConsulDiscovery::get_service_request, (&consul, text), get),
        call_ensures(ConsulDiscovery::discover_request, (&consul, text), discover),
    ensures
        deregister matches Some(Ok(request)) ==> continued(
            request.url@,
            url_parsed(base@)->Ok_0,
            seq!["v1"@, "agent"@, "service"@, "deregister"@],
        ),
        get matches Some(Ok(request)) ==> continued(
            request.url@,
            url_parsed(base@)->Ok_0,
            seq!["v1"@, "agent"@, "service"@],
        ),
        discover matches Some(Ok(request)) ==> continued_with_pair(
            request.url@,
            url_parsed(base@)->Ok_0,
            seq!["v1"@, "health"@, "service"@],
            "passing"@,
            "true"@,
        ),
{
}

/// Whatever the id or the name, a request goes to the URL that comes of joining its path to the
/// base URL that the client was made with.
pub proof fn requests_go_to_the_joined_url(
    consul: ConsulDiscovery,
    base: &str,
    text: &str,
    deregister: Option<Result<Request, DiscoveryError>>,
    get: Option<Result<Request, DiscoveryError>>,
    discover: Option<Result<Request, DiscoveryError>>,
)
    requires
        made_with(consul, base),
        call_ensures(ConsulDiscovery::deregister_request, (&consul, text), deregister),
        call_ensures(ConsulDiscovery::get_service_request, (&consul, text), get),
        call_ensures(ConsulDiscovery::discover_request, (&consul, text), discover),
    ensures
        deregister matches Some(Ok(request)) ==> request.method == Method::Put && request.body is None
            && url_joined(base@, seq!["v1"@, "agent"@, "service"@, "deregister"@, text@]) == Some(
            request.url@,
        ),
        get matches Some(Ok(request)) ==> request.method == Method::Get && request.body is None
            && url_joined(base@, seq!["v1"@, "agent"@, "service"@, text@]) == Some(request.url@),
        discover matches Some(Ok(request)) ==> request.method == Method::Get && request.body is None
            && url_queried(
            base@,
            seq!["v1"@, "health"@, "service"@, text@],
            "passing"@,
            "true"@,
        ) == Some(request.url@),
{
}

/// A request of any method goes with its body to the URL of its segments, which is the one that
/// they are joined to; both fail where the base URL calls for it.
pub proof fn request_carries_what_it_was_given(
    consul: ConsulDiscovery,
    base: &str,
    method: Method,
    segments: &[&str],
    body: Option<Json>,
    plan: Option<Result<Request, DiscoveryError>>,
    url: Result<String, DiscoveryError>,
)
    requires
        made_with(consul, base),
        call_ensures(ConsulDiscovery::request, (&consul, method, segments, body), plan),
        call_ensures(ConsulDiscovery::build_url, (&consul, segments), url),
    ensures
        plan is Some <==> url_fits(base@, slices(segments@), None),
        plan matches Some(Ok(request)) ==> request.method == method && (url matches Ok(found)
            && request.url@ == found@) && (match body {
            Some(given) => request.body matches Some(sent) && sent@ == given@,
            None => request.body is None,
        }),
        plan matches Some(Err(error)) ==> (url matches Err(told) && told@ == error@),
        fails_by_base(plan, base@),
        succeeds_by_base(plan, base@),
        url is Ok <==> has_segments(base@),
        url matches Ok(found) ==> url_joined(base@, slices(segments@)) == Some(found@),
        url matches Ok(found) ==> (all_plain(slices(segments@)) && !names_file(
            url_parsed(base@)->Ok_0,
        ) ==> continued(found@, url_parsed(base@)->Ok_0, slices(segments@))),
{
}

/// How many bytes of a URL `segments` can take at most: a slash for each, and three bytes for
/// each byte of theirs.
pub open spec fn most_bytes(segments: Seq<Seq<char>>) -> nat
    decreases segments.len(),
{
    if segments.len() == 0 {
        0
    } else {
        1 + 3 * encode_utf8(segments[0]).len() + most_bytes(segments.drop_first())
    }
}

/// How many of `bytes` are no tabs and no line breaks.
pub open spec fn kept_bytes(bytes: Seq<u8>) -> nat
    decreases bytes.len(),
{
    if bytes.len() == 0 {
        0
    } else {
        kept_bytes(bytes.drop_first()) + if bytes[0] == 9 || bytes[0] == 10 || bytes[0] == 13 {
            0nat
        } else {
            1nat
        }
    }
}

/// How many bytes of a URL `segments` take at least: the bytes that URLs keep, of the segments
/// that are not dots.
pub open spec fn least_bytes(segments: Seq<Seq<char>>) -> nat
    decreases segments.len(),
{
    if segments.len() == 0 {
        0
    } else {
        least_bytes(segments.drop_first()) + if dots(segments[0]) {
            0
        } else {
            kept_bytes(encode_utf8(segments[0]))
        }
    }
}

proof fn lemma_bytes_size(bytes: Seq<u8>, special: bool)
    ensures
        kept_bytes(bytes) <= bytes_size(bytes, special) <= 3 * bytes.len(),
    decreases bytes.len(),
{
    if bytes.len() > 0 {
        lemma_bytes_size(bytes.drop_first(), special);
    }
}

proof fn lemma_segments_size(segments: Seq<Seq<char>>, special: bool, rooted: bool, bare: bool)
    ensures
        least_bytes(segments) <= segments_size(segments, special, rooted, bare) <= most_bytes(
            segments,
        ),
    decreases segments.len(),
{
    if segments.len() > 0 {
        let rest = segments.drop_first();
        lemma_bytes_size(encode_utf8(segments[0]), special);
        if dots(segments[0]) {
            lemma_segments_size(rest, special, rooted, bare);
        } else {
            let size = bytes_size(encode_utf8(segments[0]), special);
            lemma_segments_size(rest, special, (rooted || bare) && size == 0, false);
        }
    }
}

proof fn lemma_until_bound(text: Seq<char>, stops: Set<char>)
    ensures
        until(text, stops) <= text.len(),
    decreases text.len(),
{
    if text.len() > 0 && !stops.contains(text[0]) {
        lemma_until_bound(text.drop_first(), stops);
    }
}

/// A URL is too long only where the base URL, its segments and its pair could come to more bytes
/// than a place in a URL can have; and one that is not leaves room for what its segments add.
pub proof fn only_very_long_urls_are_left_out(
    base: &str,
    segments: &[&str],
    pair: Option<u64>,
    fit: bool,
)
    requires
        call_ensures(fits, (base, segments, pair), fit),
    ensures
        !fit ==> (url_parsed(base@) matches Ok(url) && hierarchical(url) && url.len() + most_bytes(
            slices(segments@),
        ) + (match pair {
            Some(size) => size + 1,
            None => 0,
        }) > 0xFFFF_FFFF),
        fit ==> (url_parsed(base@) matches Ok(url) ==> hierarchical(url) ==> path_end(url)
            + least_bytes(slices(segments@)) <= 0xFFFF_FFFF),
{
    if let Ok(url) = url_parsed(base@) {
        lemma_segments_size(
            slices(segments@),
            special(url),
            rooted(url) && !names_file(url),
            bare(url),
        );
        lemma_until_bound(url, set!['?', '#']);
        lemma_until_bound(url, set!['#']);
    }
}

/// Discovery asks the base URL that the client was made with for the service of that name, and
/// for the instances that pass their checks alone.
pub proof fn discovery_asks_for_passing_instances(
    consul: ConsulDiscovery,
    base: &str,
    service_name: &str,
    plan: Option<Result<Request, DiscoveryError>>,
)
    requires
        made_with(consul, base),
        steady(service_name@),
        !dots(service_name@),
        call_ensures(ConsulDiscovery::discover_request, (&consul, service_name), plan),
    ensures
        plan matches Some(Ok(request)) ==> request.method == Method::Get && request.body is None
            && continued_with_pair(
            request.url@,
            url_parsed(base@)->Ok_0,
            seq!["v1"@, "health"@, "service"@, service_name@],
            "passing"@,
            "true"@,
        ),
{
    assert(seq!["v1"@, "health"@, "service"@].push(service_name@) =~= seq![
        "v1"@,
        "health"@,
        "service"@,
        service_name@,
    ]);
}

/// Registration goes to the agent, and the listing asks the catalog, both under the base URL that
/// the client was made with.
pub proof fn agent_and_catalog_are_asked(
    consul: ConsulDiscovery,
    base: &str,
    service: ServiceInstance,
    register: Option<Result<Request, DiscoveryError>>,
    list: Option<Result<Request, DiscoveryError>>,
)
    requires
        made_with(consul, base),
        call_ensures(ConsulDiscovery::register_request, (&consul, &service), register),
        call_ensures(ConsulDiscovery::list_services_request, (&consul,), list),
    ensures
        register matches Some(Ok(request)) ==> request.method == Method::Put && continued(
            request.url@,
            url_parsed(base@)->Ok_0,
            seq!["v1"@, "agent"@, "service"@, "register"@],
        ),
        list matches Some(Ok(request)) ==> request.method == Method::Get && request.body is None
            && continued(
            request.url@,
            url_parsed(base@)->Ok_0,
            seq!["v1"@, "catalog"@, "services"@],
        ),
{
}

/// `plan` is the error that the base URL calls for, or no error where it calls for none: its own
/// message where it is no URL, and that it cannot be a base where it has no path of segments.
pub open spec fn fails_by_base(
    plan: Option<Result<Request, DiscoveryError>>,
    base: Seq<char>,
) -> bool {
    plan matches Some(Err(error)) ==> error matches DiscoveryError::InvalidConfiguration(text) && (
    match url_parsed(base) {
        Err(message) => text@ == message,
        Ok(_) => text@ == "Consul base_url cannot be a base URL"@,
    })
}

/// `plan` is a request if and only if the base URL has a path of segments.
pub open spec fn succeeds_by_base(
    plan: Option<Result<Request, DiscoveryError>>,
    base: Seq<char>,
) -> bool {
    plan matches Some(request) ==> (request is Ok <==> has_segments(base))
}

/// Requests fail by the base URL alone, and are left out only where their URL would be too long.
pub proof fn requests_fail_by_the_base_url(
    consul: ConsulDiscovery,
    base: &str,
    service: ServiceInstance,
    text: &str,
    register: Option<Result<Request, DiscoveryError>>,
    deregister: Option<Result<Request, DiscoveryError>>,
    discover: Option<Result<Request, DiscoveryError>>,
    get: Option<Result<Request, DiscoveryError>>,
    list: Option<Result<Request, DiscoveryError>>,
)
    requires
        made_with(consul, base),
        call_ensures(ConsulDiscovery::register_request, (&consul, &service), register),
        call_ensures(ConsulDiscovery::deregister_request, (&consul, text), deregister),
        call_ensures(ConsulDiscovery::discover_request, (&consul, text), discover),
        call_ensures(ConsulDiscovery::get_service_request, (&consul, text), get),
        call_ensures(ConsulDiscovery::list_services_request, (&consul,), list),
    ensures
        fails_by_base(register, base@),
        fails_by_base(deregister, base@),
        fails_by_base(discover, base@),
        fails_by_base(get, base@),
        fails_by_base(list, base@),
        succeeds_by_base(register, base@),
        succeeds_by_base(deregister, base@),
        succeeds_by_base(discover, base@),
        succeeds_by_base(get, base@),
        succeeds_by_base(list, base@),
        register is Some <==> url_fits(
            base@,
            seq!["v1"@, "agent"@, "service"@, "register"@],
            None,
        ),
        deregister is Some <==> url_fits(
            base@,
            seq!["v1"@, "agent"@, "service"@, "deregister"@, text@],
            None,
        ),
        discover is Some <==> url_fits(
            base@,
            seq!["v1"@, "health"@, "service"@, text@],
            Some(12),
        ),
        get is Some <==> url_fits(base@, seq!["v1"@, "agent"@, "service"@, text@], None),
        list is Some <==> url_fits(base@, seq!["v1"@, "catalog"@, "services"@], None),
{
}

/// `instance` is what `detail` says, field by field: its ID, its service for a name, its address,
/// its port, its tags in their order, and its metadata, or none.
pub open spec fn is_as_described(instance: ServiceInstance, detail: ConsulServiceDetail) -> bool {
    &&& instance.id@ == detail.id@
    &&& instance.name@ == detail.service@
    &&& instance.address@ == detail.address@
    &&& instance.port == detail.port
    &&& same_texts(instance.tags@, detail.tags@)
    &&& match detail.meta {
        Some(meta) => (forall|key: Seq<char>| #[trigger]
            instance.metadata@.contains_key(key) <==> meta@.contains_key(key)) && (forall|
            key: Seq<char>,
        | #[trigger]
            instance.metadata@.contains_key(key) ==> instance.metadata@[key]@ == meta@[key]@),
        None => forall|key: Seq<char>| !(#[trigger] instance.metadata@.contains_key(key)),
    }
    &&& instance.health_check_url is None
}

proof fn lemma_described(instance: ServiceInstance, detail: ConsulServiceDetail)
    requires
        instance@ == detail@,
    ensures
        is_as_described(instance, detail),
{
    assert(instance@.tags.len() == instance.tags@.len());
    assert(detail@.tags.len() == detail.tags@.len());
    assert forall|i: int| 0 <= i < instance.tags@.len() implies (#[trigger] instance.tags@[i])@
        == detail.tags@[i]@ by {
        assert(instance@.tags[i] == detail@.tags[i]);
    }
    assert forall|key: Seq<char>| #[trigger]
        instance.metadata@.contains_key(key) <==> detail@.metadata.contains_key(key) by {
        assert(instance@.metadata.contains_key(key) <==> instance.metadata@.contains_key(key));
    }
    assert forall|key: Seq<char>| #[trigger] instance.metadata@.contains_key(key) implies
        instance.metadata@[key]@ == detail@.metadata[key] by {
        assert(instance@.metadata[key] == instance.metadata@[key]@);
    }
}

/// Discovery gives one instance for each that Consul describes, in the same order, each as it is
/// described. A lost reply, or one that cannot be read, is told with its own message, and a
/// refusal is a service that was not found, by its name.
pub proof fn discovery_gives_what_is_described(
    service_name: &str,
    reply: Reply<Vec<ConsulServiceDetail>>,
    result: Result<Vec<ServiceInstance>, DiscoveryError>,
)
    requires
        call_ensures(discover_reply, (service_name, reply), result),
    ensures
        reply matches Reply::Accepted(Ok(details)) ==> (result matches Ok(found) && found@.len()
            == details@.len() && forall|i: int|
            0 <= i < details@.len() ==> is_as_described(#[trigger] found@[i], details@[i])),
        reply matches Reply::Accepted(Err(message)) ==> (result matches Err(DiscoveryError::Http(told))
            && told@ == message@),
        reply matches Reply::Lost(message) ==> (result matches Err(DiscoveryError::Http(told))
            && told@ == message@),
        reply is Refused ==> (result matches Err(DiscoveryError::ServiceNotFound(told)) && told@
            == service_name@),
{
    if let Reply::Accepted(Ok(details)) = reply {
        let found = result->Ok_0;
        let views = instances(found@);
        let wanted = described(details@);
        assert(views == wanted);
        assert(views.len() == found@.len() && wanted.len() == details@.len());
        assert forall|i: int| 0 <= i < details@.len() implies is_as_described(
            #[trigger] found@[i],
            details@[i],
        ) by {
            assert(views[i] == wanted[i]);
            assert(views[i] == found@[i]@);
            assert(wanted[i] == details@[i]@);
            lemma_described(found@[i], details@[i]);
        }
    }
}

/// A lookup by id gives the instance as it is described, or what went wrong.
pub proof fn lookup_gives_what_is_described(
    service_id: &str,
    reply: Reply<ConsulServiceDetail>,
    result: Result<ServiceInstance, DiscoveryError>,
    detail: ConsulServiceDetail,
    instance: ServiceInstance,
)
    requires
        call_ensures(get_service_reply, (service_id, reply), result),
        call_ensures(described_instance, (detail,), instance),
    ensures
        is_as_described(instance, detail),
        reply matches Reply::Accepted(Ok(described)) ==> (result matches Ok(found)
            && is_as_described(found, described)),
        reply matches Reply::Accepted(Err(message)) ==> (result matches Err(DiscoveryError::Http(told))
            && told@ == message@),
        reply matches Reply::Lost(message) ==> (result matches Err(DiscoveryError::Http(told))
            && told@ == message@),
        reply is Refused ==> (result matches Err(DiscoveryError::ServiceNotFound(told)) && told@
            == service_id@),
{
    lemma_described(instance, detail);
    if let Reply::Accepted(Ok(described)) = reply {
        lemma_described(result->Ok_0, described);
    }
}

/// A registration and a deregistration succeed if and only if they were accepted. A refusal is
/// told with its body, and each as what it is.
pub proof fn writes_succeed_where_accepted<T>(
    reply: Reply<T>,
    registered: Result<(), DiscoveryError>,
    deregistered: Result<(), DiscoveryError>,
)
    requires
        call_ensures(register_reply::<T>, (reply,), registered),
        call_ensures(deregister_reply::<T>, (reply,), deregistered),
    ensures
        registered is Ok <==> reply is Accepted,
        deregistered is Ok <==> reply is Accepted,
        reply matches Reply::Lost(message) ==> (registered matches Err(DiscoveryError::Http(told))
            && told@ == message@),
        reply matches Reply::Lost(message) ==> (deregistered matches Err(DiscoveryError::Http(told))
            && told@ == message@),
        reply matches Reply::Refused { status, text } ==> (registered matches Err(
            DiscoveryError::RegistrationFailed(told),
        ) && (match text {
            Some(body) => told@ == body@,
            None => told@ == "Unknown error"@,
        })),
        reply matches Reply::Refused { status, text } ==> (deregistered matches Err(
            DiscoveryError::DeregistrationFailed(told),
        ) && (match text {
            Some(body) => told@ == body@,
            None => told@ == "Unknown error"@,
        })),
{
}

/// The listing gives each key of the catalog once, and nothing else.
pub proof fn listing_gives_the_keys_of_the_catalog(
    reply: Reply<Vec<u8>>,
    result: Result<Vec<String>, DiscoveryError>,
)
    requires
        call_ensures(list_services_reply, (reply,), result),
    ensures
        reply matches Reply::Accepted(Ok(body)) ==> (match document_keys(body@) {
            Ok(keys) => result matches Ok(names) && (forall|i: int|
                0 <= i < names@.len() ==> keys.contains((#[trigger] names@[i])@)) && (forall|
                key: Seq<char>,
            | #[trigger]
                keys.contains(key) ==> exists|i: int|
                    0 <= i < names@.len() && (#[trigger] names@[i])@ == key) && (forall|
                i: int,
                j: int,
            |
                0 <= i < j < names@.len() ==> (#[trigger] names@[i])@ != (#[trigger] names@[j])@),
            Err(_) => result matches Err(DiscoveryError::Http(told)) && told@
                == "error decoding response body"@,
        }),
        reply matches Reply::Accepted(Err(message)) ==> (result matches Err(DiscoveryError::Http(told))
            && told@ == message@),
        reply matches Reply::Lost(message) ==> (result matches Err(DiscoveryError::Http(told))
            && told@ == message@),
        reply is Refused ==> (result matches Err(DiscoveryError::RegistrationFailed(told)) && told@
            == "Failed to list services"@),
{
    if let Reply::Accepted(Ok(body)) = reply {
        if let Ok(keys) = document_keys(body@) {
            let names = result->Ok_0@;
            let all = texts(names);
            assert(all.to_set() == keys);
            assert forall|i: int| 0 <= i < names.len() implies keys.contains(
                (#[trigger] names[i])@,
            ) by {
                assert(all[i] == names[i]@);
                assert(all.contains(all[i]));
            }
            assert forall|key: Seq<char>| #[trigger] keys.contains(key) implies exists|i: int|
                0 <= i < names.len() && (#[trigger] names[i])@ == key by {
                assert(all.contains(key));
                let i = choose|i: int| 0 <= i < all.len() && all[i] == key;
                assert(names[i]@ == key);
            }
            assert forall|i: int, j: int| 0 <= i < j < names.len() implies (#[trigger] names[i])@ != (
            #[trigger] names[j])@ by {
                assert(all[i] == names[i]@ && all[j] == names[j]@);
            }
        }
    }
}

/// A URL is given on as it is where the base URL was parsed and could be joined.
pub proof fn joined_url_is_given_on(
    parsed: Result<String, String>,
    joined: Option<String>,
    url: Result<String, DiscoveryError>,
)
    requires
        call_ensures(checked_url, (parsed, joined), url),
    ensures
        url is Ok <==> parsed is Ok && joined is Some,
        url matches Ok(found) ==> joined matches Some(given) && found@ == given@,
        parsed matches Err(message) ==> (url matches Err(DiscoveryError::InvalidConfiguration(told))
            && told@ == message@),
        parsed is Ok && joined is None ==> (url matches Err(DiscoveryError::InvalidConfiguration(told))
            && told@ == "Consul base_url cannot be a base URL"@),
{
}

} // verus!
