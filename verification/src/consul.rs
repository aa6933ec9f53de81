//! Consul service discovery: requests, and what the replies mean.
use crate::address::{
    all_plain, all_steady, continued, continued_with_pair, dots, fits, has_segments, join_segments,
    join_segments_and_query, kept, lemma_kept_push, lemma_stripped, names_file, parse_url,
    plain_segments_are_kept, slices, steady, url_fits, url_joined, url_parsed, url_queried,
};
use crate::document::{document_keys, read_keys};
use crate::error::{DiscoveryError, ErrorView};
use crate::http::{
    refusal, refusal_text, undecodable, undecodable_text, Method, Reply, Request, RequestView,
};
use crate::json::{text_list, Json, JsonView};
use crate::keyed::{keyed_texts, Keyed};
use crate::names::texts;
use crate::outcome::{optional, outcome};
use crate::service::{instances, InstanceView, ServiceInstance};
use vstd::prelude::*;

verus! {

/// How long any request to Consul may take, in seconds.
pub const CONSUL_REQUEST_TIMEOUT_SECS: u64 = 5;

/// How many bytes the pair `passing=true` takes in a URL.
pub const PASSING_PAIR_SIZE: u64 = 12;

/// A Consul client's settings.
pub struct ConsulDiscovery {
    base_url: String,
}

impl View for ConsulDiscovery {
    type V = Seq<char>;

    /// The base URL.
    closed spec fn view(&self) -> Seq<char> {
        self.base_url@
    }
}

/// An instance as Consul describes it.
#[derive(Debug)]
pub struct ConsulServiceDetail {
    pub id: String,
    /// The name of the service.
    pub service: String,
    pub address: String,
    pub port: u16,
    pub tags: Vec<String>,
    pub meta: Option<Keyed<String>>,
}

impl View for ConsulServiceDetail {
    type V = InstanceView;

    /// The instance that is described; it has no health check of its own.
    open spec fn view(&self) -> InstanceView {
        InstanceView {
            id: self.id@,
            name: self.service@,
            address: self.address@,
            port: self.port,
            tags: texts(self.tags@),
            metadata: match self.meta {
                Some(table) => keyed_texts(table@),
                None => Map::empty(),
            },
            health_check_url: None,
        }
    }
}

/// The instances that a list describes.
pub open spec fn described(list: Seq<ConsulServiceDetail>) -> Seq<InstanceView> {
    list.map_values(|detail: ConsulServiceDetail| detail@)
}

/// The URL of an endpoint, given what parsing the base URL gave, and the base URL with the
/// endpoint's path.
pub open spec fn url_outcome(
    parsed: Result<Seq<char>, Seq<char>>,
    joined: Option<Seq<char>>,
) -> Result<Seq<char>, ErrorView> {
    match parsed {
        Err(message) => Err(ErrorView::InvalidConfiguration(message)),
        Ok(_) => match joined {
            Some(url) => Ok(url),
            None => Err(
                ErrorView::InvalidConfiguration("Consul base_url cannot be a base URL"@),
            ),
        },
    }
}

/// The URL of the endpoint with the path `segments`.
pub open spec fn endpoint(base: Seq<char>, segments: Seq<Seq<char>>) -> Result<
    Seq<char>,
    ErrorView,
> {
    url_outcome(url_parsed(base), url_joined(base, segments))
}

/// A request to the endpoint with the path `segments`; nothing where its URL would be
/// longer than a URL can be.
pub open spec fn plan(
    base: Seq<char>,
    method: Method,
    segments: Seq<Seq<char>>,
    body: Option<JsonView>,
) -> Option<Result<RequestView, ErrorView>> {
    if url_fits(base, segments, None) {
        Some(
            match endpoint(base, segments) {
                Ok(url) => Ok(RequestView { method, url, body }),
                Err(error) => Err(error),
            },
        )
    } else {
        None
    }
}

/// The request for the instances of `service_name` whose health checks pass; nothing where its
/// URL would be longer than a URL can be.
pub open spec fn discover_plan(base: Seq<char>, service_name: Seq<char>) -> Option<
    Result<RequestView, ErrorView>,
> {
    let segments = seq!["v1"@, "health"@, "service"@, service_name];
    if url_fits(base, segments, Some(PASSING_PAIR_SIZE as nat)) {
        Some(
            match url_outcome(
                url_parsed(base),
                url_queried(base, segments, "passing"@, "true"@),
            ) {
                Ok(url) => Ok(RequestView { method: Method::Get, url, body: None }),
                Err(error) => Err(error),
            },
        )
    } else {
        None
    }
}

/// A request that may be too long, or may have no URL, by its view.
pub open spec fn planned(plan: Option<Result<Request, DiscoveryError>>) -> Option<
    Result<RequestView, ErrorView>,
> {
    match plan {
        Some(request) => Some(outcome(request)),
        None => None,
    }
}

/// The request goes to the base URL with its path continued by `segments`, one segment for each
/// of them, and with no other query or fragment than the base URL has.
pub open spec fn located(
    plan: Option<Result<RequestView, ErrorView>>,
    base: Seq<char>,
    segments: Seq<Seq<char>>,
) -> bool {
    plan matches Some(Ok(request)) ==> continued(request.url, url_parsed(base)->Ok_0, segments)
}

/// [`located`], but with `passing=true` at the end of the query.
pub open spec fn located_passing(
    plan: Option<Result<RequestView, ErrorView>>,
    base: Seq<char>,
    segments: Seq<Seq<char>>,
) -> bool {
    plan matches Some(Ok(request)) ==> continued_with_pair(
        request.url,
        url_parsed(base)->Ok_0,
        segments,
        "passing"@,
        "true"@,
    )
}

/// Whether there is a request, where its URL is not too long, depends on the base URL alone.
pub open spec fn found_by_base(
    plan: Option<Result<RequestView, ErrorView>>,
    base: Seq<char>,
) -> bool {
    plan matches Some(request) ==> (request is Ok <==> has_segments(base))
}

/// `path`, and `last` behind it unless it is dots, which add nothing to a path.
pub open spec fn path_to(path: Seq<Seq<char>>, last: Seq<char>) -> Seq<Seq<char>> {
    if dots(last) {
        path
    } else {
        path.push(last)
    }
}

/// `segment` is neither dots nor a drive letter, and holds no tab or line break.
spec fn worded(segment: Seq<char>) -> bool {
    &&& segment.len() > 2 || segment == "v1"@
    &&& !segment.contains('\t')
    &&& !segment.contains('\n')
    &&& !segment.contains('\r')
    &&& segment[0] != '.'
}

/// A path of words is kept whole, and so is a last segment behind it that is not dots.
proof fn lemma_path_of_words(path: Seq<Seq<char>>, last: Seq<char>)
    requires
        path.len() > 0,
        forall|i: int| 0 <= i < path.len() ==> worded(#[trigger] path[i]),
    ensures
        kept(path) == path,
        forall|url: Seq<char>| #[trigger] all_steady(url, path),
        kept(path.push(last)) == path_to(path, last),
        steady(last) ==> forall|url: Seq<char>| #[trigger] all_steady(url, path.push(last)),
    decreases path.len(),
{
    reveal_strlit("v1");
    let less = path.drop_last();
    assert(less.push(path.last()) =~= path);
    assert forall|i: int| 0 <= i < path.len() implies steady(#[trigger] path[i])
        && !dots(path[i]) by {
        assert(worded(path[i]));
        lemma_stripped(path[i]);
    }
    if less.len() > 0 {
        assert forall|i: int| 0 <= i < less.len() implies worded(#[trigger] less[i]) by {
            assert(worded(path[i]));
        }
        lemma_path_of_words(less, path.last());
    } else {
        assert(less =~= Seq::empty());
        reveal(Seq::filter);
        lemma_kept_push(less, path.last());
    }
    lemma_kept_push(path, last);
    assert(worded(path[0]));
    lemma_stripped(path[0]);
    let longer = path.push(last);
    if steady(last) {
        assert forall|i: int| 0 <= i < longer.len() implies steady(#[trigger] longer[i]) by {
            if i < path.len() {
                assert(longer[i] == path[i]);
            }
        }
    }
}

/// The health check that Consul performs for an instance.
pub open spec fn check_block(url: Seq<char>) -> JsonView {
    JsonView::Object(
        seq![
            ("HTTP"@, JsonView::Text(url)),
            ("Interval"@, JsonView::Text("10s"@)),
            ("Timeout"@, JsonView::Text("5s"@)),
        ],
    )
}

/// The document that registers `service`.
pub open spec fn registration_document(service: InstanceView) -> JsonView {
    let members = seq![
        ("ID"@, JsonView::Text(service.id)),
        ("Name"@, JsonView::Text(service.name)),
        ("Address"@, JsonView::Text(service.address)),
        ("Port"@, JsonView::Number(service.port as nat)),
        ("Tags"@, text_list(service.tags)),
        ("Meta"@, JsonView::Texts(service.metadata)),
    ];
    JsonView::Object(
        match service.health_check_url {
            Some(url) => members.push(("Check"@, check_block(url))),
            None => members,
        },
    )
}

/// No key of the document that registers an instance comes twice.
pub proof fn registration_keys_are_distinct(service: InstanceView, i: int, j: int)
    requires
        0 <= i < j < registration_document(service)->Object_0.len(),
    ensures
        registration_document(service)->Object_0[i].0 != registration_document(
            service,
        )->Object_0[j].0,
{
    reveal_strlit("ID");
    reveal_strlit("Name");
    reveal_strlit("Address");
    reveal_strlit("Port");
    reveal_strlit("Tags");
    reveal_strlit("Meta");
    reveal_strlit("Check");
    assert("Name"@[0] == 'N' && "Port"@[0] == 'P' && "Tags"@[0] == 'T' && "Meta"@[0] == 'M');
    assert("ID"@.len() == 2 && "Address"@.len() == 7 && "Check"@.len() == 5);
}

/// The URL of an endpoint, given what parsing the base URL gave, and the base URL with the
/// endpoint's path.
pub fn checked_url(parsed: Result<String, String>, joined: Option<String>) -> (url: Result<
    String,
    DiscoveryError,
>)
    ensures
        outcome(url) == url_outcome(outcome(parsed), optional(joined)),
{
    match parsed {
        Err(message) => Err(DiscoveryError::InvalidConfiguration(message)),
        Ok(_) => match joined {
            Some(url) => Ok(url),
            None => Err(
                DiscoveryError::InvalidConfiguration(
                    "Consul base_url cannot be a base URL".to_owned(),
                ),
            ),
        },
    }
}

/// The document that registers `service`, with a health check where the instance has one.
pub fn registration_payload(service: &ServiceInstance) -> (document: Json)
    ensures
        document@ == registration_document(service@),
{
    let document = Json::object().with("ID", Json::text(&service.id)).with(
        "Name",
        Json::text(&service.name),
    ).with("Address", Json::text(&service.address)).with(
        "Port",
        Json::Number(service.port as u64),
    ).with("Tags", Json::text_list(&service.tags)).with(
        "Meta",
        Json::Texts(service.metadata.clone()),
    );
    match &service.health_check_url {
        Some(url) => {
            let check = Json::object().with("HTTP", Json::text(url)).with(
                "Interval",
                Json::text("10s"),
            ).with("Timeout", Json::text("5s"));
            assert(check@->Object_0 =~= check_block(url@)->Object_0);
            let document = document.with("Check", check);
            assert(document@->Object_0 =~= registration_document(service@)->Object_0);
            document
        },
        None => {
            assert(document@->Object_0 =~= registration_document(service@)->Object_0);
            document
        },
    }
}

impl ConsulDiscovery {
    /// A client of the Consul agent at `base_url`.
    pub fn new(base_url: &str) -> (consul: Result<Self, DiscoveryError>)
        ensures
            consul matches Ok(consul) && consul@ == base_url@,
    {
        Ok(ConsulDiscovery { base_url: base_url.to_owned() })
    }

    /// The URL of the endpoint with the path `segments`. Each segment is percent-encoded, so
    /// that none can add segments, a query or a fragment; whether there is a URL depends on the
    /// base URL alone.
    pub fn build_url(&self, segments: &[&str]) -> (url: Result<String, DiscoveryError>)
        requires
            url_fits(self@, slices(segments@), None),
        ensures
            outcome(url) == endpoint(self@, slices(segments@)),
            url is Ok <==> has_segments(self@),
            url matches Ok(found) ==> (all_steady(url_parsed(self@)->Ok_0, slices(segments@))
                ==> continued(found@, url_parsed(self@)->Ok_0, kept(slices(segments@)))),
            url matches Ok(found) ==> (all_plain(slices(segments@)) && !names_file(
                url_parsed(self@)->Ok_0,
            ) ==> continued(found@, url_parsed(self@)->Ok_0, slices(segments@))),
    {
        proof {
            if all_plain(slices(segments@)) {
                plain_segments_are_kept(url_parsed(self@)->Ok_0, slices(segments@));
            }
        }
        checked_url(parse_url(&self.base_url), join_segments(&self.base_url, segments))
    }

    /// A request to the endpoint with the path `segments`; nothing where its URL would be
    /// longer than a URL can be.
    pub fn request(&self, method: Method, segments: &[&str], body: Option<Json>) -> (request:
        Option<Result<Request, DiscoveryError>>)
        ensures
            planned(request) == plan(self@, method, slices(segments@), optional(body)),
            found_by_base(planned(request), self@),
            all_steady(url_parsed(self@)->Ok_0, slices(segments@)) ==> located(
                planned(request),
                self@,
                kept(slices(segments@)),
            ),
    {
        if fits(&self.base_url, segments, None) {
            match self.build_url(segments) {
                Ok(url) => Some(Ok(Request { method, url, body })),
                Err(error) => Some(Err(error)),
            }
        } else {
            None
        }
    }

    /// The request that registers `service`.
    pub fn register_request(&self, service: &ServiceInstance) -> (request: Option<
        Result<Request, DiscoveryError>,
    >)
        ensures
            planned(request) == plan(
                self@,
                Method::Put,
                seq!["v1"@, "agent"@, "service"@, "register"@],
                Some(registration_document(service@)),
            ),
            found_by_base(planned(request), self@),
            located(
                planned(request),
                self@,
                seq!["v1"@, "agent"@, "service"@, "register"@],
            ),
    {
        proof {
            reveal_strlit("v1");
            reveal_strlit("agent");
            reveal_strlit("service");
            reveal_strlit("register");
            lemma_path_of_words(
                seq!["v1"@, "agent"@, "service"@, "register"@],
                Seq::empty(),
            );
        }
        let segments = ["v1", "agent", "service", "register"];
        assert(slices(segments@) =~= seq!["v1"@, "agent"@, "service"@, "register"@]);
        self.request(Method::Put, &segments, Some(registration_payload(service)))
    }

    /// The request that deregisters `service_id`.
    pub fn deregister_request(&self, service_id: &str) -> (request: Option<
        Result<Request, DiscoveryError>,
    >)
        ensures
            planned(request) == plan(
                self@,
                Method::Put,
                seq!["v1"@, "agent"@, "service"@, "deregister"@, service_id@],
                None,
            ),
            found_by_base(planned(request), self@),
            steady(service_id@) ==> located(
                planned(request),
                self@,
                path_to(seq!["v1"@, "agent"@, "service"@, "deregister"@], service_id@),
            ),
    {
        proof {
            reveal_strlit("v1");
            reveal_strlit("agent");
            reveal_strlit("service");
            reveal_strlit("deregister");
            let path = seq!["v1"@, "agent"@, "service"@, "deregister"@];
            lemma_path_of_words(path, service_id@);
            assert(path.push(service_id@) =~= seq![
                "v1"@,
                "agent"@,
                "service"@,
                "deregister"@,
                service_id@,
            ]);
        }
        let segments = ["v1", "agent", "service", "deregister", service_id];
        assert(slices(segments@) =~= seq![
            "v1"@,
            "agent"@,
            "service"@,
            "deregister"@,
            service_id@,
        ]);
        self.request(Method::Put, &segments, None)
    }

    /// The request for the instances of `service_name` whose health checks pass. Whatever the
    /// name holds, short of what comes to dots, it is one segment of the path, and the query ends
    /// with `passing=true`.
    pub fn discover_request(&self, service_name: &str) -> (request: Option<
        Result<Request, DiscoveryError>,
    >)
        ensures
            planned(request) == discover_plan(self@, service_name@),
            found_by_base(planned(request), self@),
            steady(service_name@) ==> located_passing(
                planned(request),
                self@,
                path_to(seq!["v1"@, "health"@, "service"@], service_name@),
            ),
    {
        proof {
            reveal_strlit("v1");
            reveal_strlit("health");
            reveal_strlit("service");
            reveal_strlit("passing");
            reveal_strlit("true");
            let path = seq!["v1"@, "health"@, "service"@];
            lemma_path_of_words(path, service_name@);
            assert(path.push(service_name@) =~= seq!["v1"@, "health"@, "service"@, service_name@]);
        }
        let segments = ["v1", "health", "service", service_name];
        assert(slices(segments@) =~= seq!["v1"@, "health"@, "service"@, service_name@]);
        if fits(&self.base_url, &segments, Some(PASSING_PAIR_SIZE)) {
            let joined = join_segments_and_query(&self.base_url, &segments, "passing", "true");
            match checked_url(parse_url(&self.base_url), joined) {
                Ok(url) => Some(Ok(Request { method: Method::Get, url, body: None })),
                Err(error) => Some(Err(error)),
            }
        } else {
            None
        }
    }

    /// The request for the instance `service_id`.
    pub fn get_service_request(&self, service_id: &str) -> (request: Option<
        Result<Request, DiscoveryError>,
    >)
        ensures
            planned(request) == plan(
                self@,
                Method::Get,
                seq!["v1"@, "agent"@, "service"@, service_id@],
                None,
            ),
            found_by_base(planned(request), self@),
            steady(service_id@) ==> located(
                planned(request),
                self@,
                path_to(seq!["v1"@, "agent"@, "service"@], service_id@),
            ),
    {
        proof {
            reveal_strlit("v1");
            reveal_strlit("agent");
            reveal_strlit("service");
            let path = seq!["v1"@, "agent"@, "service"@];
            lemma_path_of_words(path, service_id@);
            assert(path.push(service_id@) =~= seq!["v1"@, "agent"@, "service"@, service_id@]);
        }
        let segments = ["v1", "agent", "service", service_id];
        assert(slices(segments@) =~= seq!["v1"@, "agent"@, "service"@, service_id@]);
        self.request(Method::Get, &segments, None)
    }

    /// The request for the names of all services.
    pub fn list_services_request(&self) -> (request: Option<Result<Request, DiscoveryError>>)
        ensures
            planned(request) == plan(
                self@,
                Method::Get,
                seq!["v1"@, "catalog"@, "services"@],
                None,
            ),
            found_by_base(planned(request), self@),
            located(planned(request), self@, seq!["v1"@, "catalog"@, "services"@]),
    {
        proof {
            reveal_strlit("v1");
            reveal_strlit("catalog");
            reveal_strlit("services");
            lemma_path_of_words(seq!["v1"@, "catalog"@, "services"@], Seq::empty());
        }
        let segments = ["v1", "catalog", "services"];
        assert(slices(segments@) =~= seq!["v1"@, "catalog"@, "services"@]);
        self.request(Method::Get, &segments, None)
    }
}

/// What the reply to a registration means.
pub fn register_reply<T>(reply: Reply<T>) -> (result: Result<(), DiscoveryError>)
    ensures
        outcome(result) == match reply {
            Reply::Lost(message) => Err(ErrorView::Http(message@)),
            Reply::Refused { status, text } => Err(
                ErrorView::RegistrationFailed(refusal(optional(text))),
            ),
            Reply::Accepted(_) => Ok(()),
        },
{
    match reply {
        Reply::Lost(message) => Err(DiscoveryError::Http(message)),
        Reply::Refused { status: _, text } => Err(
            DiscoveryError::RegistrationFailed(refusal_text(text)),
        ),
        Reply::Accepted(_) => Ok(()),
    }
}

/// What the reply to a deregistration means.
pub fn deregister_reply<T>(reply: Reply<T>) -> (result: Result<(), DiscoveryError>)
    ensures
        outcome(result) == match reply {
            Reply::Lost(message) => Err(ErrorView::Http(message@)),
            Reply::Refused { status, text } => Err(
                ErrorView::DeregistrationFailed(refusal(optional(text))),
            ),
            Reply::Accepted(_) => Ok(()),
        },
{
    match reply {
        Reply::Lost(message) => Err(DiscoveryError::Http(message)),
        Reply::Refused { status: _, text } => Err(
            DiscoveryError::DeregistrationFailed(refusal_text(text)),
        ),
        Reply::Accepted(_) => Ok(()),
    }
}

/// The instance that `detail` describes.
pub fn described_instance(detail: ConsulServiceDetail) -> (instance: ServiceInstance)
    ensures
        instance@ == detail@,
{
    let metadata: Keyed<String> = match detail.meta {
        Some(table) => table,
        None => Keyed::new(),
    };
    let instance = ServiceInstance {
        id: detail.id,
        name: detail.service,
        address: detail.address,
        port: detail.port,
        tags: detail.tags,
        metadata,
        health_check_url: None,
    };
    assert(instance@.metadata =~= detail@.metadata);
    instance
}

/// The views of the instances of a list, or of an error.
pub open spec fn instances_outcome(result: Result<Vec<ServiceInstance>, DiscoveryError>) -> Result<
    Seq<InstanceView>,
    ErrorView,
> {
    match result {
        Ok(list) => Ok(instances(list@)),
        Err(error) => Err(error@),
    }
}

/// The instances that discovery of `service_name` finds, in the order in which Consul gave them.
/// That there are none is no error.
pub fn discover_reply(service_name: &str, reply: Reply<Vec<ConsulServiceDetail>>) -> (result:
    Result<Vec<ServiceInstance>, DiscoveryError>)
    ensures
        instances_outcome(result) == match reply {
            Reply::Lost(message) => Err(ErrorView::Http(message@)),
            Reply::Refused { status, text } => Err(ErrorView::ServiceNotFound(service_name@)),
            Reply::Accepted(Err(message)) => Err(ErrorView::Http(message@)),
            Reply::Accepted(Ok(details)) => Ok(described(details@)),
        },
{
    match reply {
        Reply::Lost(message) => Err(DiscoveryError::Http(message)),
        Reply::Refused { status: _, text: _ } => Err(
            DiscoveryError::ServiceNotFound(service_name.to_owned()),
        ),
        Reply::Accepted(Err(message)) => Err(DiscoveryError::Http(message)),
        Reply::Accepted(Ok(details)) => {
            let ghost all = details@;
            let mut found: Vec<ServiceInstance> = Vec::new();
            for detail in walk: details
                invariant
                    walk.seq() == all,
                    found@.len() == walk.index(),
                    forall|i: int| 0 <= i < walk.index() ==> (#[trigger] found@[i])@ == all[i]@,
            {
                found.push(described_instance(detail));
            }
            assert(instances(found@) =~= described(all));
            Ok(found)
        },
    }
}

/// The instance `service_id`, as Consul's reply describes it.
pub fn get_service_reply(service_id: &str, reply: Reply<ConsulServiceDetail>) -> (result: Result<
    ServiceInstance,
    DiscoveryError,
>)
    ensures
        outcome(result) == match reply {
            Reply::Lost(message) => Err(ErrorView::Http(message@)),
            Reply::Refused { status, text } => Err(ErrorView::ServiceNotFound(service_id@)),
            Reply::Accepted(Err(message)) => Err(ErrorView::Http(message@)),
            Reply::Accepted(Ok(detail)) => Ok(detail@),
        },
{
    match reply {
        Reply::Lost(message) => Err(DiscoveryError::Http(message)),
        Reply::Refused { status: _, text: _ } => Err(
            DiscoveryError::ServiceNotFound(service_id.to_owned()),
        ),
        Reply::Accepted(Err(message)) => Err(DiscoveryError::Http(message)),
        Reply::Accepted(Ok(detail)) => Ok(described_instance(detail)),
    }
}

/// The set of the names of a list, or the view of an error.
pub open spec fn names_outcome(result: Result<Vec<String>, DiscoveryError>) -> Result<
    Set<Seq<char>>,
    ErrorView,
> {
    match result {
        Ok(names) => Ok(texts(names@).to_set()),
        Err(error) => Err(error@),
    }
}

/// The names of all services, each once, in no particular order: the keys of the object that
/// Consul's reply holds.
pub fn list_services_reply(reply: Reply<Vec<u8>>) -> (result: Result<Vec<String>, DiscoveryError>)
    ensures
        names_outcome(result) == match reply {
            Reply::Lost(message) => Err(ErrorView::Http(message@)),
            Reply::Refused { status, text } => Err(
                ErrorView::RegistrationFailed("Failed to list services"@),
            ),
            Reply::Accepted(Err(message)) => Err(ErrorView::Http(message@)),
            Reply::Accepted(Ok(body)) => match document_keys(body@) {
                Ok(names) => Ok(names),
                Err(_) => Err(ErrorView::Http(undecodable())),
            },
        },
        result matches Ok(names) ==> texts(names@).no_duplicates(),
{
    match reply {
        Reply::Lost(message) => Err(DiscoveryError::Http(message)),
        Reply::Refused { status: _, text: _ } => Err(
            DiscoveryError::RegistrationFailed("Failed to list services".to_owned()),
        ),
        Reply::Accepted(Err(message)) => Err(DiscoveryError::Http(message)),
        Reply::Accepted(Ok(body)) => match read_keys(&body) {
            Ok(names) => Ok(names),
            Err(_) => Err(DiscoveryError::Http(undecodable_text())),
        },
    }
}

} // verus!
