//! etcd service discovery: keys, requests, and what the replies mean.
use crate::codec::{
    arrives, base64_encode, base64_encoded, decode_text, decoded_text, encode_text, encoded_text,
};
use crate::document::{
    document_member, document_text, read_member, read_text, Member, MemberView,
};
use crate::duration::Duration;
use crate::error::{joined, DiscoveryError, ErrorView};
use crate::http::{
    refusal, refusal_text, undecodable, undecodable_text, Method, Reply, Request, RequestView,
};
use crate::json::{Json, JsonView};
use crate::outcome::{optional, outcome};
use crate::range::{prefix_range_end, successor};
use crate::store::{gets, lemma_gets, lemma_scans, scans};
use vstd::prelude::*;
use vstd::string::*;
use vstd::utf8::encode_utf8;

verus! {

/// How long any request to etcd may take, in seconds.
pub const ETCD_REQUEST_TIMEOUT_SECS: u64 = 5;

/// The lease lifetime that a client starts with, in seconds.
pub const DEFAULT_LEASE_TTL_SECS: u64 = 30;

/// The shortest pause between two refreshes of a lease, in milliseconds.
pub const MIN_KEEP_ALIVE_MILLIS: u64 = 100;

/// An etcd client's settings.
///
/// A registration is written under two keys in one transaction, both attached to a lease. While
/// the client lives it refreshes the lease; when it dies the lease expires and etcd drops both
/// keys. The lease is about liveness, not health.
pub struct EtcdDiscovery {
    base_url: String,
    prefix: String,
    lease_ttl: Duration,
}

/// The mathematical value of an [`EtcdDiscovery`].
pub struct EtcdView {
    pub base_url: Seq<char>,
    pub prefix: Seq<char>,
    /// In nanoseconds.
    pub lease_ttl: nat,
}

impl View for EtcdDiscovery {
    type V = EtcdView;

    closed spec fn view(&self) -> EtcdView {
        EtcdView {
            base_url: self.base_url@,
            prefix: self.prefix@,
            lease_ttl: self.lease_ttl@,
        }
    }
}

/// A key and a value as etcd hands them out, both in base64.
#[derive(Debug)]
pub struct EtcdKV {
    pub key: String,
    pub value: String,
}

/// The mathematical value of an [`EtcdKV`].
pub struct KvView {
    pub key: Seq<char>,
    pub value: Seq<char>,
}

impl View for EtcdKV {
    type V = KvView;

    open spec fn view(&self) -> KvView {
        KvView { key: self.key@, value: self.value@ }
    }
}

/// The values of a list of pairs.
pub open spec fn kv_views(list: Seq<EtcdKV>) -> Seq<KvView> {
    list.map_values(|kv: EtcdKV| kv@)
}

impl EtcdView {
    /// What the keys of all instances of `service_name` start with.
    pub open spec fn service_name_prefix(self, service_name: Seq<char>) -> Seq<char> {
        self.prefix + "/"@ + service_name + "/"@
    }

    /// The key that an instance is found under by the name of its service.
    pub open spec fn composite_key(self, service_name: Seq<char>, service_id: Seq<char>) -> Seq<
        char,
    > {
        self.service_name_prefix(service_name) + service_id
    }

    /// The key that an instance is found under by its id.
    pub open spec fn idx_key(self, service_id: Seq<char>) -> Seq<char> {
        self.prefix + "__idx/"@ + service_id
    }

    /// What the composite keys of all instances start with.
    pub open spec fn all_services_prefix(self) -> Seq<char> {
        self.prefix + "/"@
    }

    /// A POST of `body` to the endpoint `path`.
    pub open spec fn post(self, path: Seq<char>, body: JsonView) -> RequestView {
        RequestView { method: Method::Post, url: self.base_url + path, body: Some(body) }
    }

    /// The request for all pairs whose key starts with `prefix`.
    pub open spec fn scan_request(self, prefix: Seq<char>) -> RequestView {
        self.post(
            "/v3/kv/range"@,
            JsonView::Object(
                seq![
                    ("key"@, JsonView::Text(encoded_text(prefix))),
                    (
                        "range_end"@,
                        JsonView::Text(base64_encoded(successor(encode_utf8(prefix)))),
                    ),
                ],
            ),
        )
    }

    /// The request for the pair under `key`.
    pub open spec fn get_request(self, key: Seq<char>) -> RequestView {
        self.post(
            "/v3/kv/range"@,
            JsonView::Object(seq![("key"@, JsonView::Text(encoded_text(key)))]),
        )
    }

    /// The request that applies `operations`, all of them or none.
    pub open spec fn txn_request(self, operations: Seq<JsonView>) -> RequestView {
        self.post(
            "/v3/kv/txn"@,
            JsonView::Object(seq![("success"@, JsonView::List(operations))]),
        )
    }

    /// Leases last a second at least. Every client is so.
    pub open spec fn lasting(self) -> bool {
        self.lease_ttl >= 1_000_000_000
    }

    /// The whole seconds of the lease lifetime, one at least.
    pub open spec fn lease_ttl_secs(self) -> nat {
        if self.lease_ttl / 1_000_000_000 < 1 {
            1
        } else {
            self.lease_ttl / 1_000_000_000
        }
    }

    /// The pause between two refreshes of a lease, in nanoseconds: a third of the seconds that
    /// etcd is asked for, but not less than the shortest pause.
    pub open spec fn keep_alive_interval(self) -> nat {
        if self.lease_ttl_secs() * 1_000_000_000 / 3 < 100_000_000 {
            100_000_000
        } else {
            self.lease_ttl_secs() * 1_000_000_000 / 3
        }
    }

    /// The request for a lease.
    pub open spec fn grant_request(self) -> RequestView {
        self.post(
            "/v3/lease/grant"@,
            JsonView::Object(seq![("TTL"@, JsonView::Number(self.lease_ttl_secs()))]),
        )
    }

    /// The request that ends a lease, and with it the keys attached to it.
    pub open spec fn revoke_request(self, lease_id: Seq<char>) -> RequestView {
        self.post(
            "/v3/lease/revoke"@,
            JsonView::Object(seq![("ID"@, JsonView::Text(lease_id))]),
        )
    }

    /// The request that refreshes a lease.
    pub open spec fn keep_alive_request(self, lease_id: Seq<char>) -> RequestView {
        self.post(
            "/v3/lease/keepalive"@,
            JsonView::Object(seq![("ID"@, JsonView::Text(lease_id))]),
        )
    }
}

/// The operation that writes `value` under `key`, attached to the lease `lease_id`.
pub open spec fn put_operation(key: Seq<char>, value: Seq<char>, lease_id: Seq<char>) -> JsonView {
    JsonView::Object(
        seq![
            (
                "requestPut"@,
                JsonView::Object(
                    seq![
                        ("key"@, JsonView::Text(encoded_text(key))),
                        ("value"@, JsonView::Text(encoded_text(value))),
                        ("lease"@, JsonView::Text(lease_id)),
                    ],
                ),
            ),
        ],
    )
}

/// The operation that deletes `key`.
pub open spec fn delete_operation(key: Seq<char>) -> JsonView {
    JsonView::Object(
        seq![
            (
                "requestDeleteRange"@,
                JsonView::Object(seq![("key"@, JsonView::Text(encoded_text(key)))]),
            ),
        ],
    )
}

/// What the reply to a transaction means.
pub open spec fn txn_outcome<T>(reply: Reply<T>) -> Result<(), ErrorView> {
    match reply {
        Reply::Lost(message) => Err(ErrorView::Http(message@)),
        Reply::Refused { status, text } => Err(
            ErrorView::InvalidConfiguration("etcd transaction failed: "@ + refusal(optional(text))),
        ),
        Reply::Accepted(_) => Ok(()),
    }
}

/// What the reply to a revocation means.
pub open spec fn revoke_outcome<T>(reply: Reply<T>) -> Result<(), ErrorView> {
    match reply {
        Reply::Lost(message) => Err(ErrorView::Http(message@)),
        Reply::Refused { status, text } => Err(
            ErrorView::DeregistrationFailed("etcd lease revoke failed: "@ + refusal(optional(text))),
        ),
        Reply::Accepted(_) => Ok(()),
    }
}

/// The lease that a grant names, given the member that holds its id and the text of the whole
/// document. Text and number are both in use for ids; the id zero names no lease.
pub open spec fn named_lease(
    member: Result<MemberView, Seq<char>>,
    text: Result<Seq<char>, Seq<char>>,
) -> Result<Seq<char>, ErrorView> {
    match member {
        Err(_) => Err(ErrorView::Http(undecodable())),
        Ok(MemberView::Text(id)) if id != "0"@ => Ok(id),
        Ok(MemberView::Number(id)) if id != "0"@ => Ok(id),
        Ok(_) => match text {
            Ok(text) => Err(
                ErrorView::RegistrationFailed(
                    "etcd lease grant returned no usable lease id: "@ + text,
                ),
            ),
            Err(_) => Err(ErrorView::Http(undecodable())),
        },
    }
}

/// `member` names a lease.
pub open spec fn usable(member: MemberView) -> bool {
    match member {
        MemberView::Text(id) => id != "0"@,
        MemberView::Number(id) => id != "0"@,
        MemberView::Other => false,
    }
}

/// What the reply to a request for a lease means: the id of the lease, or an error.
pub open spec fn grant_outcome(reply: Reply<Vec<u8>>) -> Result<Seq<char>, ErrorView> {
    match reply {
        Reply::Lost(message) => Err(ErrorView::Http(message@)),
        Reply::Refused { status, text } => Err(
            ErrorView::RegistrationFailed("etcd lease grant failed: "@ + refusal(optional(text))),
        ),
        Reply::Accepted(Err(message)) => Err(ErrorView::Http(message@)),
        Reply::Accepted(Ok(body)) => named_lease(
            document_member(body@, "ID"@),
            document_text(body@),
        ),
    }
}

/// What the reply to a scan over `prefix` means.
pub open spec fn scan_outcome(prefix: Seq<char>, reply: Reply<Option<Vec<EtcdKV>>>) -> Result<
    Seq<KvView>,
    ErrorView,
> {
    match reply {
        Reply::Lost(message) => Err(ErrorView::Http(message@)),
        Reply::Refused { status, text } => Err(
            ErrorView::InvalidConfiguration(
                "etcd range scan over "@ + prefix + " failed with status "@ + status@,
            ),
        ),
        Reply::Accepted(Err(message)) => Err(ErrorView::Http(message@)),
        Reply::Accepted(Ok(None)) => Ok(Seq::empty()),
        Reply::Accepted(Ok(Some(kvs))) => Ok(kv_views(kvs@)),
    }
}

/// What the reply to the request for the pair under `key` means.
pub open spec fn get_outcome(key: Seq<char>, reply: Reply<Option<Vec<EtcdKV>>>) -> Result<
    Option<KvView>,
    ErrorView,
> {
    match reply {
        Reply::Lost(message) => Err(ErrorView::Http(message@)),
        Reply::Refused { status, text } => Err(
            ErrorView::InvalidConfiguration(
                "etcd point get for "@ + key + " failed with status "@ + status@,
            ),
        ),
        Reply::Accepted(Err(message)) => Err(ErrorView::Http(message@)),
        Reply::Accepted(Ok(None)) => Ok(None),
        Reply::Accepted(Ok(Some(kvs))) => if kvs@.len() == 0 {
            Ok(None)
        } else {
            Ok(Some(kvs@[0]@))
        },
    }
}

/// A key and a value, where both could be decoded; otherwise the first fault.
pub open spec fn both_decoded(
    key: Result<Seq<char>, Seq<char>>,
    value: Result<Seq<char>, Seq<char>>,
) -> Result<(Seq<char>, Seq<char>), ErrorView> {
    match key {
        Err(message) => Err(ErrorView::InvalidConfiguration(message)),
        Ok(key) => match value {
            Err(message) => Err(ErrorView::InvalidConfiguration(message)),
            Ok(value) => Ok((key, value)),
        },
    }
}

/// The key and the value that a pair stands for.
pub open spec fn decoded_kv(kv: KvView) -> Result<(Seq<char>, Seq<char>), ErrorView> {
    both_decoded(decoded_text(kv.key), decoded_text(kv.value))
}

/// The views of a pair of strings, or of an error.
pub open spec fn pair_outcome(result: Result<(String, String), DiscoveryError>) -> Result<
    (Seq<char>, Seq<char>),
    ErrorView,
> {
    match result {
        Ok((key, value)) => Ok((key@, value@)),
        Err(error) => Err(error@),
    }
}

impl EtcdDiscovery {
    #[verifier::type_invariant]
    spec fn well_formed(self) -> bool {
        self@.lasting()
    }

    /// A client of the etcd at `base_url` that keeps its keys under `prefix`.
    pub fn new(base_url: &str, prefix: &str) -> (etcd: Result<Self, DiscoveryError>)
        ensures
            etcd matches Ok(etcd) && etcd@ == (EtcdView {
                base_url: base_url@,
                prefix: prefix@,
                lease_ttl: 30_000_000_000,
            }) && etcd@.lasting(),
    {
        Ok(
            EtcdDiscovery {
                base_url: base_url.to_owned(),
                prefix: prefix.to_owned(),
                lease_ttl: Duration::from_secs(DEFAULT_LEASE_TTL_SECS),
            },
        )
    }

    /// This client with another lifetime for the leases of future registrations, a second at
    /// least. A shorter one evicts crashed instances sooner, at the cost of more frequent
    /// refreshes.
    pub fn with_lease_ttl(self, ttl: Duration) -> (etcd: Self)
        ensures
            etcd@ == (EtcdView {
                lease_ttl: if ttl@ < 1_000_000_000 {
                    1_000_000_000
                } else {
                    ttl@
                },
                ..self@
            }),
            etcd@.lasting(),
    {
        EtcdDiscovery {
            base_url: self.base_url,
            prefix: self.prefix,
            lease_ttl: ttl.max(Duration::from_secs(1)),
        }
    }

    /// The lease lifetime in whole seconds, as etcd takes it.
    pub fn lease_ttl_secs(&self) -> (secs: u64)
        ensures
            secs == self@.lease_ttl_secs(),
    {
        let secs: u64 = self.lease_ttl.as_secs();
        if secs < 1 {
            1
        } else {
            secs
        }
    }

    /// The pause between two refreshes of a lease. It leaves room for two lost refreshes before
    /// etcd expires the lease.
    pub fn keep_alive_interval(&self) -> (interval: Duration)
        ensures
            interval@ == self@.keep_alive_interval(),
            3 * interval@ <= self@.lease_ttl_secs() * 1_000_000_000,
            interval@ >= 100_000_000,
    {
        Duration::from_secs(self.lease_ttl_secs()).third().max(
            Duration::from_millis(MIN_KEEP_ALIVE_MILLIS),
        )
    }

    /// What the keys of all instances of `service_name` start with.
    pub fn service_name_prefix(&self, service_name: &str) -> (prefix: String)
        ensures
            prefix@ == self@.service_name_prefix(service_name@),
    {
        let mut prefix = joined(&self.prefix, "/");
        prefix.append(service_name);
        prefix.append("/");
        prefix
    }

    /// The key that an instance is found under by the name of its service.
    pub fn composite_key(&self, service_name: &str, service_id: &str) -> (key: String)
        ensures
            key@ == self@.composite_key(service_name@, service_id@),
    {
        let mut key = self.service_name_prefix(service_name);
        key.append(service_id);
        key
    }

    /// The key that an instance is found under by its id.
    pub fn idx_key(&self, service_id: &str) -> (key: String)
        ensures
            key@ == self@.idx_key(service_id@),
    {
        let mut key = joined(&self.prefix, "__idx/");
        key.append(service_id);
        key
    }

    /// What the composite keys of all instances start with.
    pub fn all_services_prefix(&self) -> (prefix: String)
        ensures
            prefix@ == self@.all_services_prefix(),
    {
        joined(&self.prefix, "/")
    }

    /// A POST of `body` to the endpoint `path`.
    fn post(&self, path: &str, body: Json) -> (request: Request)
        ensures
            request@ == self@.post(path@, body@),
    {
        Request { method: Method::Post, url: joined(&self.base_url, path), body: Some(body) }
    }

    /// The request for all pairs whose key starts with `prefix`. What it sends is read as the
    /// prefix and the end of its range again.
    pub fn scan_prefix_request(&self, prefix: &str) -> (request: Request)
        ensures
            request@ == self@.scan_request(prefix@),
            arrives(encode_utf8(prefix@)),
            arrives(successor(encode_utf8(prefix@))),
            scans(request@, prefix@),
    {
        let end = prefix_range_end(prefix.as_bytes());
        let body = Json::object().with("key", Json::text(&encode_text(prefix))).with(
            "range_end",
            Json::text(&base64_encode(&end)),
        );
        assert(body@->Object_0 =~= self@.scan_request(prefix@).body->Some_0->Object_0);
        proof {
            lemma_scans(self@, prefix@);
        }
        self.post("/v3/kv/range", body)
    }

    /// The request for the pair under `key`. What it sends is read as `key` again.
    pub fn get_key_request(&self, key: &str) -> (request: Request)
        ensures
            request@ == self@.get_request(key@),
            arrives(encode_utf8(key@)),
            gets(request@, key@),
    {
        let body = Json::object().with("key", Json::text(&encode_text(key)));
        proof {
            lemma_gets(self@, key@);
        }
        self.post("/v3/kv/range", body)
    }

    /// The request that applies `operations`, all of them or none.
    pub fn txn_request(&self, operations: Vec<Json>) -> (request: Request)
        ensures
            request@ == self@.txn_request(operations@.map_values(|operation: Json| operation@)),
    {
        let body = Json::object().with("success", Json::list(operations));
        self.post("/v3/kv/txn", body)
    }

    /// The request for a lease with the configured lifetime.
    pub fn grant_lease_request(&self) -> (request: Request)
        ensures
            request@ == self@.grant_request(),
    {
        let body = Json::object().with("TTL", Json::Number(self.lease_ttl_secs()));
        self.post("/v3/lease/grant", body)
    }

    /// The request that ends a lease, and with it the keys attached to it.
    pub fn revoke_lease_request(&self, lease_id: &str) -> (request: Request)
        ensures
            request@ == self@.revoke_request(lease_id@),
    {
        let body = Json::object().with("ID", Json::text(lease_id));
        self.post("/v3/lease/revoke", body)
    }

    /// The request that refreshes a lease, to be sent again after each
    /// [`EtcdDiscovery::keep_alive_interval`] while the registration lives, whatever the replies.
    pub fn keep_alive_request(&self, lease_id: &str) -> (request: Request)
        ensures
            request@ == self@.keep_alive_request(lease_id@),
    {
        let body = Json::object().with("ID", Json::text(lease_id));
        self.post("/v3/lease/keepalive", body)
    }
}

/// The pair of `key` and `value`, as it is written, is read as `key` and `value` again.
pub open spec fn reads_back(key: Seq<char>, value: Seq<char>) -> bool {
    decoded_kv(KvView { key: encoded_text(key), value: encoded_text(value) }) matches Ok(pair)
        && pair == (key, value)
}

/// The operation that writes `value` under `key`, attached to the lease `lease_id`. The pair
/// that it writes is read as `key` and `value` again.
pub fn put_op(key: &str, value: &str, lease_id: &str) -> (operation: Json)
    ensures
        operation@ == put_operation(key@, value@, lease_id@),
        arrives(encode_utf8(key@)),
        arrives(encode_utf8(value@)),
        reads_back(key@, value@),
{
    let put = Json::object().with("key", Json::text(&encode_text(key))).with(
        "value",
        Json::text(&encode_text(value)),
    ).with("lease", Json::text(lease_id));
    assert(put@->Object_0 =~= put_operation(key@, value@, lease_id@)->Object_0[0].1->Object_0);
    Json::object().with("requestPut", put)
}

/// The operation that deletes `key`. What it sends is read as `key` again.
pub fn delete_op(key: &str) -> (operation: Json)
    ensures
        operation@ == delete_operation(key@),
        arrives(encode_utf8(key@)),
{
    let delete = Json::object().with("key", Json::text(&encode_text(key)));
    Json::object().with("requestDeleteRange", delete)
}

/// What the reply to a transaction means.
pub fn txn_reply<T>(reply: Reply<T>) -> (result: Result<(), DiscoveryError>)
    ensures
        outcome(result) == txn_outcome(reply),
{
    match reply {
        Reply::Lost(message) => Err(DiscoveryError::Http(message)),
        Reply::Refused { status: _, text } => Err(
            DiscoveryError::InvalidConfiguration(
                joined("etcd transaction failed: ", &refusal_text(text)),
            ),
        ),
        Reply::Accepted(_) => Ok(()),
    }
}

/// What the reply to a revocation means.
pub fn revoke_lease_reply<T>(reply: Reply<T>) -> (result: Result<(), DiscoveryError>)
    ensures
        outcome(result) == revoke_outcome(reply),
{
    match reply {
        Reply::Lost(message) => Err(DiscoveryError::Http(message)),
        Reply::Refused { status: _, text } => Err(
            DiscoveryError::DeregistrationFailed(
                joined("etcd lease revoke failed: ", &refusal_text(text)),
            ),
        ),
        Reply::Accepted(_) => Ok(()),
    }
}

/// The lease that a grant names, given the member that holds its id and the text of the whole
/// document.
pub fn named_lease_id(member: Result<Member, String>, text: Result<String, String>) -> (lease:
    Result<String, DiscoveryError>)
    ensures
        outcome(lease) == named_lease(outcome(member), outcome(text)),
{
    let zero = "0".to_owned();
    match member {
        Err(_) => {
            return Err(DiscoveryError::Http(undecodable_text()));
        },
        Ok(Member::Text(id)) => if id != zero {
            return Ok(id);
        },
        Ok(Member::Number(id)) => if id != zero {
            return Ok(id);
        },
        Ok(Member::Other) => {},
    }
    match text {
        Ok(text) => Err(
            DiscoveryError::RegistrationFailed(
                joined("etcd lease grant returned no usable lease id: ", &text),
            ),
        ),
        Err(_) => Err(DiscoveryError::Http(undecodable_text())),
    }
}

/// What the reply to a request for a lease means: the id of the lease, or an error. A document
/// that names no lease is a failed registration.
pub fn grant_lease_reply(reply: Reply<Vec<u8>>) -> (lease: Result<String, DiscoveryError>)
    ensures
        outcome(lease) == grant_outcome(reply),
        reply matches Reply::Accepted(Ok(body)) ==> match document_member(body@, "ID"@) {
            Err(_) => outcome(lease) == Err::<Seq<char>, ErrorView>(
                ErrorView::Http(undecodable()),
            ),
            Ok(member) => (lease is Ok <==> usable(member)) && (lease is Err ==> outcome(lease)
                == Err::<Seq<char>, ErrorView>(
                ErrorView::RegistrationFailed(
                    "etcd lease grant returned no usable lease id: "@ + document_text(
                        body@,
                    )->Ok_0,
                ),
            )),
        },
{
    match reply {
        Reply::Lost(message) => Err(DiscoveryError::Http(message)),
        Reply::Refused { status: _, text } => Err(
            DiscoveryError::RegistrationFailed(
                joined("etcd lease grant failed: ", &refusal_text(text)),
            ),
        ),
        Reply::Accepted(Err(message)) => Err(DiscoveryError::Http(message)),
        Reply::Accepted(Ok(body)) => named_lease_id(read_member(&body, "ID"), read_text(&body)),
    }
}

/// The views of the pairs of a list, or of an error.
pub open spec fn kvs_outcome(result: Result<Vec<EtcdKV>, DiscoveryError>) -> Result<
    Seq<KvView>,
    ErrorView,
> {
    match result {
        Ok(kvs) => Ok(kv_views(kvs@)),
        Err(error) => Err(error@),
    }
}

/// What the reply to a scan over `prefix` means.
pub fn scan_prefix_reply(prefix: &str, reply: Reply<Option<Vec<EtcdKV>>>) -> (result: Result<
    Vec<EtcdKV>,
    DiscoveryError,
>)
    ensures
        kvs_outcome(result) == scan_outcome(prefix@, reply),
{
    match reply {
        Reply::Lost(message) => Err(DiscoveryError::Http(message)),
        Reply::Refused { status, text: _ } => {
            let mut message = joined("etcd range scan over ", prefix);
            message.append(" failed with status ");
            message.append(&status);
            Err(DiscoveryError::InvalidConfiguration(message))
        },
        Reply::Accepted(Err(message)) => Err(DiscoveryError::Http(message)),
        Reply::Accepted(Ok(None)) => {
            let none: Vec<EtcdKV> = Vec::new();
            assert(kv_views(none@) =~= Seq::empty());
            Ok(none)
        },
        Reply::Accepted(Ok(Some(kvs))) => Ok(kvs),
    }
}

/// The view of a pair that may be absent, or of an error.
pub open spec fn found_outcome(result: Result<Option<EtcdKV>, DiscoveryError>) -> Result<
    Option<KvView>,
    ErrorView,
> {
    match result {
        Ok(kv) => Ok(optional(kv)),
        Err(error) => Err(error@),
    }
}

/// What the reply to the request for the pair under `key` means: the pair, if there is one.
pub fn get_key_reply(key: &str, reply: Reply<Option<Vec<EtcdKV>>>) -> (result: Result<
    Option<EtcdKV>,
    DiscoveryError,
>)
    ensures
        found_outcome(result) == get_outcome(key@, reply),
{
    match reply {
        Reply::Lost(message) => Err(DiscoveryError::Http(message)),
        Reply::Refused { status, text: _ } => {
            let mut message = joined("etcd point get for ", key);
            message.append(" failed with status ");
            message.append(&status);
            Err(DiscoveryError::InvalidConfiguration(message))
        },
        Reply::Accepted(Err(message)) => Err(DiscoveryError::Http(message)),
        Reply::Accepted(Ok(None)) => Ok(None),
        Reply::Accepted(Ok(Some(kvs))) => {
            let mut kvs = kvs;
            if kvs.len() == 0 {
                Ok(None)
            } else {
                Ok(Some(kvs.swap_remove(0)))
            }
        },
    }
}

/// A key and a value, where both could be decoded; otherwise the first fault.
pub fn decoded_pair(key: Result<String, String>, value: Result<String, String>) -> (pair: Result<
    (String, String),
    DiscoveryError,
>)
    ensures
        pair_outcome(pair) == both_decoded(outcome(key), outcome(value)),
{
    match key {
        Err(message) => Err(DiscoveryError::InvalidConfiguration(message)),
        Ok(key) => match value {
            Err(message) => Err(DiscoveryError::InvalidConfiguration(message)),
            Ok(value) => Ok((key, value)),
        },
    }
}

/// The key and the value that a pair stands for; the value is the JSON text of an instance.
pub fn decode_kv(kv: EtcdKV) -> (pair: Result<(String, String), DiscoveryError>)
    ensures
        pair_outcome(pair) == decoded_kv(kv@),
{
    decoded_pair(decode_text(&kv.key), decode_text(&kv.value))
}

/// Two refreshes in a row may be lost before a lease expires, whatever its lifetime; and a pause
/// is a third of the seconds that etcd grants, so never shorter than the shortest pause.
pub proof fn two_refreshes_may_be_lost(etcd: EtcdView)
    ensures
        3 * etcd.keep_alive_interval() <= etcd.lease_ttl_secs() * 1_000_000_000,
        etcd.keep_alive_interval() == etcd.lease_ttl_secs() * 1_000_000_000 / 3,
        etcd.keep_alive_interval() >= 100_000_000,
{
}

/// A lease lasts as long as it was set to, in whole seconds, and where it was set to whole
/// seconds a pause is a third of that.
pub proof fn lease_lasts_as_set(etcd: EtcdView)
    requires
        etcd.lasting(),
    ensures
        etcd.lease_ttl_secs() == etcd.lease_ttl / 1_000_000_000,
        etcd.lease_ttl_secs() >= 1,
        etcd.lease_ttl % 1_000_000_000 == 0 ==> etcd.keep_alive_interval() == etcd.lease_ttl / 3,
{
}

} // verus!
