use armature_discovery::duration::Duration;
use armature_discovery::etcd::{
    decode_kv, decoded_pair, delete_op, get_key_reply, grant_lease_reply, named_lease_id, put_op,
    revoke_lease_reply, scan_prefix_reply, txn_reply, EtcdKV,
};
use armature_discovery::document::Member;
use armature_discovery::http::{Method, Reply, Request};
use armature_discovery::json::Json;
use armature_discovery::lease::Registrations;
use armature_discovery::lookup::{
    discover_reply, found_texts, get_service_reply, list_services_reply, scanned_pairs,
    scanned_texts, stored_instance,
};
use armature_discovery::range::prefix_range_end;
use armature_discovery::registration::{deregister_reply, DeregisterStep, RegisterStep};
use armature_discovery::{DiscoveryError, EtcdDiscovery, ServiceInstance};
use base64::engine::general_purpose::STANDARD;
use base64::Engine;

/// A `LeaseGrant` response as etcd's JSON gateway renders it (int64 as a string).
const LEASE_JSON: &str = r#"{"ID":"7587822721650585186","TTL":"30"}"#;

fn decode_b64(encoded: &str) -> String {
    String::from_utf8(STANDARD.decode(encoded).unwrap()).unwrap()
}

fn encode_b64(text: &str) -> String {
    STANDARD.encode(text.as_bytes())
}

/// The JSON text that instances are stored as.
fn to_json(instance: &ServiceInstance) -> String {
    let text = |s: &str| serde_json::Value::String(s.to_string());
    let mut members = serde_json::Map::new();
    members.insert("id".to_string(), text(&instance.id));
    members.insert("name".to_string(), text(&instance.name));
    members.insert("address".to_string(), text(&instance.address));
    members.insert("port".to_string(), serde_json::Value::from(instance.port));
    let tags = instance.tags.iter().map(|tag| text(tag)).collect();
    members.insert("tags".to_string(), serde_json::Value::Array(tags));
    let metadata = (0..instance.metadata.len())
        .map(|i| (instance.metadata.key_at(i).to_string(), text(instance.metadata.at(i))))
        .collect();
    members.insert("metadata".to_string(), serde_json::Value::Object(metadata));
    let check = instance.health_check_url.as_deref().map_or(serde_json::Value::Null, text);
    members.insert("health_check_url".to_string(), check);
    serde_json::Value::Object(members).to_string()
}

fn from_json(text: &str) -> Result<ServiceInstance, String> {
    let value: serde_json::Value = serde_json::from_str(text).map_err(|e| e.to_string())?;
    let member = |key: &str| value[key].as_str().ok_or(format!("missing field `{key}`"));
    let port = value["port"].as_u64().ok_or("missing field `port`".to_string())?;
    Ok(ServiceInstance::new(member("id")?, member("name")?, member("address")?, port as u16))
}

fn accepted(body: &str) -> Reply<Vec<u8>> {
    Reply::Accepted(Ok(body.as_bytes().to_vec()))
}

fn refused<T>(status: &str, text: &str) -> Reply<T> {
    Reply::Refused { status: status.to_string(), text: Some(text.to_string()) }
}

fn kv(key: &str, value: &str) -> EtcdKV {
    EtcdKV { key: encode_b64(key), value: encode_b64(value) }
}

fn found(kvs: Vec<EtcdKV>) -> Reply<Option<Vec<EtcdKV>>> {
    Reply::Accepted(Ok(Some(kvs)))
}

fn member<'a>(json: &'a Json, key: &str) -> &'a Json {
    match json {
        Json::Object(members) => &members.iter().find(|(name, _)| name == key).unwrap().1,
        other => panic!("{:?}", other),
    }
}

fn text(json: &Json) -> &str {
    match json {
        Json::Text(text) => text,
        other => panic!("{:?}", other),
    }
}

fn list(json: &Json) -> &[Json] {
    match json {
        Json::List(items) => items,
        other => panic!("{:?}", other),
    }
}

fn body(request: &Request) -> &Json {
    request.body.as_ref().unwrap()
}

/// Registers `instance`: the requests that are sent while `replies` come, and the last step.
fn register(
    etcd: &EtcdDiscovery,
    instance: &ServiceInstance,
    replies: Vec<Reply<Vec<u8>>>,
) -> (Vec<Request>, RegisterStep) {
    let mut step = etcd.register(instance, Ok(to_json(instance)));
    let mut sent = Vec::new();
    for reply in replies {
        match step {
            RegisterStep::Send { request, then } => {
                sent.push(request);
                step = etcd.register_reply(then, reply);
            }
            other => return (sent, other),
        }
    }
    (sent, step)
}

/// The pairs of a scan over `prefix`, as discovery reads them.
fn scan(
    prefix: &str,
    reply: Reply<Option<Vec<EtcdKV>>>,
) -> Result<Vec<(String, ServiceInstance)>, DiscoveryError> {
    let read = |(key, value): (String, String)| (key, from_json(&value));
    scanned_pairs(scanned_texts(prefix, reply)?.into_iter().map(|pair| pair.map(read)).collect())
}

/// The instance under `key`.
fn get(
    key: &str,
    reply: Reply<Option<Vec<EtcdKV>>>,
) -> Result<Option<ServiceInstance>, DiscoveryError> {
    match found_texts(key, reply)? {
        Some((_, value)) => Ok(Some(stored_instance(from_json(&value))?)),
        None => Ok(None),
    }
}

#[test]
fn test_etcd_discovery_creation() {
    let etcd = EtcdDiscovery::new("http://localhost:2379", "/services");
    assert!(etcd.is_ok());
}

#[test]
fn composite_key_lives_under_the_prefix_discover_scans() {
    let etcd = EtcdDiscovery::new("http://localhost:2379", "/services").unwrap();
    let key = etcd.composite_key("api", "svc-1");
    let prefix = etcd.service_name_prefix("api");

    assert!(
        key.starts_with(&prefix),
        "register key {key} must live under the prefix discover range-scans ({prefix})"
    );
    assert_eq!(&key[prefix.len()..], "svc-1");
}

#[test]
fn idx_key_does_not_live_under_the_all_services_prefix() {
    let etcd = EtcdDiscovery::new("http://localhost:2379", "/services").unwrap();
    let idx = etcd.idx_key("svc-1");
    let all = etcd.all_services_prefix();

    assert!(
        !idx.starts_with(&all),
        "idx key {idx} must not be visible to a scan over {all} (list_services/discover)"
    );
}

#[test]
fn prefix_range_end_increments_the_last_byte_with_carry() {
    assert_eq!(prefix_range_end(b"/services/"), b"/services0".to_vec());
    // last byte 0xFF carries into the previous byte
    assert_eq!(prefix_range_end(&[0x01, 0xFF]), vec![0x02]);
    // all bytes 0xFF: no finite successor, scan to end of keyspace
    assert_eq!(prefix_range_end(&[0xFF, 0xFF]), Vec::<u8>::new());
}

#[test]
fn register_then_discover_and_get_service_round_trip() {
    let instance = ServiceInstance::new("svc-1", "api", "localhost", 8080);
    let value_json = to_json(&instance);

    let key_builder = EtcdDiscovery::new("http://placeholder", "/services").unwrap();
    let composite_key = key_builder.composite_key("api", "svc-1");

    let etcd = EtcdDiscovery::new("http://localhost:2379", "/services").unwrap();

    let (sent, end) = register(&etcd, &instance, vec![accepted(LEASE_JSON), accepted("{}")]);
    assert!(matches!(end, RegisterStep::Registered { .. }));

    // register() must write the composite key, not just the bare id.
    assert_eq!(sent[1].url, "http://localhost:2379/v3/kv/txn");
    let put = member(&list(member(body(&sent[1]), "success"))[0], "requestPut");
    let put_key = decode_b64(text(member(put, "key")));
    assert_eq!(put_key, composite_key);
    assert!(put_key.starts_with(&etcd.service_name_prefix("api")));

    // discover() must find the instance registered above.
    let request = etcd.discover_request("api");
    assert_eq!(request.url, "http://localhost:2379/v3/kv/range");
    let prefix = etcd.service_name_prefix("api");
    let discovered =
        discover_reply(scan(&prefix, found(vec![kv(&composite_key, &value_json)]))).unwrap();
    assert_eq!(discovered.len(), 1);
    assert_eq!(discovered[0].id, "svc-1");
    assert_eq!(discovered[0].name, "api");

    // get_service() must also find it by id alone, via the idx key.
    let key = etcd.idx_key("svc-1");
    let reply = found(vec![kv(&composite_key, &value_json)]);
    let fetched = get_service_reply("svc-1", get(&key, reply)).unwrap();
    assert_eq!(fetched.name, "api");
    assert_eq!(fetched.address, "localhost");
    assert_eq!(fetched.port, 8080);
}

#[test]
fn etcd_discover_returns_ok_empty_for_unregistered_service_name() {
    let etcd = EtcdDiscovery::new("http://localhost:2379", "/services").unwrap();
    let prefix = etcd.service_name_prefix("nonexistent");
    let instances = discover_reply(scan(&prefix, found(vec![]))).unwrap();
    assert!(instances.is_empty());
    let instances = discover_reply(scan(&prefix, Reply::Accepted(Ok(None)))).unwrap();
    assert!(instances.is_empty());
}

#[test]
fn deregister_and_get_service_use_the_idx_key_not_a_full_scan() {
    let instance = ServiceInstance::new("svc-1", "api", "localhost", 8080);
    let value_json = to_json(&instance);

    let key_builder = EtcdDiscovery::new("http://placeholder", "/services").unwrap();
    let idx_key = key_builder.idx_key("svc-1");

    let etcd = EtcdDiscovery::new("http://localhost:2379", "/services").unwrap();

    let request = etcd.get_service_request("svc-1");
    assert_eq!(decode_b64(text(member(body(&request), "key"))), idx_key);
    let reply = found(vec![kv(&idx_key, &value_json)]);
    let fetched = get_service_reply("svc-1", get(&idx_key, reply)).unwrap();
    assert_eq!(fetched.id, "svc-1");

    let mut registrations: Registrations<u8> = Registrations::new();
    match etcd.deregister(&mut registrations, "svc-1") {
        DeregisterStep::Lookup { request } => {
            assert_eq!(request.url, "http://localhost:2379/v3/kv/range");
            assert_eq!(decode_b64(text(member(body(&request), "key"))), idx_key);
        }
        other => panic!("{:?}", other),
    }
    let reply = found(vec![kv(&idx_key, &value_json)]);
    let erase = etcd.deregister_found("svc-1", get(&idx_key, reply)).unwrap();

    // Both the composite key and the idx key must be deleted, and in a
    // single transaction so neither can outlive the other.
    assert_eq!(erase.url, "http://localhost:2379/v3/kv/txn");
    let deleted: Vec<String> = list(member(body(&erase), "success"))
        .iter()
        .map(|op| decode_b64(text(member(member(op, "requestDeleteRange"), "key"))))
        .collect();
    assert_eq!(
        deleted,
        vec![
            key_builder.composite_key("api", "svc-1"),
            key_builder.idx_key("svc-1"),
        ]
    );
    deregister_reply(accepted("{}")).unwrap();
}

#[test]
fn register_attaches_a_lease_to_both_keys_in_one_transaction() {
    let instance = ServiceInstance::new("svc-1", "api", "localhost", 8080);

    let etcd = EtcdDiscovery::new("http://localhost:2379", "/services").unwrap();
    let (sent, end) = register(&etcd, &instance, vec![accepted(LEASE_JSON), accepted("{}")]);
    match end {
        RegisterStep::Registered { lease_id } => assert_eq!(lease_id, "7587822721650585186"),
        other => panic!("{:?}", other),
    }

    // The TTL must actually be requested, otherwise a crashed instance
    // would stay discoverable forever.
    assert_eq!(sent[0].url, "http://localhost:2379/v3/lease/grant");
    assert!(matches!(member(body(&sent[0]), "TTL"), Json::Number(30)));

    assert_eq!(sent[1].url, "http://localhost:2379/v3/kv/txn");
    let ops = list(member(body(&sent[1]), "success"));
    assert_eq!(ops.len(), 2, "both keys must be written in one transaction");
    for op in ops {
        assert_eq!(
            text(member(member(op, "requestPut"), "lease")),
            "7587822721650585186",
            "every registration key must hang off the granted lease"
        );
    }

    // Only one round trip wrote keys: no second, non-atomic PUT.
    assert!(!sent
        .iter()
        .any(|r| r.url.ends_with("/v3/kv/put") || r.url.ends_with("/v3/kv/deleterange")));
    assert_eq!(sent.len(), 2);
}

#[test]
fn register_spawns_a_keep_alive_that_refreshes_the_lease() {
    let instance = ServiceInstance::new("svc-1", "api", "localhost", 8080);

    // 1s TTL -> ~333ms refresh interval, so a short sleep is enough.
    let etcd = EtcdDiscovery::new("http://localhost:2379", "/services")
        .unwrap()
        .with_lease_ttl(Duration::from_secs(1));
    let (_, end) = register(&etcd, &instance, vec![accepted(LEASE_JSON), accepted("{}")]);
    let lease_id = match end {
        RegisterStep::Registered { lease_id } => lease_id,
        other => panic!("{:?}", other),
    };

    let interval = etcd.keep_alive_interval();
    assert_eq!((interval.as_secs(), interval.subsec_nanos()), (0, 333_333_333));
    let request = etcd.keep_alive_request(&lease_id);
    assert_eq!(request.method, Method::Post);
    assert_eq!(request.url, "http://localhost:2379/v3/lease/keepalive");
    assert_eq!(text(member(body(&request), "ID")), "7587822721650585186");
}

#[test]
fn deregister_revokes_the_lease_it_registered_with() {
    let instance = ServiceInstance::new("svc-1", "api", "localhost", 8080);

    let etcd = EtcdDiscovery::new("http://localhost:2379", "/services").unwrap();
    let (_, end) = register(&etcd, &instance, vec![accepted(LEASE_JSON), accepted("{}")]);
    let mut registrations: Registrations<u8> = Registrations::new();
    match end {
        RegisterStep::Registered { lease_id } => {
            assert_eq!(registrations.record("svc-1", lease_id, 7), None);
        }
        other => panic!("{:?}", other),
    }

    // Revoking the lease drops both keys, so no key lookup or delete is
    // needed at all.
    match etcd.deregister(&mut registrations, "svc-1") {
        DeregisterStep::Revoke { keep_alive, request } => {
            assert_eq!(keep_alive, 7);
            assert_eq!(request.url, "http://localhost:2379/v3/lease/revoke");
            assert_eq!(text(member(body(&request), "ID")), "7587822721650585186");
        }
        other => panic!("{:?}", other),
    }
    revoke_lease_reply(accepted("{}")).unwrap();
    assert!(registrations.keep_alives().is_empty());
}

#[test]
fn register_revokes_the_lease_when_the_write_transaction_fails() {
    let instance = ServiceInstance::new("svc-1", "api", "localhost", 8080);

    let etcd = EtcdDiscovery::new("http://localhost:2379", "/services").unwrap();
    let replies = vec![
        accepted(LEASE_JSON),
        refused("500 Internal Server Error", r#"{"e":1}"#),
        accepted("{}"),
    ];
    let (sent, end) = register(&etcd, &instance, replies);

    assert!(matches!(end, RegisterStep::Failed(DiscoveryError::RegistrationFailed(_))));
    assert_eq!(sent[2].url, "http://localhost:2379/v3/lease/revoke");
    assert_eq!(text(member(body(&sent[2]), "ID")), "7587822721650585186");
}

#[test]
fn deregister_of_unknown_id_returns_service_not_found() {
    let etcd = EtcdDiscovery::new("http://localhost:2379", "/services").unwrap();
    let mut registrations: Registrations<u8> = Registrations::new();
    let step = etcd.deregister(&mut registrations, "missing");
    assert!(matches!(step, DeregisterStep::Lookup { .. }));
    let result = etcd.deregister_found("missing", get(&etcd.idx_key("missing"), found(vec![])));
    assert!(matches!(result, Err(DiscoveryError::ServiceNotFound(_))));
}

#[test]
fn range_scan_failure_returns_invalid_configuration() {
    let etcd = EtcdDiscovery::new("http://localhost:2379", "/services").unwrap();
    let prefix = etcd.service_name_prefix("api");
    let result =
        discover_reply(scan(&prefix, refused("500 Internal Server Error", r#"{"error":"boom"}"#)));
    assert!(matches!(
        result,
        Err(DiscoveryError::InvalidConfiguration(_))
    ));
}

#[test]
fn list_services_returns_distinct_names_from_a_full_prefix_scan() {
    let api = ServiceInstance::new("a-1", "api", "localhost", 8080);
    let worker = ServiceInstance::new("w-1", "worker", "localhost", 9090);
    let kvs = vec![
        kv("/services/api/a-1", &to_json(&api)),
        kv("/services/worker/w-1", &to_json(&worker)),
    ];

    let etcd = EtcdDiscovery::new("http://localhost:2379", "/services").unwrap();
    let request = etcd.list_services_request();
    assert_eq!(decode_b64(text(member(body(&request), "key"))), "/services/");
    let names = list_services_reply(scan(&etcd.all_services_prefix(), found(kvs))).unwrap();

    assert_eq!(names, vec!["api".to_string(), "worker".to_string()]);
}

#[test]
fn listing_names_a_service_of_many_instances_once() {
    let kvs = ["w-2", "w-1"]
        .iter()
        .map(|id| kv("k", &to_json(&ServiceInstance::new(id, "worker", "localhost", 1))))
        .chain([kv("k", &to_json(&ServiceInstance::new("a-1", "api", "localhost", 1)))])
        .collect();
    let names = list_services_reply(scan("/services/", found(kvs))).unwrap();
    assert_eq!(names, vec!["api", "worker"]);
}

#[test]
fn keys_and_prefixes_are_spelled_exactly() {
    let etcd = EtcdDiscovery::new("http://localhost:2379", "/services").unwrap();
    assert_eq!(etcd.service_name_prefix("api"), "/services/api/");
    assert_eq!(etcd.composite_key("api", "svc-1"), "/services/api/svc-1");
    assert_eq!(etcd.idx_key("svc-1"), "/services__idx/svc-1");
    assert_eq!(etcd.all_services_prefix(), "/services/");
}

#[test]
fn a_scan_covers_ids_with_high_bytes_and_no_neighbour() {
    let etcd = EtcdDiscovery::new("http://localhost:2379", "/services").unwrap();
    let prefix = etcd.service_name_prefix("api");
    let end = prefix_range_end(prefix.as_bytes());
    assert_eq!(end, b"/services/api0".to_vec());
    let covered = |key: &str| key.as_bytes() >= prefix.as_bytes() && key.as_bytes() < end.as_slice();
    for id in ["svc-1", "~", "\u{7f}", "\u{10ffff}", ""] {
        assert!(covered(&etcd.composite_key("api", id)));
    }
    assert!(!covered(&etcd.composite_key("apj", "svc-1")));
    assert!(!covered(&etcd.composite_key("ap", "svc-1")));
    assert!(!covered(&etcd.idx_key("svc-1")));
    // A name with a slash lies in the range of the name before the slash.
    assert!(covered(&etcd.composite_key("api/v2", "svc-1")));
}

#[test]
fn scan_and_get_requests_carry_base64() {
    let etcd = EtcdDiscovery::new("http://localhost:2379", "/services").unwrap();
    let scan = etcd.scan_prefix_request("/services/api/");
    assert_eq!(scan.method, Method::Post);
    assert_eq!(scan.url, "http://localhost:2379/v3/kv/range");
    assert_eq!(text(member(body(&scan), "key")), "L3NlcnZpY2VzL2FwaS8=");
    assert_eq!(text(member(body(&scan), "range_end")), "L3NlcnZpY2VzL2FwaTA=");
    let get = etcd.get_key_request("/services__idx/svc-1");
    assert_eq!(text(member(body(&get), "key")), encode_b64("/services__idx/svc-1"));
    assert!(matches!(body(&get), Json::Object(members) if members.len() == 1));
}

#[test]
fn operations_hold_the_encoded_pair() {
    let put = put_op("k", "v", "9");
    let inner = member(&put, "requestPut");
    assert_eq!(text(member(inner, "key")), "aw==");
    assert_eq!(text(member(inner, "value")), "dg==");
    assert_eq!(text(member(inner, "lease")), "9");
    let delete = delete_op("k");
    assert_eq!(text(member(member(&delete, "requestDeleteRange"), "key")), "aw==");
}

#[test]
fn what_is_written_is_read_back() {
    for (key, value) in [("", ""), ("/services/api/~ü", "{\"id\":\"\u{10ffff}\"}")] {
        let put = put_op(key, value, "1");
        let inner = member(&put, "requestPut");
        let written = EtcdKV {
            key: text(member(inner, "key")).to_string(),
            value: text(member(inner, "value")).to_string(),
        };
        assert_eq!(decode_kv(written).unwrap(), (key.to_string(), value.to_string()));
    }
}

#[test]
fn undecodable_pairs_are_invalid_configuration() {
    let no_base64 = EtcdKV { key: "*".to_string(), value: encode_b64("v") };
    let no_utf8 = EtcdKV { key: encode_b64("k"), value: STANDARD.encode([0xC3, 0x28]) };
    for kv in [no_base64, no_utf8] {
        match decode_kv(kv) {
            Err(DiscoveryError::InvalidConfiguration(message)) => assert!(!message.is_empty()),
            other => panic!("{:?}", other),
        }
    }
    let first = decoded_pair(Err("a".to_string()), Err("b".to_string()));
    assert!(matches!(first, Err(DiscoveryError::InvalidConfiguration(text)) if text == "a"));
}

#[test]
fn the_messages_of_the_decoders_are_kept() {
    let bad = EtcdKV { key: "*".to_string(), value: String::new() };
    let expected = STANDARD.decode("*").unwrap_err().to_string();
    assert!(matches!(decode_kv(bad), Err(DiscoveryError::InvalidConfiguration(m)) if m == expected));
    let bad = EtcdKV { key: STANDARD.encode([0xFF]), value: String::new() };
    let expected = String::from_utf8(vec![0xFF]).unwrap_err().to_string();
    assert!(matches!(decode_kv(bad), Err(DiscoveryError::InvalidConfiguration(m)) if m == expected));
}

#[test]
fn one_unreadable_instance_spoils_a_scan_and_the_first_fault_is_told() {
    let good = kv("/services/api/a", &to_json(&ServiceInstance::new("a", "api", "localhost", 1)));
    let bad = kv("/services/api/b", "{}");
    let worse = kv("/services/api/c", "");
    match scan("/services/api/", found(vec![good, bad, worse])) {
        Err(DiscoveryError::InvalidConfiguration(message)) => {
            assert_eq!(message, "missing field `port`");
        }
        other => panic!("{:?}", other),
    }
}

#[test]
fn an_undecodable_pair_counts_only_after_the_faults_before_it() {
    let garbled = || EtcdKV { key: "*".to_string(), value: String::new() };
    let unread = || kv("/services/api/b", "{}");
    let first = scan("/services/api/", found(vec![unread(), garbled()]));
    assert!(matches!(
        first,
        Err(DiscoveryError::InvalidConfiguration(m)) if m == "missing field `port`"
    ));
    let first = scan("/services/api/", found(vec![garbled(), unread()]));
    assert!(matches!(
        first,
        Err(DiscoveryError::InvalidConfiguration(m)) if m != "missing field `port`"
    ));
}

#[test]
fn only_the_first_pair_of_a_lookup_counts() {
    let first = to_json(&ServiceInstance::new("a", "api", "localhost", 1));
    let reply = found(vec![kv("k", &first), kv("k", "no JSON at all")]);
    assert_eq!(get("k", reply).unwrap().unwrap().id, "a");
}

#[test]
fn lookups_fail_with_the_key_and_the_status() {
    let scan = scan_prefix_reply("/services/", refused("503 Service Unavailable", "x"));
    assert!(matches!(
        scan,
        Err(DiscoveryError::InvalidConfiguration(m))
            if m == "etcd range scan over /services/ failed with status 503 Service Unavailable"
    ));
    let get = get_key_reply("k", refused("503 Service Unavailable", "x"));
    assert!(matches!(
        get,
        Err(DiscoveryError::InvalidConfiguration(m))
            if m == "etcd point get for k failed with status 503 Service Unavailable"
    ));
    let lost = get_key_reply("k", Reply::Lost("no route".to_string()));
    assert!(matches!(lost, Err(DiscoveryError::Http(m)) if m == "no route"));
    let garbled = scan_prefix_reply("p", Reply::Accepted(Err("bad body".to_string())));
    assert!(matches!(garbled, Err(DiscoveryError::Http(m)) if m == "bad body"));
    let missing = get_service_reply("svc-9", Ok(None));
    assert!(matches!(missing, Err(DiscoveryError::ServiceNotFound(m)) if m == "svc-9"));
}

#[test]
fn a_lease_id_may_be_a_text_or_a_number_but_not_zero() {
    assert_eq!(grant_lease_reply(accepted(LEASE_JSON)).unwrap(), "7587822721650585186");
    assert_eq!(grant_lease_reply(accepted(r#"{"ID": 42}"#)).unwrap(), "42");
    for body in [r#"{"ID":"0"}"#, r#"{"ID":0}"#, r#"{"ID":null}"#, r#"{"TTL":"30"}"#, "[]"] {
        match grant_lease_reply(accepted(body)) {
            Err(DiscoveryError::RegistrationFailed(message)) => assert_eq!(
                message,
                format!("etcd lease grant returned no usable lease id: {body}")
            ),
            other => panic!("{:?}", other),
        }
    }
    let no_json = grant_lease_reply(accepted("<html>"));
    assert!(matches!(
        no_json,
        Err(DiscoveryError::Http(m)) if m == "error decoding response body"
    ));
}

#[test]
fn a_document_without_a_lease_is_shown_in_compact_form() {
    let reply = grant_lease_reply(accepted("{ \"ID\" : true }"));
    assert!(matches!(
        reply,
        Err(DiscoveryError::RegistrationFailed(m))
            if m == r#"etcd lease grant returned no usable lease id: {"ID":true}"#
    ));
}

#[test]
fn a_named_lease_is_taken_from_its_member() {
    let shown = || Ok("{}".to_string());
    assert_eq!(named_lease_id(Ok(Member::Text("a".to_string())), shown()).unwrap(), "a");
    assert_eq!(named_lease_id(Ok(Member::Number("7".to_string())), shown()).unwrap(), "7");
    let none = named_lease_id(Ok(Member::Other), shown());
    assert!(matches!(none, Err(DiscoveryError::RegistrationFailed(_))));
    let broken = named_lease_id(Err("eof".to_string()), shown());
    assert!(matches!(broken, Err(DiscoveryError::Http(m)) if m == "error decoding response body"));
}

#[test]
fn refusals_carry_the_body_or_say_that_it_is_unknown() {
    let refused = || Reply::<Vec<u8>>::Refused { status: "500".to_string(), text: None };
    assert!(matches!(
        grant_lease_reply(refused()),
        Err(DiscoveryError::RegistrationFailed(m)) if m == "etcd lease grant failed: Unknown error"
    ));
    assert!(matches!(
        revoke_lease_reply(refused()),
        Err(DiscoveryError::DeregistrationFailed(m)) if m == "etcd lease revoke failed: Unknown error"
    ));
    assert!(matches!(
        txn_reply(refused()),
        Err(DiscoveryError::InvalidConfiguration(m)) if m == "etcd transaction failed: Unknown error"
    ));
    assert!(matches!(
        deregister_reply(refused()),
        Err(DiscoveryError::DeregistrationFailed(m))
            if m == "Invalid configuration: etcd transaction failed: Unknown error"
    ));
}

#[test]
fn a_registration_sends_nothing_after_its_first_failure_but_a_revocation() {
    let instance = ServiceInstance::new("svc-1", "api", "localhost", 8080);
    let etcd = EtcdDiscovery::new("http://localhost:2379", "/services").unwrap();

    match etcd.register(&instance, Err("no text".to_string())) {
        RegisterStep::Failed(DiscoveryError::InvalidConfiguration(m)) => assert_eq!(m, "no text"),
        other => panic!("{:?}", other),
    }

    // A document that names no lease is a failed registration.
    let (sent, end) = register(&etcd, &instance, vec![accepted("{}"), accepted("{}")]);
    assert_eq!(sent.len(), 1);
    assert!(matches!(end, RegisterStep::Failed(DiscoveryError::RegistrationFailed(_))));

    // A failed revocation does not hide why the registration failed.
    let replies = vec![
        accepted(LEASE_JSON),
        Reply::Lost("reset".to_string()),
        Reply::Lost("reset again".to_string()),
    ];
    let (sent, end) = register(&etcd, &instance, replies);
    assert_eq!(sent.len(), 3);
    match end {
        RegisterStep::Failed(DiscoveryError::RegistrationFailed(m)) => {
            assert_eq!(m, "HTTP error: reset");
        }
        other => panic!("{:?}", other),
    }
}

#[test]
fn a_later_registration_supersedes_the_task_of_an_earlier_one() {
    let mut registrations: Registrations<u8> = Registrations::new();
    assert_eq!(registrations.record("svc-1", "10".to_string(), 1), None);
    assert_eq!(registrations.record("svc-2", "20".to_string(), 2), None);
    assert_eq!(registrations.record("svc-1", "11".to_string(), 3), Some(1));
    let mut tasks: Vec<u8> = registrations.keep_alives().into_iter().copied().collect();
    tasks.sort();
    assert_eq!(tasks, vec![2, 3]);
    let taken = registrations.take_registration("svc-1").unwrap();
    assert_eq!((taken.lease_id.as_str(), taken.keep_alive), ("11", 3));
    assert!(registrations.take_registration("svc-1").is_none());
    let etcd = EtcdDiscovery::new("http://localhost:2379", "/services").unwrap();
    assert!(matches!(
        etcd.deregister(&mut registrations, "svc-1"),
        DeregisterStep::Lookup { .. }
    ));
}

#[test]
fn lease_lifetimes_are_whole_seconds_and_the_pause_is_a_third() {
    let with = |ttl: Duration| {
        let etcd = EtcdDiscovery::new("http://localhost:2379", "/services").unwrap().with_lease_ttl(ttl);
        let pause = etcd.keep_alive_interval();
        (etcd.lease_ttl_secs(), pause.as_secs(), pause.subsec_nanos())
    };
    assert_eq!(with(Duration::from_secs(10)), (10, 3, 333_333_333));
    assert_eq!(with(Duration::from_secs(30)), (30, 10, 0));
    // Less than a second counts as one.
    assert_eq!(with(Duration::from_millis(5)), (1, 0, 333_333_333));
    // Three pauses fit into the second that is granted.
    assert_eq!(with(Duration::from_millis(1_900)), (1, 0, 333_333_333));
    assert_eq!(with(Duration::new(u64::MAX, 999_999_999)), (u64::MAX, u64::MAX / 3, 0));
    let etcd = EtcdDiscovery::new("http://localhost:2379", "/services").unwrap();
    assert_eq!(etcd.lease_ttl_secs(), 30);
}
