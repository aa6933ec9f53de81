use armature_discovery::address::fits;
use armature_discovery::consul::{
    checked_url, deregister_reply, described_instance, discover_reply, get_service_reply,
    list_services_reply, register_reply, ConsulServiceDetail,
};
use armature_discovery::http::{Method, Reply, Request};
use armature_discovery::json::Json;
use armature_discovery::keyed::Keyed;
use armature_discovery::{ConsulDiscovery, DiscoveryError, ServiceInstance};

fn sent(plan: Option<Result<Request, DiscoveryError>>) -> Request {
    plan.unwrap().unwrap()
}

fn member<'a>(json: &'a Json, key: &str) -> &'a Json {
    match json {
        Json::Object(members) => &members.iter().find(|(name, _)| name == key).unwrap().1,
        other => panic!("{:?}", other),
    }
}

fn text(json: &Json) -> &str {
    match json {
        Json::Text(text) => text,
        other => panic!("{:?}", other),
    }
}

fn detail(id: &str, meta: Option<Keyed<String>>) -> ConsulServiceDetail {
    ConsulServiceDetail {
        id: id.to_string(),
        service: "api".to_string(),
        address: "localhost".to_string(),
        port: 8080,
        tags: vec![],
        meta,
    }
}

fn refused<T>(text: Option<&str>) -> Reply<T> {
    Reply::Refused { status: "500 Internal Server Error".to_string(), text: text.map(str::to_string) }
}

#[test]
fn test_consul_discovery_creation() {
    let consul = ConsulDiscovery::new("http://localhost:8500");
    assert!(consul.is_ok());
}

#[test]
fn discover_requests_passing_true_so_unhealthy_instances_are_excluded() {
    let consul = ConsulDiscovery::new("http://localhost:8500").unwrap();
    let request = sent(consul.discover_request("api"));
    assert_eq!(request.method, Method::Get);
    assert_eq!(
        request.url, "http://localhost:8500/v1/health/service/api?passing=true",
        "discover() must ask Consul to filter to passing (healthy) instances only"
    );
    assert!(request.body.is_none());

    let instances = discover_reply("api", Reply::Accepted(Ok(vec![detail("svc-1", None)]))).unwrap();
    assert_eq!(instances.len(), 1);
    assert_eq!(instances[0].id, "svc-1");
}

#[test]
fn consul_discover_returns_ok_empty_for_unregistered_service_name() {
    let instances = discover_reply("nonexistent", Reply::Accepted(Ok(vec![]))).unwrap();
    assert!(
        instances.is_empty(),
        "discover() of an unregistered name must return Ok(vec![]), matching the other backends"
    );
}

#[test]
fn register_attaches_consul_check_block_when_health_check_url_is_set() {
    let consul = ConsulDiscovery::new("http://localhost:8500").unwrap();
    let instance = ServiceInstance::new("svc-1", "api", "localhost", 8080)
        .with_health_check("http://localhost:8080/health");

    let request = sent(consul.register_request(&instance));
    assert_eq!(request.method, Method::Put);
    assert_eq!(request.url, "http://localhost:8500/v1/agent/service/register");
    let body = request.body.unwrap();
    let check = member(&body, "Check");
    assert_eq!(
        text(member(check, "HTTP")),
        "http://localhost:8080/health",
        "register() must forward health_check_url as Check.HTTP so Consul performs the round-trip health check"
    );
    assert_eq!(text(member(check, "Interval")), "10s", "register() must set Check.Interval");
    assert_eq!(text(member(check, "Timeout")), "5s", "register() must set Check.Timeout");
}

#[test]
fn discover_percent_encodes_service_name_path_segment() {
    let consul = ConsulDiscovery::new("http://localhost:8500").unwrap();
    // A crafted name that would otherwise inject a path segment / query
    // string must be percent-encoded, not interpreted as URL syntax.
    let request = sent(consul.discover_request("api/../secret?x=1"));
    assert!(
        request.url.contains("%2F") || !request.url.contains("../secret"),
        "service_name must be percent-encoded, not left as raw path syntax: {}",
        request.url
    );
    assert_eq!(
        request.url,
        "http://localhost:8500/v1/health/service/api%2F..%2Fsecret%3Fx=1?passing=true"
    );
}

#[test]
fn a_registration_without_a_health_check_has_six_members() {
    let consul = ConsulDiscovery::new("http://localhost:8500").unwrap();
    let mut instance = ServiceInstance::new("svc-1", "api", "localhost", 8080).with_tag("v1");
    instance.metadata.insert("zone", "b".to_string());
    match sent(consul.register_request(&instance)).body.unwrap() {
        Json::Object(members) => {
            let keys: Vec<&str> = members.iter().map(|(key, _)| key.as_str()).collect();
            assert_eq!(keys, vec!["ID", "Name", "Address", "Port", "Tags", "Meta"]);
            let body = Json::Object(members);
            assert_eq!(text(member(&body, "ID")), "svc-1");
            assert_eq!(text(member(&body, "Name")), "api");
            assert_eq!(text(member(&body, "Address")), "localhost");
            assert!(matches!(member(&body, "Port"), Json::Number(8080)));
            assert!(matches!(member(&body, "Tags"), Json::List(tags) if tags.len() == 1 && text(&tags[0]) == "v1"));
            assert!(matches!(
                member(&body, "Meta"),
                Json::Texts(meta) if meta.len() == 1 && meta.get("zone").map(String::as_str) == Some("b")
            ));
        }
        other => panic!("{:?}", other),
    }
}

#[test]
fn endpoints_are_spelled_exactly() {
    let consul = ConsulDiscovery::new("http://localhost:8500").unwrap();
    let deregister = sent(consul.deregister_request("svc-1"));
    assert_eq!(deregister.method, Method::Put);
    assert_eq!(deregister.url, "http://localhost:8500/v1/agent/service/deregister/svc-1");
    assert!(deregister.body.is_none());
    let get = sent(consul.get_service_request("svc-1"));
    assert_eq!(get.method, Method::Get);
    assert_eq!(get.url, "http://localhost:8500/v1/agent/service/svc-1");
    let list = sent(consul.list_services_request());
    assert_eq!(list.method, Method::Get);
    assert_eq!(list.url, "http://localhost:8500/v1/catalog/services");
}

#[test]
fn a_base_url_keeps_its_own_path() {
    let consul = ConsulDiscovery::new("https://proxy/consul").unwrap();
    assert_eq!(consul.build_url(&["v1", "a b"]).unwrap(), "https://proxy/consul/v1/a%20b");
    assert_eq!(consul.build_url(&[]).unwrap(), "https://proxy/consul");
    for base in [
        "file:///C:/x", "file:////x", "file://host//x", "file:///.//x", "file:///C|/x", "file:C|/x",
        "file:///C:", "file:///C|", "file:", "file://host/C|", "file://host", "file:/..//C:/..//x",
        "foo://h", "foo:/", "foo:/.//p", "foo:///", "http:h//x//", "http://h//", "http://h/a/..",
        "http://h/?", "http://h#", "foo://h?q#f", "foo://?q", "file:///..//x/../", "file://///",
    ] {
        let other = ConsulDiscovery::new(base).unwrap();
        let normal = other.build_url(&[]).unwrap();
        let end = normal.find(['?', '#']).unwrap_or(normal.len());
        let (head, tail) = normal.split_at(end);
        let url = other.build_url(&["v1", "a"]).unwrap();
        // A slash comes before the segments unless the path is a slash alone.
        let slash = if url::Url::parse(&normal).unwrap().path() == "/" { "" } else { "/" };
        assert_eq!(url, format!("{head}{slash}v1/a{tail}"), "{base}");
    }
}

#[test]
fn a_root_path_takes_no_second_slash() {
    for (base, url) in [
        ("http://h", "http://h/v1"),
        ("http://h/", "http://h/v1"),
        ("http://h//", "http://h///v1"),
        ("http://h/a", "http://h/a/v1"),
        ("http://h/a/", "http://h/a//v1"),
        ("foo:/", "foo:/v1"),
        ("foo://h", "foo://h/v1"),
    ] {
        let consul = ConsulDiscovery::new(base).unwrap();
        assert_eq!(consul.build_url(&["v1"]).unwrap(), url);
    }
}

#[test]
fn a_drive_letter_starts_the_path_of_a_file_only() {
    let file = ConsulDiscovery::new("file:///").unwrap();
    // A drive is told from what follows it, though the tab between them is dropped.
    assert_eq!(file.build_url(&["c:\tx"]).unwrap(), "file:///c:/x");
    assert_eq!(file.build_url(&["c|"]).unwrap(), "file:///c:");
    assert_eq!(file.build_url(&["c:x"]).unwrap(), "file:///c:x");
    assert_eq!(file.build_url(&["v1", "c:\tx", "c|"]).unwrap(), "file:///v1/c:x/c|");
    let web = ConsulDiscovery::new("http://h").unwrap();
    assert_eq!(web.build_url(&["c:\tx"]).unwrap(), "http://h/c:x");
    assert_eq!(web.build_url(&["c|"]).unwrap(), "http://h/c|");
}

#[test]
fn a_base_url_keeps_its_own_query_and_fragment() {
    let consul = ConsulDiscovery::new("http://h:8500/c/?dc=a#f").unwrap();
    assert_eq!(consul.build_url(&["v1", "x"]).unwrap(), "http://h:8500/c//v1/x?dc=a#f");
    assert_eq!(
        sent(consul.discover_request("api")).url,
        "http://h:8500/c//v1/health/service/api?dc=a&passing=true#f"
    );
    let empty = ConsulDiscovery::new("http://h:8500?#").unwrap();
    assert_eq!(
        sent(empty.discover_request("api")).url,
        "http://h:8500/v1/health/service/api?passing=true#"
    );
}

#[test]
fn tabs_and_line_breaks_are_dropped_from_a_segment() {
    let consul = ConsulDiscovery::new("http://localhost:8500").unwrap();
    assert_eq!(
        sent(consul.get_service_request("a\tb\r\nc")).url,
        "http://localhost:8500/v1/agent/service/abc"
    );
    assert_eq!(
        sent(consul.get_service_request("")).url,
        "http://localhost:8500/v1/agent/service/"
    );
}

#[test]
fn a_segment_is_read_back_from_the_url() {
    let consul = ConsulDiscovery::new("http://localhost:8500").unwrap();
    for id in ["a b", "50%", "a/b?c#d", "ü€", "{x}\\|^", "%2e%2e", "\u{7f}"] {
        let url = url::Url::parse(&sent(consul.get_service_request(id)).url).unwrap();
        let last = url.path_segments().unwrap().last().unwrap().to_string();
        let bytes = percent_decoded(&last);
        assert_eq!(bytes, id.as_bytes());
        assert_eq!(url.path_segments().unwrap().count(), 4);
    }
}

#[test]
fn whether_there_is_a_url_depends_on_the_base_alone() {
    for (base, there) in [("http://h", true), ("foo:/a", true), ("mailto:a", false), ("x", false)] {
        let consul = ConsulDiscovery::new(base).unwrap();
        for id in ["a", "", "..", "a/b", "?"] {
            assert_eq!(consul.get_service_request(id).unwrap().is_ok(), there);
            assert_eq!(consul.discover_request(id).unwrap().is_ok(), there);
        }
    }
}

#[test]
fn ids_cannot_leave_their_segment() {
    let consul = ConsulDiscovery::new("http://localhost:8500").unwrap();
    let url = sent(consul.deregister_request("a/b?c#d%2f\\e")).url;
    let start = "http://localhost:8500/v1/agent/service/deregister/";
    assert!(url.starts_with(start));
    let rest = &url[start.len()..];
    assert_eq!(rest, "a%2Fb%3Fc%23d%252f%5Ce");
    assert!(!rest.contains(['/', '?', '#']));
    // Dots name no segment of their own.
    assert_eq!(
        sent(consul.get_service_request("..")).url,
        "http://localhost:8500/v1/agent/service"
    );
}

#[test]
fn a_base_url_that_is_none_is_invalid_configuration() {
    let consul = ConsulDiscovery::new("not a url").unwrap();
    let expected = url::Url::parse("not a url").unwrap_err().to_string();
    for plan in [consul.list_services_request(), consul.discover_request("api")] {
        match plan.unwrap() {
            Err(DiscoveryError::InvalidConfiguration(message)) => assert_eq!(message, expected),
            other => panic!("{:?}", other),
        }
    }
    let opaque = ConsulDiscovery::new("mailto:ops").unwrap();
    for plan in [opaque.get_service_request("a"), opaque.discover_request("api")] {
        match plan.unwrap() {
            Err(DiscoveryError::InvalidConfiguration(message)) => {
                assert_eq!(message, "Consul base_url cannot be a base URL");
            }
            other => panic!("{:?}", other),
        }
    }
}

#[test]
fn a_url_needs_a_parsed_base_and_a_path() {
    let ok = || Ok("http://h/".to_string());
    assert_eq!(checked_url(ok(), Some("http://h/v1".to_string())).unwrap(), "http://h/v1");
    assert!(matches!(checked_url(ok(), None), Err(DiscoveryError::InvalidConfiguration(_))));
    assert!(matches!(
        checked_url(Err("bad".to_string()), Some("http://h/v1".to_string())),
        Err(DiscoveryError::InvalidConfiguration(m)) if m == "bad"
    ));
}

#[test]
fn writes_fail_with_the_body_of_the_refusal() {
    assert!(register_reply(Reply::Accepted(Ok(()))).is_ok());
    assert!(deregister_reply(Reply::Accepted(Ok(()))).is_ok());
    assert!(matches!(
        register_reply::<()>(refused(Some("bad payload"))),
        Err(DiscoveryError::RegistrationFailed(m)) if m == "bad payload"
    ));
    assert!(matches!(
        register_reply::<()>(refused(None)),
        Err(DiscoveryError::RegistrationFailed(m)) if m == "Unknown error"
    ));
    assert!(matches!(
        deregister_reply::<()>(refused(Some("no such id"))),
        Err(DiscoveryError::DeregistrationFailed(m)) if m == "no such id"
    ));
    assert!(matches!(
        deregister_reply::<()>(Reply::Lost("timed out".to_string())),
        Err(DiscoveryError::Http(m)) if m == "timed out"
    ));
}

#[test]
fn lookups_that_are_refused_find_no_service() {
    assert!(matches!(
        discover_reply("api", refused(None)),
        Err(DiscoveryError::ServiceNotFound(m)) if m == "api"
    ));
    assert!(matches!(
        get_service_reply("svc-1", refused(None)),
        Err(DiscoveryError::ServiceNotFound(m)) if m == "svc-1"
    ));
    assert!(matches!(
        get_service_reply("svc-1", Reply::Accepted(Err("not JSON".to_string()))),
        Err(DiscoveryError::Http(m)) if m == "not JSON"
    ));
    assert!(matches!(
        discover_reply("api", Reply::Lost("timed out".to_string())),
        Err(DiscoveryError::Http(_))
    ));
}

#[test]
fn described_instances_keep_order_tags_and_metadata() {
    let mut meta = Keyed::new();
    meta.insert("zone", "b".to_string());
    let mut first = detail("svc-2", Some(meta));
    first.tags.push("v1".to_string());
    let found = discover_reply("api", Reply::Accepted(Ok(vec![first, detail("svc-1", None)]))).unwrap();
    assert_eq!(found[0].id, "svc-2");
    assert_eq!(found[0].tags, vec!["v1"]);
    assert_eq!(found[0].metadata.get("zone").map(String::as_str), Some("b"));
    assert_eq!(found[1].id, "svc-1");
    let one = described_instance(detail("svc-1", None));
    assert_eq!((one.name.as_str(), one.address.as_str(), one.port), ("api", "localhost", 8080));
    assert!(one.metadata.len() == 0 && one.tags.is_empty() && one.health_check_url.is_none());
    let got = get_service_reply("svc-1", Reply::Accepted(Ok(detail("svc-1", None)))).unwrap();
    assert_eq!(got.id, "svc-1");
}

#[test]
fn services_are_the_keys_of_the_catalog() {
    let body = br#"{"consul":[],"api":["v1","v2"]}"#.to_vec();
    let mut names = list_services_reply(Reply::Accepted(Ok(body))).unwrap();
    names.sort();
    assert_eq!(names, vec!["api", "consul"]);
    for body in ["[]", r#"{"api":7}"#, "{"] {
        let reply = Reply::Accepted(Ok(body.as_bytes().to_vec()));
        assert!(matches!(
            list_services_reply(reply),
            Err(DiscoveryError::Http(m)) if m == "error decoding response body"
        ));
    }
    assert!(matches!(
        list_services_reply(refused(Some("x"))),
        Err(DiscoveryError::RegistrationFailed(m)) if m == "Failed to list services"
    ));
}

/// The bytes that a piece of a path stands for.
fn percent_decoded(piece: &str) -> Vec<u8> {
    let mut bytes = Vec::new();
    let mut rest = piece.as_bytes();
    while let Some((&first, tail)) = rest.split_first() {
        if first == b'%' {
            let hex = std::str::from_utf8(&tail[..2]).unwrap();
            bytes.push(u8::from_str_radix(hex, 16).unwrap());
            rest = &tail[2..];
        } else {
            bytes.push(first);
            rest = tail;
        }
    }
    bytes
}

#[test]
fn paths_are_continued_by_one_segment_for_each() {
    let bases = [
        "http://h", "http://h/", "http://h/a", "http://h/a/", "http://h//", "http://u:p@h:1/a?q",
        "http://h?", "http://h/#", "http://h/a?#", "http://h/a?q?r#f?#", "file:///", "file://h/",
        "file:///c:", "file:///c:/", "file:///c|", "file:///a", "file:///?q#f", "foo://h", "foo:/",
        "foo://h/#f", "foo:/.//p", "foo:///", "foo:/a\\b?q", "foo://h#f", "foo://#", "ws://h/#f", "https://é/ü?ß#ö",
    ];
    let parts = [
        "", "a", "v1", ".", "..", ".\t", ".\n.", "%2e", "c:", "c|", "c:\tx", "c\t|", "c|\t", "\tc:",
        "a\tb", "\t", "a/b", "a\\b", "?", "#", "%", "é ", "{}", "\u{7f}", "a.b", "...", "c:/", "\\",
    ];
    let stripped = |s: &str| s.replace(['\t', '\n', '\r'], "");
    let dots = |s: &str| s == "." || s == "..";
    let limit: u64 = u32::MAX as u64;
    for base in bases {
        let consul = ConsulDiscovery::new(base).unwrap();
        let normal = consul.build_url(&[]).unwrap();
        assert!(normal.is_ascii());
        let (head, tail) = normal.split_at(normal.find(['?', '#']).unwrap_or(normal.len()));
        let path = url::Url::parse(&normal).unwrap().path().to_string();
        let rooted = path == "/";
        let starting = rooted || path.is_empty();
        let file = normal.starts_with("file:");
        for name in parts {
            // The pair comes last in the query, before the fragment.
            let joined = consul.build_url(&["v1", "health", "service", name]).unwrap();
            let (kept, fragment) = joined.split_at(joined.find('#').unwrap_or(joined.len()));
            let separator = match kept.split_once('?') {
                None => "?",
                Some((_, "")) => "",
                Some(_) => "&",
            };
            assert_eq!(
                sent(consul.discover_request(name)).url,
                format!("{kept}{separator}passing=true{fragment}")
            );
        }
        for one in parts {
            for two in parts {
                for three in ["x", "..", ""] {
                    let segments = [one, two, three];
                    let url = consul.build_url(&segments).unwrap();
                    // Where the fragment starts is never underestimated.
                    if let Some(at) = url.find('#') {
                        let empty = normal.find('?').is_some_and(|q| q + 1 == normal.find('#').unwrap());
                        let spent = at as u64 + if empty { 0 } else { 1 };
                        assert!(!fits(base, &segments, Some(limit - spent + 1)), "{base} {segments:?}");
                        if !file && !segments.iter().any(|s| dots(&stripped(s))) {
                            assert!(fits(base, &segments, Some(limit - spent)), "{base} {segments:?}");
                        }
                    }
                    let kept: Vec<&str> = segments.into_iter().filter(|s| !dots(s)).collect();
                    let steady = segments.iter().all(|s| dots(s) || !dots(&stripped(s)));
                    let opens = kept.first().map_or(true, |s| {
                        let bar = s.chars().count() == 2 && s.ends_with('|');
                        !starting || !stripped(s).is_empty() && !(file && (stripped(s) != *s || bar))
                    });
                    if !steady || !opens {
                        continue;
                    }
                    if kept.is_empty() {
                        assert_eq!(url, normal);
                        continue;
                    }
                    let slash = if rooted { "" } else { "/" };
                    let path = url
                        .strip_prefix(&format!("{head}{slash}"))
                        .and_then(|rest| rest.strip_suffix(tail))
                        .unwrap_or_else(|| panic!("{base} {segments:?} {url}"));
                    let pieces: Vec<&str> = path.split('/').collect();
                    assert_eq!(pieces.len(), kept.len(), "{base} {segments:?} {url}");
                    for (piece, segment) in pieces.iter().zip(kept) {
                        assert!(!piece.contains(['?', '#']));
                        assert_eq!(percent_decoded(piece), stripped(segment).as_bytes());
                    }
                }
            }
        }
    }
}
