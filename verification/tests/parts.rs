use armature_discovery::address::fits;
use armature_discovery::codec::{decode_text, encode_text};
use armature_discovery::duration::Duration;
use armature_discovery::error::joined;
use armature_discovery::http::{is_success, refusal_text};
use armature_discovery::json::Json;
use armature_discovery::keyed::Keyed;
use armature_discovery::names::sorted_distinct;
use armature_discovery::order::{relate, Relation};
use armature_discovery::range::prefix_range_end;

#[test]
fn texts_travel_in_base64() {
    assert_eq!(encode_text("/services/api/svc-1"), "L3NlcnZpY2VzL2FwaS9zdmMtMQ==");
    assert_eq!(decode_text("L3NlcnZpY2VzL2FwaS9zdmMtMQ==").unwrap(), "/services/api/svc-1");
    for text in ["", "a", "ab", "ü€\u{1f600}", "\0"] {
        assert_eq!(decode_text(&encode_text(text)).unwrap(), text);
    }
    assert!(decode_text("YQ").is_err());
    assert!(decode_text("/w==").is_err());
}

#[test]
fn texts_are_ordered_by_their_bytes() {
    assert_eq!(relate("a", "b"), Relation::Before);
    assert_eq!(relate("b", "a"), Relation::After);
    assert_eq!(relate("a", "ab"), Relation::Before);
    assert_eq!(relate("ab", "a"), Relation::After);
    assert_eq!(relate("é", "é"), Relation::Same);
    assert_eq!(relate("", ""), Relation::Same);
    assert_eq!(relate("z", "é"), Relation::Before);
}

#[test]
fn names_come_out_as_sort_and_dedup_give_them() {
    let names: Vec<String> = ["b", "a", "b", "", "ab", "a"].iter().map(|s| s.to_string()).collect();
    let mut expected = names.clone();
    expected.sort();
    expected.dedup();
    assert_eq!(sorted_distinct(names), expected);
    assert!(sorted_distinct(vec![]).is_empty());
}

#[test]
fn range_ends_of_edge_prefixes() {
    assert_eq!(prefix_range_end(&[]), Vec::<u8>::new());
    assert_eq!(prefix_range_end(&[0x00]), vec![0x01]);
    assert_eq!(prefix_range_end(&[0xFE]), vec![0xFF]);
    assert_eq!(prefix_range_end(&[0x01, 0xFF, 0xFF]), vec![0x02]);
    assert_eq!(prefix_range_end(&[0x01, 0xFF, 0x02]), vec![0x01, 0xFF, 0x03]);
}

#[test]
fn spans_carry_into_seconds() {
    let span = Duration::from_millis(2_500);
    assert_eq!((span.as_secs(), span.subsec_nanos()), (2, 500_000_000));
    let third = span.third();
    assert_eq!((third.as_secs(), third.subsec_nanos()), (0, 833_333_333));
    let longer = span.max(Duration::new(2, 500_000_001));
    assert_eq!((longer.as_secs(), longer.subsec_nanos()), (2, 500_000_001));
    let longest = Duration::new(u64::MAX, 999_999_999).third();
    assert_eq!((longest.as_secs(), longest.subsec_nanos()), (u64::MAX / 3, 333_333_333));
}

#[test]
fn the_two_hundreds_are_success() {
    assert!(is_success(200) && is_success(204) && is_success(299));
    assert!(!is_success(199) && !is_success(300) && !is_success(404) && !is_success(500));
}

#[test]
fn refusals_without_a_body_are_unknown() {
    assert_eq!(refusal_text(Some("boom".to_string())), "boom");
    assert_eq!(refusal_text(None), "Unknown error");
    assert_eq!(joined("a", "b"), "ab");
}

#[test]
fn documents_keep_their_members_in_order() {
    let json = Json::object().with("b", Json::Number(1)).with("a", Json::text("x"));
    match json {
        Json::Object(members) => {
            let keys: Vec<&str> = members.iter().map(|(key, _)| key.as_str()).collect();
            assert_eq!(keys, vec!["b", "a"]);
        }
        other => panic!("{:?}", other),
    }
    assert!(matches!(Json::list(vec![Json::Number(1)]), Json::List(items) if items.len() == 1));
    let tags = Json::text_list(&vec!["v1".to_string(), "eu".to_string()]);
    assert!(matches!(tags, Json::List(items) if items.len() == 2));
}

#[test]
fn tables_hold_one_value_for_each_key() {
    let mut table: Keyed<u8> = Keyed::new();
    assert_eq!(table.insert("a", 1), None);
    assert_eq!(table.insert("b", 2), None);
    assert_eq!(table.insert("a", 3), Some(1));
    assert_eq!(table.len(), 2);
    assert_eq!(table.get("a"), Some(&3));
    assert_eq!(table.remove("a"), Some(3));
    assert_eq!(table.remove("a"), None);
    assert_eq!(table.get("a"), None);
    assert_eq!(table.len(), 1);
    assert_eq!(*table.at(0), 2);
    assert_eq!(table.key_at(0), "b");
}

#[test]
fn urls_fit_up_to_their_longest_length() {
    assert!(fits("http://h/", &["v1", "api"], None));
    let limit: u64 = u32::MAX as u64;
    let room = |base: &str, segments: &[&str], spent: u64| {
        fits(base, segments, Some(limit - spent)) && !fits(base, segments, Some(limit - spent + 1))
    };
    // The fragment starts after the nine bytes of the base, the segments with the slash between
    // them, and the question mark.
    assert!(room("http://h/#f", &["v1", "api"], 9 + 2 + 4 + 1));
    assert!(room("http://h/a#f", &["v1", "api"], 10 + 3 + 4 + 1));
    assert!(room("http://h/a?q#f", &["v1"], 12 + 3 + 1));
    assert!(room("http://h/a?#f", &["v1"], 11 + 3));
    // Three bytes for what is percent-encoded, none for what is dropped, and dots add nothing.
    assert!(room("http://h/#f", &["..", "/ %a\tü", "."], 9 + 3 + 3 + 3 + 1 + 6 + 1));
    assert!(room("http://h/#f", &["\\"], 9 + 3 + 1));
    assert!(room("foo://h/#f", &["\\"], 8 + 1 + 1));
    assert!(!fits("http://h/#f", &[], Some(u64::MAX)));
    // Nothing has its place kept behind a pair without a fragment.
    assert!(fits("http://h/", &["v1"], Some(u64::MAX)));
    // Of what has no path of segments, nothing comes.
    assert!(fits("no url", &["v1"], Some(u64::MAX)));
    assert!(fits("mailto:ops#f", &["v1"], Some(u64::MAX)));
}
