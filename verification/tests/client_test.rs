use std::collections::hash_map::DefaultHasher;
use std::hash::{Hash, Hasher};
use ngx_mixer::attr_wrapper::AttributeWrapper;
use ngx_mixer::check_cache::CheckResponse;
use ngx_mixer::mixer_client_wrapper::{
    build_check_request, check_allowed, check_handler_status, check_outcome, MixerClientWrapper,
};
use ngx_mixer::referenced::{AttributeMatch, Condition, Referenced, ReferencedAttributes};
use ngx_mixer::status::StatusCodeEnum;
use ngx_mixer::time::Timestamp;
use ngx_mixer::key_order::{key_le_exec, sort_keys};

fn matches(ms: &[(i32, Condition)]) -> ReferencedAttributes {
    ReferencedAttributes {
        words: Vec::new(),
        attribute_matches: ms.iter().map(|m| AttributeMatch { name: m.0, condition: m.1 }).collect(),
    }
}

#[test]
fn referenced_fill_records_keys_by_condition() {
    let mut r = Referenced::new();
    // 0 is "source.ip", 1 is "source.port" in the global words
    let ok = r.fill(&matches(&[(0, Condition::EXACT), (1, Condition::ABSENCE), (2, Condition::CONDITION_UNSPECIFIED)]));
    assert!(ok);
    let mut attrs = AttributeWrapper::new();
    attrs.insert_string_attribute("source.ip", "10.0.0.1");
    let with_ip = r.signature(&attrs, "");
    assert!(with_ip.is_some());
    // the same values give the same signature
    let mut same = AttributeWrapper::new();
    same.insert_string_attribute("source.ip", "10.0.0.1");
    same.insert_string_attribute("other", "ignored");
    assert_eq!(r.signature(&same, ""), with_ip);
    // another exact value gives another signature
    let mut other = AttributeWrapper::new();
    other.insert_string_attribute("source.ip", "10.0.0.2");
    assert_ne!(r.signature(&other, ""), with_ip);
    // an absence key that is present gives no signature
    attrs.insert_int64_attribute("source.port", 80);
    assert_eq!(r.signature(&attrs, ""), None);
}

#[test]
fn referenced_fill_stops_at_bad_match() {
    let mut r = Referenced::new();
    let ok = r.fill(&matches(&[(0, Condition::ABSENCE), (-1, Condition::EXACT), (1, Condition::ABSENCE)]));
    assert!(!ok);
    let mut attrs = AttributeWrapper::new();
    attrs.insert_int64_attribute("source.port", 80);
    // the match after the bad one was not recorded
    assert!(r.signature(&attrs, "").is_some());
    attrs.insert_string_attribute("source.ip", "1.2.3.4");
    assert_eq!(r.signature(&attrs, ""), None);
    let mut regex = Referenced::new();
    assert!(!regex.fill(&matches(&[(0, Condition::REGEX)])));
    let mut too_big = Referenced::new();
    assert!(!too_big.fill(&matches(&[(31, Condition::EXACT)])));
}

#[test]
fn check_outcome_variants() {
    assert_eq!(check_outcome(None).err().unwrap().get_error_code(), StatusCodeEnum::CANCELLED);
    let denied = check_outcome(Some(CheckResponse { status_code: 7 }));
    assert_eq!(denied.as_ref().err().unwrap().get_error_code(), StatusCodeEnum::PERMISSION_DENIED);
    assert!(!check_allowed(&denied));
    let fine = check_outcome(Some(CheckResponse { status_code: 0 }));
    assert_eq!(fine.as_ref().ok().unwrap().status_code, 0);
    assert!(check_allowed(&fine));
    let odd = check_outcome(Some(CheckResponse { status_code: 99 }));
    assert_eq!(odd.as_ref().ok().unwrap().status_code, 99);
    assert!(check_allowed(&check_outcome(None)));
    assert_eq!(check_handler_status(true), 0);
    assert_eq!(check_handler_status(false), 401);
}

#[test]
fn client_check_builds_request() {
    let client = MixerClientWrapper::new();
    let mut attrs = AttributeWrapper::new();
    attrs.insert_string_attribute("source.ip", "10.0.0.1");
    attrs.insert_int64_attribute("custom.size", 12);
    let req = client.check(&attrs);
    assert_eq!(req.global_word_count, 31);
    assert_eq!(req.attributes.words, vec![String::from("10.0.0.1"), String::from("custom.size")]);
    assert_eq!(req.attributes.strings, vec![(0, -1)]);
    assert_eq!(req.attributes.int64s, vec![(-2, 12)]);
    let direct = build_check_request(&attrs);
    assert_eq!(direct.attributes.words, req.attributes.words);
    assert_eq!(direct.attributes.strings, req.attributes.strings);
}

#[test]
fn referenced_hash_ignores_recording_order() {
    let mut r1 = Referenced::new();
    r1.fill(&matches(&[(0, Condition::EXACT), (3, Condition::EXACT), (1, Condition::ABSENCE)]));
    let mut r2 = Referenced::new();
    r2.fill(&matches(&[(1, Condition::ABSENCE), (3, Condition::EXACT), (0, Condition::EXACT)]));
    let mut h1 = DefaultHasher::new();
    r1.hash(&mut h1);
    let mut h2 = DefaultHasher::new();
    r2.hash(&mut h2);
    assert_eq!(h1.finish(), h2.finish());
    // absence keys, then exact keys, each sorted, each hashed as a string
    let mut h3 = DefaultHasher::new();
    for k in ["source.port", "source.ip", "source.uid"] {
        String::from(k).hash(&mut h3);
    }
    assert_eq!(h1.finish(), h3.finish());
}

fn exact_source_ip() -> Referenced {
    let mut r = Referenced::new();
    assert!(r.fill(&matches(&[(0, Condition::EXACT)])));
    r
}

#[test]
fn signature_hashes_values_as_std_hash_does() {
    let r = exact_source_ip();

    let mut attrs = AttributeWrapper::new();
    attrs.insert_int64_attribute("source.ip", -80);
    let mut h = DefaultHasher::new();
    (-80i64).hash(&mut h);
    "".hash(&mut h);
    assert_eq!(r.signature(&attrs, ""), Some(h.finish()));

    let mut attrs = AttributeWrapper::new();
    attrs.insert_ip_attribute("source.ip", [10, 0, 0, 1]);
    let mut h = DefaultHasher::new();
    [10u8, 0, 0, 1].hash(&mut h);
    "".hash(&mut h);
    assert_eq!(r.signature(&attrs, ""), Some(h.finish()));

    let mut attrs = AttributeWrapper::new();
    attrs.insert_bool_attribute("source.ip", true);
    let mut h = DefaultHasher::new();
    true.hash(&mut h);
    "x".hash(&mut h);
    assert_eq!(r.signature(&attrs, "x"), Some(h.finish()));

    let mut attrs = AttributeWrapper::new();
    attrs.insert_time_stamp_attribute("source.ip", Timestamp::new(77, 5));
    let mut h = DefaultHasher::new();
    77i64.hash(&mut h);
    "".hash(&mut h);
    assert_eq!(r.signature(&attrs, ""), Some(h.finish()));

    let mut attrs = AttributeWrapper::new();
    attrs.insert_double_attribute("source.ip", 1.5f64.to_bits(), 1.5f64.to_string());
    let mut h = DefaultHasher::new();
    1.5f64.to_string().hash(&mut h);
    "".hash(&mut h);
    assert_eq!(r.signature(&attrs, ""), Some(h.finish()));

    let mut attrs = AttributeWrapper::new();
    attrs.insert_string_map("source.ip", vec![(String::from("k1"), String::from("v1")), (String::from("k2"), String::from("v2"))]);
    let mut h = DefaultHasher::new();
    "v1".hash(&mut h);
    "v2".hash(&mut h);
    "".hash(&mut h);
    assert_eq!(r.signature(&attrs, ""), Some(h.finish()));

    // an absent exact key contributes nothing
    let attrs = AttributeWrapper::new();
    let mut h = DefaultHasher::new();
    "".hash(&mut h);
    assert_eq!(r.signature(&attrs, ""), Some(h.finish()));
}

fn strings(xs: &[&str]) -> Vec<String> {
    xs.iter().map(|x| String::from(*x)).collect()
}

#[test]
fn keys_sort_in_string_order() {
    let sorted = sort_keys(&strings(&["b", "é", "a", "ab", "a", "B"]));
    assert_eq!(sorted, strings(&["B", "a", "a", "ab", "b", "é"]));
    let mut expected = strings(&["b", "é", "a", "ab", "a", "B"]);
    expected.sort();
    assert_eq!(sorted, expected);
    assert!(key_le_exec(&String::from("a"), &String::from("ab")));
    assert!(!key_le_exec(&String::from("ab"), &String::from("a")));
    assert!(key_le_exec(&String::from(""), &String::from("")));
    assert!(sort_keys(&Vec::new()).is_empty());
}

#[test]
fn referenced_fill_resolves_per_message_names() {
    let reference = ReferencedAttributes {
        words: vec![String::from("my.key"), String::from("other.key")],
        attribute_matches: vec![
            AttributeMatch { name: -2, condition: Condition::ABSENCE },
            AttributeMatch { name: -1, condition: Condition::EXACT },
        ],
    };
    let mut r = Referenced::new();
    assert!(r.fill(&reference));
    let mut attrs = AttributeWrapper::new();
    attrs.insert_string_attribute("my.key", "v");
    let mut h = DefaultHasher::new();
    "v".hash(&mut h);
    "".hash(&mut h);
    assert_eq!(r.signature(&attrs, ""), Some(h.finish()));
    attrs.insert_string_attribute("other.key", "present");
    assert_eq!(r.signature(&attrs, ""), None);

    let out_of_range = ReferencedAttributes {
        words: vec![String::from("my.key")],
        attribute_matches: vec![AttributeMatch { name: -2, condition: Condition::EXACT }],
    };
    assert!(!Referenced::new().fill(&out_of_range));
}
