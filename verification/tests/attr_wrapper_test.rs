use ngx_mixer::attr_wrapper::{AttrValue, AttributeWrapper};
use ngx_mixer::compressed::CompressedAttributes;
use ngx_mixer::global_dict::GlobalDictionary;
use ngx_mixer::message_dict::MessageDictionary;
use ngx_mixer::time::Timestamp;

fn find<V: Clone>(entries: &[(i32, V)], key: i32) -> Option<V> {
    entries.iter().find(|e| e.0 == key).map(|e| e.1.clone())
}

fn compress(attr_wrapper: &AttributeWrapper, dict: &mut MessageDictionary) -> CompressedAttributes {
    attr_wrapper.as_attributes(dict)
}

#[test]
fn simple_string_mapping() {
    let global_dict = GlobalDictionary::new();
    let mut dict = MessageDictionary::new(global_dict);
    let mut attr_wrapper = AttributeWrapper::new();

    attr_wrapper.insert_string_attribute("source.ip", "10.0.0.0");
    attr_wrapper.insert_string_attribute("destination.ip", "10.0.0.0");

    let attributes = compress(&attr_wrapper, &mut dict);
    let index = find(&attributes.strings, 0).unwrap();
    assert_eq!(index, -1);

    let destination_ip_index = dict.index_of("destination.ip");
    let index = find(&attributes.strings, destination_ip_index).unwrap();
    assert_eq!(index, -1);
}

#[test]
fn simple_int64_mapping() {
    let global_dict = GlobalDictionary::new();
    let mut dict = MessageDictionary::new(global_dict);
    let mut attr_wrapper = AttributeWrapper::new();

    attr_wrapper.insert_int64_attribute("response.duration", 50);

    let attributes = compress(&attr_wrapper, &mut dict);
    let response_dur_index = dict.index_of("response.duration");
    let duration = find(&attributes.int64s, response_dur_index).unwrap();
    assert_eq!(duration, 50);
}

#[test]
fn simple_double_mapping() {
    let global_dict = GlobalDictionary::new();
    let mut dict = MessageDictionary::new(global_dict);
    let mut attr_wrapper = AttributeWrapper::new();

    let value = 0.5_f64;
    attr_wrapper.insert_double_attribute("response.duration", value.to_bits(), value.to_string());

    let attributes = compress(&attr_wrapper, &mut dict);
    let response_dur_index = dict.index_of("response.duration");
    let duration = find(&attributes.doubles, response_dur_index).unwrap();
    assert_eq!(f64::from_bits(duration), 0.5_f64);
}

#[test]
fn simple_bool_mapping() {
    let global_dict = GlobalDictionary::new();
    let mut dict = MessageDictionary::new(global_dict);
    let mut attr_wrapper = AttributeWrapper::new();

    attr_wrapper.insert_bool_attribute("true", true);

    let attributes = compress(&attr_wrapper, &mut dict);
    let response_dur_index = dict.index_of("true");
    let duration = find(&attributes.bools, response_dur_index).unwrap();
    assert_eq!(duration, true);
}

#[test]
fn simple_time_stamp() {
    let global_dict = GlobalDictionary::new();
    let mut dict = MessageDictionary::new(global_dict);
    let mut attr_wrapper = AttributeWrapper::new();

    let request_time = Timestamp::new(1000, 0);
    attr_wrapper.insert_time_stamp_attribute("request.time", request_time);

    let attributes = compress(&attr_wrapper, &mut dict);
    let response_dur_index = dict.index_of("request.time");
    let duration = find(&attributes.timestamps, response_dur_index).unwrap();

    assert_eq!(duration.seconds, 1000);
}

#[test]
fn simple_stringmap_mapping() {
    let global_dict = GlobalDictionary::new();
    let mut dict = MessageDictionary::new(global_dict);
    let mut attr_wrapper = AttributeWrapper::new();

    let string_map: Vec<(String, String)> = vec![
        (String::from("request.scheme"), String::from("http")),
        (String::from("request.useragent"), String::from("mac")),
    ];
    attr_wrapper.insert_string_map("request.headers", string_map);

    let attributes = compress(&attr_wrapper, &mut dict);

    let scheme_index = dict.index_of("request.scheme");
    let _user_agent_index = dict.index_of("request.useragent");
    let http_index = dict.index_of("http");
    let header_index = dict.index_of("request.headers");

    let str_map = attributes.string_maps.iter().find(|e| e.0 == header_index).unwrap();
    let str_http_index = find(&str_map.1.entries, scheme_index).unwrap();
    assert_eq!(str_http_index, http_index);
}

#[test]
fn global_list() {
    let list = GlobalDictionary::new();
    assert_eq!(list.index_of(&String::from("source.ip")), Some(0));
}

#[test]
fn global_words_in_order() {
    let list = GlobalDictionary::new();
    assert_eq!(list.size(), 31);
    assert_eq!(list.word_at(0), Some(&String::from("source.ip")));
    assert_eq!(list.index_of(&String::from("response.code")), Some(30));
    assert_eq!(list.index_of(&String::from("no.such.word")), None);
    assert_eq!(list.word_at(31), None);
    let custom = GlobalDictionary::from_words(vec![String::from("a"), String::from("b"), String::from("a")]);
    assert_eq!(custom.index_of(&String::from("a")), Some(0));
    assert_eq!(custom.index_of(&String::from("b")), Some(1));
}

#[test]
fn message_dictionary_indices() {
    let mut dict = MessageDictionary::new(GlobalDictionary::new());
    assert_eq!(dict.global_dict_size(), 31);
    assert_eq!(dict.index_of("source.ip"), 0);
    assert_eq!(dict.index_of("first"), -1);
    assert_eq!(dict.index_of("second"), -2);
    // a word looked up again keeps its index
    assert_eq!(dict.index_of("first"), -1);
    assert_eq!(dict.get_words(), &vec![String::from("first"), String::from("second")]);
}

#[test]
fn as_attributes_lists_words_in_lookup_order() {
    let mut dict = MessageDictionary::new(GlobalDictionary::new());
    let mut attrs = AttributeWrapper::new();
    attrs.insert_string_attribute("my.name", "my.value");
    attrs.insert_int64_attribute("my.count", 3);
    let compressed = compress(&attrs, &mut dict);
    assert_eq!(
        compressed.words,
        vec![String::from("my.name"), String::from("my.value"), String::from("my.count")]
    );
    assert_eq!(compressed.strings, vec![(-1, -2)]);
    assert_eq!(compressed.int64s, vec![(-3, 3)]);
    assert!(compressed.bools.is_empty());
}

#[test]
fn insert_replaces_and_skips_empty_strings() {
    let mut attrs = AttributeWrapper::new();
    attrs.insert_string_attribute("k", "");
    assert!(!attrs.key_exists("k"));
    attrs.insert_string_attribute("k", "v1");
    attrs.insert_string_attribute("k", "v2");
    match attrs.get("k") {
        Some(AttrValue::StrValue(s)) => assert_eq!(s, "v2"),
        _ => panic!("expected a string value"),
    }
    attrs.insert_int64_attribute("k", 9);
    match attrs.get("k") {
        Some(AttrValue::I64(n)) => assert_eq!(*n, 9),
        _ => panic!("expected an integer value"),
    }
    attrs.insert_ip_attribute("ip", [10, 0, 0, 1]);
    match attrs.get("ip") {
        Some(AttrValue::Ip(o)) => assert_eq!(*o, [10, 0, 0, 1]),
        _ => panic!("expected an address"),
    }
    assert!(attrs.get("missing").is_none());
}

#[test]
fn small_sets_fit_the_dictionary() {
    let mut attrs = AttributeWrapper::new();
    assert!(attrs.fits_dictionary());
    attrs.insert_string_attribute("a", "b");
    attrs.insert_string_map("m", vec![(String::from("k"), String::from("v"))]);
    assert!(attrs.fits_dictionary());
}
