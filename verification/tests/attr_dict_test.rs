use ngx_mixer::attr_dict::AttributeWrapper;
use ngx_mixer::encode::{decode_istio_header, encode_istio_header, header_map_of_bytes};
use ngx_mixer::time::Timestamp;
use ngx_mixer::dict_report::report_attributes;
use ngx_mixer::ngx::{MainConfig, RequestInfo, ResponseInfo};

fn lookup<'a>(map: &'a [(String, String)], key: &str) -> Option<&'a String> {
    map.iter().find(|p| p.0 == key).map(|p| &p.1)
}

#[test]
fn simple_test() {
    let mut attr_wrapper = AttributeWrapper::new();
    attr_wrapper.insert_string_attribute("source.ip", "");
}

#[test]
fn check_first_index() {
    let mut dict = AttributeWrapper::new();
    let index = dict.string_index("key1");
    assert_eq!(index, 1);

    let index2 = dict.string_index("key2");
    assert_eq!(index2, 2);

    let index3 = dict.string_index("key1");
    assert_eq!(index3, 1);

    let index4 = dict.string_index("key2");
    assert_eq!(index4, 2);
}

#[test]
fn check_encoding() {
    let mut list = Vec::new();

    list.push(("source_ip", "10.0.0.0"));
    list.push(("source_uid", "kubernetes://productpage-v1-3990756607-plqt5.default"));

    let encoded = encode_istio_header(&list);

    assert_eq!(
        &encoded,
        "c291cmNlX2lwQDEwLjAuMC4wIXNvdXJjZV91aWRAa3ViZXJuZXRlczovL3Byb2R1Y3RwYWdlLXYxLTM5OTA3NTY2MDctcGxxdDUuZGVmYXVsdCE="
    );

    let decoded_map = decode_istio_header(&encoded);

    let ip_result = lookup(&decoded_map, "source_ip");

    match ip_result {
        Some(ip) => assert_eq!(ip, "10.0.0.0"),
        None => assert!(true, "source ip not founded"),
    }

    let uid_result = lookup(&decoded_map, "source_uid");

    match uid_result {
        Some(uid) => assert_eq!(uid, "kubernetes://productpage-v1-3990756607-plqt5.default"),
        None => assert!(true, "source uid not founded"),
    }
}

#[test]
fn decode_finds_both_pairs() {
    let list = vec![("a", "1"), ("b", "2@x")];
    let decoded = decode_istio_header(&encode_istio_header(&list));
    assert_eq!(
        decoded,
        vec![(String::from("a"), String::from("1")), (String::from("b"), String::from("2@x"))]
    );
}

#[test]
fn decode_later_key_wins_and_skips_bad_segments() {
    // "k@1!junk!k@2!" in base64
    let decoded = decode_istio_header("a0AxIWp1bmsha0AyIQ==");
    assert_eq!(decoded, vec![(String::from("k"), String::from("2"))]);
    // not base64 at all
    assert!(decode_istio_header("***").is_empty());
    assert!(decode_istio_header("").is_empty());
}

#[test]
fn encode_empty_list() {
    let list: Vec<(&str, &str)> = Vec::new();
    assert_eq!(encode_istio_header(&list), "");
}

#[test]
fn attr_dict_records_values_under_name_indices() {
    let mut attrs = AttributeWrapper::new();
    attrs.insert_string_attribute("source.ip", "10.0.0.1");
    attrs.insert_int64_attribute("response.code", 200);
    attrs.insert_time_stamp_attribute("request.time", Timestamp::new(7, 0));
    attrs.insert_string_map("request.headers", vec![(1, String::from("h"))]);
    attrs.insert_string_attribute("empty", "");
    let a = &attrs.attributes;
    assert_eq!(a.string_attributes, vec![(1, String::from("10.0.0.1")), (5, String::new())]);
    assert_eq!(a.int64_attributes, vec![(2, 200)]);
    assert_eq!(a.timestamp_attributes, vec![(3, Timestamp::new(7, 0))]);
    assert_eq!(a.string_map_attributes, vec![(4, vec![(1, String::from("h"))])]);
    assert_eq!(attrs.string_index("empty"), 5);
    assert_eq!(attrs.string_index("source.ip"), 1);
}

fn s(x: &str) -> String {
    String::from(x)
}

#[test]
fn dictionary_report_attributes() {
    let main_config = MainConfig {
        mixer_server: s("mixer"),
        mixer_port: 9091,
        target_ip: s("10.1.1.1"),
        target_uid: s(""),
        target_service: s("ignored"),
    };
    let request = RequestInfo {
        host: s("h"),
        method: s("GET"),
        uri: s("/"),
        referer: Some(s("r")),
        request_length: 5,
        start_sec: 9,
        start_msec: 1,
        user_agent: s(""),
        headers: vec![(s("X-ISTIO-SRC-IP"), s("1.2.3.4")), (s("accept"), s("a")), (s("accept"), s("b"))],
    };
    let response = ResponseInfo { status: 200, content_length: 7, headers: vec![(s("server"), s("n"))] };
    let attrs = report_attributes(&main_config, &request, &response);
    let words: Vec<(i32, String)> = attrs.attributes.dictionary.clone();
    let names: Vec<&str> = words.iter().map(|w| w.1.as_str()).collect();
    assert_eq!(
        names,
        vec![
            "target.ip", "request.host", "request.method", "request.path", "request.referer",
            "request.scheme", "request.size", "request.time", "request.useragent", "source.ip",
            "accept", "request.headers", "response.code", "response.size", "response.duration",
            "server", "response.headers",
        ]
    );
    let a = &attrs.attributes;
    assert!(a.string_attributes.contains(&(1, s("10.1.1.1"))));
    assert!(a.string_attributes.contains(&(9, s(""))));
    assert!(a.string_attributes.contains(&(10, s("1.2.3.4"))));
    assert_eq!(a.string_map_attributes[0], (12, vec![(11, s("b"))]));
    assert_eq!(a.string_map_attributes[1], (17, vec![(16, s("n"))]));
    assert!(a.int64_attributes.contains(&(15, 5000)));
    assert!(a.int64_attributes.contains(&(13, 200)));
    assert_eq!(a.timestamp_attributes, vec![(8, Timestamp::new(9, 1))]);
}

#[test]
fn header_map_of_decoded_bytes() {
    let map = header_map_of_bytes(b"k@1!junk!k@2!a@b@c".to_vec());
    assert_eq!(map, vec![(s("k"), s("2")), (s("a"), s("b@c"))]);
    assert!(header_map_of_bytes(vec![0xff, 0x40]).is_empty());
    assert!(header_map_of_bytes(Vec::new()).is_empty());
}
