use ngx_mixer::attr_wrapper::{AttrValue, AttributeWrapper};
use ngx_mixer::ngx::{
    check_attributes, extract_request_header_from_nginx, process_response_attribute, report_attributes,
    upstream_response_time_total, server_check_attributes, server_report_attributes, LocationConfig, MainConfig, MixerConfig, RequestInfo, ResponseInfo, ServerConfig,
};
use ngx_mixer::string_map::{map_insert, string_map_from_pairs};
use ngx_mixer::time::Timestamp;

fn s(x: &str) -> String {
    String::from(x)
}

fn main_config() -> MainConfig {
    MainConfig {
        mixer_server: s("localhost"),
        mixer_port: 9091,
        target_ip: s("10.1.1.1"),
        target_uid: s(""),
        target_service: s("svc"),
    }
}

fn request() -> RequestInfo {
    RequestInfo {
        host: s("example.com"),
        method: s("GET"),
        uri: s("/index"),
        referer: None,
        request_length: 120,
        start_sec: 1500,
        start_msec: 250,
        user_agent: s("curl"),
        headers: vec![
            (s("Accept"), s("*/*")),
            (s("X-ISTIO-SRC-IP"), s("10.0.0.9")),
            (s("Accept"), s("text/html")),
            (s("X-ISTIO-SRC-UID"), s("uid-1")),
        ],
    }
}

fn string_value(attrs: &AttributeWrapper, key: &str) -> Option<String> {
    match attrs.get(key) {
        Some(AttrValue::StrValue(v)) => Some(v.clone()),
        _ => None,
    }
}

fn int_value(attrs: &AttributeWrapper, key: &str) -> Option<i64> {
    match attrs.get(key) {
        Some(AttrValue::I64(v)) => Some(*v),
        _ => None,
    }
}

fn map_value(attrs: &AttributeWrapper, key: &str) -> Option<Vec<(String, String)>> {
    match attrs.get(key) {
        Some(AttrValue::StringMap(m)) => Some(m.clone()),
        _ => None,
    }
}

#[test]
fn check_attributes_of_a_request() {
    let attrs = check_attributes(&main_config(), &request());
    assert_eq!(string_value(&attrs, "target.ip"), Some(s("10.1.1.1")));
    assert!(!attrs.key_exists("target.uid"));
    assert_eq!(string_value(&attrs, "target.service"), Some(s("svc")));
    assert_eq!(string_value(&attrs, "request.host"), Some(s("example.com")));
    assert_eq!(string_value(&attrs, "request.method"), Some(s("GET")));
    assert_eq!(string_value(&attrs, "request.path"), Some(s("/index")));
    assert!(!attrs.key_exists("request.referer"));
    assert_eq!(string_value(&attrs, "request.scheme"), Some(s("http")));
    assert_eq!(int_value(&attrs, "request.size"), Some(120));
    match attrs.get("request.time") {
        Some(AttrValue::Timestamp(t)) => assert_eq!(*t, Timestamp::new(1500, 250)),
        _ => panic!("expected a timestamp"),
    }
    assert_eq!(string_value(&attrs, "request.useragent"), Some(s("curl")));
    assert_eq!(string_value(&attrs, "source.ip"), Some(s("10.0.0.9")));
    assert_eq!(string_value(&attrs, "source.uid"), Some(s("uid-1")));
    assert_eq!(map_value(&attrs, "request.headers"), Some(vec![(s("Accept"), s("text/html"))]));
}

#[test]
fn report_attributes_add_the_response() {
    let response = ResponseInfo {
        status: 404,
        content_length: 33,
        headers: vec![(s("Server"), s("nginx")), (s("Server"), s("x"))],
    };
    let attrs = report_attributes(&main_config(), &request(), &response);
    assert_eq!(int_value(&attrs, "response.code"), Some(404));
    assert_eq!(int_value(&attrs, "response.size"), Some(33));
    assert_eq!(int_value(&attrs, "response.duration"), Some(5000));
    assert_eq!(map_value(&attrs, "response.headers"), Some(vec![(s("Server"), s("x"))]));
    assert_eq!(string_value(&attrs, "request.host"), Some(s("example.com")));

    let mut only = AttributeWrapper::new();
    process_response_attribute(&response, &mut only);
    assert_eq!(int_value(&only, "response.code"), Some(404));
    assert!(!only.key_exists("request.host"));
}

#[test]
fn upstream_times_add_up() {
    assert_eq!(upstream_response_time_total(&vec![]), 0);
    assert_eq!(upstream_response_time_total(&vec![3, 4, 5]), 12);
}

#[test]
fn request_headers_written_out() {
    let headers = vec![(s("Host"), s("a")), (s("Accept"), s("b"))];
    assert_eq!(extract_request_header_from_nginx(&headers), "Host:aAccept:b");
    assert_eq!(extract_request_header_from_nginx(&vec![]), "");
}

#[test]
fn server_and_location_config_attributes() {
    let server = ServerConfig {
        destination_service: s("dest"),
        destination_uid: s("duid"),
        destination_ip: Some([10, 0, 0, 2]),
        destination_labels: vec![(s("app"), s("a")), (s("app"), s("b"))],
        source_ip: None,
        source_uid: s(""),
        source_service: s("src"),
        source_port: 8080,
        source_labels: vec![],
    };
    let mut attrs = AttributeWrapper::new();
    server.process_istio_attr(&mut attrs);
    match attrs.get("destination.ip") {
        Some(AttrValue::Ip(o)) => assert_eq!(*o, [10, 0, 0, 2]),
        _ => panic!("expected an address"),
    }
    assert!(!attrs.key_exists("source.ip"));
    assert_eq!(string_value(&attrs, "destination.service"), Some(s("dest")));
    assert_eq!(string_value(&attrs, "destination.uid"), Some(s("duid")));
    assert_eq!(map_value(&attrs, "destination.labels"), Some(vec![(s("app"), s("b"))]));
    assert!(!attrs.key_exists("source.uid"));
    assert_eq!(string_value(&attrs, "source.service"), Some(s("src")));
    assert_eq!(int_value(&attrs, "source.port"), Some(8080));
    assert_eq!(map_value(&attrs, "source.labels"), Some(vec![]));

    let location = LocationConfig { enable_report: true, enable_check: false, destination_service: s("loc") };
    location.process_istio_attr(&mut attrs);
    assert_eq!(string_value(&attrs, "destination.service"), Some(s("loc")));
}

#[test]
fn main_config_port() {
    assert_eq!(main_config().server_port(), 9091);
}

#[test]
fn string_map_insert_replaces() {
    let mut m = vec![(s("a"), s("1"))];
    map_insert(&mut m, s("b"), s("2"));
    map_insert(&mut m, s("a"), s("3"));
    assert_eq!(m, vec![(s("a"), s("3")), (s("b"), s("2"))]);
    let from = string_map_from_pairs(&vec![(s("x"), s("1")), (s("y"), s("2")), (s("x"), s("3"))]);
    assert_eq!(from, vec![(s("x"), s("3")), (s("y"), s("2"))]);
}

fn server_config() -> ServerConfig {
    ServerConfig {
        destination_service: s("dest"),
        destination_uid: s(""),
        destination_ip: None,
        destination_labels: vec![],
        source_ip: Some([1, 2, 3, 4]),
        source_uid: s("suid"),
        source_service: s(""),
        source_port: 0,
        source_labels: vec![(s("k"), s("v"))],
    }
}

#[test]
fn server_report_uses_upstream_duration() {
    let response = ResponseInfo { status: 200, content_length: 1, headers: vec![] };
    let attrs = server_report_attributes(&server_config(), &request(), &response, &vec![10, 20]);
    assert_eq!(int_value(&attrs, "response.duration"), Some(30));
    assert_eq!(string_value(&attrs, "context.protocol"), Some(s("http")));
    assert_eq!(string_value(&attrs, "destination.service"), Some(s("dest")));
    assert_eq!(int_value(&attrs, "response.code"), Some(200));
    // the request's source header replaces the configured source address
    assert_eq!(string_value(&attrs, "source.ip"), Some(s("10.0.0.9")));
    assert_eq!(map_value(&attrs, "source.labels"), Some(vec![(s("k"), s("v"))]));
}

#[test]
fn server_check_attributes_with_and_without_config() {
    let with = server_check_attributes(Some(&server_config()), &request());
    assert_eq!(string_value(&with, "source.uid"), Some(s("uid-1")));
    assert_eq!(string_value(&with, "destination.service"), Some(s("dest")));
    let without = server_check_attributes(None, &request());
    assert!(!without.key_exists("destination.service"));
    assert_eq!(string_value(&without, "request.host"), Some(s("example.com")));
}
