//! What the nginx handlers compute: the attributes of a request, of its
//! response and of the module's configuration, from values read out of
//! nginx.

use vstd::prelude::*;
use crate::time::Timestamp;
use crate::attr_wrapper::{
    AttributeWrapper, AttrsView, AttrView, attr_insert, pairs_view, distinct_pair_keys, distinct_names,
    attr_lookup, lemma_insert_then_lookup,
};
use crate::string_map::{map_insert, map_insert_spec, map_of_pairs, string_map_from_pairs, lemma_map_insert_distinct};
use crate::attr_names::{
    REQUEST_HEADER, REQUEST_HOST, REQUEST_METHOD, REQUEST_PATH, REQUEST_REFER, REQUEST_SCHEME,
    REQUEST_SIZE, REQUEST_TIME, REQUEST_USERAGENT, RESPONSE_CODE, RESPONSE_DURATION, RESPONSE_SIZE,
    RESPONSE_HEADERS, SOURCE_IP, SOURCE_UID, TARGET_SERVICE, TARGET_IP, TARGET_UID, SRC_IP_HEADER,
    SRC_UID_HEADER, SOURCE_SERVICE, SOURCE_PORT, SOURCE_LABELS, DESTINATION_SERVICE, DESTINATION_IP,
    DESTINATION_UID, DESTINATION_LABELS, CONTEXT_PROTOCOL,
};

verus! {

/// The set after storing a string attribute: an empty string is not stored.
pub open spec fn insert_str_spec(es: AttrsView, k: Seq<char>, v: Seq<char>) -> AttrsView {
    if v.len() > 0 {
        attr_insert(es, k, AttrView::Str(v))
    } else {
        es
    }
}

/// A part of the module's configuration that contributes attributes.
pub trait MixerConfig {
    /// Adds the attributes of this configuration.
    fn process_istio_attr(&self, attr: &mut AttributeWrapper)
        requires
            old(attr).wf(),
        ensures
            final(attr).wf(),
    ;
}

/// The module's main configuration: the mixer server and the target's
/// identity.
pub struct MainConfig {
    pub mixer_server: String,
    pub mixer_port: i64,
    pub target_ip: String,
    pub target_uid: String,
    pub target_service: String,
}

/// The attributes of the main configuration: target IP, UID and service,
/// each where it is set.
pub open spec fn main_config_attrs(es: AttrsView, c: MainConfig) -> AttrsView {
    let e1 = insert_str_spec(es, TARGET_IP@, c.target_ip@);
    let e2 = insert_str_spec(e1, TARGET_UID@, c.target_uid@);
    insert_str_spec(e2, TARGET_SERVICE@, c.target_service@)
}

impl MainConfig {
    /// The mixer server's port: the configured number, truncated to 16 bits.
    pub fn server_port(&self) -> (p: u16)
        ensures
            p == self.mixer_port as u16,
    {
        self.mixer_port as u16
    }
}

impl MixerConfig for MainConfig {
    /// Adds the target attributes that are set.
    fn process_istio_attr(&self, attr: &mut AttributeWrapper)
        ensures
            final(attr)@ == main_config_attrs(old(attr)@, *self),
    {
        attr.insert_string_attribute(TARGET_IP, self.target_ip.as_str());
        attr.insert_string_attribute(TARGET_UID, self.target_uid.as_str());
        attr.insert_string_attribute(TARGET_SERVICE, self.target_service.as_str());
    }
}

/// What the handlers read of a request.
pub struct RequestInfo {
    pub host: String,
    pub method: String,
    pub uri: String,
    pub referer: Option<String>,
    pub request_length: i64,
    pub start_sec: i64,
    pub start_msec: u64,
    pub user_agent: String,
    /// The request headers, in order.
    pub headers: Vec<(String, String)>,
}

/// One request header's effect: the source IP and UID headers become
/// attributes; any other header goes into the header map.
pub open spec fn header_step(
    acc: (AttrsView, Seq<(Seq<char>, Seq<char>)>),
    h: (Seq<char>, Seq<char>),
) -> (AttrsView, Seq<(Seq<char>, Seq<char>)>) {
    if h.0 == SRC_IP_HEADER@ {
        (insert_str_spec(acc.0, SOURCE_IP@, h.1), acc.1)
    } else if h.0 == SRC_UID_HEADER@ {
        (insert_str_spec(acc.0, SOURCE_UID@, h.1), acc.1)
    } else {
        (acc.0, map_insert_spec(acc.1, h.0, h.1))
    }
}

/// The effect of the request headers, in order: the attributes and the
/// header map.
pub open spec fn headers_fold(es: AttrsView, hs: Seq<(Seq<char>, Seq<char>)>) -> (AttrsView, Seq<(Seq<char>, Seq<char>)>)
    decreases hs.len(),
{
    if hs.len() == 0 {
        (es, Seq::empty())
    } else {
        header_step(headers_fold(es, hs.drop_last()), hs.last())
    }
}

/// The attributes of a request: host, method, path, referer (if any),
/// scheme "http", size, start time, user agent, the source headers, and the
/// map of the other headers.
pub open spec fn request_attrs(es: AttrsView, r: RequestInfo) -> AttrsView {
    let e1 = insert_str_spec(es, REQUEST_HOST@, r.host@);
    let e2 = insert_str_spec(e1, REQUEST_METHOD@, r.method@);
    let e3 = insert_str_spec(e2, REQUEST_PATH@, r.uri@);
    let e4 = match r.referer {
        Some(referer) => insert_str_spec(e3, REQUEST_REFER@, referer@),
        None => e3,
    };
    let e5 = insert_str_spec(e4, REQUEST_SCHEME@, "http"@);
    let e6 = attr_insert(e5, REQUEST_SIZE@, AttrView::I64(r.request_length));
    let e7 = attr_insert(
        e6,
        REQUEST_TIME@,
        AttrView::Timestamp(Timestamp { seconds: r.start_sec, nanos: r.start_msec as i32 }),
    );
    let e8 = insert_str_spec(e7, REQUEST_USERAGENT@, r.user_agent@);
    let folded = headers_fold(e8, pairs_view(r.headers@));
    attr_insert(folded.0, REQUEST_HEADER@, AttrView::StringMap(folded.1))
}

/// Header maps built by the fold have distinct keys.
pub proof fn lemma_headers_fold_distinct(es: AttrsView, hs: Seq<(Seq<char>, Seq<char>)>)
    ensures
        distinct_pair_keys(headers_fold(es, hs).1),
    decreases hs.len(),
{
    if hs.len() > 0 {
        lemma_headers_fold_distinct(es, hs.drop_last());
        lemma_map_insert_distinct(headers_fold(es, hs.drop_last()).1, hs.last().0, hs.last().1);
    }
}

/// Adds the attributes of a request, as `request_attrs` says.
pub fn process_request_attribute(request: &RequestInfo, attr: &mut AttributeWrapper)
    requires
        old(attr).wf(),
    ensures
        final(attr)@ == request_attrs(old(attr)@, *request),
        final(attr).wf(),
{
    attr.insert_string_attribute(REQUEST_HOST, request.host.as_str());
    attr.insert_string_attribute(REQUEST_METHOD, request.method.as_str());
    attr.insert_string_attribute(REQUEST_PATH, request.uri.as_str());
    if let Some(referer) = &request.referer {
        attr.insert_string_attribute(REQUEST_REFER, referer.as_str());
    }
    attr.insert_string_attribute(REQUEST_SCHEME, "http");
    attr.insert_int64_attribute(REQUEST_SIZE, request.request_length);
    let request_time = Timestamp::new(request.start_sec, request.start_msec as i32);
    attr.insert_time_stamp_attribute(REQUEST_TIME, request_time);
    attr.insert_string_attribute(REQUEST_USERAGENT, request.user_agent.as_str());
    let ghost e8 = attr@;
    let ghost hs = pairs_view(request.headers@);
    let ip_header: String = SRC_IP_HEADER.to_owned();
    let uid_header: String = SRC_UID_HEADER.to_owned();
    let mut map: Vec<(String, String)> = Vec::new();
    let mut i: usize = 0;
    proof {
        assert(hs.take(0) =~= Seq::<(Seq<char>, Seq<char>)>::empty());
        assert(pairs_view(map@) =~= Seq::<(Seq<char>, Seq<char>)>::empty());
    }
    while i < request.headers.len()
        invariant
            i <= request.headers.len(),
            hs == pairs_view(request.headers@),
            ip_header@ == SRC_IP_HEADER@,
            uid_header@ == SRC_UID_HEADER@,
            attr.wf(),
            (attr@, pairs_view(map@)) == headers_fold(e8, hs.take(i as int)),
            distinct_pair_keys(pairs_view(map@)),
        decreases request.headers.len() - i,
    {
        proof {
            assert(hs.take(i + 1).drop_last() =~= hs.take(i as int));
            assert(hs.take(i + 1).last() == hs[i as int]);
        }
        let name = &request.headers[i].0;
        let value = &request.headers[i].1;
        if *name == ip_header {
            attr.insert_string_attribute(SOURCE_IP, value.as_str());
        } else if *name == uid_header {
            attr.insert_string_attribute(SOURCE_UID, value.as_str());
        } else {
            map_insert(&mut map, name.clone(), value.clone());
        }
        i = i + 1;
    }
    proof {
        assert(hs.take(request.headers.len() as int) =~= hs);
        lemma_headers_fold_distinct(e8, hs);
    }
    attr.insert_string_map(REQUEST_HEADER, map);
}

/// What the report handler reads of a response.
pub struct ResponseInfo {
    pub status: u64,
    pub content_length: i64,
    /// The response headers, in order.
    pub headers: Vec<(String, String)>,
}

/// The response duration the report handler records, in milliseconds.
pub const REPORTED_RESPONSE_DURATION: i64 = 5000;

/// The attributes of a response: status code, size, the fixed duration, and
/// the map of its headers.
pub open spec fn response_attrs(es: AttrsView, r: ResponseInfo) -> AttrsView {
    let e1 = attr_insert(es, RESPONSE_CODE@, AttrView::I64(r.status as i64));
    let e2 = attr_insert(e1, RESPONSE_SIZE@, AttrView::I64(r.content_length));
    let e3 = attr_insert(e2, RESPONSE_DURATION@, AttrView::I64(REPORTED_RESPONSE_DURATION));
    attr_insert(e3, RESPONSE_HEADERS@, AttrView::StringMap(map_of_pairs(pairs_view(r.headers@))))
}

/// Adds the attributes of a response, as `response_attrs` says.
pub fn process_response_attribute(response: &ResponseInfo, attr: &mut AttributeWrapper)
    requires
        old(attr).wf(),
    ensures
        final(attr)@ == response_attrs(old(attr)@, *response),
        final(attr).wf(),
{
    attr.insert_int64_attribute(RESPONSE_CODE, response.status as i64);
    attr.insert_int64_attribute(RESPONSE_SIZE, response.content_length);
    attr.insert_int64_attribute(RESPONSE_DURATION, REPORTED_RESPONSE_DURATION);
    let map = string_map_from_pairs(&response.headers);
    attr.insert_string_map(RESPONSE_HEADERS, map);
}

/// The attributes the check handler sends: those of the main configuration,
/// then those of the request.
pub fn check_attributes(main_config: &MainConfig, request: &RequestInfo) -> (attr: AttributeWrapper)
    ensures
        attr@ == request_attrs(main_config_attrs(Seq::empty(), *main_config), *request),
        attr.wf(),
{
    let mut attr = AttributeWrapper::new();
    main_config.process_istio_attr(&mut attr);
    process_request_attribute(request, &mut attr);
    attr
}

/// The attributes the report handler sends: those of the main
/// configuration, of the request and of the response.
pub fn report_attributes(main_config: &MainConfig, request: &RequestInfo, response: &ResponseInfo) -> (attr: AttributeWrapper)
    ensures
        attr@ == response_attrs(
            request_attrs(main_config_attrs(Seq::empty(), *main_config), *request),
            *response,
        ),
        attr.wf(),
{
    let mut attr = check_attributes(main_config, request);
    process_response_attribute(response, &mut attr);
    attr
}

/// The sum of `ts`, each taken as a signed 64-bit number.
pub open spec fn times_sum(ts: Seq<u64>) -> int
    decreases ts.len(),
{
    if ts.len() == 0 {
        0
    } else {
        times_sum(ts.drop_last()) + (ts.last() as i64)
    }
}

/// Every running total of `ts` fits in an `i64`.
pub open spec fn running_totals_fit(ts: Seq<u64>) -> bool {
    forall|k: int| 0 <= k <= ts.len() ==> i64::MIN <= #[trigger] times_sum(ts.take(k)) <= i64::MAX
}

/// The total response time of a request's upstreams: the sum of their
/// response times.
pub fn upstream_response_time_total(response_times: &Vec<u64>) -> (total: i64)
    requires
        running_totals_fit(response_times@),
    ensures
        total == times_sum(response_times@),
{
    let ghost ts = response_times@;
    let mut total: i64 = 0;
    let mut i: usize = 0;
    proof {
        assert(ts.take(0) =~= Seq::<u64>::empty());
    }
    while i < response_times.len()
        invariant
            i <= response_times.len(),
            ts == response_times@,
            running_totals_fit(ts),
            total == times_sum(ts.take(i as int)),
        decreases response_times.len() - i,
    {
        proof {
            assert(ts.take(i + 1).drop_last() =~= ts.take(i as int));
            assert(ts.take(i + 1).last() == ts[i as int]);
            assert(i64::MIN <= times_sum(ts.take(i + 1)) <= i64::MAX);
        }
        total = total + response_times[i] as i64;
        i = i + 1;
    }
    proof {
        assert(ts.take(response_times.len() as int) =~= ts);
    }
    total
}

/// The request headers written out: each name, a colon and the value, one
/// after another.
pub open spec fn headers_text(hs: Seq<(Seq<char>, Seq<char>)>) -> Seq<char>
    decreases hs.len(),
{
    if hs.len() == 0 {
        Seq::empty()
    } else {
        headers_text(hs.drop_last()) + hs.last().0 + ":"@ + hs.last().1
    }
}

/// Writes the request headers out as `headers_text` says.
pub fn extract_request_header_from_nginx(headers: &Vec<(String, String)>) -> (out: String)
    ensures
        out@ == headers_text(pairs_view(headers@)),
{
    let ghost hs = pairs_view(headers@);
    let mut out = String::new();
    let mut i: usize = 0;
    proof {
        assert(hs.take(0) =~= Seq::<(Seq<char>, Seq<char>)>::empty());
    }
    while i < headers.len()
        invariant
            i <= headers.len(),
            hs == pairs_view(headers@),
            out@ == headers_text(hs.take(i as int)),
        decreases headers.len() - i,
    {
        proof {
            assert(hs.take(i + 1).drop_last() =~= hs.take(i as int));
            assert(hs.take(i + 1).last() == hs[i as int]);
        }
        out.append(headers[i].0.as_str());
        out.append(":");
        out.append(headers[i].1.as_str());
        i = i + 1;
    }
    proof {
        assert(hs.take(headers.len() as int) =~= hs);
    }
    out
}

/// The server configuration of the module: the destination's and the
/// source's identity. The IP addresses are given by their octets, where set.
pub struct ServerConfig {
    pub destination_service: String,
    pub destination_uid: String,
    pub destination_ip: Option<[u8; 4]>,
    pub destination_labels: Vec<(String, String)>,
    pub source_ip: Option<[u8; 4]>,
    pub source_uid: String,
    pub source_service: String,
    pub source_port: u64,
    pub source_labels: Vec<(String, String)>,
}

/// The attributes of the server configuration: the IP addresses that are
/// set, destination service and UID, destination labels, source UID and
/// service, source port, and source labels. The labels form maps in which a
/// later label replaces an earlier one of the same key.
pub open spec fn server_config_attrs(es: AttrsView, c: ServerConfig) -> AttrsView {
    let e1 = match c.destination_ip {
        Some(ip) => attr_insert(es, DESTINATION_IP@, AttrView::Ip(ip@)),
        None => es,
    };
    let e2 = match c.source_ip {
        Some(ip) => attr_insert(e1, SOURCE_IP@, AttrView::Ip(ip@)),
        None => e1,
    };
    let e3 = insert_str_spec(e2, DESTINATION_SERVICE@, c.destination_service@);
    let e4 = insert_str_spec(e3, DESTINATION_UID@, c.destination_uid@);
    let e5 = attr_insert(
        e4,
        DESTINATION_LABELS@,
        AttrView::StringMap(map_of_pairs(pairs_view(c.destination_labels@))),
    );
    let e6 = insert_str_spec(e5, SOURCE_UID@, c.source_uid@);
    let e7 = insert_str_spec(e6, SOURCE_SERVICE@, c.source_service@);
    let e8 = attr_insert(e7, SOURCE_PORT@, AttrView::I64(c.source_port as i64));
    attr_insert(e8, SOURCE_LABELS@, AttrView::StringMap(map_of_pairs(pairs_view(c.source_labels@))))
}

impl MixerConfig for ServerConfig {
    /// Adds the attributes of the server configuration, as
    /// `server_config_attrs` says.
    fn process_istio_attr(&self, attr: &mut AttributeWrapper)
        ensures
            final(attr)@ == server_config_attrs(old(attr)@, *self),
    {
        if let Some(ip) = self.destination_ip {
            attr.insert_ip_attribute(DESTINATION_IP, ip);
        }
        if let Some(ip) = self.source_ip {
            attr.insert_ip_attribute(SOURCE_IP, ip);
        }
        attr.insert_string_attribute(DESTINATION_SERVICE, self.destination_service.as_str());
        attr.insert_string_attribute(DESTINATION_UID, self.destination_uid.as_str());
        attr.insert_string_map(DESTINATION_LABELS, string_map_from_pairs(&self.destination_labels));
        attr.insert_string_attribute(SOURCE_UID, self.source_uid.as_str());
        attr.insert_string_attribute(SOURCE_SERVICE, self.source_service.as_str());
        attr.insert_int64_attribute(SOURCE_PORT, self.source_port as i64);
        attr.insert_string_map(SOURCE_LABELS, string_map_from_pairs(&self.source_labels));
    }
}

/// The location configuration of the module.
pub struct LocationConfig {
    pub enable_report: bool,
    pub enable_check: bool,
    pub destination_service: String,
}

impl MixerConfig for LocationConfig {
    /// Adds the destination service, where it is set.
    fn process_istio_attr(&self, attr: &mut AttributeWrapper)
        ensures
            final(attr)@ == insert_str_spec(old(attr)@, DESTINATION_SERVICE@, self.destination_service@),
    {
        attr.insert_string_attribute(DESTINATION_SERVICE, self.destination_service.as_str());
    }
}

/// The attributes of a reported request with its server configuration:
/// those of the server configuration, the request and the response, the
/// total upstream response time as the response duration, and the protocol
/// "http".
pub open spec fn server_report_attrs(
    c: ServerConfig,
    r: RequestInfo,
    resp: ResponseInfo,
    times: Seq<u64>,
) -> AttrsView {
    let e1 = request_attrs(server_config_attrs(Seq::empty(), c), r);
    let e2 = response_attrs(e1, resp);
    let e3 = attr_insert(e2, RESPONSE_DURATION@, AttrView::I64(times_sum(times) as i64));
    insert_str_spec(e3, CONTEXT_PROTOCOL@, "http"@)
}

/// The attributes the report handler with a server configuration sends, as
/// `server_report_attrs` says.
pub fn server_report_attributes(
    srv_conf: &ServerConfig,
    request: &RequestInfo,
    response: &ResponseInfo,
    upstream_response_times: &Vec<u64>,
) -> (attr: AttributeWrapper)
    requires
        running_totals_fit(upstream_response_times@),
    ensures
        attr.wf(),
        attr@ == server_report_attrs(*srv_conf, *request, *response, upstream_response_times@),
{
    let mut attr = AttributeWrapper::new();
    srv_conf.process_istio_attr(&mut attr);
    process_request_attribute(request, &mut attr);
    process_response_attribute(response, &mut attr);
    let total = upstream_response_time_total(upstream_response_times);
    attr.insert_int64_attribute(RESPONSE_DURATION, total);
    attr.insert_string_attribute(CONTEXT_PROTOCOL, "http");
    attr
}

/// The attributes the check handler with a server configuration sends:
/// those of the server configuration, where there is one, then those of the
/// request.
pub fn server_check_attributes(srv_conf: Option<&ServerConfig>, request: &RequestInfo) -> (attr: AttributeWrapper)
    ensures
        attr.wf(),
        attr@ == request_attrs(
            match srv_conf {
                Some(c) => server_config_attrs(Seq::empty(), *c),
                None => Seq::empty(),
            },
            *request,
        ),
{
    let mut attr = AttributeWrapper::new();
    if let Some(c) = srv_conf {
        c.process_istio_attr(&mut attr);
    }
    process_request_attribute(request, &mut attr);
    attr
}

/// Storing a value keeps the names distinct, gives the value back under
/// its name, and leaves every other name's value as it was.
pub proof fn lemma_attr_insert_keeps(es: AttrsView, k: Seq<char>, v: AttrView)
    requires
        distinct_names(es),
    ensures
        distinct_names(attr_insert(es, k, v)),
        attr_lookup(attr_insert(es, k, v), k) == Some(v),
        forall|o: Seq<char>| o != k ==> #[trigger] attr_lookup(attr_insert(es, k, v), o) == attr_lookup(es, o),
{
    lemma_insert_then_lookup(es, k, v, k);
    assert forall|o: Seq<char>| o != k implies #[trigger] attr_lookup(attr_insert(es, k, v), o) == attr_lookup(es, o) by {
        lemma_insert_then_lookup(es, k, v, o);
    }
}

/// Storing a string keeps the names distinct, gives a non-empty string back
/// under its name, and leaves every other name's value as it was.
pub proof fn lemma_insert_str_keeps(es: AttrsView, k: Seq<char>, v: Seq<char>)
    requires
        distinct_names(es),
    ensures
        distinct_names(insert_str_spec(es, k, v)),
        v.len() > 0 ==> attr_lookup(insert_str_spec(es, k, v), k) == Some(AttrView::Str(v)),
        v.len() == 0 ==> insert_str_spec(es, k, v) == es,
        forall|o: Seq<char>| o != k ==> #[trigger] attr_lookup(insert_str_spec(es, k, v), o) == attr_lookup(es, o),
{
    if v.len() > 0 {
        lemma_attr_insert_keeps(es, k, AttrView::Str(v));
    }
}

/// The names of the server configuration's attributes differ from one another.
pub proof fn lemma_config_names_distinct()
    ensures
        DESTINATION_IP@ != SOURCE_IP@,
        DESTINATION_IP@ != DESTINATION_SERVICE@,
        DESTINATION_IP@ != DESTINATION_UID@,
        DESTINATION_IP@ != DESTINATION_LABELS@,
        DESTINATION_IP@ != SOURCE_UID@,
        DESTINATION_IP@ != SOURCE_SERVICE@,
        DESTINATION_IP@ != SOURCE_PORT@,
        DESTINATION_IP@ != SOURCE_LABELS@,
        SOURCE_IP@ != DESTINATION_SERVICE@,
        SOURCE_IP@ != DESTINATION_UID@,
        SOURCE_IP@ != DESTINATION_LABELS@,
        SOURCE_IP@ != SOURCE_UID@,
        SOURCE_IP@ != SOURCE_SERVICE@,
        SOURCE_IP@ != SOURCE_PORT@,
        SOURCE_IP@ != SOURCE_LABELS@,
        DESTINATION_SERVICE@ != DESTINATION_UID@,
        DESTINATION_SERVICE@ != DESTINATION_LABELS@,
        DESTINATION_SERVICE@ != SOURCE_UID@,
        DESTINATION_SERVICE@ != SOURCE_SERVICE@,
        DESTINATION_SERVICE@ != SOURCE_PORT@,
        DESTINATION_SERVICE@ != SOURCE_LABELS@,
        DESTINATION_UID@ != DESTINATION_LABELS@,
        DESTINATION_UID@ != SOURCE_UID@,
        DESTINATION_UID@ != SOURCE_SERVICE@,
        DESTINATION_UID@ != SOURCE_PORT@,
        DESTINATION_UID@ != SOURCE_LABELS@,
        DESTINATION_LABELS@ != SOURCE_UID@,
        DESTINATION_LABELS@ != SOURCE_SERVICE@,
        DESTINATION_LABELS@ != SOURCE_PORT@,
        DESTINATION_LABELS@ != SOURCE_LABELS@,
        SOURCE_UID@ != SOURCE_SERVICE@,
        SOURCE_UID@ != SOURCE_PORT@,
        SOURCE_UID@ != SOURCE_LABELS@,
        SOURCE_SERVICE@ != SOURCE_PORT@,
        SOURCE_SERVICE@ != SOURCE_LABELS@,
        SOURCE_PORT@ != SOURCE_LABELS@,
{
    reveal_strlit("destination.ip");
    reveal_strlit("source.ip");
    reveal_strlit("destination.service");
    reveal_strlit("destination.uid");
    reveal_strlit("destination.labels");
    reveal_strlit("source.uid");
    reveal_strlit("source.service");
    reveal_strlit("source.port");
    reveal_strlit("source.labels");
    assert(DESTINATION_IP@[0] != SOURCE_IP@[0]);
    assert(DESTINATION_IP@[12] != DESTINATION_SERVICE@[12]);
    assert(DESTINATION_IP@[12] != DESTINATION_UID@[12]);
    assert(DESTINATION_IP@[12] != DESTINATION_LABELS@[12]);
    assert(DESTINATION_IP@[0] != SOURCE_UID@[0]);
    assert(DESTINATION_IP@[0] != SOURCE_SERVICE@[0]);
    assert(DESTINATION_IP@[0] != SOURCE_PORT@[0]);
    assert(DESTINATION_IP@[0] != SOURCE_LABELS@[0]);
    assert(SOURCE_IP@[0] != DESTINATION_SERVICE@[0]);
    assert(SOURCE_IP@[0] != DESTINATION_UID@[0]);
    assert(SOURCE_IP@[0] != DESTINATION_LABELS@[0]);
    assert(SOURCE_IP@[7] != SOURCE_UID@[7]);
    assert(SOURCE_IP@[7] != SOURCE_SERVICE@[7]);
    assert(SOURCE_IP@[7] != SOURCE_PORT@[7]);
    assert(SOURCE_IP@[7] != SOURCE_LABELS@[7]);
    assert(DESTINATION_SERVICE@[12] != DESTINATION_UID@[12]);
    assert(DESTINATION_SERVICE@[12] != DESTINATION_LABELS@[12]);
    assert(DESTINATION_SERVICE@[0] != SOURCE_UID@[0]);
    assert(DESTINATION_SERVICE@[0] != SOURCE_SERVICE@[0]);
    assert(DESTINATION_SERVICE@[0] != SOURCE_PORT@[0]);
    assert(DESTINATION_SERVICE@[0] != SOURCE_LABELS@[0]);
    assert(DESTINATION_UID@[12] != DESTINATION_LABELS@[12]);
    assert(DESTINATION_UID@[0] != SOURCE_UID@[0]);
    assert(DESTINATION_UID@[0] != SOURCE_SERVICE@[0]);
    assert(DESTINATION_UID@[0] != SOURCE_PORT@[0]);
    assert(DESTINATION_UID@[0] != SOURCE_LABELS@[0]);
    assert(DESTINATION_LABELS@[0] != SOURCE_UID@[0]);
    assert(DESTINATION_LABELS@[0] != SOURCE_SERVICE@[0]);
    assert(DESTINATION_LABELS@[0] != SOURCE_PORT@[0]);
    assert(DESTINATION_LABELS@[0] != SOURCE_LABELS@[0]);
    assert(SOURCE_UID@[7] != SOURCE_SERVICE@[7]);
    assert(SOURCE_UID@[7] != SOURCE_PORT@[7]);
    assert(SOURCE_UID@[7] != SOURCE_LABELS@[7]);
    assert(SOURCE_SERVICE@[7] != SOURCE_PORT@[7]);
    assert(SOURCE_SERVICE@[7] != SOURCE_LABELS@[7]);
    assert(SOURCE_PORT@[7] != SOURCE_LABELS@[7]);
}

/// The names of a request's attributes differ from one another.
pub proof fn lemma_request_names_distinct()
    ensures
        REQUEST_HOST@ != REQUEST_METHOD@,
        REQUEST_HOST@ != REQUEST_PATH@,
        REQUEST_HOST@ != REQUEST_REFER@,
        REQUEST_HOST@ != REQUEST_SCHEME@,
        REQUEST_HOST@ != REQUEST_SIZE@,
        REQUEST_HOST@ != REQUEST_TIME@,
        REQUEST_HOST@ != REQUEST_USERAGENT@,
        REQUEST_HOST@ != REQUEST_HEADER@,
        REQUEST_HOST@ != SOURCE_IP@,
        REQUEST_HOST@ != SOURCE_UID@,
        REQUEST_METHOD@ != REQUEST_PATH@,
        REQUEST_METHOD@ != REQUEST_REFER@,
        REQUEST_METHOD@ != REQUEST_SCHEME@,
        REQUEST_METHOD@ != REQUEST_SIZE@,
        REQUEST_METHOD@ != REQUEST_TIME@,
        REQUEST_METHOD@ != REQUEST_USERAGENT@,
        REQUEST_METHOD@ != REQUEST_HEADER@,
        REQUEST_METHOD@ != SOURCE_IP@,
        REQUEST_METHOD@ != SOURCE_UID@,
        REQUEST_PATH@ != REQUEST_REFER@,
        REQUEST_PATH@ != REQUEST_SCHEME@,
        REQUEST_PATH@ != REQUEST_SIZE@,
        REQUEST_PATH@ != REQUEST_TIME@,
        REQUEST_PATH@ != REQUEST_USERAGENT@,
        REQUEST_PATH@ != REQUEST_HEADER@,
        REQUEST_PATH@ != SOURCE_IP@,
        REQUEST_PATH@ != SOURCE_UID@,
        REQUEST_REFER@ != REQUEST_SCHEME@,
        REQUEST_REFER@ != REQUEST_SIZE@,
        REQUEST_REFER@ != REQUEST_TIME@,
        REQUEST_REFER@ != REQUEST_USERAGENT@,
        REQUEST_REFER@ != REQUEST_HEADER@,
        REQUEST_REFER@ != SOURCE_IP@,
        REQUEST_REFER@ != SOURCE_UID@,
        REQUEST_SCHEME@ != REQUEST_SIZE@,
        REQUEST_SCHEME@ != REQUEST_TIME@,
        REQUEST_SCHEME@ != REQUEST_USERAGENT@,
        REQUEST_SCHEME@ != REQUEST_HEADER@,
        REQUEST_SCHEME@ != SOURCE_IP@,
        REQUEST_SCHEME@ != SOURCE_UID@,
        REQUEST_SIZE@ != REQUEST_TIME@,
        REQUEST_SIZE@ != REQUEST_USERAGENT@,
        REQUEST_SIZE@ != REQUEST_HEADER@,
        REQUEST_SIZE@ != SOURCE_IP@,
        REQUEST_SIZE@ != SOURCE_UID@,
        REQUEST_TIME@ != REQUEST_USERAGENT@,
        REQUEST_TIME@ != REQUEST_HEADER@,
        REQUEST_TIME@ != SOURCE_IP@,
        REQUEST_TIME@ != SOURCE_UID@,
        REQUEST_USERAGENT@ != REQUEST_HEADER@,
        REQUEST_USERAGENT@ != SOURCE_IP@,
        REQUEST_USERAGENT@ != SOURCE_UID@,
        REQUEST_HEADER@ != SOURCE_IP@,
        REQUEST_HEADER@ != SOURCE_UID@,
        SOURCE_IP@ != SOURCE_UID@,
{
    reveal_strlit("request.host");
    reveal_strlit("request.method");
    reveal_strlit("request.path");
    reveal_strlit("request.referer");
    reveal_strlit("request.scheme");
    reveal_strlit("request.size");
    reveal_strlit("request.time");
    reveal_strlit("request.useragent");
    reveal_strlit("request.headers");
    reveal_strlit("source.ip");
    reveal_strlit("source.uid");
    assert(REQUEST_HOST@[8] != REQUEST_METHOD@[8]);
    assert(REQUEST_HOST@[8] != REQUEST_PATH@[8]);
    assert(REQUEST_HOST@[8] != REQUEST_REFER@[8]);
    assert(REQUEST_HOST@[8] != REQUEST_SCHEME@[8]);
    assert(REQUEST_HOST@[8] != REQUEST_SIZE@[8]);
    assert(REQUEST_HOST@[8] != REQUEST_TIME@[8]);
    assert(REQUEST_HOST@[8] != REQUEST_USERAGENT@[8]);
    assert(REQUEST_HOST@[9] != REQUEST_HEADER@[9]);
    assert(REQUEST_HOST@[0] != SOURCE_IP@[0]);
    assert(REQUEST_HOST@[0] != SOURCE_UID@[0]);
    assert(REQUEST_METHOD@[8] != REQUEST_PATH@[8]);
    assert(REQUEST_METHOD@[8] != REQUEST_REFER@[8]);
    assert(REQUEST_METHOD@[8] != REQUEST_SCHEME@[8]);
    assert(REQUEST_METHOD@[8] != REQUEST_SIZE@[8]);
    assert(REQUEST_METHOD@[8] != REQUEST_TIME@[8]);
    assert(REQUEST_METHOD@[8] != REQUEST_USERAGENT@[8]);
    assert(REQUEST_METHOD@[8] != REQUEST_HEADER@[8]);
    assert(REQUEST_METHOD@[0] != SOURCE_IP@[0]);
    assert(REQUEST_METHOD@[0] != SOURCE_UID@[0]);
    assert(REQUEST_PATH@[8] != REQUEST_REFER@[8]);
    assert(REQUEST_PATH@[8] != REQUEST_SCHEME@[8]);
    assert(REQUEST_PATH@[8] != REQUEST_SIZE@[8]);
    assert(REQUEST_PATH@[8] != REQUEST_TIME@[8]);
    assert(REQUEST_PATH@[8] != REQUEST_USERAGENT@[8]);
    assert(REQUEST_PATH@[8] != REQUEST_HEADER@[8]);
    assert(REQUEST_PATH@[0] != SOURCE_IP@[0]);
    assert(REQUEST_PATH@[0] != SOURCE_UID@[0]);
    assert(REQUEST_REFER@[8] != REQUEST_SCHEME@[8]);
    assert(REQUEST_REFER@[8] != REQUEST_SIZE@[8]);
    assert(REQUEST_REFER@[8] != REQUEST_TIME@[8]);
    assert(REQUEST_REFER@[8] != REQUEST_USERAGENT@[8]);
    assert(REQUEST_REFER@[8] != REQUEST_HEADER@[8]);
    assert(REQUEST_REFER@[0] != SOURCE_IP@[0]);
    assert(REQUEST_REFER@[0] != SOURCE_UID@[0]);
    assert(REQUEST_SCHEME@[9] != REQUEST_SIZE@[9]);
    assert(REQUEST_SCHEME@[8] != REQUEST_TIME@[8]);
    assert(REQUEST_SCHEME@[8] != REQUEST_USERAGENT@[8]);
    assert(REQUEST_SCHEME@[8] != REQUEST_HEADER@[8]);
    assert(REQUEST_SCHEME@[0] != SOURCE_IP@[0]);
    assert(REQUEST_SCHEME@[0] != SOURCE_UID@[0]);
    assert(REQUEST_SIZE@[8] != REQUEST_TIME@[8]);
    assert(REQUEST_SIZE@[8] != REQUEST_USERAGENT@[8]);
    assert(REQUEST_SIZE@[8] != REQUEST_HEADER@[8]);
    assert(REQUEST_SIZE@[0] != SOURCE_IP@[0]);
    assert(REQUEST_SIZE@[0] != SOURCE_UID@[0]);
    assert(REQUEST_TIME@[8] != REQUEST_USERAGENT@[8]);
    assert(REQUEST_TIME@[8] != REQUEST_HEADER@[8]);
    assert(REQUEST_TIME@[0] != SOURCE_IP@[0]);
    assert(REQUEST_TIME@[0] != SOURCE_UID@[0]);
    assert(REQUEST_USERAGENT@[8] != REQUEST_HEADER@[8]);
    assert(REQUEST_USERAGENT@[0] != SOURCE_IP@[0]);
    assert(REQUEST_USERAGENT@[0] != SOURCE_UID@[0]);
    assert(REQUEST_HEADER@[0] != SOURCE_IP@[0]);
    assert(REQUEST_HEADER@[0] != SOURCE_UID@[0]);
    assert(SOURCE_IP@[7] != SOURCE_UID@[7]);
}

/// The names of a response's attributes and of the protocol differ from one another.
pub proof fn lemma_response_names_distinct()
    ensures
        RESPONSE_CODE@ != RESPONSE_SIZE@,
        RESPONSE_CODE@ != RESPONSE_DURATION@,
        RESPONSE_CODE@ != RESPONSE_HEADERS@,
        RESPONSE_CODE@ != CONTEXT_PROTOCOL@,
        RESPONSE_SIZE@ != RESPONSE_DURATION@,
        RESPONSE_SIZE@ != RESPONSE_HEADERS@,
        RESPONSE_SIZE@ != CONTEXT_PROTOCOL@,
        RESPONSE_DURATION@ != RESPONSE_HEADERS@,
        RESPONSE_DURATION@ != CONTEXT_PROTOCOL@,
        RESPONSE_HEADERS@ != CONTEXT_PROTOCOL@,
{
    reveal_strlit("response.code");
    reveal_strlit("response.size");
    reveal_strlit("response.duration");
    reveal_strlit("response.headers");
    reveal_strlit("context.protocol");
    assert(RESPONSE_CODE@[9] != RESPONSE_SIZE@[9]);
    assert(RESPONSE_CODE@[9] != RESPONSE_DURATION@[9]);
    assert(RESPONSE_CODE@[9] != RESPONSE_HEADERS@[9]);
    assert(RESPONSE_CODE@[0] != CONTEXT_PROTOCOL@[0]);
    assert(RESPONSE_SIZE@[9] != RESPONSE_DURATION@[9]);
    assert(RESPONSE_SIZE@[9] != RESPONSE_HEADERS@[9]);
    assert(RESPONSE_SIZE@[0] != CONTEXT_PROTOCOL@[0]);
    assert(RESPONSE_DURATION@[9] != RESPONSE_HEADERS@[9]);
    assert(RESPONSE_DURATION@[0] != CONTEXT_PROTOCOL@[0]);
    assert(RESPONSE_HEADERS@[0] != CONTEXT_PROTOCOL@[0]);
}

/// The names of the target's attributes differ from one another.
pub proof fn lemma_target_names_distinct()
    ensures
        TARGET_IP@ != TARGET_UID@,
        TARGET_IP@ != TARGET_SERVICE@,
        TARGET_UID@ != TARGET_SERVICE@,
{
    reveal_strlit("target.ip");
    reveal_strlit("target.uid");
    reveal_strlit("target.service");
    assert(TARGET_IP@[7] != TARGET_UID@[7]);
    assert(TARGET_IP@[7] != TARGET_SERVICE@[7]);
    assert(TARGET_UID@[7] != TARGET_SERVICE@[7]);
}

/// Every configured value of the server configuration reaches the
/// attribute set under its name: each address that is set, each non-empty
/// identity string, the port, and the label maps (a later label replacing
/// an earlier one of the same key).
pub proof fn lemma_server_config_attrs(es: AttrsView, c: ServerConfig)
    requires
        distinct_names(es),
    ensures
        distinct_names(server_config_attrs(es, c)),
        c.destination_ip matches Some(ip) ==> attr_lookup(server_config_attrs(es, c), DESTINATION_IP@)
            == Some(AttrView::Ip(ip@)),
        c.source_ip matches Some(ip) ==> attr_lookup(server_config_attrs(es, c), SOURCE_IP@)
            == Some(AttrView::Ip(ip@)),
        c.destination_service@.len() > 0 ==> attr_lookup(server_config_attrs(es, c), DESTINATION_SERVICE@)
            == Some(AttrView::Str(c.destination_service@)),
        c.destination_uid@.len() > 0 ==> attr_lookup(server_config_attrs(es, c), DESTINATION_UID@)
            == Some(AttrView::Str(c.destination_uid@)),
        attr_lookup(server_config_attrs(es, c), DESTINATION_LABELS@) == Some(
            AttrView::StringMap(map_of_pairs(pairs_view(c.destination_labels@))),
        ),
        c.source_uid@.len() > 0 ==> attr_lookup(server_config_attrs(es, c), SOURCE_UID@)
            == Some(AttrView::Str(c.source_uid@)),
        c.source_service@.len() > 0 ==> attr_lookup(server_config_attrs(es, c), SOURCE_SERVICE@)
            == Some(AttrView::Str(c.source_service@)),
        attr_lookup(server_config_attrs(es, c), SOURCE_PORT@) == Some(AttrView::I64(c.source_port as i64)),
        attr_lookup(server_config_attrs(es, c), SOURCE_LABELS@) == Some(
            AttrView::StringMap(map_of_pairs(pairs_view(c.source_labels@))),
        ),
{
    lemma_config_names_distinct();
    let e1 = match c.destination_ip {
        Some(ip) => attr_insert(es, DESTINATION_IP@, AttrView::Ip(ip@)),
        None => es,
    };
    if let Some(ip) = c.destination_ip {
        lemma_attr_insert_keeps(es, DESTINATION_IP@, AttrView::Ip(ip@));
    }
    let e2 = match c.source_ip {
        Some(ip) => attr_insert(e1, SOURCE_IP@, AttrView::Ip(ip@)),
        None => e1,
    };
    if let Some(ip) = c.source_ip {
        lemma_attr_insert_keeps(e1, SOURCE_IP@, AttrView::Ip(ip@));
    }
    let e3 = insert_str_spec(e2, DESTINATION_SERVICE@, c.destination_service@);
    lemma_insert_str_keeps(e2, DESTINATION_SERVICE@, c.destination_service@);
    let e4 = insert_str_spec(e3, DESTINATION_UID@, c.destination_uid@);
    lemma_insert_str_keeps(e3, DESTINATION_UID@, c.destination_uid@);
    let dl = AttrView::StringMap(map_of_pairs(pairs_view(c.destination_labels@)));
    let e5 = attr_insert(e4, DESTINATION_LABELS@, dl);
    lemma_attr_insert_keeps(e4, DESTINATION_LABELS@, dl);
    let e6 = insert_str_spec(e5, SOURCE_UID@, c.source_uid@);
    lemma_insert_str_keeps(e5, SOURCE_UID@, c.source_uid@);
    let e7 = insert_str_spec(e6, SOURCE_SERVICE@, c.source_service@);
    lemma_insert_str_keeps(e6, SOURCE_SERVICE@, c.source_service@);
    let sp = AttrView::I64(c.source_port as i64);
    let e8 = attr_insert(e7, SOURCE_PORT@, sp);
    lemma_attr_insert_keeps(e7, SOURCE_PORT@, sp);
    let sl = AttrView::StringMap(map_of_pairs(pairs_view(c.source_labels@)));
    lemma_attr_insert_keeps(e8, SOURCE_LABELS@, sl);
}

/// The request headers other than the source headers, in order.
pub open spec fn plain_headers(hs: Seq<(Seq<char>, Seq<char>)>) -> Seq<(Seq<char>, Seq<char>)>
    decreases hs.len(),
{
    if hs.len() == 0 {
        Seq::empty()
    } else if hs.last().0 == SRC_IP_HEADER@ || hs.last().0 == SRC_UID_HEADER@ {
        plain_headers(hs.drop_last())
    } else {
        plain_headers(hs.drop_last()).push(hs.last())
    }
}

/// Folding the request headers keeps the names distinct, changes no
/// attribute but the source address and UID, and builds the map of the
/// other headers.
pub proof fn lemma_headers_fold(es: AttrsView, hs: Seq<(Seq<char>, Seq<char>)>)
    requires
        distinct_names(es),
    ensures
        distinct_names(headers_fold(es, hs).0),
        headers_fold(es, hs).1 == map_of_pairs(plain_headers(hs)),
        forall|o: Seq<char>|
            o != SOURCE_IP@ && o != SOURCE_UID@ ==> #[trigger] attr_lookup(headers_fold(es, hs).0, o)
                == attr_lookup(es, o),
    decreases hs.len(),
{
    if hs.len() > 0 {
        let prev = hs.drop_last();
        lemma_headers_fold(es, prev);
        let acc = headers_fold(es, prev);
        let h = hs.last();
        if h.0 == SRC_IP_HEADER@ {
            lemma_insert_str_keeps(acc.0, SOURCE_IP@, h.1);
        } else if h.0 == SRC_UID_HEADER@ {
            lemma_insert_str_keeps(acc.0, SOURCE_UID@, h.1);
        } else {
            let ph = plain_headers(prev);
            assert(ph.push(h).drop_last() =~= ph);
            assert(ph.push(h).last() == h);
        }
    }
}

/// The names a request's attributes are stored under, the source address
/// and UID from its headers included.
pub open spec fn is_request_name(o: Seq<char>) -> bool {
    ||| o == REQUEST_HOST@
    ||| o == REQUEST_METHOD@
    ||| o == REQUEST_PATH@
    ||| o == REQUEST_REFER@
    ||| o == REQUEST_SCHEME@
    ||| o == REQUEST_SIZE@
    ||| o == REQUEST_TIME@
    ||| o == REQUEST_USERAGENT@
    ||| o == REQUEST_HEADER@
    ||| o == SOURCE_IP@
    ||| o == SOURCE_UID@
}

/// Every value of a request reaches the attribute set under its name: the
/// non-empty host, method, path and user agent, a non-empty referer where
/// there is one, the scheme "http", the size, the start time, and the map
/// of the headers other than the source headers (a later header replacing
/// an earlier one of the same name); no other attribute changes.
pub proof fn lemma_request_attrs(es: AttrsView, r: RequestInfo)
    requires
        distinct_names(es),
    ensures
        distinct_names(request_attrs(es, r)),
        r.host@.len() > 0 ==> attr_lookup(request_attrs(es, r), REQUEST_HOST@) == Some(AttrView::Str(r.host@)),
        r.method@.len() > 0 ==> attr_lookup(request_attrs(es, r), REQUEST_METHOD@) == Some(
            AttrView::Str(r.method@),
        ),
        r.uri@.len() > 0 ==> attr_lookup(request_attrs(es, r), REQUEST_PATH@) == Some(AttrView::Str(r.uri@)),
        r.referer matches Some(referer) ==> (referer@.len() > 0 ==> attr_lookup(
            request_attrs(es, r),
            REQUEST_REFER@,
        ) == Some(AttrView::Str(referer@))),
        attr_lookup(request_attrs(es, r), REQUEST_SCHEME@) == Some(AttrView::Str("http"@)),
        attr_lookup(request_attrs(es, r), REQUEST_SIZE@) == Some(AttrView::I64(r.request_length)),
        attr_lookup(request_attrs(es, r), REQUEST_TIME@) == Some(
            AttrView::Timestamp(Timestamp { seconds: r.start_sec, nanos: r.start_msec as i32 }),
        ),
        r.user_agent@.len() > 0 ==> attr_lookup(request_attrs(es, r), REQUEST_USERAGENT@) == Some(
            AttrView::Str(r.user_agent@),
        ),
        attr_lookup(request_attrs(es, r), REQUEST_HEADER@) == Some(
            AttrView::StringMap(map_of_pairs(plain_headers(pairs_view(r.headers@)))),
        ),
        forall|o: Seq<char>|
            is_request_name(o) == false ==> #[trigger] attr_lookup(request_attrs(es, r), o) == attr_lookup(es, o),
{
    lemma_request_names_distinct();
    reveal_strlit("http");
    let e1 = insert_str_spec(es, REQUEST_HOST@, r.host@);
    lemma_insert_str_keeps(es, REQUEST_HOST@, r.host@);
    let e2 = insert_str_spec(e1, REQUEST_METHOD@, r.method@);
    lemma_insert_str_keeps(e1, REQUEST_METHOD@, r.method@);
    let e3 = insert_str_spec(e2, REQUEST_PATH@, r.uri@);
    lemma_insert_str_keeps(e2, REQUEST_PATH@, r.uri@);
    let e4 = match r.referer {
        Some(referer) => insert_str_spec(e3, REQUEST_REFER@, referer@),
        None => e3,
    };
    if let Some(referer) = r.referer {
        lemma_insert_str_keeps(e3, REQUEST_REFER@, referer@);
    }
    let e5 = insert_str_spec(e4, REQUEST_SCHEME@, "http"@);
    lemma_insert_str_keeps(e4, REQUEST_SCHEME@, "http"@);
    let e6 = attr_insert(e5, REQUEST_SIZE@, AttrView::I64(r.request_length));
    lemma_attr_insert_keeps(e5, REQUEST_SIZE@, AttrView::I64(r.request_length));
    let t = AttrView::Timestamp(Timestamp { seconds: r.start_sec, nanos: r.start_msec as i32 });
    let e7 = attr_insert(e6, REQUEST_TIME@, t);
    lemma_attr_insert_keeps(e6, REQUEST_TIME@, t);
    let e8 = insert_str_spec(e7, REQUEST_USERAGENT@, r.user_agent@);
    lemma_insert_str_keeps(e7, REQUEST_USERAGENT@, r.user_agent@);
    let hs = pairs_view(r.headers@);
    lemma_headers_fold(e8, hs);
    let folded = headers_fold(e8, hs);
    lemma_attr_insert_keeps(folded.0, REQUEST_HEADER@, AttrView::StringMap(folded.1));
}

/// The target's values of the main configuration reach the attribute set:
/// each non-empty one under its name.
pub proof fn lemma_main_config_attrs(es: AttrsView, c: MainConfig)
    requires
        distinct_names(es),
    ensures
        distinct_names(main_config_attrs(es, c)),
        c.target_ip@.len() > 0 ==> attr_lookup(main_config_attrs(es, c), TARGET_IP@) == Some(
            AttrView::Str(c.target_ip@),
        ),
        c.target_uid@.len() > 0 ==> attr_lookup(main_config_attrs(es, c), TARGET_UID@) == Some(
            AttrView::Str(c.target_uid@),
        ),
        c.target_service@.len() > 0 ==> attr_lookup(main_config_attrs(es, c), TARGET_SERVICE@) == Some(
            AttrView::Str(c.target_service@),
        ),
{
    lemma_target_names_distinct();
    let e1 = insert_str_spec(es, TARGET_IP@, c.target_ip@);
    lemma_insert_str_keeps(es, TARGET_IP@, c.target_ip@);
    let e2 = insert_str_spec(e1, TARGET_UID@, c.target_uid@);
    lemma_insert_str_keeps(e1, TARGET_UID@, c.target_uid@);
    lemma_insert_str_keeps(e2, TARGET_SERVICE@, c.target_service@);
}

/// The values of a response reach the attribute set under their names: the
/// status code, the size, the fixed duration, and the map of the response
/// headers (a later header replacing an earlier one of the same name).
pub proof fn lemma_response_attrs(es: AttrsView, r: ResponseInfo)
    requires
        distinct_names(es),
    ensures
        distinct_names(response_attrs(es, r)),
        attr_lookup(response_attrs(es, r), RESPONSE_CODE@) == Some(AttrView::I64(r.status as i64)),
        attr_lookup(response_attrs(es, r), RESPONSE_SIZE@) == Some(AttrView::I64(r.content_length)),
        attr_lookup(response_attrs(es, r), RESPONSE_DURATION@) == Some(AttrView::I64(REPORTED_RESPONSE_DURATION)),
        attr_lookup(response_attrs(es, r), RESPONSE_HEADERS@) == Some(
            AttrView::StringMap(map_of_pairs(pairs_view(r.headers@))),
        ),
        forall|o: Seq<char>|
            o != RESPONSE_CODE@ && o != RESPONSE_SIZE@ && o != RESPONSE_DURATION@ && o != RESPONSE_HEADERS@
                ==> #[trigger] attr_lookup(response_attrs(es, r), o) == attr_lookup(es, o),
{
    lemma_response_names_distinct();
    let e1 = attr_insert(es, RESPONSE_CODE@, AttrView::I64(r.status as i64));
    lemma_attr_insert_keeps(es, RESPONSE_CODE@, AttrView::I64(r.status as i64));
    let e2 = attr_insert(e1, RESPONSE_SIZE@, AttrView::I64(r.content_length));
    lemma_attr_insert_keeps(e1, RESPONSE_SIZE@, AttrView::I64(r.content_length));
    let e3 = attr_insert(e2, RESPONSE_DURATION@, AttrView::I64(REPORTED_RESPONSE_DURATION));
    lemma_attr_insert_keeps(e2, RESPONSE_DURATION@, AttrView::I64(REPORTED_RESPONSE_DURATION));
    lemma_attr_insert_keeps(
        e3,
        RESPONSE_HEADERS@,
        AttrView::StringMap(map_of_pairs(pairs_view(r.headers@))),
    );
}

/// A report with a server configuration carries the total upstream
/// response time as the response duration, the protocol "http", and the
/// response's status code and size.
pub proof fn lemma_server_report_attrs(c: ServerConfig, r: RequestInfo, resp: ResponseInfo, times: Seq<u64>)
    ensures
        distinct_names(server_report_attrs(c, r, resp, times)),
        attr_lookup(server_report_attrs(c, r, resp, times), RESPONSE_DURATION@) == Some(
            AttrView::I64(times_sum(times) as i64),
        ),
        attr_lookup(server_report_attrs(c, r, resp, times), CONTEXT_PROTOCOL@) == Some(AttrView::Str("http"@)),
        attr_lookup(server_report_attrs(c, r, resp, times), RESPONSE_CODE@) == Some(
            AttrView::I64(resp.status as i64),
        ),
        attr_lookup(server_report_attrs(c, r, resp, times), RESPONSE_SIZE@) == Some(
            AttrView::I64(resp.content_length),
        ),
{
    lemma_response_names_distinct();
    reveal_strlit("http");
    let e0 = Seq::<(Seq<char>, AttrView)>::empty();
    lemma_server_config_attrs(e0, c);
    let e1 = request_attrs(server_config_attrs(e0, c), r);
    lemma_request_attrs(server_config_attrs(e0, c), r);
    let e2 = response_attrs(e1, resp);
    lemma_response_attrs(e1, resp);
    let d = AttrView::I64(times_sum(times) as i64);
    let e3 = attr_insert(e2, RESPONSE_DURATION@, d);
    lemma_attr_insert_keeps(e2, RESPONSE_DURATION@, d);
    lemma_insert_str_keeps(e3, CONTEXT_PROTOCOL@, "http"@);
}

/// The names a request's attributes are stored under differ from those of a response's and of the protocol.
pub proof fn lemma_request_response_names_distinct()
    ensures
        REQUEST_HOST@ != RESPONSE_CODE@,
        REQUEST_HOST@ != RESPONSE_SIZE@,
        REQUEST_HOST@ != RESPONSE_DURATION@,
        REQUEST_HOST@ != RESPONSE_HEADERS@,
        REQUEST_HOST@ != CONTEXT_PROTOCOL@,
        REQUEST_METHOD@ != RESPONSE_CODE@,
        REQUEST_METHOD@ != RESPONSE_SIZE@,
        REQUEST_METHOD@ != RESPONSE_DURATION@,
        REQUEST_METHOD@ != RESPONSE_HEADERS@,
        REQUEST_METHOD@ != CONTEXT_PROTOCOL@,
        REQUEST_PATH@ != RESPONSE_CODE@,
        REQUEST_PATH@ != RESPONSE_SIZE@,
        REQUEST_PATH@ != RESPONSE_DURATION@,
        REQUEST_PATH@ != RESPONSE_HEADERS@,
        REQUEST_PATH@ != CONTEXT_PROTOCOL@,
        REQUEST_REFER@ != RESPONSE_CODE@,
        REQUEST_REFER@ != RESPONSE_SIZE@,
        REQUEST_REFER@ != RESPONSE_DURATION@,
        REQUEST_REFER@ != RESPONSE_HEADERS@,
        REQUEST_REFER@ != CONTEXT_PROTOCOL@,
        REQUEST_SCHEME@ != RESPONSE_CODE@,
        REQUEST_SCHEME@ != RESPONSE_SIZE@,
        REQUEST_SCHEME@ != RESPONSE_DURATION@,
        REQUEST_SCHEME@ != RESPONSE_HEADERS@,
        REQUEST_SCHEME@ != CONTEXT_PROTOCOL@,
        REQUEST_SIZE@ != RESPONSE_CODE@,
        REQUEST_SIZE@ != RESPONSE_SIZE@,
        REQUEST_SIZE@ != RESPONSE_DURATION@,
        REQUEST_SIZE@ != RESPONSE_HEADERS@,
        REQUEST_SIZE@ != CONTEXT_PROTOCOL@,
        REQUEST_TIME@ != RESPONSE_CODE@,
        REQUEST_TIME@ != RESPONSE_SIZE@,
        REQUEST_TIME@ != RESPONSE_DURATION@,
        REQUEST_TIME@ != RESPONSE_HEADERS@,
        REQUEST_TIME@ != CONTEXT_PROTOCOL@,
        REQUEST_USERAGENT@ != RESPONSE_CODE@,
        REQUEST_USERAGENT@ != RESPONSE_SIZE@,
        REQUEST_USERAGENT@ != RESPONSE_DURATION@,
        REQUEST_USERAGENT@ != RESPONSE_HEADERS@,
        REQUEST_USERAGENT@ != CONTEXT_PROTOCOL@,
        REQUEST_HEADER@ != RESPONSE_CODE@,
        REQUEST_HEADER@ != RESPONSE_SIZE@,
        REQUEST_HEADER@ != RESPONSE_DURATION@,
        REQUEST_HEADER@ != RESPONSE_HEADERS@,
        REQUEST_HEADER@ != CONTEXT_PROTOCOL@,
        SOURCE_IP@ != RESPONSE_CODE@,
        SOURCE_IP@ != RESPONSE_SIZE@,
        SOURCE_IP@ != RESPONSE_DURATION@,
        SOURCE_IP@ != RESPONSE_HEADERS@,
        SOURCE_IP@ != CONTEXT_PROTOCOL@,
        SOURCE_UID@ != RESPONSE_CODE@,
        SOURCE_UID@ != RESPONSE_SIZE@,
        SOURCE_UID@ != RESPONSE_DURATION@,
        SOURCE_UID@ != RESPONSE_HEADERS@,
        SOURCE_UID@ != CONTEXT_PROTOCOL@,
{
    reveal_strlit("request.host");
    reveal_strlit("request.method");
    reveal_strlit("request.path");
    reveal_strlit("request.referer");
    reveal_strlit("request.scheme");
    reveal_strlit("request.size");
    reveal_strlit("request.time");
    reveal_strlit("request.useragent");
    reveal_strlit("request.headers");
    reveal_strlit("source.ip");
    reveal_strlit("source.uid");
    reveal_strlit("response.code");
    reveal_strlit("response.size");
    reveal_strlit("response.duration");
    reveal_strlit("response.headers");
    reveal_strlit("context.protocol");
    assert(REQUEST_HOST@[2] != RESPONSE_CODE@[2]);
    assert(REQUEST_HOST@[2] != RESPONSE_SIZE@[2]);
    assert(REQUEST_HOST@[2] != RESPONSE_DURATION@[2]);
    assert(REQUEST_HOST@[2] != RESPONSE_HEADERS@[2]);
    assert(REQUEST_HOST@[0] != CONTEXT_PROTOCOL@[0]);
    assert(REQUEST_METHOD@[2] != RESPONSE_CODE@[2]);
    assert(REQUEST_METHOD@[2] != RESPONSE_SIZE@[2]);
    assert(REQUEST_METHOD@[2] != RESPONSE_DURATION@[2]);
    assert(REQUEST_METHOD@[2] != RESPONSE_HEADERS@[2]);
    assert(REQUEST_METHOD@[0] != CONTEXT_PROTOCOL@[0]);
    assert(REQUEST_PATH@[2] != RESPONSE_CODE@[2]);
    assert(REQUEST_PATH@[2] != RESPONSE_SIZE@[2]);
    assert(REQUEST_PATH@[2] != RESPONSE_DURATION@[2]);
    assert(REQUEST_PATH@[2] != RESPONSE_HEADERS@[2]);
    assert(REQUEST_PATH@[0] != CONTEXT_PROTOCOL@[0]);
    assert(REQUEST_REFER@[2] != RESPONSE_CODE@[2]);
    assert(REQUEST_REFER@[2] != RESPONSE_SIZE@[2]);
    assert(REQUEST_REFER@[2] != RESPONSE_DURATION@[2]);
    assert(REQUEST_REFER@[2] != RESPONSE_HEADERS@[2]);
    assert(REQUEST_REFER@[0] != CONTEXT_PROTOCOL@[0]);
    assert(REQUEST_SCHEME@[2] != RESPONSE_CODE@[2]);
    assert(REQUEST_SCHEME@[2] != RESPONSE_SIZE@[2]);
    assert(REQUEST_SCHEME@[2] != RESPONSE_DURATION@[2]);
    assert(REQUEST_SCHEME@[2] != RESPONSE_HEADERS@[2]);
    assert(REQUEST_SCHEME@[0] != CONTEXT_PROTOCOL@[0]);
    assert(REQUEST_SIZE@[2] != RESPONSE_CODE@[2]);
    assert(REQUEST_SIZE@[2] != RESPONSE_SIZE@[2]);
    assert(REQUEST_SIZE@[2] != RESPONSE_DURATION@[2]);
    assert(REQUEST_SIZE@[2] != RESPONSE_HEADERS@[2]);
    assert(REQUEST_SIZE@[0] != CONTEXT_PROTOCOL@[0]);
    assert(REQUEST_TIME@[2] != RESPONSE_CODE@[2]);
    assert(REQUEST_TIME@[2] != RESPONSE_SIZE@[2]);
    assert(REQUEST_TIME@[2] != RESPONSE_DURATION@[2]);
    assert(REQUEST_TIME@[2] != RESPONSE_HEADERS@[2]);
    assert(REQUEST_TIME@[0] != CONTEXT_PROTOCOL@[0]);
    assert(REQUEST_USERAGENT@[2] != RESPONSE_CODE@[2]);
    assert(REQUEST_USERAGENT@[2] != RESPONSE_SIZE@[2]);
    assert(REQUEST_USERAGENT@[2] != RESPONSE_DURATION@[2]);
    assert(REQUEST_USERAGENT@[2] != RESPONSE_HEADERS@[2]);
    assert(REQUEST_USERAGENT@[0] != CONTEXT_PROTOCOL@[0]);
    assert(REQUEST_HEADER@[2] != RESPONSE_CODE@[2]);
    assert(REQUEST_HEADER@[2] != RESPONSE_SIZE@[2]);
    assert(REQUEST_HEADER@[2] != RESPONSE_DURATION@[2]);
    assert(REQUEST_HEADER@[2] != RESPONSE_HEADERS@[2]);
    assert(REQUEST_HEADER@[0] != CONTEXT_PROTOCOL@[0]);
    assert(SOURCE_IP@[0] != RESPONSE_CODE@[0]);
    assert(SOURCE_IP@[0] != RESPONSE_SIZE@[0]);
    assert(SOURCE_IP@[0] != RESPONSE_DURATION@[0]);
    assert(SOURCE_IP@[0] != RESPONSE_HEADERS@[0]);
    assert(SOURCE_IP@[0] != CONTEXT_PROTOCOL@[0]);
    assert(SOURCE_UID@[0] != RESPONSE_CODE@[0]);
    assert(SOURCE_UID@[0] != RESPONSE_SIZE@[0]);
    assert(SOURCE_UID@[0] != RESPONSE_DURATION@[0]);
    assert(SOURCE_UID@[0] != RESPONSE_HEADERS@[0]);
    assert(SOURCE_UID@[0] != CONTEXT_PROTOCOL@[0]);
}

/// The names of the target's attributes differ from those of a request's, a response's and the protocol.
pub proof fn lemma_target_other_names_distinct()
    ensures
        TARGET_IP@ != REQUEST_HOST@,
        TARGET_IP@ != REQUEST_METHOD@,
        TARGET_IP@ != REQUEST_PATH@,
        TARGET_IP@ != REQUEST_REFER@,
        TARGET_IP@ != REQUEST_SCHEME@,
        TARGET_IP@ != REQUEST_SIZE@,
        TARGET_IP@ != REQUEST_TIME@,
        TARGET_IP@ != REQUEST_USERAGENT@,
        TARGET_IP@ != REQUEST_HEADER@,
        TARGET_IP@ != SOURCE_IP@,
        TARGET_IP@ != SOURCE_UID@,
        TARGET_IP@ != RESPONSE_CODE@,
        TARGET_IP@ != RESPONSE_SIZE@,
        TARGET_IP@ != RESPONSE_DURATION@,
        TARGET_IP@ != RESPONSE_HEADERS@,
        TARGET_IP@ != CONTEXT_PROTOCOL@,
        TARGET_UID@ != REQUEST_HOST@,
        TARGET_UID@ != REQUEST_METHOD@,
        TARGET_UID@ != REQUEST_PATH@,
        TARGET_UID@ != REQUEST_REFER@,
        TARGET_UID@ != REQUEST_SCHEME@,
        TARGET_UID@ != REQUEST_SIZE@,
        TARGET_UID@ != REQUEST_TIME@,
        TARGET_UID@ != REQUEST_USERAGENT@,
        TARGET_UID@ != REQUEST_HEADER@,
        TARGET_UID@ != SOURCE_IP@,
        TARGET_UID@ != SOURCE_UID@,
        TARGET_UID@ != RESPONSE_CODE@,
        TARGET_UID@ != RESPONSE_SIZE@,
        TARGET_UID@ != RESPONSE_DURATION@,
        TARGET_UID@ != RESPONSE_HEADERS@,
        TARGET_UID@ != CONTEXT_PROTOCOL@,
        TARGET_SERVICE@ != REQUEST_HOST@,
        TARGET_SERVICE@ != REQUEST_METHOD@,
        TARGET_SERVICE@ != REQUEST_PATH@,
        TARGET_SERVICE@ != REQUEST_REFER@,
        TARGET_SERVICE@ != REQUEST_SCHEME@,
        TARGET_SERVICE@ != REQUEST_SIZE@,
        TARGET_SERVICE@ != REQUEST_TIME@,
        TARGET_SERVICE@ != REQUEST_USERAGENT@,
        TARGET_SERVICE@ != REQUEST_HEADER@,
        TARGET_SERVICE@ != SOURCE_IP@,
        TARGET_SERVICE@ != SOURCE_UID@,
        TARGET_SERVICE@ != RESPONSE_CODE@,
        TARGET_SERVICE@ != RESPONSE_SIZE@,
        TARGET_SERVICE@ != RESPONSE_DURATION@,
        TARGET_SERVICE@ != RESPONSE_HEADERS@,
        TARGET_SERVICE@ != CONTEXT_PROTOCOL@,
{
    reveal_strlit("target.ip");
    reveal_strlit("target.uid");
    reveal_strlit("target.service");
    reveal_strlit("request.host");
    reveal_strlit("request.method");
    reveal_strlit("request.path");
    reveal_strlit("request.referer");
    reveal_strlit("request.scheme");
    reveal_strlit("request.size");
    reveal_strlit("request.time");
    reveal_strlit("request.useragent");
    reveal_strlit("request.headers");
    reveal_strlit("source.ip");
    reveal_strlit("source.uid");
    reveal_strlit("response.code");
    reveal_strlit("response.size");
    reveal_strlit("response.duration");
    reveal_strlit("response.headers");
    reveal_strlit("context.protocol");
    assert(TARGET_IP@[0] != REQUEST_HOST@[0]);
    assert(TARGET_IP@[0] != REQUEST_METHOD@[0]);
    assert(TARGET_IP@[0] != REQUEST_PATH@[0]);
    assert(TARGET_IP@[0] != REQUEST_REFER@[0]);
    assert(TARGET_IP@[0] != REQUEST_SCHEME@[0]);
    assert(TARGET_IP@[0] != REQUEST_SIZE@[0]);
    assert(TARGET_IP@[0] != REQUEST_TIME@[0]);
    assert(TARGET_IP@[0] != REQUEST_USERAGENT@[0]);
    assert(TARGET_IP@[0] != REQUEST_HEADER@[0]);
    assert(TARGET_IP@[0] != SOURCE_IP@[0]);
    assert(TARGET_IP@[0] != SOURCE_UID@[0]);
    assert(TARGET_IP@[0] != RESPONSE_CODE@[0]);
    assert(TARGET_IP@[0] != RESPONSE_SIZE@[0]);
    assert(TARGET_IP@[0] != RESPONSE_DURATION@[0]);
    assert(TARGET_IP@[0] != RESPONSE_HEADERS@[0]);
    assert(TARGET_IP@[0] != CONTEXT_PROTOCOL@[0]);
    assert(TARGET_UID@[0] != REQUEST_HOST@[0]);
    assert(TARGET_UID@[0] != REQUEST_METHOD@[0]);
    assert(TARGET_UID@[0] != REQUEST_PATH@[0]);
    assert(TARGET_UID@[0] != REQUEST_REFER@[0]);
    assert(TARGET_UID@[0] != REQUEST_SCHEME@[0]);
    assert(TARGET_UID@[0] != REQUEST_SIZE@[0]);
    assert(TARGET_UID@[0] != REQUEST_TIME@[0]);
    assert(TARGET_UID@[0] != REQUEST_USERAGENT@[0]);
    assert(TARGET_UID@[0] != REQUEST_HEADER@[0]);
    assert(TARGET_UID@[0] != SOURCE_IP@[0]);
    assert(TARGET_UID@[0] != SOURCE_UID@[0]);
    assert(TARGET_UID@[0] != RESPONSE_CODE@[0]);
    assert(TARGET_UID@[0] != RESPONSE_SIZE@[0]);
    assert(TARGET_UID@[0] != RESPONSE_DURATION@[0]);
    assert(TARGET_UID@[0] != RESPONSE_HEADERS@[0]);
    assert(TARGET_UID@[0] != CONTEXT_PROTOCOL@[0]);
    assert(TARGET_SERVICE@[0] != REQUEST_HOST@[0]);
    assert(TARGET_SERVICE@[0] != REQUEST_METHOD@[0]);
    assert(TARGET_SERVICE@[0] != REQUEST_PATH@[0]);
    assert(TARGET_SERVICE@[0] != REQUEST_REFER@[0]);
    assert(TARGET_SERVICE@[0] != REQUEST_SCHEME@[0]);
    assert(TARGET_SERVICE@[0] != REQUEST_SIZE@[0]);
    assert(TARGET_SERVICE@[0] != REQUEST_TIME@[0]);
    assert(TARGET_SERVICE@[0] != REQUEST_USERAGENT@[0]);
    assert(TARGET_SERVICE@[0] != REQUEST_HEADER@[0]);
    assert(TARGET_SERVICE@[0] != SOURCE_IP@[0]);
    assert(TARGET_SERVICE@[0] != SOURCE_UID@[0]);
    assert(TARGET_SERVICE@[0] != RESPONSE_CODE@[0]);
    assert(TARGET_SERVICE@[0] != RESPONSE_SIZE@[0]);
    assert(TARGET_SERVICE@[0] != RESPONSE_DURATION@[0]);
    assert(TARGET_SERVICE@[0] != RESPONSE_HEADERS@[0]);
    assert(TARGET_SERVICE@[0] != CONTEXT_PROTOCOL@[0]);
}

/// The names of the server configuration's attributes (but the source address and UID, which request headers also set) differ from those of a request's, a response's and the protocol.
pub proof fn lemma_server_other_names_distinct()
    ensures
        DESTINATION_IP@ != REQUEST_HOST@,
        DESTINATION_IP@ != REQUEST_METHOD@,
        DESTINATION_IP@ != REQUEST_PATH@,
        DESTINATION_IP@ != REQUEST_REFER@,
        DESTINATION_IP@ != REQUEST_SCHEME@,
        DESTINATION_IP@ != REQUEST_SIZE@,
        DESTINATION_IP@ != REQUEST_TIME@,
        DESTINATION_IP@ != REQUEST_USERAGENT@,
        DESTINATION_IP@ != REQUEST_HEADER@,
        DESTINATION_IP@ != SOURCE_IP@,
        DESTINATION_IP@ != SOURCE_UID@,
        DESTINATION_IP@ != RESPONSE_CODE@,
        DESTINATION_IP@ != RESPONSE_SIZE@,
        DESTINATION_IP@ != RESPONSE_DURATION@,
        DESTINATION_IP@ != RESPONSE_HEADERS@,
        DESTINATION_IP@ != CONTEXT_PROTOCOL@,
        DESTINATION_SERVICE@ != REQUEST_HOST@,
        DESTINATION_SERVICE@ != REQUEST_METHOD@,
        DESTINATION_SERVICE@ != REQUEST_PATH@,
        DESTINATION_SERVICE@ != REQUEST_REFER@,
        DESTINATION_SERVICE@ != REQUEST_SCHEME@,
        DESTINATION_SERVICE@ != REQUEST_SIZE@,
        DESTINATION_SERVICE@ != REQUEST_TIME@,
        DESTINATION_SERVICE@ != REQUEST_USERAGENT@,
        DESTINATION_SERVICE@ != REQUEST_HEADER@,
        DESTINATION_SERVICE@ != SOURCE_IP@,
        DESTINATION_SERVICE@ != SOURCE_UID@,
        DESTINATION_SERVICE@ != RESPONSE_CODE@,
        DESTINATION_SERVICE@ != RESPONSE_SIZE@,
        DESTINATION_SERVICE@ != RESPONSE_DURATION@,
        DESTINATION_SERVICE@ != RESPONSE_HEADERS@,
        DESTINATION_SERVICE@ != CONTEXT_PROTOCOL@,
        DESTINATION_UID@ != REQUEST_HOST@,
        DESTINATION_UID@ != REQUEST_METHOD@,
        DESTINATION_UID@ != REQUEST_PATH@,
        DESTINATION_UID@ != REQUEST_REFER@,
        DESTINATION_UID@ != REQUEST_SCHEME@,
        DESTINATION_UID@ != REQUEST_SIZE@,
        DESTINATION_UID@ != REQUEST_TIME@,
        DESTINATION_UID@ != REQUEST_USERAGENT@,
        DESTINATION_UID@ != REQUEST_HEADER@,
        DESTINATION_UID@ != SOURCE_IP@,
        DESTINATION_UID@ != SOURCE_UID@,
        DESTINATION_UID@ != RESPONSE_CODE@,
        DESTINATION_UID@ != RESPONSE_SIZE@,
        DESTINATION_UID@ != RESPONSE_DURATION@,
        DESTINATION_UID@ != RESPONSE_HEADERS@,
        DESTINATION_UID@ != CONTEXT_PROTOCOL@,
        DESTINATION_LABELS@ != REQUEST_HOST@,
        DESTINATION_LABELS@ != REQUEST_METHOD@,
        DESTINATION_LABELS@ != REQUEST_PATH@,
        DESTINATION_LABELS@ != REQUEST_REFER@,
        DESTINATION_LABELS@ != REQUEST_SCHEME@,
        DESTINATION_LABELS@ != REQUEST_SIZE@,
        DESTINATION_LABELS@ != REQUEST_TIME@,
        DESTINATION_LABELS@ != REQUEST_USERAGENT@,
        DESTINATION_LABELS@ != REQUEST_HEADER@,
        DESTINATION_LABELS@ != SOURCE_IP@,
        DESTINATION_LABELS@ != SOURCE_UID@,
        DESTINATION_LABELS@ != RESPONSE_CODE@,
        DESTINATION_LABELS@ != RESPONSE_SIZE@,
        DESTINATION_LABELS@ != RESPONSE_DURATION@,
        DESTINATION_LABELS@ != RESPONSE_HEADERS@,
        DESTINATION_LABELS@ != CONTEXT_PROTOCOL@,
        SOURCE_SERVICE@ != REQUEST_HOST@,
        SOURCE_SERVICE@ != REQUEST_METHOD@,
        SOURCE_SERVICE@ != REQUEST_PATH@,
        SOURCE_SERVICE@ != REQUEST_REFER@,
        SOURCE_SERVICE@ != REQUEST_SCHEME@,
        SOURCE_SERVICE@ != REQUEST_SIZE@,
        SOURCE_SERVICE@ != REQUEST_TIME@,
        SOURCE_SERVICE@ != REQUEST_USERAGENT@,
        SOURCE_SERVICE@ != REQUEST_HEADER@,
        SOURCE_SERVICE@ != SOURCE_IP@,
        SOURCE_SERVICE@ != SOURCE_UID@,
        SOURCE_SERVICE@ != RESPONSE_CODE@,
        SOURCE_SERVICE@ != RESPONSE_SIZE@,
        SOURCE_SERVICE@ != RESPONSE_DURATION@,
        SOURCE_SERVICE@ != RESPONSE_HEADERS@,
        SOURCE_SERVICE@ != CONTEXT_PROTOCOL@,
        SOURCE_PORT@ != REQUEST_HOST@,
        SOURCE_PORT@ != REQUEST_METHOD@,
        SOURCE_PORT@ != REQUEST_PATH@,
        SOURCE_PORT@ != REQUEST_REFER@,
        SOURCE_PORT@ != REQUEST_SCHEME@,
        SOURCE_PORT@ != REQUEST_SIZE@,
        SOURCE_PORT@ != REQUEST_TIME@,
        SOURCE_PORT@ != REQUEST_USERAGENT@,
        SOURCE_PORT@ != REQUEST_HEADER@,
        SOURCE_PORT@ != SOURCE_IP@,
        SOURCE_PORT@ != SOURCE_UID@,
        SOURCE_PORT@ != RESPONSE_CODE@,
        SOURCE_PORT@ != RESPONSE_SIZE@,
        SOURCE_PORT@ != RESPONSE_DURATION@,
        SOURCE_PORT@ != RESPONSE_HEADERS@,
        SOURCE_PORT@ != CONTEXT_PROTOCOL@,
        SOURCE_LABELS@ != REQUEST_HOST@,
        SOURCE_LABELS@ != REQUEST_METHOD@,
        SOURCE_LABELS@ != REQUEST_PATH@,
        SOURCE_LABELS@ != REQUEST_REFER@,
        SOURCE_LABELS@ != REQUEST_SCHEME@,
        SOURCE_LABELS@ != REQUEST_SIZE@,
        SOURCE_LABELS@ != REQUEST_TIME@,
        SOURCE_LABELS@ != REQUEST_USERAGENT@,
        SOURCE_LABELS@ != REQUEST_HEADER@,
        SOURCE_LABELS@ != SOURCE_IP@,
        SOURCE_LABELS@ != SOURCE_UID@,
        SOURCE_LABELS@ != RESPONSE_CODE@,
        SOURCE_LABELS@ != RESPONSE_SIZE@,
        SOURCE_LABELS@ != RESPONSE_DURATION@,
        SOURCE_LABELS@ != RESPONSE_HEADERS@,
        SOURCE_LABELS@ != CONTEXT_PROTOCOL@,
{
    reveal_strlit("destination.ip");
    reveal_strlit("destination.service");
    reveal_strlit("destination.uid");
    reveal_strlit("destination.labels");
    reveal_strlit("source.service");
    reveal_strlit("source.port");
    reveal_strlit("source.labels");
    reveal_strlit("request.host");
    reveal_strlit("request.method");
    reveal_strlit("request.path");
    reveal_strlit("request.referer");
    reveal_strlit("request.scheme");
    reveal_strlit("request.size");
    reveal_strlit("request.time");
    reveal_strlit("request.useragent");
    reveal_strlit("request.headers");
    reveal_strlit("source.ip");
    reveal_strlit("source.uid");
    reveal_strlit("response.code");
    reveal_strlit("response.size");
    reveal_strlit("response.duration");
    reveal_strlit("response.headers");
    reveal_strlit("context.protocol");
    assert(DESTINATION_IP@[0] != REQUEST_HOST@[0]);
    assert(DESTINATION_IP@[0] != REQUEST_METHOD@[0]);
    assert(DESTINATION_IP@[0] != REQUEST_PATH@[0]);
    assert(DESTINATION_IP@[0] != REQUEST_REFER@[0]);
    assert(DESTINATION_IP@[0] != REQUEST_SCHEME@[0]);
    assert(DESTINATION_IP@[0] != REQUEST_SIZE@[0]);
    assert(DESTINATION_IP@[0] != REQUEST_TIME@[0]);
    assert(DESTINATION_IP@[0] != REQUEST_USERAGENT@[0]);
    assert(DESTINATION_IP@[0] != REQUEST_HEADER@[0]);
    assert(DESTINATION_IP@[0] != SOURCE_IP@[0]);
    assert(DESTINATION_IP@[0] != SOURCE_UID@[0]);
    assert(DESTINATION_IP@[0] != RESPONSE_CODE@[0]);
    assert(DESTINATION_IP@[0] != RESPONSE_SIZE@[0]);
    assert(DESTINATION_IP@[0] != RESPONSE_DURATION@[0]);
    assert(DESTINATION_IP@[0] != RESPONSE_HEADERS@[0]);
    assert(DESTINATION_IP@[0] != CONTEXT_PROTOCOL@[0]);
    assert(DESTINATION_SERVICE@[0] != REQUEST_HOST@[0]);
    assert(DESTINATION_SERVICE@[0] != REQUEST_METHOD@[0]);
    assert(DESTINATION_SERVICE@[0] != REQUEST_PATH@[0]);
    assert(DESTINATION_SERVICE@[0] != REQUEST_REFER@[0]);
    assert(DESTINATION_SERVICE@[0] != REQUEST_SCHEME@[0]);
    assert(DESTINATION_SERVICE@[0] != REQUEST_SIZE@[0]);
    assert(DESTINATION_SERVICE@[0] != REQUEST_TIME@[0]);
    assert(DESTINATION_SERVICE@[0] != REQUEST_USERAGENT@[0]);
    assert(DESTINATION_SERVICE@[0] != REQUEST_HEADER@[0]);
    assert(DESTINATION_SERVICE@[0] != SOURCE_IP@[0]);
    assert(DESTINATION_SERVICE@[0] != SOURCE_UID@[0]);
    assert(DESTINATION_SERVICE@[0] != RESPONSE_CODE@[0]);
    assert(DESTINATION_SERVICE@[0] != RESPONSE_SIZE@[0]);
    assert(DESTINATION_SERVICE@[0] != RESPONSE_DURATION@[0]);
    assert(DESTINATION_SERVICE@[0] != RESPONSE_HEADERS@[0]);
    assert(DESTINATION_SERVICE@[0] != CONTEXT_PROTOCOL@[0]);
    assert(DESTINATION_UID@[0] != REQUEST_HOST@[0]);
    assert(DESTINATION_UID@[0] != REQUEST_METHOD@[0]);
    assert(DESTINATION_UID@[0] != REQUEST_PATH@[0]);
    assert(DESTINATION_UID@[0] != REQUEST_REFER@[0]);
    assert(DESTINATION_UID@[0] != REQUEST_SCHEME@[0]);
    assert(DESTINATION_UID@[0] != REQUEST_SIZE@[0]);
    assert(DESTINATION_UID@[0] != REQUEST_TIME@[0]);
    assert(DESTINATION_UID@[0] != REQUEST_USERAGENT@[0]);
    assert(DESTINATION_UID@[0] != REQUEST_HEADER@[0]);
    assert(DESTINATION_UID@[0] != SOURCE_IP@[0]);
    assert(DESTINATION_UID@[0] != SOURCE_UID@[0]);
    assert(DESTINATION_UID@[0] != RESPONSE_CODE@[0]);
    assert(DESTINATION_UID@[0] != RESPONSE_SIZE@[0]);
    assert(DESTINATION_UID@[0] != RESPONSE_DURATION@[0]);
    assert(DESTINATION_UID@[0] != RESPONSE_HEADERS@[0]);
    assert(DESTINATION_UID@[0] != CONTEXT_PROTOCOL@[0]);
    assert(DESTINATION_LABELS@[0] != REQUEST_HOST@[0]);
    assert(DESTINATION_LABELS@[0] != REQUEST_METHOD@[0]);
    assert(DESTINATION_LABELS@[0] != REQUEST_PATH@[0]);
    assert(DESTINATION_LABELS@[0] != REQUEST_REFER@[0]);
    assert(DESTINATION_LABELS@[0] != REQUEST_SCHEME@[0]);
    assert(DESTINATION_LABELS@[0] != REQUEST_SIZE@[0]);
    assert(DESTINATION_LABELS@[0] != REQUEST_TIME@[0]);
    assert(DESTINATION_LABELS@[0] != REQUEST_USERAGENT@[0]);
    assert(DESTINATION_LABELS@[0] != REQUEST_HEADER@[0]);
    assert(DESTINATION_LABELS@[0] != SOURCE_IP@[0]);
    assert(DESTINATION_LABELS@[0] != SOURCE_UID@[0]);
    assert(DESTINATION_LABELS@[0] != RESPONSE_CODE@[0]);
    assert(DESTINATION_LABELS@[0] != RESPONSE_SIZE@[0]);
    assert(DESTINATION_LABELS@[0] != RESPONSE_DURATION@[0]);
    assert(DESTINATION_LABELS@[0] != RESPONSE_HEADERS@[0]);
    assert(DESTINATION_LABELS@[0] != CONTEXT_PROTOCOL@[0]);
    assert(SOURCE_SERVICE@[0] != REQUEST_HOST@[0]);
    assert(SOURCE_SERVICE@[0] != REQUEST_METHOD@[0]);
    assert(SOURCE_SERVICE@[0] != REQUEST_PATH@[0]);
    assert(SOURCE_SERVICE@[0] != REQUEST_REFER@[0]);
    assert(SOURCE_SERVICE@[0] != REQUEST_SCHEME@[0]);
    assert(SOURCE_SERVICE@[0] != REQUEST_SIZE@[0]);
    assert(SOURCE_SERVICE@[0] != REQUEST_TIME@[0]);
    assert(SOURCE_SERVICE@[0] != REQUEST_USERAGENT@[0]);
    assert(SOURCE_SERVICE@[0] != REQUEST_HEADER@[0]);
    assert(SOURCE_SERVICE@[7] != SOURCE_IP@[7]);
    assert(SOURCE_SERVICE@[7] != SOURCE_UID@[7]);
    assert(SOURCE_SERVICE@[0] != RESPONSE_CODE@[0]);
    assert(SOURCE_SERVICE@[0] != RESPONSE_SIZE@[0]);
    assert(SOURCE_SERVICE@[0] != RESPONSE_DURATION@[0]);
    assert(SOURCE_SERVICE@[0] != RESPONSE_HEADERS@[0]);
    assert(SOURCE_SERVICE@[0] != CONTEXT_PROTOCOL@[0]);
    assert(SOURCE_PORT@[0] != REQUEST_HOST@[0]);
    assert(SOURCE_PORT@[0] != REQUEST_METHOD@[0]);
    assert(SOURCE_PORT@[0] != REQUEST_PATH@[0]);
    assert(SOURCE_PORT@[0] != REQUEST_REFER@[0]);
    assert(SOURCE_PORT@[0] != REQUEST_SCHEME@[0]);
    assert(SOURCE_PORT@[0] != REQUEST_SIZE@[0]);
    assert(SOURCE_PORT@[0] != REQUEST_TIME@[0]);
    assert(SOURCE_PORT@[0] != REQUEST_USERAGENT@[0]);
    assert(SOURCE_PORT@[0] != REQUEST_HEADER@[0]);
    assert(SOURCE_PORT@[7] != SOURCE_IP@[7]);
    assert(SOURCE_PORT@[7] != SOURCE_UID@[7]);
    assert(SOURCE_PORT@[0] != RESPONSE_CODE@[0]);
    assert(SOURCE_PORT@[0] != RESPONSE_SIZE@[0]);
    assert(SOURCE_PORT@[0] != RESPONSE_DURATION@[0]);
    assert(SOURCE_PORT@[0] != RESPONSE_HEADERS@[0]);
    assert(SOURCE_PORT@[0] != CONTEXT_PROTOCOL@[0]);
    assert(SOURCE_LABELS@[0] != REQUEST_HOST@[0]);
    assert(SOURCE_LABELS@[0] != REQUEST_METHOD@[0]);
    assert(SOURCE_LABELS@[0] != REQUEST_PATH@[0]);
    assert(SOURCE_LABELS@[0] != REQUEST_REFER@[0]);
    assert(SOURCE_LABELS@[0] != REQUEST_SCHEME@[0]);
    assert(SOURCE_LABELS@[0] != REQUEST_SIZE@[0]);
    assert(SOURCE_LABELS@[0] != REQUEST_TIME@[0]);
    assert(SOURCE_LABELS@[0] != REQUEST_USERAGENT@[0]);
    assert(SOURCE_LABELS@[0] != REQUEST_HEADER@[0]);
    assert(SOURCE_LABELS@[7] != SOURCE_IP@[7]);
    assert(SOURCE_LABELS@[7] != SOURCE_UID@[7]);
    assert(SOURCE_LABELS@[0] != RESPONSE_CODE@[0]);
    assert(SOURCE_LABELS@[0] != RESPONSE_SIZE@[0]);
    assert(SOURCE_LABELS@[0] != RESPONSE_DURATION@[0]);
    assert(SOURCE_LABELS@[0] != RESPONSE_HEADERS@[0]);
    assert(SOURCE_LABELS@[0] != CONTEXT_PROTOCOL@[0]);
}

/// The check handler's attributes hold the target's values of the main
/// configuration and the request's values: each non-empty target value, and
/// the request's host, size and header map.
pub proof fn lemma_check_attributes_values(c: MainConfig, r: RequestInfo)
    ensures
        distinct_names(request_attrs(main_config_attrs(Seq::empty(), c), r)),
        c.target_ip@.len() > 0 ==> attr_lookup(request_attrs(main_config_attrs(Seq::empty(), c), r), TARGET_IP@)
            == Some(AttrView::Str(c.target_ip@)),
        c.target_uid@.len() > 0 ==> attr_lookup(request_attrs(main_config_attrs(Seq::empty(), c), r), TARGET_UID@)
            == Some(AttrView::Str(c.target_uid@)),
        c.target_service@.len() > 0 ==> attr_lookup(
            request_attrs(main_config_attrs(Seq::empty(), c), r),
            TARGET_SERVICE@,
        ) == Some(AttrView::Str(c.target_service@)),
        r.host@.len() > 0 ==> attr_lookup(request_attrs(main_config_attrs(Seq::empty(), c), r), REQUEST_HOST@)
            == Some(AttrView::Str(r.host@)),
        attr_lookup(request_attrs(main_config_attrs(Seq::empty(), c), r), REQUEST_SIZE@) == Some(
            AttrView::I64(r.request_length),
        ),
        attr_lookup(request_attrs(main_config_attrs(Seq::empty(), c), r), REQUEST_HEADER@) == Some(
            AttrView::StringMap(map_of_pairs(plain_headers(pairs_view(r.headers@)))),
        ),
{
    lemma_target_other_names_distinct();
    let e0 = Seq::<(Seq<char>, AttrView)>::empty();
    lemma_main_config_attrs(e0, c);
    lemma_request_attrs(main_config_attrs(e0, c), r);
    assert(!is_request_name(TARGET_IP@));
    assert(!is_request_name(TARGET_UID@));
    assert(!is_request_name(TARGET_SERVICE@));
}

/// The report handler's attributes hold the target's values of the main
/// configuration, the request's values and the response's values.
pub proof fn lemma_report_attributes_values(c: MainConfig, r: RequestInfo, resp: ResponseInfo)
    ensures
        distinct_names(response_attrs(request_attrs(main_config_attrs(Seq::empty(), c), r), resp)),
        c.target_ip@.len() > 0 ==> attr_lookup(
            response_attrs(request_attrs(main_config_attrs(Seq::empty(), c), r), resp),
            TARGET_IP@,
        ) == Some(AttrView::Str(c.target_ip@)),
        c.target_uid@.len() > 0 ==> attr_lookup(
            response_attrs(request_attrs(main_config_attrs(Seq::empty(), c), r), resp),
            TARGET_UID@,
        ) == Some(AttrView::Str(c.target_uid@)),
        c.target_service@.len() > 0 ==> attr_lookup(
            response_attrs(request_attrs(main_config_attrs(Seq::empty(), c), r), resp),
            TARGET_SERVICE@,
        ) == Some(AttrView::Str(c.target_service@)),
        r.host@.len() > 0 ==> attr_lookup(
            response_attrs(request_attrs(main_config_attrs(Seq::empty(), c), r), resp),
            REQUEST_HOST@,
        ) == Some(AttrView::Str(r.host@)),
        attr_lookup(
            response_attrs(request_attrs(main_config_attrs(Seq::empty(), c), r), resp),
            REQUEST_SIZE@,
        ) == Some(AttrView::I64(r.request_length)),
        attr_lookup(
            response_attrs(request_attrs(main_config_attrs(Seq::empty(), c), r), resp),
            RESPONSE_CODE@,
        ) == Some(AttrView::I64(resp.status as i64)),
        attr_lookup(
            response_attrs(request_attrs(main_config_attrs(Seq::empty(), c), r), resp),
            RESPONSE_HEADERS@,
        ) == Some(AttrView::StringMap(map_of_pairs(pairs_view(resp.headers@)))),
{
    lemma_target_other_names_distinct();
    lemma_request_response_names_distinct();
    lemma_check_attributes_values(c, r);
    lemma_response_attrs(request_attrs(main_config_attrs(Seq::empty(), c), r), resp);
}

/// A report with a server configuration holds the configured destination
/// and source values that request headers do not set, next to the
/// request's values.
pub proof fn lemma_server_report_config_values(c: ServerConfig, r: RequestInfo, resp: ResponseInfo, times: Seq<u64>)
    ensures
        c.destination_ip matches Some(ip) ==> attr_lookup(server_report_attrs(c, r, resp, times), DESTINATION_IP@)
            == Some(AttrView::Ip(ip@)),
        c.destination_service@.len() > 0 ==> attr_lookup(
            server_report_attrs(c, r, resp, times),
            DESTINATION_SERVICE@,
        ) == Some(AttrView::Str(c.destination_service@)),
        c.destination_uid@.len() > 0 ==> attr_lookup(server_report_attrs(c, r, resp, times), DESTINATION_UID@)
            == Some(AttrView::Str(c.destination_uid@)),
        attr_lookup(server_report_attrs(c, r, resp, times), DESTINATION_LABELS@) == Some(
            AttrView::StringMap(map_of_pairs(pairs_view(c.destination_labels@))),
        ),
        c.source_service@.len() > 0 ==> attr_lookup(server_report_attrs(c, r, resp, times), SOURCE_SERVICE@)
            == Some(AttrView::Str(c.source_service@)),
        attr_lookup(server_report_attrs(c, r, resp, times), SOURCE_PORT@) == Some(
            AttrView::I64(c.source_port as i64),
        ),
        attr_lookup(server_report_attrs(c, r, resp, times), SOURCE_LABELS@) == Some(
            AttrView::StringMap(map_of_pairs(pairs_view(c.source_labels@))),
        ),
        r.host@.len() > 0 ==> attr_lookup(server_report_attrs(c, r, resp, times), REQUEST_HOST@) == Some(
            AttrView::Str(r.host@),
        ),
{
    lemma_server_other_names_distinct();
    lemma_request_response_names_distinct();
    reveal_strlit("http");
    let e0 = Seq::<(Seq<char>, AttrView)>::empty();
    lemma_server_config_attrs(e0, c);
    let e1 = request_attrs(server_config_attrs(e0, c), r);
    lemma_request_attrs(server_config_attrs(e0, c), r);
    assert(!is_request_name(DESTINATION_IP@));
    assert(!is_request_name(DESTINATION_SERVICE@));
    assert(!is_request_name(DESTINATION_UID@));
    assert(!is_request_name(DESTINATION_LABELS@));
    assert(!is_request_name(SOURCE_SERVICE@));
    assert(!is_request_name(SOURCE_PORT@));
    assert(!is_request_name(SOURCE_LABELS@));
    let e2 = response_attrs(e1, resp);
    lemma_response_attrs(e1, resp);
    let d = AttrView::I64(times_sum(times) as i64);
    let e3 = attr_insert(e2, RESPONSE_DURATION@, d);
    lemma_attr_insert_keeps(e2, RESPONSE_DURATION@, d);
    lemma_insert_str_keeps(e3, CONTEXT_PROTOCOL@, "http"@);
}

/// The check handler with a server configuration sends the configured
/// destination values next to the request's values.
pub proof fn lemma_server_check_values(c: ServerConfig, r: RequestInfo)
    ensures
        distinct_names(request_attrs(server_config_attrs(Seq::empty(), c), r)),
        c.destination_ip matches Some(ip) ==> attr_lookup(
            request_attrs(server_config_attrs(Seq::empty(), c), r),
            DESTINATION_IP@,
        ) == Some(AttrView::Ip(ip@)),
        c.destination_service@.len() > 0 ==> attr_lookup(
            request_attrs(server_config_attrs(Seq::empty(), c), r),
            DESTINATION_SERVICE@,
        ) == Some(AttrView::Str(c.destination_service@)),
        c.destination_uid@.len() > 0 ==> attr_lookup(
            request_attrs(server_config_attrs(Seq::empty(), c), r),
            DESTINATION_UID@,
        ) == Some(AttrView::Str(c.destination_uid@)),
        attr_lookup(request_attrs(server_config_attrs(Seq::empty(), c), r), SOURCE_PORT@) == Some(
            AttrView::I64(c.source_port as i64),
        ),
        r.host@.len() > 0 ==> attr_lookup(request_attrs(server_config_attrs(Seq::empty(), c), r), REQUEST_HOST@)
            == Some(AttrView::Str(r.host@)),
{
    lemma_server_other_names_distinct();
    let e0 = Seq::<(Seq<char>, AttrView)>::empty();
    lemma_server_config_attrs(e0, c);
    lemma_request_attrs(server_config_attrs(e0, c), r);
    assert(!is_request_name(DESTINATION_IP@));
    assert(!is_request_name(DESTINATION_SERVICE@));
    assert(!is_request_name(DESTINATION_UID@));
    assert(!is_request_name(SOURCE_PORT@));
}

} // verus!
