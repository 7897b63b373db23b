//! What the report handler of the dictionary protocol computes: the
//! attributes of a request, its response and the main configuration, with
//! header names interned in the message's dictionary.

use vstd::prelude::*;
use crate::time::Timestamp;
use crate::attr_wrapper::pairs_view;
use crate::attr_dict::{
    AttributeWrapper, DictAttrsView, intern, key_index, with_string, with_int64, with_timestamp,
    with_string_map, int_map_insert, int_map_insert_spec, int_keys_distinct, strs_view,
    lemma_insert_strs_view, lemma_intern_len, dict_inv, has_name, int_map_get, lemma_with_string_stored,
    string_of, int64_of, timestamp_of, map_of, maps_distinct, lemma_intern_keeps, lemma_with_string_keeps,
    lemma_with_int64_keeps, lemma_with_timestamp_keeps, lemma_with_string_map_keeps, lemma_int_map_insert_get,
};
use crate::ngx::{
    lemma_request_names_distinct, lemma_response_names_distinct, is_request_name,
    lemma_target_other_names_distinct, lemma_request_response_names_distinct,
};
use crate::ngx::{MainConfig, RequestInfo, ResponseInfo, REPORTED_RESPONSE_DURATION};
use crate::attr_names::{
    REQUEST_HEADER, REQUEST_HOST, REQUEST_METHOD, REQUEST_PATH, REQUEST_REFER, REQUEST_SCHEME,
    REQUEST_SIZE, REQUEST_TIME, REQUEST_USERAGENT, RESPONSE_CODE, RESPONSE_DURATION, RESPONSE_SIZE,
    RESPONSE_HEADERS, SOURCE_IP, SOURCE_UID, TARGET_IP, TARGET_UID, SRC_IP_HEADER, SRC_UID_HEADER,
};

verus! {

/// The attributes of the main configuration: target IP and UID, each where
/// it is set.
pub open spec fn dict_config_attrs(v: DictAttrsView, c: MainConfig) -> DictAttrsView {
    let v1 = if c.target_ip@.len() > 0 { with_string(v, TARGET_IP@, c.target_ip@) } else { v };
    if c.target_uid@.len() > 0 { with_string(v1, TARGET_UID@, c.target_uid@) } else { v1 }
}

/// Each non-empty target value of the main configuration is reported: its
/// name is interned, and the strings hold the value under the name's index.
pub proof fn lemma_dict_config_attrs(v: DictAttrsView, c: MainConfig)
    requires
        dict_inv(v),
        v.dict.len() + 2 < i32::MAX,
        int_keys_distinct(v.strings),
    ensures
        dict_inv(dict_config_attrs(v, c)),
        int_keys_distinct(dict_config_attrs(v, c).strings),
        c.target_ip@.len() > 0 ==> {
            &&& has_name(dict_config_attrs(v, c).names, TARGET_IP@)
            &&& int_map_get(
                dict_config_attrs(v, c).strings,
                key_index(dict_config_attrs(v, c), TARGET_IP@),
            ) == Some(c.target_ip@)
        },
        c.target_uid@.len() > 0 ==> {
            &&& has_name(dict_config_attrs(v, c).names, TARGET_UID@)
            &&& int_map_get(
                dict_config_attrs(v, c).strings,
                key_index(dict_config_attrs(v, c), TARGET_UID@),
            ) == Some(c.target_uid@)
        },
{
    reveal_strlit("target.ip");
    reveal_strlit("target.uid");
    assert(TARGET_IP@[7] != TARGET_UID@[7]);
    let v1 = if c.target_ip@.len() > 0 { with_string(v, TARGET_IP@, c.target_ip@) } else { v };
    if c.target_ip@.len() > 0 {
        lemma_with_string_stored(v, TARGET_IP@, c.target_ip@, TARGET_IP@);
        lemma_intern_len(v, TARGET_IP@);
    }
    if c.target_uid@.len() > 0 {
        lemma_with_string_stored(v1, TARGET_UID@, c.target_uid@, TARGET_IP@);
    }
}

/// Adds the target attributes that are set.
pub fn process_istio_attr(main_config: &MainConfig, attr: &mut AttributeWrapper)
    requires
        old(attr).wf(),
        old(attr)@.dict.len() + 2 < i32::MAX,
    ensures
        final(attr).wf(),
        final(attr)@ == dict_config_attrs(old(attr)@, *main_config),
        final(attr)@.dict.len() <= old(attr)@.dict.len() + 2,
{
    proof {
        lemma_intern_len(attr@, TARGET_IP@);
    }
    if !main_config.target_ip.as_str().is_empty() {
        attr.insert_string_attribute(TARGET_IP, main_config.target_ip.as_str());
    }
    proof {
        lemma_intern_len(attr@, TARGET_UID@);
    }
    if !main_config.target_uid.as_str().is_empty() {
        attr.insert_string_attribute(TARGET_UID, main_config.target_uid.as_str());
    }
}

/// One request header's effect: the source IP and UID headers become
/// attributes; any other header's name is interned and its value goes into
/// the header map under the name's index.
pub open spec fn dict_header_step(
    acc: (DictAttrsView, Seq<(i32, Seq<char>)>),
    h: (Seq<char>, Seq<char>),
) -> (DictAttrsView, Seq<(i32, Seq<char>)>) {
    if h.0 == SRC_IP_HEADER@ {
        (with_string(acc.0, SOURCE_IP@, h.1), acc.1)
    } else if h.0 == SRC_UID_HEADER@ {
        (with_string(acc.0, SOURCE_UID@, h.1), acc.1)
    } else {
        (intern(acc.0, h.0), int_map_insert_spec(acc.1, key_index(acc.0, h.0), h.1))
    }
}

/// The effect of the request headers, in order.
pub open spec fn dict_headers_fold(
    v: DictAttrsView,
    hs: Seq<(Seq<char>, Seq<char>)>,
) -> (DictAttrsView, Seq<(i32, Seq<char>)>)
    decreases hs.len(),
{
    if hs.len() == 0 {
        (v, Seq::empty())
    } else {
        dict_header_step(dict_headers_fold(v, hs.drop_last()), hs.last())
    }
}

/// Folding the request headers keeps the invariant, adds at most one
/// dictionary entry per header, keeps every interned name, changes no stored
/// value but the source address and UID, and builds a map with distinct
/// keys.
pub proof fn lemma_dict_headers_fold(v: DictAttrsView, hs: Seq<(Seq<char>, Seq<char>)>)
    requires
        dict_inv(v),
        maps_distinct(v),
        v.dict.len() + hs.len() < i32::MAX,
    ensures
        dict_inv(dict_headers_fold(v, hs).0),
        maps_distinct(dict_headers_fold(v, hs).0),
        int_keys_distinct(dict_headers_fold(v, hs).1),
        dict_headers_fold(v, hs).0.dict.len() <= v.dict.len() + hs.len(),
        forall|o: Seq<char>| has_name(v.names, o) ==> #[trigger] has_name(dict_headers_fold(v, hs).0.names, o),
        forall|o: Seq<char>|
            has_name(v.names, o) && o != SOURCE_IP@ && o != SOURCE_UID@ ==> #[trigger] string_of(
                dict_headers_fold(v, hs).0,
                o,
            ) == string_of(v, o),
        forall|o: Seq<char>| has_name(v.names, o) ==> #[trigger] int64_of(dict_headers_fold(v, hs).0, o) == int64_of(v, o),
        forall|o: Seq<char>|
            has_name(v.names, o) ==> #[trigger] timestamp_of(dict_headers_fold(v, hs).0, o) == timestamp_of(v, o),
        forall|o: Seq<char>| has_name(v.names, o) ==> #[trigger] map_of(dict_headers_fold(v, hs).0, o) == map_of(v, o),
    decreases hs.len(),
{
    if hs.len() > 0 {
        let prev = hs.drop_last();
        lemma_dict_headers_fold(v, prev);
        let acc = dict_headers_fold(v, prev);
        let h = hs.last();
        if h.0 == SRC_IP_HEADER@ {
            lemma_with_string_keeps(acc.0, SOURCE_IP@, h.1);
        } else if h.0 == SRC_UID_HEADER@ {
            lemma_with_string_keeps(acc.0, SOURCE_UID@, h.1);
        } else {
            lemma_intern_keeps(acc.0, h.0);
            lemma_int_map_insert_get(acc.1, key_index(acc.0, h.0), h.1, 0);
        }
    }
}

/// The attributes of a request: host, method, path, referer (if any),
/// scheme "http", size, start time, user agent, the source headers, and the
/// map of the other headers.
pub open spec fn dict_request_attrs(v: DictAttrsView, r: RequestInfo) -> DictAttrsView {
    let v1 = with_string(v, REQUEST_HOST@, r.host@);
    let v2 = with_string(v1, REQUEST_METHOD@, r.method@);
    let v3 = with_string(v2, REQUEST_PATH@, r.uri@);
    let v4 = match r.referer {
        Some(referer) => with_string(v3, REQUEST_REFER@, referer@),
        None => v3,
    };
    let v5 = with_string(v4, REQUEST_SCHEME@, "http"@);
    let v6 = with_int64(v5, REQUEST_SIZE@, r.request_length);
    let v7 = with_timestamp(
        v6,
        REQUEST_TIME@,
        Timestamp { seconds: r.start_sec, nanos: r.start_msec as i32 },
    );
    let v8 = with_string(v7, REQUEST_USERAGENT@, r.user_agent@);
    let folded = dict_headers_fold(v8, pairs_view(r.headers@));
    with_string_map(folded.0, REQUEST_HEADER@, folded.1)
}

/// Every value of a request is reported under its interned name: host,
/// method, path, the referer where there is one, the scheme "http" and the
/// user agent as strings, the size as an integer, the start time as a
/// timestamp, and a map of the other headers.
pub proof fn lemma_dict_request_attrs(v: DictAttrsView, r: RequestInfo)
    requires
        dict_inv(v),
        maps_distinct(v),
        v.dict.len() + r.headers@.len() + 10 < i32::MAX,
    ensures
        dict_inv(dict_request_attrs(v, r)),
        maps_distinct(dict_request_attrs(v, r)),
        string_of(dict_request_attrs(v, r), REQUEST_HOST@) == Some(r.host@),
        string_of(dict_request_attrs(v, r), REQUEST_METHOD@) == Some(r.method@),
        string_of(dict_request_attrs(v, r), REQUEST_PATH@) == Some(r.uri@),
        r.referer matches Some(referer) ==> string_of(dict_request_attrs(v, r), REQUEST_REFER@) == Some(referer@),
        string_of(dict_request_attrs(v, r), REQUEST_SCHEME@) == Some("http"@),
        int64_of(dict_request_attrs(v, r), REQUEST_SIZE@) == Some(r.request_length),
        timestamp_of(dict_request_attrs(v, r), REQUEST_TIME@) == Some(
            Timestamp { seconds: r.start_sec, nanos: r.start_msec as i32 },
        ),
        string_of(dict_request_attrs(v, r), REQUEST_USERAGENT@) == Some(r.user_agent@),
        map_of(dict_request_attrs(v, r), REQUEST_HEADER@) is Some,
        dict_request_attrs(v, r).dict.len() <= v.dict.len() + r.headers@.len() + 9,
        forall|o: Seq<char>| has_name(v.names, o) ==> #[trigger] has_name(dict_request_attrs(v, r).names, o),
        forall|o: Seq<char>|
            has_name(v.names, o) && !is_request_name(o) ==> #[trigger] string_of(dict_request_attrs(v, r), o)
                == string_of(v, o),
        forall|o: Seq<char>|
            has_name(v.names, o) && o != REQUEST_SIZE@ ==> #[trigger] int64_of(dict_request_attrs(v, r), o)
                == int64_of(v, o),
{
    lemma_request_names_distinct();
    let v1 = with_string(v, REQUEST_HOST@, r.host@);
    lemma_with_string_keeps(v, REQUEST_HOST@, r.host@);
    let v2 = with_string(v1, REQUEST_METHOD@, r.method@);
    lemma_with_string_keeps(v1, REQUEST_METHOD@, r.method@);
    let v3 = with_string(v2, REQUEST_PATH@, r.uri@);
    lemma_with_string_keeps(v2, REQUEST_PATH@, r.uri@);
    let v4 = match r.referer {
        Some(referer) => with_string(v3, REQUEST_REFER@, referer@),
        None => v3,
    };
    if let Some(referer) = r.referer {
        lemma_with_string_keeps(v3, REQUEST_REFER@, referer@);
    }
    let v5 = with_string(v4, REQUEST_SCHEME@, "http"@);
    lemma_with_string_keeps(v4, REQUEST_SCHEME@, "http"@);
    let v6 = with_int64(v5, REQUEST_SIZE@, r.request_length);
    lemma_with_int64_keeps(v5, REQUEST_SIZE@, r.request_length);
    let t = Timestamp { seconds: r.start_sec, nanos: r.start_msec as i32 };
    let v7 = with_timestamp(v6, REQUEST_TIME@, t);
    lemma_with_timestamp_keeps(v6, REQUEST_TIME@, t);
    let v8 = with_string(v7, REQUEST_USERAGENT@, r.user_agent@);
    lemma_with_string_keeps(v7, REQUEST_USERAGENT@, r.user_agent@);
    let hs = pairs_view(r.headers@);
    lemma_dict_headers_fold(v8, hs);
    let folded = dict_headers_fold(v8, hs);
    lemma_with_string_map_keeps(folded.0, REQUEST_HEADER@, folded.1);
}

/// Adds the attributes of a request, as `dict_request_attrs` says.
pub fn process_request_attribute(request: &RequestInfo, attr: &mut AttributeWrapper)
    requires
        old(attr).wf(),
        old(attr)@.dict.len() + request.headers@.len() + 10 < i32::MAX,
    ensures
        final(attr).wf(),
        final(attr)@ == dict_request_attrs(old(attr)@, *request),
        final(attr)@.dict.len() <= old(attr)@.dict.len() + request.headers@.len() + 9,
{
    let ghost d0 = attr@.dict.len();
    proof { lemma_intern_len(attr@, REQUEST_HOST@); }
    attr.insert_string_attribute(REQUEST_HOST, request.host.as_str());
    proof { lemma_intern_len(attr@, REQUEST_METHOD@); }
    attr.insert_string_attribute(REQUEST_METHOD, request.method.as_str());
    proof { lemma_intern_len(attr@, REQUEST_PATH@); }
    attr.insert_string_attribute(REQUEST_PATH, request.uri.as_str());
    proof { lemma_intern_len(attr@, REQUEST_REFER@); }
    if let Some(referer) = &request.referer {
        attr.insert_string_attribute(REQUEST_REFER, referer.as_str());
    }
    proof { lemma_intern_len(attr@, REQUEST_SCHEME@); }
    attr.insert_string_attribute(REQUEST_SCHEME, "http");
    proof { lemma_intern_len(attr@, REQUEST_SIZE@); }
    attr.insert_int64_attribute(REQUEST_SIZE, request.request_length);
    let request_time = Timestamp::new(request.start_sec, request.start_msec as i32);
    proof { lemma_intern_len(attr@, REQUEST_TIME@); }
    attr.insert_time_stamp_attribute(REQUEST_TIME, request_time);
    proof { lemma_intern_len(attr@, REQUEST_USERAGENT@); }
    attr.insert_string_attribute(REQUEST_USERAGENT, request.user_agent.as_str());
    let ghost v8 = attr@;
    let ghost hs = pairs_view(request.headers@);
    let ip_header: String = SRC_IP_HEADER.to_owned();
    let uid_header: String = SRC_UID_HEADER.to_owned();
    let mut map: Vec<(i32, String)> = Vec::new();
    let mut i: usize = 0;
    proof {
        assert(hs.take(0) =~= Seq::<(Seq<char>, Seq<char>)>::empty());
        assert(strs_view(map@) =~= Seq::<(i32, Seq<char>)>::empty());
    }
    while i < request.headers.len()
        invariant
            i <= request.headers.len(),
            hs == pairs_view(request.headers@),
            ip_header@ == SRC_IP_HEADER@,
            uid_header@ == SRC_UID_HEADER@,
            attr.wf(),
            (attr@, strs_view(map@)) == dict_headers_fold(v8, hs.take(i as int)),
            int_keys_distinct(map@),
            attr@.dict.len() <= d0 + 8 + i,
            d0 + request.headers@.len() + 10 < i32::MAX,
        decreases request.headers.len() - i,
    {
        proof {
            assert(hs.take(i + 1).drop_last() =~= hs.take(i as int));
            assert(hs.take(i + 1).last() == hs[i as int]);
        }
        let name = &request.headers[i].0;
        let value = &request.headers[i].1;
        if *name == ip_header {
            proof { lemma_intern_len(attr@, SOURCE_IP@); }
            attr.insert_string_attribute(SOURCE_IP, value.as_str());
        } else if *name == uid_header {
            proof { lemma_intern_len(attr@, SOURCE_UID@); }
            attr.insert_string_attribute(SOURCE_UID, value.as_str());
        } else {
            proof { lemma_intern_len(attr@, name@); }
            let index = attr.string_index(name.as_str());
            let v: String = value.clone();
            proof {
                lemma_insert_strs_view(map@, index, v);
            }
            int_map_insert(&mut map, index, v);
        }
        i = i + 1;
    }
    proof {
        assert(hs.take(request.headers.len() as int) =~= hs);
        lemma_intern_len(attr@, REQUEST_HEADER@);
    }
    attr.insert_string_map(REQUEST_HEADER, map);
}

/// One response header's effect: its name is interned and its value goes
/// into the header map under the name's index.
pub open spec fn dict_out_header_step(
    acc: (DictAttrsView, Seq<(i32, Seq<char>)>),
    h: (Seq<char>, Seq<char>),
) -> (DictAttrsView, Seq<(i32, Seq<char>)>) {
    (intern(acc.0, h.0), int_map_insert_spec(acc.1, key_index(acc.0, h.0), h.1))
}

/// The effect of the response headers, in order.
pub open spec fn dict_out_headers_fold(
    v: DictAttrsView,
    hs: Seq<(Seq<char>, Seq<char>)>,
) -> (DictAttrsView, Seq<(i32, Seq<char>)>)
    decreases hs.len(),
{
    if hs.len() == 0 {
        (v, Seq::empty())
    } else {
        dict_out_header_step(dict_out_headers_fold(v, hs.drop_last()), hs.last())
    }
}

/// Folding the response headers keeps the invariant, adds at most one
/// dictionary entry per header, keeps every interned name and every stored
/// value, and builds a map with distinct keys.
pub proof fn lemma_dict_out_headers_fold(v: DictAttrsView, hs: Seq<(Seq<char>, Seq<char>)>)
    requires
        dict_inv(v),
        maps_distinct(v),
        v.dict.len() + hs.len() < i32::MAX,
    ensures
        dict_inv(dict_out_headers_fold(v, hs).0),
        maps_distinct(dict_out_headers_fold(v, hs).0),
        int_keys_distinct(dict_out_headers_fold(v, hs).1),
        dict_out_headers_fold(v, hs).0.dict.len() <= v.dict.len() + hs.len(),
        forall|o: Seq<char>| has_name(v.names, o) ==> #[trigger] has_name(dict_out_headers_fold(v, hs).0.names, o),
        forall|o: Seq<char>| has_name(v.names, o) ==> #[trigger] string_of(dict_out_headers_fold(v, hs).0, o) == string_of(v, o),
        forall|o: Seq<char>| has_name(v.names, o) ==> #[trigger] int64_of(dict_out_headers_fold(v, hs).0, o) == int64_of(v, o),
        forall|o: Seq<char>|
            has_name(v.names, o) ==> #[trigger] timestamp_of(dict_out_headers_fold(v, hs).0, o) == timestamp_of(v, o),
        forall|o: Seq<char>| has_name(v.names, o) ==> #[trigger] map_of(dict_out_headers_fold(v, hs).0, o) == map_of(v, o),
    decreases hs.len(),
{
    if hs.len() > 0 {
        let prev = hs.drop_last();
        lemma_dict_out_headers_fold(v, prev);
        let acc = dict_out_headers_fold(v, prev);
        let h = hs.last();
        lemma_intern_keeps(acc.0, h.0);
        lemma_int_map_insert_get(acc.1, key_index(acc.0, h.0), h.1, 0);
    }
}

/// Every value of a response is reported under its interned name: the
/// status code, the size and the fixed duration as integers, and a map of
/// the response headers.
pub proof fn lemma_dict_response_attrs(v: DictAttrsView, r: ResponseInfo)
    requires
        dict_inv(v),
        maps_distinct(v),
        v.dict.len() + r.headers@.len() + 5 < i32::MAX,
    ensures
        dict_inv(dict_response_attrs(v, r)),
        maps_distinct(dict_response_attrs(v, r)),
        int64_of(dict_response_attrs(v, r), RESPONSE_CODE@) == Some(r.status as i64),
        int64_of(dict_response_attrs(v, r), RESPONSE_SIZE@) == Some(r.content_length),
        int64_of(dict_response_attrs(v, r), RESPONSE_DURATION@) == Some(REPORTED_RESPONSE_DURATION),
        map_of(dict_response_attrs(v, r), RESPONSE_HEADERS@) is Some,
        forall|o: Seq<char>| has_name(v.names, o) ==> #[trigger] string_of(dict_response_attrs(v, r), o) == string_of(v, o),
        forall|o: Seq<char>|
            has_name(v.names, o) && o != RESPONSE_CODE@ && o != RESPONSE_SIZE@ && o != RESPONSE_DURATION@
                ==> #[trigger] int64_of(dict_response_attrs(v, r), o) == int64_of(v, o),
{
    lemma_response_names_distinct();
    let v1 = with_int64(v, RESPONSE_CODE@, r.status as i64);
    lemma_with_int64_keeps(v, RESPONSE_CODE@, r.status as i64);
    let v2 = with_int64(v1, RESPONSE_SIZE@, r.content_length);
    lemma_with_int64_keeps(v1, RESPONSE_SIZE@, r.content_length);
    let v3 = with_int64(v2, RESPONSE_DURATION@, REPORTED_RESPONSE_DURATION);
    lemma_with_int64_keeps(v2, RESPONSE_DURATION@, REPORTED_RESPONSE_DURATION);
    let hs = pairs_view(r.headers@);
    lemma_dict_out_headers_fold(v3, hs);
    let folded = dict_out_headers_fold(v3, hs);
    lemma_with_string_map_keeps(folded.0, RESPONSE_HEADERS@, folded.1);
}

/// The attributes of a response: status code, size, the fixed duration, and
/// the map of its headers.
pub open spec fn dict_response_attrs(v: DictAttrsView, r: ResponseInfo) -> DictAttrsView {
    let v1 = with_int64(v, RESPONSE_CODE@, r.status as i64);
    let v2 = with_int64(v1, RESPONSE_SIZE@, r.content_length);
    let v3 = with_int64(v2, RESPONSE_DURATION@, REPORTED_RESPONSE_DURATION);
    let folded = dict_out_headers_fold(v3, pairs_view(r.headers@));
    with_string_map(folded.0, RESPONSE_HEADERS@, folded.1)
}

/// Adds the attributes of a response, as `dict_response_attrs` says.
pub fn process_response_attribute(response: &ResponseInfo, attr: &mut AttributeWrapper)
    requires
        old(attr).wf(),
        old(attr)@.dict.len() + response.headers@.len() + 5 < i32::MAX,
    ensures
        final(attr).wf(),
        final(attr)@ == dict_response_attrs(old(attr)@, *response),
{
    let ghost d0 = attr@.dict.len();
    proof { lemma_intern_len(attr@, RESPONSE_CODE@); }
    attr.insert_int64_attribute(RESPONSE_CODE, response.status as i64);
    proof { lemma_intern_len(attr@, RESPONSE_SIZE@); }
    attr.insert_int64_attribute(RESPONSE_SIZE, response.content_length);
    proof { lemma_intern_len(attr@, RESPONSE_DURATION@); }
    attr.insert_int64_attribute(RESPONSE_DURATION, REPORTED_RESPONSE_DURATION);
    let ghost v3 = attr@;
    let ghost hs = pairs_view(response.headers@);
    let mut map: Vec<(i32, String)> = Vec::new();
    let mut i: usize = 0;
    proof {
        assert(hs.take(0) =~= Seq::<(Seq<char>, Seq<char>)>::empty());
        assert(strs_view(map@) =~= Seq::<(i32, Seq<char>)>::empty());
    }
    while i < response.headers.len()
        invariant
            i <= response.headers.len(),
            hs == pairs_view(response.headers@),
            attr.wf(),
            (attr@, strs_view(map@)) == dict_out_headers_fold(v3, hs.take(i as int)),
            int_keys_distinct(map@),
            attr@.dict.len() <= d0 + 3 + i,
            d0 + response.headers@.len() + 5 < i32::MAX,
        decreases response.headers.len() - i,
    {
        proof {
            assert(hs.take(i + 1).drop_last() =~= hs.take(i as int));
            assert(hs.take(i + 1).last() == hs[i as int]);
        }
        let name = &response.headers[i].0;
        let value = &response.headers[i].1;
        proof { lemma_intern_len(attr@, name@); }
        let index = attr.string_index(name.as_str());
        let v: String = value.clone();
        proof {
            lemma_insert_strs_view(map@, index, v);
        }
        int_map_insert(&mut map, index, v);
        i = i + 1;
    }
    proof {
        assert(hs.take(response.headers.len() as int) =~= hs);
    }
    attr.insert_string_map(RESPONSE_HEADERS, map);
}

/// The attributes the report handler sends: those of the main
/// configuration, of the request and of the response, in one dictionary.
pub fn report_attributes(main_config: &MainConfig, request: &RequestInfo, response: &ResponseInfo) -> (attr: AttributeWrapper)
    requires
        request.headers@.len() + response.headers@.len() + 20 < i32::MAX,
    ensures
        attr.wf(),
        attr@ == dict_response_attrs(
            dict_request_attrs(
                dict_config_attrs(
                    DictAttrsView {
                        names: Seq::empty(),
                        dict: Seq::empty(),
                        strings: Seq::empty(),
                        int64s: Seq::empty(),
                        timestamps: Seq::empty(),
                        string_maps: Seq::empty(),
                    },
                    *main_config,
                ),
                *request,
            ),
            *response,
        ),
{
    let mut attr = AttributeWrapper::new();
    process_istio_attr(main_config, &mut attr);
    process_request_attribute(request, &mut attr);
    process_response_attribute(response, &mut attr);
    attr
}

/// The attributes the report handler of the dictionary protocol sends
/// hold each non-empty target value of the main configuration, the
/// request's host and size, and the response's status code, each under its
/// interned name.
pub proof fn lemma_dict_report_values(c: MainConfig, r: RequestInfo, resp: ResponseInfo)
    requires
        r.headers@.len() + resp.headers@.len() + 20 < i32::MAX,
    ensures
        ({
            let w = dict_response_attrs(
                dict_request_attrs(
                    dict_config_attrs(
                        DictAttrsView {
                            names: Seq::empty(),
                            dict: Seq::empty(),
                            strings: Seq::empty(),
                            int64s: Seq::empty(),
                            timestamps: Seq::empty(),
                            string_maps: Seq::empty(),
                        },
                        c,
                    ),
                    r,
                ),
                resp,
            );
            &&& c.target_ip@.len() > 0 ==> string_of(w, TARGET_IP@) == Some(c.target_ip@)
            &&& c.target_uid@.len() > 0 ==> string_of(w, TARGET_UID@) == Some(c.target_uid@)
            &&& string_of(w, REQUEST_HOST@) == Some(r.host@)
            &&& int64_of(w, REQUEST_SIZE@) == Some(r.request_length)
            &&& int64_of(w, RESPONSE_CODE@) == Some(resp.status as i64)
        }),
{
    lemma_target_other_names_distinct();
    lemma_request_response_names_distinct();
    let v0 = DictAttrsView {
        names: Seq::empty(),
        dict: Seq::empty(),
        strings: Seq::empty(),
        int64s: Seq::empty(),
        timestamps: Seq::empty(),
        string_maps: Seq::empty(),
    };
    lemma_dict_config_attrs(v0, c);
    let v1 = if c.target_ip@.len() > 0 { with_string(v0, TARGET_IP@, c.target_ip@) } else { v0 };
    if c.target_ip@.len() > 0 {
        lemma_with_string_keeps(v0, TARGET_IP@, c.target_ip@);
    }
    let vc = dict_config_attrs(v0, c);
    if c.target_uid@.len() > 0 {
        lemma_with_string_keeps(v1, TARGET_UID@, c.target_uid@);
    }
    assert(vc.dict.len() <= 2);
    assert(maps_distinct(vc));
    lemma_dict_request_attrs(vc, r);
    let vr = dict_request_attrs(vc, r);
    assert(!is_request_name(TARGET_IP@));
    assert(!is_request_name(TARGET_UID@));
    lemma_dict_response_attrs(vr, resp);
    assert(string_of(vr, REQUEST_HOST@) == Some(r.host@));
    assert(has_name(vr.names, REQUEST_HOST@));
    assert(has_name(vr.names, REQUEST_SIZE@));
}

} // verus!
