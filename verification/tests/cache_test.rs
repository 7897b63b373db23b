use ngx_mixer::cache_elem::CacheElem;
use ngx_mixer::lru_cache::LRUCache;
use ngx_mixer::status::{Status, StatusCodeEnum};
use ngx_mixer::time::{from_clock_reading, Timestamp};
use ngx_mixer::check_cache::{on_response, CheckCache, CheckResponse, CheckResult};
use ngx_mixer::attr_wrapper::AttributeWrapper;

#[test]
fn test_is_expired() {
    let elem = CacheElem::new();
    assert!(!elem.is_expired(Timestamp::now()), "should not expired");

    let elem = CacheElem::with_status_expired(Status::new(), Timestamp::now().plus_seconds(1000));
    assert!(!elem.is_expired(Timestamp::now()), "should not expired");
}

#[test]
fn cache_elem_expires_at_its_time() {
    let expire = Timestamp::new(100, 500);
    let elem = CacheElem::with_status_expired(Status::with_code(StatusCodeEnum::ABORTED), expire);
    assert!(!elem.is_expired(Timestamp::new(100, 499)));
    assert!(elem.is_expired(Timestamp::new(100, 500)));
    assert!(elem.is_expired(Timestamp::new(101, 0)));
    assert!(!elem.is_expired(Timestamp::new(99, 999_999_999)));
    assert_eq!(elem.get_status().get_error_code(), StatusCodeEnum::ABORTED);
    let fresh = CacheElem::new_at(Timestamp::new(10, 0));
    assert_eq!(fresh.expire_time, Timestamp::new(76810, 0));
    assert_eq!(fresh.use_count, 0);
    let late = CacheElem::new_at(Timestamp::new(i64::MAX - 5, 3));
    assert_eq!(late.expire_time, Timestamp::new(i64::MAX, 3));
}

#[test]
fn timestamp_from_clock_readings() {
    assert_eq!(from_clock_reading(true, 5, 7), Timestamp::new(5, 7));
    assert_eq!(from_clock_reading(false, 5, 0), Timestamp::new(-5, 0));
    assert_eq!(from_clock_reading(false, 5, 250_000_000), Timestamp::new(-6, 750_000_000));
    assert_eq!(from_clock_reading(true, u64::MAX, 1), Timestamp::new(i64::MAX, 1));
}

#[test]
fn lru_cache_get_and_remove() {
    let mut cache = LRUCache::new();
    assert!(cache.get(7).is_none());
    cache.remove(7);
    assert!(cache.get(7).is_none());
}

fn test_response1(_cache: &CheckCache, _status: Status, _attributes: &AttributeWrapper, _response: &CheckResponse) -> Status {
    Status::new()
}

fn test_response2(_cache: &CheckCache, status: Status, _attributes: &AttributeWrapper, _response: &CheckResponse) -> Status {
    status
}

#[test]
fn test_check_result_cache_hit() {
    let cache_result = CheckResult::new(test_response1);
    assert_eq!(cache_result.is_cache_hit(), true);
}

#[test]
fn test_cache_result_hit() {
    let cache_result = CheckResult::new(test_response1);
    assert_eq!(cache_result.is_cache_hit(), true);
}

#[test]
fn test_check_result_set_response() {
    let mut check_result = CheckResult::new(test_response2);
    check_result.set_response(
        &CheckCache::new(),
        Status::with_code(StatusCodeEnum::CANCELLED),
        &AttributeWrapper::new(),
        &CheckResponse::new(),
    );
    assert_eq!(check_result.get_status().get_error_code(), StatusCodeEnum::CANCELLED, "status should be cancelled");
}

#[test]
fn check_result_not_hit_when_unavailable() {
    let mut r = CheckResult::new(test_response1);
    r.set_status(Status::with_code(StatusCodeEnum::UNAVAILABLE));
    assert!(!r.is_cache_hit());
}

#[test]
fn on_response_fails_open() {
    let cache = CheckCache::new();
    let attrs = AttributeWrapper::new();
    let r = on_response(&cache, Status::with_code(StatusCodeEnum::CANCELLED), &attrs, &CheckResponse::new());
    assert_eq!(r.get_error_code(), StatusCodeEnum::OK);
    let r = on_response(&cache, Status::new(), &attrs, &CheckResponse::new());
    assert_eq!(r.get_error_code(), StatusCodeEnum::OK);
    let mut result = CheckResult::new(on_response);
    result.set_response(&cache, Status::with_code(StatusCodeEnum::INTERNAL), &attrs, &CheckResponse::new());
    assert_eq!(result.get_status().get_error_code(), StatusCodeEnum::OK);
}

#[test]
fn empty_check_cache_finds_nothing() {
    let mut cache = CheckCache::new();
    let mut attrs = AttributeWrapper::new();
    attrs.insert_string_attribute("source.ip", "10.0.0.1");
    let status = cache.check_attribute_time(&attrs, Timestamp::new(0, 0));
    assert_eq!(status.get_error_code(), StatusCodeEnum::NOT_FOUND);
    let result = cache.check(&attrs, test_response1);
    assert!(result.get_status().ok());
    assert!(result.is_cache_hit());
}
