//! The names of the attributes the nginx module reports, and the request
//! headers that carry Istio source attributes.

use vstd::prelude::*;

verus! {

pub const REQUEST_HEADER: &'static str = "request.headers";
pub const REQUEST_HOST: &'static str = "request.host";
pub const REQUEST_METHOD: &'static str = "request.method";
pub const REQUEST_PATH: &'static str = "request.path";
pub const REQUEST_REFER: &'static str = "request.referer";
pub const REQUEST_SCHEME: &'static str = "request.scheme";
pub const REQUEST_SIZE: &'static str = "request.size";
pub const REQUEST_TIME: &'static str = "request.time";
pub const REQUEST_USERAGENT: &'static str = "request.useragent";
pub const RESPONSE_CODE: &'static str = "response.code";
pub const RESPONSE_DURATION: &'static str = "response.duration";
pub const RESPONSE_SIZE: &'static str = "response.size";
pub const RESPONSE_HEADERS: &'static str = "response.headers";
pub const SOURCE_IP: &'static str = "source.ip";
pub const SOURCE_UID: &'static str = "source.uid";
pub const SOURCE_SERVICE: &'static str = "source.service";
pub const SOURCE_PORT: &'static str = "source.port";
pub const SOURCE_LABELS: &'static str = "source.labels";
pub const TARGET_SERVICE: &'static str = "target.service";
pub const TARGET_IP: &'static str = "target.ip";
pub const TARGET_UID: &'static str = "target.uid";
pub const DESTINATION_SERVICE: &'static str = "destination.service";
pub const DESTINATION_IP: &'static str = "destination.ip";
pub const DESTINATION_UID: &'static str = "destination.uid";
pub const DESTINATION_LABELS: &'static str = "destination.labels";
pub const CONTEXT_PROTOCOL: &'static str = "context.protocol";

/// The request header that carries the source IP address.
pub const SRC_IP_HEADER: &'static str = "X-ISTIO-SRC-IP";
/// The request header that carries the source UID.
pub const SRC_UID_HEADER: &'static str = "X-ISTIO-SRC-UID";

} // verus!
