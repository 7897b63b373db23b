//! Verified core of the nginx/Istio mixer client: status codes, client
//! options, the check cache and its entries, the attribute dictionaries and
//! the compression of attribute sets into the mixer wire model.

pub mod status;
pub mod options;
pub mod time;
pub mod cache_elem;
pub mod lru_cache;
pub mod global_dict;
pub mod message_dict;
pub mod attr_wrapper;
pub mod compressed;
pub mod compressed_decode;
pub mod referenced;
pub mod check_cache;
pub mod mixer_client_wrapper;
pub mod attr_names;
pub mod string_map;
pub mod ngx;
pub mod attr_dict;
pub mod encode;
pub mod key_order;
pub mod dict_report;
