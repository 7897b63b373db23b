//! The mixer client: options, and the preparation of check requests.

use vstd::prelude::*;
use crate::status::{Status, StatusCodeEnum};
use crate::options::{CheckOptions, ReportOptions, QuotaOptions};
use crate::global_dict::{GlobalDictionary, global_words};
use crate::message_dict::{MessageDictionary, DictView, dict_learn_all};
use crate::attr_wrapper::AttributeWrapper;
use crate::compressed::{CompressedAttributes, lookup_words, compress};
use crate::check_cache::{CheckCache, CheckResponse};

verus! {

/// The options of the mixer client.
pub struct MixerClientOptions {
    pub check_options: CheckOptions,
    pub report_options: ReportOptions,
    pub quota_options: QuotaOptions,
}

impl MixerClientOptions {
    /// The default check, report and quota options.
    pub fn new() -> (o: MixerClientOptions)
        ensures
            o.check_options.num_entries == 10000,
            o.check_options.network_fail_open,
            o.report_options.max_batch_entries == 1000,
            o.report_options.max_batch_time_ms == 1000,
            o.quota_options.num_entries == 10000,
            o.quota_options.expiration_ms == 600000,
    {
        MixerClientOptions {
            check_options: CheckOptions::new(),
            report_options: ReportOptions::new(),
            quota_options: QuotaOptions::new(),
        }
    }
}

/// A check request: the compressed attributes and the number of global
/// words the client used.
pub struct CheckRequest {
    pub attributes: CompressedAttributes,
    pub global_word_count: u32,
}

/// The dictionary a check request starts from: the global words and no
/// per-message words.
pub open spec fn initial_dict() -> DictView {
    (global_words(), Seq::empty())
}

/// The dictionary after compressing an attribute set for a check request.
pub open spec fn request_dict(es: crate::attr_wrapper::AttrsView) -> DictView {
    dict_learn_all(initial_dict(), lookup_words(es))
}

/// Builds the check request for an attribute set: its compression over a
/// fresh per-message dictionary on the global dictionary.
pub fn build_check_request(attributes: &AttributeWrapper) -> (r: CheckRequest)
    requires
        lookup_words(attributes@).len() + 1 < i32::MAX,
    ensures
        r.attributes.body() == compress(attributes@, request_dict(attributes@)),
        r.attributes.words_spec() == request_dict(attributes@).1,
        r.global_word_count == global_words().len(),
{
    let mut message_dict = MessageDictionary::new(GlobalDictionary::new());
    let attrs = attributes.as_attributes(&mut message_dict);
    let count = message_dict.global_dict_size();
    proof {
        crate::message_dict::lemma_learn_all_extends(initial_dict(), lookup_words(attributes@));
        assert(global_words().len() == 31);
    }
    CheckRequest { attributes: attrs, global_word_count: count as u32 }
}

/// The mixer client: its options and its check cache.
pub struct MixerClientWrapper {
    pub options: MixerClientOptions,
    pub check_cache: CheckCache,
}

impl MixerClientWrapper {
    /// A client with the default options and an empty check cache.
    pub fn new() -> (c: MixerClientWrapper)
        ensures
            c.options.check_options.num_entries == 10000,
            c.options.check_options.network_fail_open,
            c.options.report_options.max_batch_entries == 1000,
            c.options.report_options.max_batch_time_ms == 1000,
            c.options.quota_options.num_entries == 10000,
            c.options.quota_options.expiration_ms == 600000,
            c.check_cache.entries() == Map::<u64, crate::cache_elem::CacheElem>::empty(),
            c.check_cache.references() == Seq::<crate::check_cache::ReferencedView>::empty(),
            c.check_cache.fail_open(),
            c.check_cache.max_entries() == 10000,
    {
        MixerClientWrapper { options: MixerClientOptions::new(), check_cache: CheckCache::new() }
    }

    /// Prepares a check of the attributes: the request to send to the mixer
    /// server, built over a fresh per-message dictionary on the global
    /// dictionary. The check cache is neither consulted nor changed.
    pub fn check(&self, attributes: &AttributeWrapper) -> (r: CheckRequest)
        requires
            lookup_words(attributes@).len() + 1 < i32::MAX,
        ensures
            r.attributes.body() == compress(attributes@, request_dict(attributes@)),
            r.attributes.words_spec() == request_dict(attributes@).1,
            r.global_word_count == global_words().len(),
    {
        build_check_request(attributes)
    }
}

/// The outcome of a check call to the mixer server: no reply fails with
/// `CANCELLED`; a reply whose precondition status is `PERMISSION_DENIED`
/// fails with that code; any other reply succeeds. A reply code whose low
/// byte names no status counts as not denied.
pub fn check_outcome(reply: Option<CheckResponse>) -> (r: Result<CheckResponse, Status>)
    ensures
        match reply {
            None => r == Err::<CheckResponse, Status>(Status::with_code_spec(StatusCodeEnum::CANCELLED)),
            Some(resp) => if (resp.status_code as u8) == 7 {
                r == Err::<CheckResponse, Status>(Status::with_code_spec(StatusCodeEnum::PERMISSION_DENIED))
            } else {
                r == Ok::<CheckResponse, Status>(resp)
            },
        },
{
    match reply {
        None => Err(Status::with_code(StatusCodeEnum::CANCELLED)),
        Some(resp) => {
            if crate::status::is_valid_raw_code(resp.status_code) {
                let status = crate::status::from_int(resp.status_code);
                proof {
                    crate::status::lemma_code_value_injective(status, StatusCodeEnum::PERMISSION_DENIED);
                }
                if status == StatusCodeEnum::PERMISSION_DENIED {
                    return Err(Status::with_code(StatusCodeEnum::PERMISSION_DENIED));
                }
            }
            Ok(resp)
        },
    }
}

/// Whether a checked request may proceed: it does unless the check failed
/// with `PERMISSION_DENIED`.
pub fn check_allowed(result: &Result<CheckResponse, Status>) -> (allowed: bool)
    ensures
        allowed == match result {
            Ok(_) => true,
            Err(e) => e.error_code != StatusCodeEnum::PERMISSION_DENIED,
        },
{
    match result {
        Ok(_) => true,
        Err(error) => error.get_error_code() != StatusCodeEnum::PERMISSION_DENIED,
    }
}

/// The nginx status of the check handler: `NGX_OK` (0) where the request
/// may proceed, `NGX_HTTP_UNAUTHORIZED` (401) where it is denied.
pub fn check_handler_status(allowed: bool) -> (r: isize)
    ensures
        r == if allowed { 0isize } else { 401isize },
{
    if allowed {
        0
    } else {
        401
    }
}

} // verus!
