//! Request translation: one host request becomes one framework request.
//!
//! The method text is parsed into the typed method, the URL text must parse
//! as a URI, the single-use body is drained into an owned buffer, and every
//! header pair the host reports is validated and inserted in iteration
//! order, duplicates preserved.

use vstd::prelude::*;

use crate::error::Error;
use crate::framework::{method_of, lookup_ci, lemma_lookup_ci_prefix_miss, FrameworkRequest};
use crate::host::{copy_bytes, lower_seq, pairs_view, HostRequest, HostRequestView};
use crate::validate::{header_name_ok, token_ok, uri_ok, value_ok};

verus! {

/// Every header pair has an acceptable name and legal bytes for a value.
pub open spec fn headers_ok(hs: Seq<(Seq<u8>, Seq<u8>)>) -> bool {
    forall|i: int| 0 <= i < hs.len() ==> header_name_ok((#[trigger] hs[i]).0) && value_ok(hs[i].1)
}

/// The failure the first offending header pair reports: an invalid name
/// wins over an invalid value of the same pair.
pub open spec fn first_header_error(hs: Seq<(Seq<u8>, Seq<u8>)>) -> Option<Error>
    decreases hs.len(),
{
    if hs.len() == 0 {
        None
    } else if !header_name_ok(hs[0].0) {
        Some(Error::InvalidHeaderName)
    } else if !value_ok(hs[0].1) {
        Some(Error::InvalidHeaderValue)
    } else {
        first_header_error(hs.drop_first())
    }
}

/// The header pairs report no failure exactly when all of them are valid.
pub proof fn lemma_first_header_error_none(hs: Seq<(Seq<u8>, Seq<u8>)>)
    ensures
        (first_header_error(hs) is None) <==> headers_ok(hs),
    decreases hs.len(),
{
    if hs.len() > 0 {
        lemma_first_header_error_none(hs.drop_first());
        if headers_ok(hs) {
            assert forall|j: int|
                0 <= j < hs.drop_first().len() implies header_name_ok(
                (#[trigger] hs.drop_first()[j]).0,
            ) && value_ok(hs.drop_first()[j].1) by {
                assert(hs.drop_first()[j] == hs[j + 1]);
            }
            assert(headers_ok(hs.drop_first()));
        }
        if first_header_error(hs) is None {
            assert forall|i: int|
                0 <= i < hs.len() implies header_name_ok((#[trigger] hs[i]).0) && value_ok(
                hs[i].1,
            ) by {
                if i > 0 {
                    assert(hs.drop_first()[i - 1] == hs[i]);
                }
            }
        }
    }
}

/// When the first `i` header pairs are valid, the reported failure is
/// decided by position `i` onward.
proof fn lemma_first_header_error_prefix(hs: Seq<(Seq<u8>, Seq<u8>)>, i: int)
    requires
        0 <= i <= hs.len(),
        forall|j: int| 0 <= j < i ==> header_name_ok((#[trigger] hs[j]).0) && value_ok(hs[j].1),
    ensures
        i == hs.len() ==> first_header_error(hs) is None,
        i < hs.len() && !header_name_ok(hs[i].0) ==> first_header_error(hs) == Some(
            Error::InvalidHeaderName,
        ),
        i < hs.len() && header_name_ok(hs[i].0) && !value_ok(hs[i].1) ==> first_header_error(hs)
            == Some(Error::InvalidHeaderValue),
    decreases i,
{
    if i > 0 {
        assert(forall|j: int|
            0 <= j < i - 1 ==> header_name_ok((#[trigger] hs.drop_first()[j]).0) && value_ok(
                hs.drop_first()[j].1,
            ));
        lemma_first_header_error_prefix(hs.drop_first(), i - 1);
    }
}

/// Which failure, if any, translating a host request reports. The checks
/// happen in a fixed order: method, then URI, then body, then the headers
/// in iteration order.
pub open spec fn request_error(req: HostRequestView) -> Option<Error> {
    if !token_ok(req.method) {
        Some(Error::InvalidMethod)
    } else if !uri_ok(req.url) {
        Some(Error::InvalidUri)
    } else if req.body is None {
        Some(Error::WorkerError)
    } else {
        first_header_error(req.headers)
    }
}

/// Translates one host request into one framework request.
///
/// On success the framework request carries the parsed method, the same URI
/// text, the same header pairs in the same order, and exactly the body
/// bytes the host held. On failure nothing partial is handed back, and the
/// reported error is the one [`request_error`] assigns to the input.
pub fn to_axum_request(worker_request: HostRequest) -> (r: Result<FrameworkRequest, Error>)
    ensures
        match r {
            Ok(fr) => {
                &&& request_error(worker_request@) is None
                &&& fr@.method == method_of(worker_request@.method)
                &&& fr@.uri == worker_request@.url
                &&& fr@.headers == worker_request@.headers
                &&& worker_request@.body == Some(fr@.body)
            },
            Err(e) => request_error(worker_request@) == Some(e),
        },
{
    let mut req = worker_request;
    let method = match crate::framework::parse_method(req.method()) {
        Ok(m) => m,
        Err(e) => {
            return Err(e);
        },
    };
    if !crate::validate::uri_valid(req.url().as_str()) {
        return Err(Error::InvalidUri);
    }
    let body = match req.bytes() {
        Ok(b) => b,
        Err(e) => {
            return Err(e);
        },
    };
    let HostRequest { method: _, url, headers, body: _ } = req;
    let mut out: Vec<(Vec<u8>, Vec<u8>)> = Vec::new();
    let mut i: usize = 0;
    while i < headers.len()
        invariant
            i <= headers.len(),
            pairs_view(headers@) == worker_request@.headers,
            token_ok(worker_request@.method),
            uri_ok(worker_request@.url),
            worker_request@.body is Some,
            forall|j: int|
                0 <= j < i ==> header_name_ok((#[trigger] pairs_view(headers@)[j]).0) && value_ok(
                    pairs_view(headers@)[j].1,
                ),
            pairs_view(out@) == pairs_view(headers@).take(i as int),
        decreases headers.len() - i,
    {
        if !crate::validate::header_name_valid(&headers[i].0) {
            proof {
                lemma_first_header_error_prefix(pairs_view(headers@), i as int);
            }
            return Err(Error::InvalidHeaderName);
        }
        if !crate::validate::header_value_valid(&headers[i].1) {
            proof {
                lemma_first_header_error_prefix(pairs_view(headers@), i as int);
            }
            return Err(Error::InvalidHeaderValue);
        }
        let name = copy_bytes(&headers[i].0);
        let value = copy_bytes(&headers[i].1);
        let ghost prev_raw = out@;
        let ghost prev = pairs_view(out@);
        out.push((name, value));
        proof {
            assert(out@ == prev_raw.push((name, value)));
            assert(prev.len() == i as int);
            assert forall|j: int|
                0 <= j < out@.len() implies pairs_view(out@)[j] == pairs_view(headers@).take(
                i as int + 1,
            )[j] by {
                assert(pairs_view(out@)[j] == (out@[j].0@, out@[j].1@));
                assert(pairs_view(headers@).take(i as int + 1)[j] == pairs_view(headers@)[j]);
                assert(pairs_view(headers@)[j] == (headers@[j].0@, headers@[j].1@));
                if j < i as int {
                    assert(out@[j] == prev_raw[j]);
                    assert(prev[j] == (prev_raw[j].0@, prev_raw[j].1@));
                    assert(prev[j] == pairs_view(headers@).take(i as int)[j]);
                    assert(pairs_view(headers@).take(i as int)[j] == pairs_view(headers@)[j]);
                } else {
                    assert(out@[j] == (name, value));
                    assert(name@ == headers@[j].0@);
                    assert(value@ == headers@[j].1@);
                }
            }
            assert(pairs_view(out@) =~= pairs_view(headers@).take(i as int + 1));
        }
        i += 1;
    }
    proof {
        lemma_first_header_error_prefix(pairs_view(headers@), headers@.len() as int);
        assert(pairs_view(headers@).take(headers@.len() as int) =~= pairs_view(headers@));
    }
    Ok(FrameworkRequest { method, uri: url, headers: out, body })
}

/// Unique header names, compared ASCII-case-insensitively.
pub open spec fn unique_names(hs: Seq<(Seq<u8>, Seq<u8>)>) -> bool {
    forall|i: int, j: int|
        0 <= i < j < hs.len() ==> lower_seq((#[trigger] hs[i]).0) != lower_seq(
            (#[trigger] hs[j]).0,
        )
}

/// With unique names, every header pair is retrievable under its own name.
pub proof fn lemma_headers_retrievable(hs: Seq<(Seq<u8>, Seq<u8>)>, i: int)
    requires
        unique_names(hs),
        0 <= i < hs.len(),
    ensures
        lookup_ci(hs, hs[i].0) == Some(hs[i].1),
{
    lemma_lookup_ci_prefix_miss(hs, hs[i].0, i);
}

/// Round trip of a request: a host request whose method is a token, whose
/// URL parses as a URI, whose body is still unread, and whose header set is
/// valid with unique names, translates without failure; its translation
/// carries the parsed method, the same URI text, the same body bytes, and
/// every reported header pair remains retrievable under its own name.
pub proof fn lemma_request_round_trip(req: HostRequestView)
    requires
        token_ok(req.method),
        uri_ok(req.url),
        req.body is Some,
        headers_ok(req.headers),
        unique_names(req.headers),
    ensures
        request_error(req) is None,
        forall|i: int|
            0 <= i < req.headers.len() ==> lookup_ci(req.headers, (#[trigger] req.headers[i]).0)
                == Some(req.headers[i].1),
{
    lemma_first_header_error_none(req.headers);
    assert forall|i: int|
        0 <= i < req.headers.len() implies lookup_ci(req.headers, (#[trigger] req.headers[i]).0)
        == Some(req.headers[i].1) by {
        lemma_headers_retrievable(req.headers, i);
    }
}

} // verus!
