//! Response translation: one framework response becomes one host response.
//!
//! The body stream is drained chunk by chunk into one owned buffer, the
//! status code is carried over, and every header is set on the host map in
//! the framework map's reported order, so a repeated name keeps its last
//! value. The whole body is buffered in memory: a response whose body has
//! no upstream size bound is not this translator's use case.

use vstd::prelude::*;

use crate::error::Error;
use crate::framework::{Chunk, ChunkView, FrameworkResponse, FrameworkResponseView, chunks_view};
use crate::host::{
    Headers, HostResponse, lookup, lower_seq, pairs_view, spec_set,
};
use crate::request::unique_names;
use crate::validate::{header_name_ok, value_ok, visible_ok};

verus! {

/// The bytes one chunk contributes.
pub open spec fn chunk_data(c: ChunkView) -> Seq<u8> {
    match c {
        ChunkView::Data(d) => d,
        ChunkView::Failure => Seq::empty(),
    }
}

/// Every pull from the stream carries data; none reports a failure.
pub open spec fn chunks_ok(chunks: Seq<ChunkView>) -> bool {
    forall|i: int| 0 <= i < chunks.len() ==> !((#[trigger] chunks[i]) is Failure)
}

/// The bytes of the first `i` chunks, in order.
pub open spec fn concat_upto(chunks: Seq<ChunkView>, i: int) -> Seq<u8>
    decreases i,
{
    if i <= 0 {
        Seq::empty()
    } else {
        concat_upto(chunks, i - 1) + chunk_data(chunks[i - 1])
    }
}

/// The bytes of the whole stream, in order.
pub open spec fn concat_chunks(chunks: Seq<ChunkView>) -> Seq<u8> {
    concat_upto(chunks, chunks.len() as int)
}

/// Every header value has a text form.
pub open spec fn values_visible(hs: Seq<(Seq<u8>, Seq<u8>)>) -> bool {
    forall|i: int| 0 <= i < hs.len() ==> visible_ok((#[trigger] hs[i]).1)
}

/// Which failure, if any, translating a framework response reports: a
/// failed chunk pull first, then a header value without a text form.
pub open spec fn response_error(resp: FrameworkResponseView) -> Option<Error> {
    if !chunks_ok(resp.body) {
        Some(Error::AxumError)
    } else if !values_visible(resp.headers) {
        Some(Error::ToStrError)
    } else {
        None
    }
}

/// The host map after the first `i` framework headers were set on an empty
/// map, in order.
pub open spec fn fold_set_upto(hs: Seq<(Seq<u8>, Seq<u8>)>, i: int) -> Seq<(Seq<u8>, Seq<u8>)>
    decreases i,
{
    if i <= 0 {
        Seq::<(Seq<u8>, Seq<u8>)>::empty()
    } else {
        spec_set(fold_set_upto(hs, i - 1), lower_seq(hs[i - 1].0), hs[i - 1].1)
    }
}

/// The host map after every framework header was set, in order: last write
/// wins for a repeated name.
pub open spec fn fold_set(hs: Seq<(Seq<u8>, Seq<u8>)>) -> Seq<(Seq<u8>, Seq<u8>)> {
    fold_set_upto(hs, hs.len() as int)
}

/// Appends the bytes of `src` to `dst`.
pub fn append_bytes(dst: &mut Vec<u8>, src: &Vec<u8>) -> (r: ())
    ensures
        final(dst)@ == old(dst)@ + src@,
{
    let mut i: usize = 0;
    while i < src.len()
        invariant
            i <= src.len(),
            dst@ == old(dst)@ + src@.take(i as int),
        decreases src.len() - i,
    {
        dst.push(src[i]);
        proof {
            assert(dst@ =~= old(dst)@ + src@.take(i as int + 1));
        }
        i += 1;
    }
    proof {
        assert(old(dst)@ + src@.take(src@.len() as int) =~= old(dst)@ + src@);
    }
}

/// Translates one framework response into one host response.
///
/// The framework map's names are valid header tokens of acceptable length
/// — the framework's own header-name type admits nothing else — and the
/// host map's `set` would reject anything else, which the host treats as a
/// caller's bug, not as a reportable failure. On success the host response carries
/// the same status, exactly the drained body bytes, and the headers as the
/// host map leaves them after setting each pair in order. On failure
/// nothing partial is handed back, and the reported error is the one
/// [`response_error`] assigns to the input.
pub fn to_worker_response(response: FrameworkResponse) -> (r: Result<HostResponse, Error>)
    requires
        forall|i: int| 0 <= i < response@.headers.len() ==> header_name_ok(
            (#[trigger] response@.headers[i]).0,
        ),
    ensures
        match r {
            Ok(hr) => {
                &&& response_error(response@) is None
                &&& hr@.status == response@.status
                &&& hr@.body == concat_chunks(response@.body)
                &&& hr@.headers == fold_set(response@.headers)
            },
            Err(e) => response_error(response@) == Some(e),
        },
{
    let FrameworkResponse { status, headers, body } = response;
    let mut bytes: Vec<u8> = Vec::new();
    let mut i: usize = 0;
    while i < body.len()
        invariant
            i <= body.len(),
            chunks_view(body@) == response@.body,
            pairs_view(headers@) == response@.headers,
            status == response@.status,
            forall|j: int| 0 <= j < i ==> !((#[trigger] chunks_view(body@)[j]) is Failure),
            bytes@ == concat_upto(chunks_view(body@), i as int),
        decreases body.len() - i,
    {
        match &body[i] {
            Chunk::Data(d) => {
                append_bytes(&mut bytes, d);
                proof {
                    assert(chunk_data(chunks_view(body@)[i as int]) == d@);
                }
            },
            Chunk::Failure => {
                proof {
                    assert(chunks_view(body@)[i as int] is Failure);
                    assert(!chunks_ok(response@.body));
                }
                return Err(Error::AxumError);
            },
        }
        i += 1;
    }
    proof {
        assert(chunks_ok(response@.body));
        assert(bytes@ == concat_chunks(response@.body));
    }
    let mut host_headers = Headers::new();
    let mut k: usize = 0;
    while k < headers.len()
        invariant
            k <= headers.len(),
            pairs_view(headers@) == response@.headers,
            status == response@.status,
            chunks_ok(response@.body),
            bytes@ == concat_chunks(response@.body),
            forall|j: int| 0 <= j < response@.headers.len() ==> header_name_ok(
                (#[trigger] response@.headers[j]).0,
            ),
            forall|j: int| 0 <= j < k ==> visible_ok((#[trigger] response@.headers[j]).1),
            host_headers@ == fold_set_upto(response@.headers, k as int),
            host_headers.wf(),
        decreases headers.len() - k,
    {
        if !crate::validate::value_visible(&headers[k].1) {
            proof {
                assert(!visible_ok(response@.headers[k as int].1));
                assert(!values_visible(response@.headers));
            }
            return Err(Error::ToStrError);
        }
        proof {
            assert(header_name_ok(response@.headers[k as int].0));
            assert forall|j: int|
                0 <= j < response@.headers[k as int].1.len() implies crate::validate::is_value_byte(
                #[trigger] response@.headers[k as int].1[j],
            ) by {
                assert(crate::validate::is_visible_byte(response@.headers[k as int].1[j]));
            }
            assert(value_ok(response@.headers[k as int].1));
        }
        let ghost prior = host_headers@;
        match host_headers.set(&headers[k].0, &headers[k].1) {
            Ok(()) => {},
            Err(_) => {
                proof {
                    assert(false);
                }
                return Err(Error::WorkerError);
            },
        }
        proof {
            assert(host_headers@ == spec_set(
                prior,
                lower_seq(response@.headers[k as int].0),
                response@.headers[k as int].1,
            ));
            assert(host_headers@ == fold_set_upto(response@.headers, k as int + 1));
        }
        k += 1;
    }
    let with_body = HostResponse::from_bytes(bytes);
    let with_code = with_body.with_status(status);
    let done = with_code.with_headers(host_headers);
    Ok(done)
}

/// Setting a name stores its value: looking the name up afterwards finds
/// exactly that value.
pub proof fn lemma_set_lookup_same(m: Seq<(Seq<u8>, Seq<u8>)>, n: Seq<u8>, v: Seq<u8>)
    ensures
        lookup(spec_set(m, n, v), n) == Some(v),
    decreases m.len(),
{
    if m.len() > 0 && m[0].0 != n {
        lemma_set_lookup_same(m.drop_first(), n, v);
        assert((seq![m[0]] + spec_set(m.drop_first(), n, v)).drop_first() =~= spec_set(
            m.drop_first(),
            n,
            v,
        ));
    }
}

/// Setting a name leaves every other name's lookup unchanged.
pub proof fn lemma_set_lookup_other(m: Seq<(Seq<u8>, Seq<u8>)>, n: Seq<u8>, v: Seq<u8>, o: Seq<u8>)
    requires
        o != n,
    ensures
        lookup(spec_set(m, n, v), o) == lookup(m, o),
    decreases m.len(),
{
    if m.len() == 0 {
        let s = seq![(n, v)];
        assert(spec_set(m, n, v) == s);
        assert(s.drop_first() =~= Seq::<(Seq<u8>, Seq<u8>)>::empty());
        assert(lookup(s.drop_first(), o) is None);
        assert(lookup(s, o) is None);
        assert(lookup(m, o) is None);
    } else if m[0].0 == n {
        let s = seq![(n, v)] + m.drop_first();
        assert(spec_set(m, n, v) == s);
        assert(s[0] == (n, v));
        assert(s.drop_first() =~= m.drop_first());
        assert(lookup(s, o) == lookup(m.drop_first(), o));
        assert(lookup(m, o) == lookup(m.drop_first(), o));
    } else {
        lemma_set_lookup_other(m.drop_first(), n, v, o);
        let s = seq![m[0]] + spec_set(m.drop_first(), n, v);
        assert(spec_set(m, n, v) == s);
        assert(s[0] == m[0]);
        assert(s.drop_first() =~= spec_set(m.drop_first(), n, v));
        if m[0].0 == o {
            assert(lookup(s, o) == Some(m[0].1));
            assert(lookup(m, o) == Some(m[0].1));
        } else {
            assert(lookup(s, o) == lookup(spec_set(m.drop_first(), n, v), o));
            assert(lookup(m, o) == lookup(m.drop_first(), o));
        }
    }
}

/// After folding the first `k` headers, a name set at position `i < k` and
/// nowhere else among the first `k` still holds its value.
proof fn lemma_fold_set_retrievable_upto(hs: Seq<(Seq<u8>, Seq<u8>)>, i: int, k: int)
    requires
        unique_names(hs),
        0 <= i < k <= hs.len(),
    ensures
        lookup(fold_set_upto(hs, k), lower_seq(hs[i].0)) == Some(hs[i].1),
    decreases k,
{
    if k == i + 1 {
        lemma_set_lookup_same(fold_set_upto(hs, i), lower_seq(hs[i].0), hs[i].1);
    } else {
        lemma_fold_set_retrievable_upto(hs, i, k - 1);
        assert(lower_seq(hs[k - 1].0) != lower_seq(hs[i].0));
        lemma_set_lookup_other(
            fold_set_upto(hs, k - 1),
            lower_seq(hs[k - 1].0),
            hs[k - 1].1,
            lower_seq(hs[i].0),
        );
    }
}

/// Round trip of a response: a framework response whose stream never fails,
/// whose header values all have a text form, and whose names are unique
/// translates without failure; every header stays retrievable under its own
/// name on the host map, and an empty stream leaves a body of length zero.
pub proof fn lemma_response_round_trip(resp: FrameworkResponseView)
    requires
        chunks_ok(resp.body),
        values_visible(resp.headers),
        unique_names(resp.headers),
    ensures
        response_error(resp) is None,
        resp.body.len() == 0 ==> concat_chunks(resp.body).len() == 0,
        forall|i: int|
            0 <= i < resp.headers.len() ==> lookup(
                fold_set(resp.headers),
                lower_seq((#[trigger] resp.headers[i]).0),
            ) == Some(resp.headers[i].1),
{
    assert forall|i: int|
        0 <= i < resp.headers.len() implies lookup(
        fold_set(resp.headers),
        lower_seq((#[trigger] resp.headers[i]).0),
    ) == Some(resp.headers[i].1) by {
        lemma_fold_set_retrievable_upto(resp.headers, i, resp.headers.len() as int);
    }
}

} // verus!
