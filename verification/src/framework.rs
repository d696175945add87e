//! The framework's side of the translation: a typed method, a parsed URI
//! held as text, a header map with possibly repeated case-insensitive names,
//! and bodies that arrive as a stream of chunks.

use vstd::prelude::*;

use crate::error::Error;
use crate::host::{lower_seq, lower_bytes, bytes_eq, copy_bytes, pairs_view};
use crate::validate::token_ok;

verus! {

/// The framework's method, one variant per registered token plus an
/// extension for any other valid token.
#[derive(Debug)]
pub enum Method {
    Get,
    Head,
    Post,
    Put,
    Delete,
    Connect,
    Options,
    Trace,
    Patch,
    Query,
    Extension(Vec<u8>),
}

/// The mathematical value of a [`Method`].
pub enum MethodView {
    Get,
    Head,
    Post,
    Put,
    Delete,
    Connect,
    Options,
    Trace,
    Patch,
    Query,
    Extension(Seq<u8>),
}

impl View for Method {
    type V = MethodView;

    open spec fn view(&self) -> MethodView {
        match self {
            Method::Get => MethodView::Get,
            Method::Head => MethodView::Head,
            Method::Post => MethodView::Post,
            Method::Put => MethodView::Put,
            Method::Delete => MethodView::Delete,
            Method::Connect => MethodView::Connect,
            Method::Options => MethodView::Options,
            Method::Trace => MethodView::Trace,
            Method::Patch => MethodView::Patch,
            Method::Query => MethodView::Query,
            Method::Extension(m) => MethodView::Extension(m@),
        }
    }
}

/// The method a valid token denotes: the registered variant whose name it
/// spells, else the token itself as an extension.
pub open spec fn method_of(m: Seq<u8>) -> MethodView {
    if m == seq![71u8, 69u8, 84u8] {  // GET
        MethodView::Get
    } else if m == seq![72u8, 69u8, 65u8, 68u8] {  // HEAD
        MethodView::Head
    } else if m == seq![80u8, 79u8, 83u8, 84u8] {  // POST
        MethodView::Post
    } else if m == seq![80u8, 85u8, 84u8] {  // PUT
        MethodView::Put
    } else if m == seq![68u8, 69u8, 76u8, 69u8, 84u8, 69u8] {  // DELETE
        MethodView::Delete
    } else if m == seq![67u8, 79u8, 78u8, 78u8, 69u8, 67u8, 84u8] {  // CONNECT
        MethodView::Connect
    } else if m == seq![79u8, 80u8, 84u8, 73u8, 79u8, 78u8, 83u8] {  // OPTIONS
        MethodView::Options
    } else if m == seq![84u8, 82u8, 65u8, 67u8, 69u8] {  // TRACE
        MethodView::Trace
    } else if m == seq![80u8, 65u8, 84u8, 67u8, 72u8] {  // PATCH
        MethodView::Patch
    } else if m == seq![81u8, 85u8, 69u8, 82u8, 89u8] {  // QUERY
        MethodView::Query
    } else {
        MethodView::Extension(m)
    }
}

/// Whether `m` spells the three bytes `a b c`.
fn eq3(m: &Vec<u8>, a: u8, b: u8, c: u8) -> (r: bool)
    ensures
        r == (m@ == seq![a, b, c]),
{
    let r = m.len() == 3 && m[0] == a && m[1] == b && m[2] == c;
    proof {
        if r {
            assert(m@ =~= seq![a, b, c]);
        } else {
            assert(m@ != seq![a, b, c]);
        }
    }
    r
}

/// Whether `m` spells the four bytes `a b c d`.
fn eq4(m: &Vec<u8>, a: u8, b: u8, c: u8, d: u8) -> (r: bool)
    ensures
        r == (m@ == seq![a, b, c, d]),
{
    let r = m.len() == 4 && m[0] == a && m[1] == b && m[2] == c && m[3] == d;
    proof {
        if r {
            assert(m@ =~= seq![a, b, c, d]);
        } else {
            assert(m@ != seq![a, b, c, d]);
        }
    }
    r
}

/// Whether `m` spells the five bytes `a b c d e`.
fn eq5(m: &Vec<u8>, a: u8, b: u8, c: u8, d: u8, e: u8) -> (r: bool)
    ensures
        r == (m@ == seq![a, b, c, d, e]),
{
    let r = m.len() == 5 && m[0] == a && m[1] == b && m[2] == c && m[3] == d && m[4] == e;
    proof {
        if r {
            assert(m@ =~= seq![a, b, c, d, e]);
        } else {
            assert(m@ != seq![a, b, c, d, e]);
        }
    }
    r
}

/// Whether `m` spells the six bytes `a b c d e f`.
fn eq6(m: &Vec<u8>, a: u8, b: u8, c: u8, d: u8, e: u8, f: u8) -> (r: bool)
    ensures
        r == (m@ == seq![a, b, c, d, e, f]),
{
    let r = m.len() == 6 && m[0] == a && m[1] == b && m[2] == c && m[3] == d && m[4] == e && m[5]
        == f;
    proof {
        if r {
            assert(m@ =~= seq![a, b, c, d, e, f]);
        } else {
            assert(m@ != seq![a, b, c, d, e, f]);
        }
    }
    r
}

/// Whether `m` spells the seven bytes `a b c d e f g`.
fn eq7(m: &Vec<u8>, a: u8, b: u8, c: u8, d: u8, e: u8, f: u8, g: u8) -> (r: bool)
    ensures
        r == (m@ == seq![a, b, c, d, e, f, g]),
{
    let r = m.len() == 7 && m[0] == a && m[1] == b && m[2] == c && m[3] == d && m[4] == e && m[5]
        == f && m[6] == g;
    proof {
        if r {
            assert(m@ =~= seq![a, b, c, d, e, f, g]);
        } else {
            assert(m@ != seq![a, b, c, d, e, f, g]);
        }
    }
    r
}

/// Parses method text into the framework's typed method. Exactly the valid
/// HTTP tokens are accepted; unrecognized tokens become extensions.
pub fn parse_method(m: &Vec<u8>) -> (r: Result<Method, Error>)
    ensures
        match r {
            Ok(mm) => token_ok(m@) && mm@ == method_of(m@),
            Err(e) => !token_ok(m@) && e == Error::InvalidMethod,
        },
{
    if !crate::validate::method_token_valid(m) {
        return Err(Error::InvalidMethod);
    }
    if eq3(m, 71, 69, 84) {
        Ok(Method::Get)
    } else if eq4(m, 72, 69, 65, 68) {
        Ok(Method::Head)
    } else if eq4(m, 80, 79, 83, 84) {
        Ok(Method::Post)
    } else if eq3(m, 80, 85, 84) {
        Ok(Method::Put)
    } else if eq6(m, 68, 69, 76, 69, 84, 69) {
        Ok(Method::Delete)
    } else if eq7(m, 67, 79, 78, 78, 69, 67, 84) {
        Ok(Method::Connect)
    } else if eq7(m, 79, 80, 84, 73, 79, 78, 83) {
        Ok(Method::Options)
    } else if eq5(m, 84, 82, 65, 67, 69) {
        Ok(Method::Trace)
    } else if eq5(m, 80, 65, 84, 67, 72) {
        Ok(Method::Patch)
    } else if eq5(m, 81, 85, 69, 82, 89) {
        Ok(Method::Query)
    } else {
        Ok(Method::Extension(copy_bytes(m)))
    }
}

/// The first value stored under a name, names compared
/// ASCII-case-insensitively.
pub open spec fn lookup_ci(entries: Seq<(Seq<u8>, Seq<u8>)>, name: Seq<u8>) -> Option<Seq<u8>>
    decreases entries.len(),
{
    if entries.len() == 0 {
        None
    } else if lower_seq(entries[0].0) == lower_seq(name) {
        Some(entries[0].1)
    } else {
        lookup_ci(entries.drop_first(), name)
    }
}

/// When the first `i` entries miss `name`, `lookup_ci` is decided by
/// position `i` onward.
pub proof fn lemma_lookup_ci_prefix_miss(entries: Seq<(Seq<u8>, Seq<u8>)>, name: Seq<u8>, i: int)
    requires
        0 <= i <= entries.len(),
        forall|j: int| 0 <= j < i ==> lower_seq((#[trigger] entries[j]).0) != lower_seq(name),
    ensures
        i < entries.len() && lower_seq(entries[i].0) == lower_seq(name) ==> lookup_ci(
            entries,
            name,
        ) == Some(entries[i].1),
        i == entries.len() ==> lookup_ci(entries, name) is None,
    decreases i,
{
    if i > 0 {
        assert(forall|j: int|
            0 <= j < i - 1 ==> lower_seq((#[trigger] entries.drop_first()[j]).0) != lower_seq(
                name,
            ));
        lemma_lookup_ci_prefix_miss(entries.drop_first(), name, i - 1);
    }
}

/// The framework's request value: typed method, URI, headers in insertion
/// order with duplicates preserved, and a fully buffered body.
#[derive(Debug)]
pub struct FrameworkRequest {
    pub method: Method,
    pub uri: String,
    pub headers: Vec<(Vec<u8>, Vec<u8>)>,
    pub body: Vec<u8>,
}

/// The mathematical value of a [`FrameworkRequest`].
pub struct FrameworkRequestView {
    pub method: MethodView,
    pub uri: Seq<char>,
    pub headers: Seq<(Seq<u8>, Seq<u8>)>,
    pub body: Seq<u8>,
}

impl View for FrameworkRequest {
    type V = FrameworkRequestView;

    open spec fn view(&self) -> FrameworkRequestView {
        FrameworkRequestView {
            method: self.method@,
            uri: self.uri@,
            headers: pairs_view(self.headers@),
            body: self.body@,
        }
    }
}

impl FrameworkRequest {
    /// The typed method.
    pub fn method(&self) -> (r: &Method)
        ensures
            r@ == self@.method,
    {
        &self.method
    }

    /// The URI, as text.
    pub fn uri(&self) -> (r: &String)
        ensures
            r@ == self@.uri,
    {
        &self.uri
    }

    /// The header pairs, in insertion order.
    pub fn headers(&self) -> (r: &Vec<(Vec<u8>, Vec<u8>)>)
        ensures
            pairs_view(r@) == self@.headers,
    {
        &self.headers
    }

    /// The first value held under `name`, compared ASCII-case-insensitively.
    pub fn get_header(&self, name: &Vec<u8>) -> (r: Option<&Vec<u8>>)
        ensures
            match r {
                Some(v) => lookup_ci(self@.headers, name@) == Some(v@),
                None => lookup_ci(self@.headers, name@) is None,
            },
    {
        let lowered = lower_bytes(name);
        let mut i: usize = 0;
        while i < self.headers.len()
            invariant
                i <= self.headers.len(),
                lowered@ == lower_seq(name@),
                forall|j: int| 0 <= j < i ==> lower_seq(
                    (#[trigger] pairs_view(self.headers@)[j]).0,
                ) != lowered@,
            decreases self.headers.len() - i,
        {
            let entry_name = lower_bytes(&self.headers[i].0);
            if bytes_eq(&entry_name, &lowered) {
                proof {
                    lemma_lookup_ci_prefix_miss(self@.headers, name@, i as int);
                }
                return Some(&self.headers[i].1);
            }
            i += 1;
        }
        proof {
            lemma_lookup_ci_prefix_miss(self@.headers, name@, self@.headers.len() as int);
        }
        None
    }

    /// The buffered body bytes.
    pub fn body(&self) -> (r: &Vec<u8>)
        ensures
            r@ == self@.body,
    {
        &self.body
    }

    /// Consumes the request, handing out its body buffer.
    pub fn into_body(self) -> (r: Vec<u8>)
        ensures
            r@ == self@.body,
    {
        self.body
    }
}

/// One pull from the framework's body stream: a chunk of bytes, or the
/// stream's failure.
#[derive(Debug)]
pub enum Chunk {
    Data(Vec<u8>),
    Failure,
}

/// The mathematical value of a [`Chunk`].
pub enum ChunkView {
    Data(Seq<u8>),
    Failure,
}

impl View for Chunk {
    type V = ChunkView;

    open spec fn view(&self) -> ChunkView {
        match self {
            Chunk::Data(d) => ChunkView::Data(d@),
            Chunk::Failure => ChunkView::Failure,
        }
    }
}

/// The mathematical value of a body stream.
pub open spec fn chunks_view(body: Seq<Chunk>) -> Seq<ChunkView> {
    body.map_values(|c: Chunk| c@)
}

/// The framework's response value: a status code in the allowed range, a
/// header map, and a body that is pulled chunk by chunk until it ends.
#[derive(Debug)]
pub struct FrameworkResponse {
    pub status: u16,
    pub headers: Vec<(Vec<u8>, Vec<u8>)>,
    pub body: Vec<Chunk>,
}

/// The mathematical value of a [`FrameworkResponse`].
pub struct FrameworkResponseView {
    pub status: u16,
    pub headers: Seq<(Seq<u8>, Seq<u8>)>,
    pub body: Seq<ChunkView>,
}

impl View for FrameworkResponse {
    type V = FrameworkResponseView;

    open spec fn view(&self) -> FrameworkResponseView {
        FrameworkResponseView {
            status: self.status,
            headers: pairs_view(self.headers@),
            body: chunks_view(self.body@),
        }
    }
}

impl FrameworkResponse {
    /// Builds a response value as a handler would leave it behind.
    pub fn new(status: u16, headers: Vec<(Vec<u8>, Vec<u8>)>, body: Vec<Chunk>) -> (r: Self)
        requires
            crate::valid_status(status),
        ensures
            r@.status == status,
            r@.headers == pairs_view(headers@),
            r@.body == chunks_view(body@),
    {
        FrameworkResponse { status, headers, body }
    }

    /// The status code.
    pub fn status(&self) -> (r: u16)
        ensures
            r == self@.status,
    {
        self.status
    }

    /// The header pairs, in the map's reported order.
    pub fn headers(&self) -> (r: &Vec<(Vec<u8>, Vec<u8>)>)
        ensures
            pairs_view(r@) == self@.headers,
    {
        &self.headers
    }
}

} // verus!
