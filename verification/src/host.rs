//! The host runtime's side of the translation: its request object, its
//! response object, and its header multimap.
//!
//! The host hands requests over as plain values: method text, absolute URL
//! text, header pairs, and a body that can be read exactly once. Its response
//! object is built from a fully materialized byte buffer, a status code and a
//! header map whose `set` is last-write-wins per ASCII-case-insensitive name.

use vstd::prelude::*;

use crate::error::Error;

verus! {

/// The mathematical value of a sequence of header pairs.
pub open spec fn pairs_view(hs: Seq<(Vec<u8>, Vec<u8>)>) -> Seq<(Seq<u8>, Seq<u8>)> {
    hs.map_values(|p: (Vec<u8>, Vec<u8>)| (p.0@, p.1@))
}

/// ASCII lower-casing of one byte.
pub open spec fn lower_byte(b: u8) -> u8 {
    if 65 <= b <= 90 {
        (b + 32) as u8
    } else {
        b
    }
}

/// ASCII lower-casing of a byte string.
pub open spec fn lower_seq(s: Seq<u8>) -> Seq<u8> {
    s.map_values(|b: u8| lower_byte(b))
}

/// The first value stored under `name`, if any.
pub open spec fn lookup(entries: Seq<(Seq<u8>, Seq<u8>)>, name: Seq<u8>) -> Option<Seq<u8>>
    decreases entries.len(),
{
    if entries.len() == 0 {
        None
    } else if entries[0].0 == name {
        Some(entries[0].1)
    } else {
        lookup(entries.drop_first(), name)
    }
}

/// What the host map's `set` does: replace the value under `name` if the name
/// is present, keeping its position, else append a new entry.
pub open spec fn spec_set(
    entries: Seq<(Seq<u8>, Seq<u8>)>,
    name: Seq<u8>,
    value: Seq<u8>,
) -> Seq<(Seq<u8>, Seq<u8>)>
    decreases entries.len(),
{
    if entries.len() == 0 {
        seq![(name, value)]
    } else if entries[0].0 == name {
        seq![(name, value)] + entries.drop_first()
    } else {
        seq![entries[0]] + spec_set(entries.drop_first(), name, value)
    }
}

/// Lower-cases a header name so it can be compared and stored the way the
/// host map keys its entries.
pub fn lower_bytes(name: &Vec<u8>) -> (r: Vec<u8>)
    ensures
        r@ == lower_seq(name@),
{
    let mut out: Vec<u8> = Vec::new();
    let mut i: usize = 0;
    while i < name.len()
        invariant
            i <= name.len(),
            out@.len() == i,
            forall|j: int| 0 <= j < i ==> out@[j] == lower_byte(#[trigger] name@[j]),
        decreases name.len() - i,
    {
        let b = name[i];
        if 65 <= b && b <= 90 {
            out.push(b + 32);
        } else {
            out.push(b);
        }
        i += 1;
    }
    proof {
        assert(out@ =~= lower_seq(name@));
    }
    out
}

/// Copies a byte string into an owned buffer.
pub fn copy_bytes(v: &Vec<u8>) -> (r: Vec<u8>)
    ensures
        r@ == v@,
{
    let mut out: Vec<u8> = Vec::new();
    let mut i: usize = 0;
    while i < v.len()
        invariant
            i <= v.len(),
            out@ == v@.take(i as int),
        decreases v.len() - i,
    {
        out.push(v[i]);
        proof {
            assert(out@ =~= v@.take(i as int + 1));
        }
        i += 1;
    }
    proof {
        assert(v@.take(v@.len() as int) =~= v@);
    }
    out
}

/// Byte-string equality, stated over the views.
pub fn bytes_eq(a: &Vec<u8>, b: &Vec<u8>) -> (r: bool)
    ensures
        r == (a@ == b@),
{
    let mut i: usize = 0;
    if a.len() != b.len() {
        return false;
    }
    while i < a.len()
        invariant
            i <= a.len(),
            a@.len() == b@.len(),
            forall|j: int| 0 <= j < i ==> a@[j] == b@[j],
        decreases a.len() - i,
    {
        if a[i] != b[i] {
            return false;
        }
        i += 1;
    }
    proof {
        assert(a@ =~= b@);
    }
    true
}

/// The host runtime's request object, as the translation layer sees it:
/// method text, absolute URL text, the reported header pairs, and a body
/// that is consumed by its first read.
#[derive(Debug)]
pub struct HostRequest {
    pub method: Vec<u8>,
    pub url: String,
    pub headers: Vec<(Vec<u8>, Vec<u8>)>,
    pub body: Option<Vec<u8>>,
}

/// The mathematical value of a [`HostRequest`].
pub struct HostRequestView {
    pub method: Seq<u8>,
    pub url: Seq<char>,
    pub headers: Seq<(Seq<u8>, Seq<u8>)>,
    pub body: Option<Seq<u8>>,
}

impl View for HostRequest {
    type V = HostRequestView;

    open spec fn view(&self) -> HostRequestView {
        HostRequestView {
            method: self.method@,
            url: self.url@,
            headers: pairs_view(self.headers@),
            body: match self.body {
                Some(b) => Some(b@),
                None => None,
            },
        }
    }
}

impl HostRequest {
    /// Builds a host request whose body has not been read yet.
    pub fn new(method: Vec<u8>, url: String, headers: Vec<(Vec<u8>, Vec<u8>)>, body: Vec<u8>) -> (r:
        Self)
        ensures
            r@.method == method@,
            r@.url == url@,
            r@.headers == pairs_view(headers@),
            r@.body == Some(body@),
    {
        HostRequest { method, url, headers, body: Some(body) }
    }

    /// The method text the host reports.
    pub fn method(&self) -> (r: &Vec<u8>)
        ensures
            r@ == self@.method,
    {
        &self.method
    }

    /// The absolute URL text the host reports.
    pub fn url(&self) -> (r: &String)
        ensures
            r@ == self@.url,
    {
        &self.url
    }

    /// The header pairs the host reports, in its iteration order.
    pub fn headers(&self) -> (r: &Vec<(Vec<u8>, Vec<u8>)>)
        ensures
            pairs_view(r@) == self@.headers,
    {
        &self.headers
    }

    /// Reads the body. The body can be read exactly once: the first read
    /// returns all of its bytes, every later read fails instead of silently
    /// handing back empty data.
    pub fn bytes(&mut self) -> (r: Result<Vec<u8>, Error>)
        ensures
            final(self)@.method == old(self)@.method,
            final(self)@.url == old(self)@.url,
            final(self)@.headers == old(self)@.headers,
            final(self)@.body is None,
            match r {
                Ok(b) => old(self)@.body == Some(b@),
                Err(e) => old(self)@.body is None && e == Error::WorkerError,
            },
    {
        match self.body.take() {
            Some(b) => Ok(b),
            None => Err(Error::WorkerError),
        }
    }
}

/// The host runtime's header map. `set` is last-write-wins per name; names
/// are keyed ASCII-case-insensitively, realized by storing them lower-cased.
#[derive(Debug)]
pub struct Headers {
    entries: Vec<(Vec<u8>, Vec<u8>)>,
}

impl View for Headers {
    type V = Seq<(Seq<u8>, Seq<u8>)>;

    closed spec fn view(&self) -> Seq<(Seq<u8>, Seq<u8>)> {
        pairs_view(self.entries@)
    }
}

impl Headers {
    /// Every stored name is lower-case, and no name is stored twice.
    pub open spec fn wf(&self) -> bool {
        &&& forall|i: int|
            0 <= i < self@.len() ==> (#[trigger] self@[i]).0 == lower_seq(self@[i].0)
        &&& forall|i: int, j: int| 0 <= i < j < self@.len() ==> self@[i].0 != self@[j].0
    }

    /// An empty header map.
    pub fn new() -> (r: Self)
        ensures
            r@ == Seq::<(Seq<u8>, Seq<u8>)>::empty(),
            r.wf(),
    {
        let r = Headers { entries: Vec::new() };
        proof {
            assert(r@ =~= Seq::<(Seq<u8>, Seq<u8>)>::empty());
        }
        r
    }

    /// Stores `value` under `name`, replacing whatever the name held before
    /// (last write wins). Fails, leaving the map unchanged, when the name is
    /// not a header token of acceptable length or the value holds an
    /// illegal byte.
    pub fn set(&mut self, name: &Vec<u8>, value: &Vec<u8>) -> (r: Result<(), Error>)
        ensures
            match r {
                Ok(()) => crate::validate::header_name_ok(name@) && crate::validate::value_ok(
                    value@,
                ) && final(self)@ == spec_set(old(self)@, lower_seq(name@), value@),
                Err(e) => (!crate::validate::header_name_ok(name@)
                    || !crate::validate::value_ok(value@)) && e == Error::WorkerError
                    && final(self)@ == old(self)@,
            },
            old(self).wf() ==> final(self).wf(),
    {
        if !crate::validate::header_name_valid(name) {
            return Err(Error::WorkerError);
        }
        if !crate::validate::header_value_valid(value) {
            return Err(Error::WorkerError);
        }
        let lowered = lower_bytes(name);
        let copied = copy_bytes(value);
        proof {
            lemma_lower_idem(name@);
        }
        let mut i: usize = 0;
        while i < self.entries.len()
            invariant
                i <= self.entries.len(),
                self@ == old(self)@,
                lowered@ == lower_seq(name@),
                copied@ == value@,
                crate::validate::header_name_ok(name@),
                crate::validate::value_ok(value@),
                forall|j: int| 0 <= j < i ==> (#[trigger] pairs_view(self.entries@)[j]).0
                    != lowered@,
            decreases self.entries.len() - i,
        {
            if bytes_eq(&self.entries[i].0, &lowered) {
                let ghost prior = self@;
                proof {
                    assert(prior[i as int].0 == lowered@);
                }
                self.entries[i] = (lowered, copied);
                proof {
                    assert(self@ =~= prior.update(i as int, (lower_seq(name@), value@)));
                    lemma_spec_set_found(prior, lower_seq(name@), value@, i as int);
                    if old(self).wf() {
                        lemma_lower_idem(name@);
                        assert(self.wf());
                    }
                }
                return Ok(());
            }
            i += 1;
        }
        let ghost prior = self@;
        self.entries.push((lowered, copied));
        proof {
            assert(self@ =~= prior.push((lower_seq(name@), value@)));
            lemma_spec_set_missing(prior, lower_seq(name@), value@);
            if old(self).wf() {
                assert(self.wf());
            }
        }
        Ok(())
    }

    /// The value stored under `name`, compared ASCII-case-insensitively.
    pub fn get(&self, name: &Vec<u8>) -> (r: Option<&Vec<u8>>)
        ensures
            match r {
                Some(v) => lookup(self@, lower_seq(name@)) == Some(v@),
                None => lookup(self@, lower_seq(name@)) is None,
            },
    {
        let lowered = lower_bytes(name);
        let mut i: usize = 0;
        while i < self.entries.len()
            invariant
                i <= self.entries.len(),
                lowered@ == lower_seq(name@),
                forall|j: int| 0 <= j < i ==> (#[trigger] pairs_view(self.entries@)[j]).0
                    != lowered@,
            decreases self.entries.len() - i,
        {
            if bytes_eq(&self.entries[i].0, &lowered) {
                proof {
                    lemma_lookup_prefix_miss(self@, lowered@, i as int);
                }
                return Some(&self.entries[i].1);
            }
            i += 1;
        }
        proof {
            lemma_lookup_prefix_miss(self@, lowered@, self@.len() as int);
        }
        None
    }

    /// The stored entries, in storage order.
    pub fn entries(&self) -> (r: &Vec<(Vec<u8>, Vec<u8>)>)
        ensures
            pairs_view(r@) == self@,
    {
        &self.entries
    }
}

/// ASCII lower-casing is idempotent.
proof fn lemma_lower_idem(s: Seq<u8>)
    ensures
        lower_seq(lower_seq(s)) == lower_seq(s),
{
    assert(lower_seq(lower_seq(s)) =~= lower_seq(s));
}

/// When the first `i` entries miss `name`, `lookup` is decided by position
/// `i` onward.
proof fn lemma_lookup_prefix_miss(entries: Seq<(Seq<u8>, Seq<u8>)>, name: Seq<u8>, i: int)
    requires
        0 <= i <= entries.len(),
        forall|j: int| 0 <= j < i ==> (#[trigger] entries[j]).0 != name,
    ensures
        i < entries.len() && entries[i].0 == name ==> lookup(entries, name) == Some(entries[i].1),
        i == entries.len() ==> lookup(entries, name) is None,
    decreases i,
{
    if i > 0 {
        assert(forall|j: int| 0 <= j < i - 1 ==> (#[trigger] entries.drop_first()[j]).0 != name);
        lemma_lookup_prefix_miss(entries.drop_first(), name, i - 1);
    }
}

/// When `name` first occurs at position `i`, `set` updates that entry in
/// place.
proof fn lemma_spec_set_found(
    entries: Seq<(Seq<u8>, Seq<u8>)>,
    name: Seq<u8>,
    value: Seq<u8>,
    i: int,
)
    requires
        0 <= i < entries.len(),
        entries[i].0 == name,
        forall|j: int| 0 <= j < i ==> (#[trigger] entries[j]).0 != name,
    ensures
        spec_set(entries, name, value) =~= entries.update(i, (name, value)),
    decreases i,
{
    if i > 0 {
        assert(forall|j: int| 0 <= j < i - 1 ==> (#[trigger] entries.drop_first()[j]).0 != name);
        lemma_spec_set_found(entries.drop_first(), name, value, i - 1);
        assert(spec_set(entries, name, value) =~= entries.update(i, (name, value)));
    }
}

/// When `name` occurs nowhere, `set` appends.
proof fn lemma_spec_set_missing(entries: Seq<(Seq<u8>, Seq<u8>)>, name: Seq<u8>, value: Seq<u8>)
    requires
        forall|j: int| 0 <= j < entries.len() ==> (#[trigger] entries[j]).0 != name,
    ensures
        spec_set(entries, name, value) =~= entries.push((name, value)),
    decreases entries.len(),
{
    if entries.len() > 0 {
        assert(forall|j: int|
            0 <= j < entries.len() - 1 ==> (#[trigger] entries.drop_first()[j]).0 != name);
        lemma_spec_set_missing(entries.drop_first(), name, value);
        assert(spec_set(entries, name, value) =~= entries.push((name, value)));
    }
}

/// The host runtime's response object: a status code, a header map, and a
/// fully materialized body.
#[derive(Debug)]
pub struct HostResponse {
    pub status: u16,
    pub headers: Headers,
    pub body: Vec<u8>,
}

/// The mathematical value of a [`HostResponse`].
pub struct HostResponseView {
    pub status: u16,
    pub headers: Seq<(Seq<u8>, Seq<u8>)>,
    pub body: Seq<u8>,
}

impl View for HostResponse {
    type V = HostResponseView;

    open spec fn view(&self) -> HostResponseView {
        HostResponseView { status: self.status, headers: self.headers@, body: self.body@ }
    }
}

impl HostResponse {
    /// Builds a response around a materialized byte buffer. The host gives a
    /// fresh response the OK status and no headers.
    pub fn from_bytes(bytes: Vec<u8>) -> (r: Self)
        ensures
            r@.status == 200,
            r@.headers == Seq::<(Seq<u8>, Seq<u8>)>::empty(),
            r@.body == bytes@,
            r.headers.wf(),
    {
        HostResponse { status: 200, headers: Headers::new(), body: bytes }
    }

    /// Replaces the status code.
    pub fn with_status(self, status_code: u16) -> (r: Self)
        ensures
            r@.status == status_code,
            r@.headers == self@.headers,
            r@.body == self@.body,
    {
        HostResponse { status: status_code, ..self }
    }

    /// Replaces the header map.
    pub fn with_headers(self, headers: Headers) -> (r: Self)
        ensures
            r@.status == self@.status,
            r@.headers == headers@,
            r@.body == self@.body,
    {
        HostResponse { headers, ..self }
    }

    /// The status code.
    pub fn status_code(&self) -> (r: u16)
        ensures
            r == self@.status,
    {
        self.status
    }

    /// The header map.
    pub fn headers(&self) -> (r: &Headers)
        ensures
            r@ == self@.headers,
    {
        &self.headers
    }

    /// The body bytes.
    pub fn body(&self) -> (r: &Vec<u8>)
        ensures
            r@ == self@.body,
    {
        &self.body
    }
}

} // verus!
