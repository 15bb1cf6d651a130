//! The two-phase mail object. A `Mail` is the mutable draft: ordered
//! headers, a subject, a rendered body, and the resolved parts carried over
//! from the template data. It is mutated only by appending headers, then
//! consumed exactly once by the phase transition into an `EncodableMail`,
//! which is immutable and encodes deterministically into wire bytes.

use vstd::prelude::*;
use vstd::string::*;
use crate::context::MailContext;
use crate::resource::{ContentId, LoadedResource, spec_render_cid};

verus! {

/// One header: a name and a value, kept in insertion order.
pub struct Header {
    /// The header's name, matched case-insensitively.
    pub name: Vec<u8>,
    /// The header's value.
    pub value: Vec<u8>,
}

/// Why a header was refused.
#[derive(Clone, Copy, PartialEq, Eq, Structural, Debug)]
pub enum HeaderValueError {
    /// The name is empty or holds a byte a header name may not hold.
    BadName,
    /// The value holds a byte a header value may not hold.
    BadValue,
    /// The header is an address header and its value is no address.
    BadAddress,
}

/// ASCII lowercase of one byte.
pub open spec fn spec_lower(b: u8) -> u8 {
    if 65 <= b <= 90 {
        (b + 32) as u8
    } else {
        b
    }
}

/// Case-insensitive equality of two header names.
pub open spec fn spec_names_eq_ci(a: Seq<u8>, b: Seq<u8>) -> bool {
    a.len() == b.len() && forall|i: int|
        0 <= i < a.len() ==> spec_lower(#[trigger] a[i]) == spec_lower(b[i])
}

/// Compares two header names, ignoring ASCII case.
pub fn names_eq_ci(a: &[u8], b: &[u8]) -> (r: bool)
    ensures
        r == spec_names_eq_ci(a@, b@),
{
    if a.len() != b.len() {
        return false;
    }
    let mut i: usize = 0;
    while i < a.len()
        invariant
            0 <= i <= a@.len(),
            a@.len() == b@.len(),
            forall|j: int| 0 <= j < i ==> spec_lower(#[trigger] a@[j]) == spec_lower(b@[j]),
        decreases a@.len() - i,
    {
        let x = if 65 <= a[i] && a[i] <= 90 { a[i] + 32 } else { a[i] };
        let y = if 65 <= b[i] && b[i] <= 90 { b[i] + 32 } else { b[i] };
        if x != y {
            return false;
        }
        i = i + 1;
    }
    true
}

/// True when `n` can stand as a header name: nonempty ASCII graphic bytes,
/// no colon.
pub open spec fn spec_valid_header_name(n: Seq<u8>) -> bool {
    n.len() > 0 && forall|i: int| 0 <= i < n.len() ==> 33 <= #[trigger] n[i] <= 126 && n[i] != 58
}

/// True when `v` can stand as a header value: printable ASCII and space.
pub open spec fn spec_valid_header_value(v: Seq<u8>) -> bool {
    forall|i: int| 0 <= i < v.len() ==> 32 <= #[trigger] v[i] <= 126
}

/// Number of at signs among the first `i` bytes of `a`.
pub open spec fn spec_at_count(a: Seq<u8>, i: int) -> int
    decreases i,
{
    if i <= 0 {
        0
    } else {
        spec_at_count(a, i - 1) + if a[i - 1] == 64 {
            1int
        } else {
            0int
        }
    }
}

/// True when `a` is a plausible mail address: at least three ASCII graphic
/// bytes with exactly one at sign, and that not at either end.
pub open spec fn spec_valid_address(a: Seq<u8>) -> bool {
    &&& a.len() >= 3
    &&& forall|i: int| 0 <= i < a.len() ==> 33 <= #[trigger] a[i] <= 126
    &&& spec_at_count(a, a.len() as int) == 1
    &&& a[0] != 64
    &&& a[a.len() - 1] != 64
}

/// Checks that `a` is a plausible mail address.
pub fn valid_address(a: &[u8]) -> (r: bool)
    ensures
        r == spec_valid_address(a@),
{
    if a.len() < 3 {
        return false;
    }
    let mut i: usize = 0;
    let mut ats: usize = 0;
    while i < a.len()
        invariant
            0 <= i <= a@.len(),
            ats == spec_at_count(a@, i as int),
            ats <= i,
            forall|j: int| 0 <= j < i ==> 33 <= #[trigger] a@[j] <= 126,
        decreases a@.len() - i,
    {
        if a[i] < 33 || a[i] > 126 {
            return false;
        }
        if a[i] == 64 {
            ats = ats + 1;
        }
        i = i + 1;
    }
    ats == 1 && a[0] != 64 && a[a.len() - 1] != 64
}

/// True when `n` names an address header, here From and To.
pub open spec fn spec_is_address_header(n: Seq<u8>) -> bool {
    spec_names_eq_ci(n, "From".spec_bytes()) || spec_names_eq_ci(n, "To".spec_bytes())
}

/// The fault a header would be refused for, `None` when it is acceptable.
pub open spec fn spec_header_err(h: Header) -> Option<HeaderValueError> {
    if !spec_valid_header_name(h.name@) {
        Some(HeaderValueError::BadName)
    } else if spec_is_address_header(h.name@) && !spec_valid_address(h.value@) {
        Some(HeaderValueError::BadAddress)
    } else if !spec_valid_header_value(h.value@) {
        Some(HeaderValueError::BadValue)
    } else {
        None
    }
}

/// True when a header passes validation.
pub open spec fn spec_header_ok(h: Header) -> bool {
    spec_header_err(h) is None
}

/// Checks one header, returning its fault if it has one.
fn check_header(h: &Header) -> (r: Option<HeaderValueError>)
    ensures
        r == spec_header_err(*h),
{
    let name = h.name.as_slice();
    if h.name.len() == 0 {
        return Some(HeaderValueError::BadName);
    }
    let mut i: usize = 0;
    while i < h.name.len()
        invariant
            0 <= i <= h.name@.len(),
            forall|j: int| 0 <= j < i ==> 33 <= #[trigger] h.name@[j] <= 126 && h.name@[j] != 58,
        decreases h.name@.len() - i,
    {
        let b = h.name[i];
        if b < 33 || b > 126 || b == 58 {
            return Some(HeaderValueError::BadName);
        }
        i = i + 1;
    }
    let is_addr = names_eq_ci(name, crate::lit_bytes("From").as_slice()) || names_eq_ci(
        name,
        crate::lit_bytes("To").as_slice(),
    );
    if is_addr && !valid_address(h.value.as_slice()) {
        return Some(HeaderValueError::BadAddress);
    }
    let mut k: usize = 0;
    while k < h.value.len()
        invariant
            0 <= k <= h.value@.len(),
            forall|j: int| 0 <= j < k ==> 32 <= #[trigger] h.value@[j] <= 126,
            spec_valid_header_name(h.name@),
            spec_is_address_header(h.name@) ==> spec_valid_address(h.value@),
        decreases h.value@.len() - k,
    {
        let b = h.value[k];
        if b < 32 || b > 126 {
            return Some(HeaderValueError::BadValue);
        }
        k = k + 1;
    }
    None
}

/// An email in its logical, mutable phase: created by rendering, grown only
/// by appending headers, consumed once by `into_encodable`.
pub struct Mail {
    /// Headers in insertion order; names may repeat.
    pub headers: Vec<Header>,
    /// The rendered subject line.
    pub subject: Vec<u8>,
    /// The rendered body text.
    pub body: Vec<u8>,
    /// Inline parts the body addresses by content ID.
    pub embeddings: Vec<LoadedResource>,
    /// Attached parts.
    pub attachments: Vec<LoadedResource>,
}

impl Mail {
    /// Appends headers to the draft, in the given order. When any header is
    /// refused, the mail is left unchanged and the first fault is returned.
    pub fn insert_headers(&mut self, headers: Vec<Header>) -> (r: Result<(), HeaderValueError>)
        ensures
            r is Ok <==> (forall|k: int|
                0 <= k < headers@.len() ==> spec_header_ok(#[trigger] headers@[k])),
            r is Ok ==> final(self).headers@ == old(self).headers@ + headers@,
            r is Err ==> *final(self) == *old(self),
            r matches Err(e) ==> exists|k: int|
                0 <= k < headers@.len() && spec_header_err(#[trigger] headers@[k]) == Some(e)
                    && (forall|j: int| 0 <= j < k ==> spec_header_ok(#[trigger] headers@[j])),
            final(self).subject == old(self).subject,
            final(self).body == old(self).body,
            final(self).embeddings == old(self).embeddings,
            final(self).attachments == old(self).attachments,
    {
        let mut i: usize = 0;
        while i < headers.len()
            invariant
                0 <= i <= headers@.len(),
                forall|j: int| 0 <= j < i ==> spec_header_ok(#[trigger] headers@[j]),
            decreases headers@.len() - i,
        {
            match check_header(&headers[i]) {
                Some(e) => {
                    return Err(e);
                },
                None => {},
            }
            i = i + 1;
        }
        let mut incoming = headers;
        self.headers.append(&mut incoming);
        Ok(())
    }
}

/// The wire form requested of the encoder.
#[derive(Clone, Copy, PartialEq, Eq, Structural, Debug)]
pub enum MailType {
    /// Strict seven-bit ASCII; content outside it makes encoding fail.
    Ascii,
    /// Eight-bit content is passed through as it stands.
    EightBit,
}

/// Why encoding failed.
#[derive(Clone, Copy, PartialEq, Eq, Structural, Debug)]
pub enum EncodeError {
    /// Seven-bit ASCII was requested and some content byte is outside it.
    NonAsciiContent,
}

/// An email in its encodable, immutable phase: everything the wire form
/// depends on is fixed, so encoding the same value twice gives the same
/// bytes.
pub struct EncodableMail {
    /// Headers in their final order.
    pub headers: Vec<Header>,
    /// The subject line.
    pub subject: Vec<u8>,
    /// The body text.
    pub body: Vec<u8>,
    /// All parts, inline ones first, then attachments.
    pub parts: Vec<LoadedResource>,
    /// The message ID stamped at the phase transition.
    pub message_id: ContentId,
    /// The multipart boundary fixed at the phase transition.
    pub boundary: Vec<u8>,
}

/// The boundary derived from a context tag and a drawn serial.
pub open spec fn spec_boundary(unique: Seq<u8>, serial: u64) -> Seq<u8> {
    "=_".spec_bytes() + unique + "_".spec_bytes() + crate::spec_dec(serial)
}

/// Turns a draft into its immutable, encodable phase: stamps a message ID
/// and a multipart boundary from the context and carries everything else
/// over unchanged, inline parts before attachments. Consumes the draft; the
/// logical mail is not usable afterwards.
pub fn into_encodable(mail: Mail, ctx: &mut MailContext) -> (r: EncodableMail)
    requires
        old(ctx).counter + 2 <= u64::MAX,
    ensures
        r.headers == mail.headers,
        r.subject == mail.subject,
        r.body == mail.body,
        r.parts@ == mail.embeddings@ + mail.attachments@,
        r.message_id.seq_no == old(ctx).counter,
        r.message_id.unique@ == old(ctx).unique@,
        r.message_id.domain@ == old(ctx).domain@,
        r.boundary@ == spec_boundary(old(ctx).unique@, (old(ctx).counter + 1) as u64),
        final(ctx).counter == old(ctx).counter + 2,
        final(ctx).unique == old(ctx).unique,
        final(ctx).domain == old(ctx).domain,
{
    let Mail { headers, subject, body, mut embeddings, mut attachments } = mail;
    let mid_serial = ctx.fresh_id();
    let bound_serial = ctx.fresh_id();
    let message_id = ContentId {
        seq_no: mid_serial,
        unique: crate::copy_bytes(ctx.unique.as_slice()),
        domain: crate::copy_bytes(ctx.domain.as_slice()),
    };
    let mut boundary = crate::lit_bytes("=_");
    crate::push_all(&mut boundary, ctx.unique.as_slice());
    crate::push_all(&mut boundary, crate::lit_bytes("_").as_slice());
    crate::push_all(&mut boundary, crate::dec_bytes(bound_serial).as_slice());
    let mut parts = embeddings;
    parts.append(&mut attachments);
    EncodableMail { headers, subject, body, parts, message_id, boundary }
}

/// The wire line of one header.
pub open spec fn spec_header_line(h: Header) -> Seq<u8> {
    h.name@ + ": ".spec_bytes() + h.value@ + "\r\n".spec_bytes()
}

/// The wire lines of a header list, in order.
pub open spec fn spec_headers_enc(hs: Seq<Header>) -> Seq<u8>
    decreases hs.len(),
{
    if hs.len() == 0 {
        Seq::empty()
    } else {
        spec_headers_enc(hs.drop_last()) + spec_header_line(hs.last())
    }
}

/// The wire form of one part between boundaries.
pub open spec fn spec_part_enc(p: LoadedResource, boundary: Seq<u8>) -> Seq<u8> {
    "--".spec_bytes() + boundary + "\r\n".spec_bytes() + "Content-Type: ".spec_bytes()
        + p.media_type@ + "\r\n".spec_bytes() + "Content-ID: <".spec_bytes() + spec_render_cid(
        p.content_id,
    ) + ">\r\n\r\n".spec_bytes() + p.data@ + "\r\n".spec_bytes()
}

/// The wire form of a part list, in order.
pub open spec fn spec_parts_enc(ps: Seq<LoadedResource>, boundary: Seq<u8>) -> Seq<u8>
    decreases ps.len(),
{
    if ps.len() == 0 {
        Seq::empty()
    } else {
        spec_parts_enc(ps.drop_last(), boundary) + spec_part_enc(ps.last(), boundary)
    }
}

/// The header block every mail carries: its own headers, then Subject,
/// Message-ID and MIME-Version.
pub open spec fn spec_common_enc(m: EncodableMail) -> Seq<u8> {
    spec_headers_enc(m.headers@) + "Subject: ".spec_bytes() + m.subject@ + "\r\n".spec_bytes()
        + "Message-ID: <".spec_bytes() + spec_render_cid(m.message_id) + ">\r\n".spec_bytes()
        + "MIME-Version: 1.0\r\n".spec_bytes()
}

/// The whole wire form: a plain text mail when there are no parts, a
/// multipart/related mail with the body first and every part addressed by
/// its content ID otherwise.
pub open spec fn spec_encode(m: EncodableMail) -> Seq<u8> {
    if m.parts@.len() == 0 {
        spec_common_enc(m) + "Content-Type: text/plain\r\n\r\n".spec_bytes() + m.body@
            + "\r\n".spec_bytes()
    } else {
        spec_common_enc(m) + "Content-Type: multipart/related; boundary=\"".spec_bytes()
            + m.boundary@ + "\"\r\n\r\n".spec_bytes() + "--".spec_bytes() + m.boundary@
            + "\r\n".spec_bytes() + "Content-Type: text/plain\r\n\r\n".spec_bytes() + m.body@
            + "\r\n".spec_bytes() + spec_parts_enc(m.parts@, m.boundary@) + "--".spec_bytes()
            + m.boundary@ + "--\r\n".spec_bytes()
    }
}

/// What `encode` returns: the wire bytes, unless strict ASCII was requested
/// and some byte of the wire form is outside it.
pub open spec fn spec_encode_result(m: EncodableMail, t: MailType) -> Result<Seq<u8>, EncodeError> {
    if t is EightBit || crate::spec_all_ascii(spec_encode(m)) {
        Ok(spec_encode(m))
    } else {
        Err(EncodeError::NonAsciiContent)
    }
}

/// Appends the wire lines of `hs` to `out`.
fn push_headers(out: &mut Vec<u8>, hs: &Vec<Header>)
    ensures
        final(out)@ == old(out)@ + spec_headers_enc(hs@),
{
    let ghost base = out@;
    let mut i: usize = 0;
    while i < hs.len()
        invariant
            0 <= i <= hs@.len(),
            out@ == base + spec_headers_enc(hs@.take(i as int)),
        decreases hs@.len() - i,
    {
        crate::push_all(out, hs[i].name.as_slice());
        crate::push_all(out, crate::lit_bytes(": ").as_slice());
        crate::push_all(out, hs[i].value.as_slice());
        crate::push_all(out, crate::lit_bytes("\r\n").as_slice());
        proof {
            assert(hs@.take(i + 1 as int).drop_last() =~= hs@.take(i as int));
            assert(hs@.take(i + 1 as int).last() == hs@[i as int]);
            assert(out@ =~= base + spec_headers_enc(hs@.take(i + 1 as int)));
        }
        i = i + 1;
    }
    assert(hs@.take(hs@.len() as int) =~= hs@);
}

/// Appends the wire form of `ps` to `out`.
#[verifier::rlimit(80)]
fn push_parts(out: &mut Vec<u8>, ps: &Vec<LoadedResource>, boundary: &Vec<u8>)
    ensures
        final(out)@ == old(out)@ + spec_parts_enc(ps@, boundary@),
{
    let ghost base = out@;
    let mut i: usize = 0;
    while i < ps.len()
        invariant
            0 <= i <= ps@.len(),
            out@ == base + spec_parts_enc(ps@.take(i as int), boundary@),
        decreases ps@.len() - i,
    {
        crate::push_all(out, crate::lit_bytes("--").as_slice());
        crate::push_all(out, boundary.as_slice());
        crate::push_all(out, crate::lit_bytes("\r\n").as_slice());
        crate::push_all(out, crate::lit_bytes("Content-Type: ").as_slice());
        crate::push_all(out, ps[i].media_type.as_slice());
        crate::push_all(out, crate::lit_bytes("\r\n").as_slice());
        crate::push_all(out, crate::lit_bytes("Content-ID: <").as_slice());
        crate::push_all(out, ps[i].content_id.render().as_slice());
        crate::push_all(out, crate::lit_bytes(">\r\n\r\n").as_slice());
        crate::push_all(out, ps[i].data.as_slice());
        crate::push_all(out, crate::lit_bytes("\r\n").as_slice());
        proof {
            assert(ps@.take(i + 1 as int).drop_last() =~= ps@.take(i as int));
            assert(ps@.take(i + 1 as int).last() == ps@[i as int]);
            assert(out@ =~= base + spec_parts_enc(ps@.take(i + 1 as int), boundary@));
        }
        i = i + 1;
    }
    assert(ps@.take(ps@.len() as int) =~= ps@);
}

impl EncodableMail {
    /// Serializes the mail into wire bytes. The output is a pure function
    /// of the mail and the requested type; under `Ascii` the call fails
    /// exactly when some byte of the wire form is outside seven-bit ASCII.
    pub fn encode(&self, mail_type: MailType) -> (r: Result<Vec<u8>, EncodeError>)
        ensures
            match r {
                Ok(bytes) => spec_encode_result(*self, mail_type) == Ok::<_, EncodeError>(bytes@),
                Err(e) => spec_encode_result(*self, mail_type) == Err::<Seq<u8>, _>(e),
            },
    {
        let mut out: Vec<u8> = Vec::new();
        push_headers(&mut out, &self.headers);
        crate::push_all(&mut out, crate::lit_bytes("Subject: ").as_slice());
        crate::push_all(&mut out, self.subject.as_slice());
        crate::push_all(&mut out, crate::lit_bytes("\r\n").as_slice());
        crate::push_all(&mut out, crate::lit_bytes("Message-ID: <").as_slice());
        crate::push_all(&mut out, self.message_id.render().as_slice());
        crate::push_all(&mut out, crate::lit_bytes(">\r\n").as_slice());
        crate::push_all(&mut out, crate::lit_bytes("MIME-Version: 1.0\r\n").as_slice());
        assert(out@ =~= spec_common_enc(*self));
        if self.parts.len() == 0 {
            crate::push_all(&mut out, crate::lit_bytes("Content-Type: text/plain\r\n\r\n").as_slice());
            crate::push_all(&mut out, self.body.as_slice());
            crate::push_all(&mut out, crate::lit_bytes("\r\n").as_slice());
            assert(out@ =~= spec_encode(*self));
        } else {
            crate::push_all(
                &mut out,
                crate::lit_bytes("Content-Type: multipart/related; boundary=\"").as_slice(),
            );
            crate::push_all(&mut out, self.boundary.as_slice());
            crate::push_all(&mut out, crate::lit_bytes("\"\r\n\r\n").as_slice());
            crate::push_all(&mut out, crate::lit_bytes("--").as_slice());
            crate::push_all(&mut out, self.boundary.as_slice());
            crate::push_all(&mut out, crate::lit_bytes("\r\n").as_slice());
            crate::push_all(&mut out, crate::lit_bytes("Content-Type: text/plain\r\n\r\n").as_slice());
            crate::push_all(&mut out, self.body.as_slice());
            crate::push_all(&mut out, crate::lit_bytes("\r\n").as_slice());
            push_parts(&mut out, &self.parts, &self.boundary);
            crate::push_all(&mut out, crate::lit_bytes("--").as_slice());
            crate::push_all(&mut out, self.boundary.as_slice());
            crate::push_all(&mut out, crate::lit_bytes("--\r\n").as_slice());
            assert(out@ =~= spec_encode(*self));
        }
        match mail_type {
            MailType::EightBit => Ok(out),
            MailType::Ascii => {
                if crate::all_ascii(out.as_slice()) {
                    Ok(out)
                } else {
                    Err(EncodeError::NonAsciiContent)
                }
            },
        }
    }
}


/// True when `n` occurs in `h` as one contiguous run of bytes.
pub open spec fn spec_contains(h: Seq<u8>, n: Seq<u8>) -> bool {
    exists|i: int, j: int|
        0 <= i && i <= j && j <= h.len() && j - i == n.len() && #[trigger] h.subrange(i, j) == n
}

/// A run of a sequence occurs in it.
proof fn lemma_contains_self(n: Seq<u8>)
    ensures
        spec_contains(n, n),
{
    assert(n.subrange(0, n.len() as int) =~= n);
    assert(spec_contains(n, n)) by {
        assert(n.subrange(0, n.len() as int) == n);
    }
}

/// What occurs in `a` occurs in `a + b`.
proof fn lemma_contains_prefix(a: Seq<u8>, b: Seq<u8>, n: Seq<u8>)
    requires
        spec_contains(a, n),
    ensures
        spec_contains(a + b, n),
{
    let (i, j) = choose|i: int, j: int|
        0 <= i && i <= j && j <= a.len() && j - i == n.len() && #[trigger] a.subrange(i, j) == n;
    assert((a + b).subrange(i, j) =~= a.subrange(i, j));
}

/// What occurs in `b` occurs in `a + b`.
proof fn lemma_contains_suffix(a: Seq<u8>, b: Seq<u8>, n: Seq<u8>)
    requires
        spec_contains(b, n),
    ensures
        spec_contains(a + b, n),
{
    let (i, j) = choose|i: int, j: int|
        0 <= i && i <= j && j <= b.len() && j - i == n.len() && #[trigger] b.subrange(i, j) == n;
    assert((a + b).subrange(a.len() + i, a.len() + j) =~= b.subrange(i, j));
}

/// Joining bytes is associative.
proof fn lemma_concat_assoc(a: Seq<u8>, b: Seq<u8>, c: Seq<u8>)
    ensures
        (a + b) + c == a + (b + c),
{
    assert((a + b) + c =~= a + (b + c));
}

/// Occurrence is transitive through an occurring run.
proof fn lemma_contains_trans(h: Seq<u8>, mid: Seq<u8>, n: Seq<u8>)
    requires
        spec_contains(h, mid),
        spec_contains(mid, n),
    ensures
        spec_contains(h, n),
{
    let (i, j) = choose|i: int, j: int|
        0 <= i && i <= j && j <= h.len() && j - i == mid.len() && #[trigger] h.subrange(i, j)
            == mid;
    let (x, y) = choose|x: int, y: int|
        0 <= x && x <= y && y <= mid.len() && y - x == n.len() && #[trigger] mid.subrange(x, y)
            == n;
    assert(h.subrange(i + x, i + y) =~= mid.subrange(x, y));
}

/// Each header's wire line occurs in the joined header block.
proof fn lemma_headers_enc_contains(hs: Seq<Header>, k: int)
    requires
        0 <= k < hs.len(),
    ensures
        spec_contains(spec_headers_enc(hs), spec_header_line(hs[k])),
    decreases hs.len(),
{
    if k == hs.len() - 1 {
        lemma_contains_self(spec_header_line(hs.last()));
        lemma_contains_suffix(
            spec_headers_enc(hs.drop_last()),
            spec_header_line(hs.last()),
            spec_header_line(hs[k]),
        );
    } else {
        lemma_headers_enc_contains(hs.drop_last(), k);
        assert(hs.drop_last()[k] == hs[k]);
        lemma_contains_prefix(
            spec_headers_enc(hs.drop_last()),
            spec_header_line(hs.last()),
            spec_header_line(hs[k]),
        );
    }
}

/// Each part's wire form occurs in the joined part block.
proof fn lemma_parts_enc_contains(ps: Seq<LoadedResource>, boundary: Seq<u8>, k: int)
    requires
        0 <= k < ps.len(),
    ensures
        spec_contains(spec_parts_enc(ps, boundary), spec_part_enc(ps[k], boundary)),
    decreases ps.len(),
{
    if k == ps.len() - 1 {
        lemma_contains_self(spec_part_enc(ps.last(), boundary));
        lemma_contains_suffix(
            spec_parts_enc(ps.drop_last(), boundary),
            spec_part_enc(ps.last(), boundary),
            spec_part_enc(ps[k], boundary),
        );
    } else {
        lemma_parts_enc_contains(ps.drop_last(), boundary, k);
        assert(ps.drop_last()[k] == ps[k]);
        lemma_contains_prefix(
            spec_parts_enc(ps.drop_last(), boundary),
            spec_part_enc(ps.last(), boundary),
            spec_part_enc(ps[k], boundary),
        );
    }
}

/// Occurrence in the common header block is occurrence in the encoding.
proof fn lemma_common_to_encode(m: EncodableMail, n: Seq<u8>)
    requires
        spec_contains(spec_common_enc(m), n),
    ensures
        spec_contains(spec_encode(m), n),
{
    let c = spec_common_enc(m);
    if m.parts@.len() == 0 {
        lemma_contains_prefix(c, "Content-Type: text/plain\r\n\r\n".spec_bytes(), n);
        lemma_contains_prefix(c + "Content-Type: text/plain\r\n\r\n".spec_bytes(), m.body@, n);
        lemma_contains_prefix(
            c + "Content-Type: text/plain\r\n\r\n".spec_bytes() + m.body@,
            "\r\n".spec_bytes(),
            n,
        );
    } else {
        let c1 = c + "Content-Type: multipart/related; boundary=\"".spec_bytes();
        lemma_contains_prefix(c, "Content-Type: multipart/related; boundary=\"".spec_bytes(), n);
        let c2 = c1 + m.boundary@;
        lemma_contains_prefix(c1, m.boundary@, n);
        let c3 = c2 + "\"\r\n\r\n".spec_bytes();
        lemma_contains_prefix(c2, "\"\r\n\r\n".spec_bytes(), n);
        let c4 = c3 + "--".spec_bytes();
        lemma_contains_prefix(c3, "--".spec_bytes(), n);
        let c5 = c4 + m.boundary@;
        lemma_contains_prefix(c4, m.boundary@, n);
        let c6 = c5 + "\r\n".spec_bytes();
        lemma_contains_prefix(c5, "\r\n".spec_bytes(), n);
        let c7 = c6 + "Content-Type: text/plain\r\n\r\n".spec_bytes();
        lemma_contains_prefix(c6, "Content-Type: text/plain\r\n\r\n".spec_bytes(), n);
        let c8 = c7 + m.body@;
        lemma_contains_prefix(c7, m.body@, n);
        let c9 = c8 + "\r\n".spec_bytes();
        lemma_contains_prefix(c8, "\r\n".spec_bytes(), n);
        let c10 = c9 + spec_parts_enc(m.parts@, m.boundary@);
        lemma_contains_prefix(c9, spec_parts_enc(m.parts@, m.boundary@), n);
        let c11 = c10 + "--".spec_bytes();
        lemma_contains_prefix(c10, "--".spec_bytes(), n);
        let c12 = c11 + m.boundary@;
        lemma_contains_prefix(c11, m.boundary@, n);
        lemma_contains_prefix(c12, "--\r\n".spec_bytes(), n);
    }
}

/// Occurrence in the joined part block is occurrence in the encoding.
proof fn lemma_parts_to_encode(m: EncodableMail, n: Seq<u8>)
    requires
        m.parts@.len() > 0,
        spec_contains(spec_parts_enc(m.parts@, m.boundary@), n),
    ensures
        spec_contains(spec_encode(m), n),
{
    let x = spec_common_enc(m) + "Content-Type: multipart/related; boundary=\"".spec_bytes()
        + m.boundary@ + "\"\r\n\r\n".spec_bytes() + "--".spec_bytes() + m.boundary@
        + "\r\n".spec_bytes() + "Content-Type: text/plain\r\n\r\n".spec_bytes() + m.body@
        + "\r\n".spec_bytes();
    lemma_contains_suffix(x, spec_parts_enc(m.parts@, m.boundary@), n);
    let y = x + spec_parts_enc(m.parts@, m.boundary@);
    lemma_contains_prefix(y, "--".spec_bytes(), n);
    let z = y + "--".spec_bytes();
    lemma_contains_prefix(z, m.boundary@, n);
    lemma_contains_prefix(z + m.boundary@, "--\r\n".spec_bytes(), n);
}

/// Every inserted header stands in the wire bytes as its own line: the
/// encoding contains the line of each header the mail carries.
pub proof fn lemma_encode_contains_header(m: EncodableMail, k: int)
    requires
        0 <= k < m.headers@.len(),
    ensures
        spec_contains(spec_encode(m), spec_header_line(m.headers@[k])),
{
    lemma_headers_enc_contains(m.headers@, k);
    let n = spec_header_line(m.headers@[k]);
    let he = spec_headers_enc(m.headers@);
    let c1 = he + "Subject: ".spec_bytes();
    lemma_contains_prefix(he, "Subject: ".spec_bytes(), n);
    let c2 = c1 + m.subject@;
    lemma_contains_prefix(c1, m.subject@, n);
    let c3 = c2 + "\r\n".spec_bytes();
    lemma_contains_prefix(c2, "\r\n".spec_bytes(), n);
    let c4 = c3 + "Message-ID: <".spec_bytes();
    lemma_contains_prefix(c3, "Message-ID: <".spec_bytes(), n);
    let c5 = c4 + spec_render_cid(m.message_id);
    lemma_contains_prefix(c4, spec_render_cid(m.message_id), n);
    let c6 = c5 + ">\r\n".spec_bytes();
    lemma_contains_prefix(c5, ">\r\n".spec_bytes(), n);
    lemma_contains_prefix(c6, "MIME-Version: 1.0\r\n".spec_bytes(), n);
    lemma_common_to_encode(m, n);
}

/// The rendered body text stands in the wire bytes unchanged.
pub proof fn lemma_encode_contains_body(m: EncodableMail)
    ensures
        spec_contains(spec_encode(m), m.body@),
{
    let n = m.body@;
    lemma_contains_self(n);
    if m.parts@.len() == 0 {
        let pre = spec_common_enc(m) + "Content-Type: text/plain\r\n\r\n".spec_bytes();
        lemma_contains_suffix(pre, n, n);
        lemma_contains_prefix(pre + m.body@, "\r\n".spec_bytes(), n);
    } else {
        let pre = spec_common_enc(m)
            + "Content-Type: multipart/related; boundary=\"".spec_bytes() + m.boundary@
            + "\"\r\n\r\n".spec_bytes() + "--".spec_bytes() + m.boundary@
            + "\r\n".spec_bytes() + "Content-Type: text/plain\r\n\r\n".spec_bytes();
        lemma_contains_suffix(pre, n, n);
        let c1 = pre + m.body@;
        lemma_contains_prefix(c1, "\r\n".spec_bytes(), n);
        let c2 = c1 + "\r\n".spec_bytes();
        lemma_contains_prefix(c2, spec_parts_enc(m.parts@, m.boundary@), n);
        let c3 = c2 + spec_parts_enc(m.parts@, m.boundary@);
        lemma_contains_prefix(c3, "--".spec_bytes(), n);
        let c4 = c3 + "--".spec_bytes();
        lemma_contains_prefix(c4, m.boundary@, n);
        lemma_contains_prefix(c4 + m.boundary@, "--\r\n".spec_bytes(), n);
    }
}

/// Each part's content ID stands in the wire bytes as its own Content-ID
/// header line: together with the rendering contract, which binds the
/// body's `cid:` reference to the very same rendered ID, the encoded mail
/// carries a part addressed by the reference the body emits.
#[verifier::rlimit(100)]
pub proof fn lemma_encode_contains_part_cid(m: EncodableMail, k: int)
    requires
        0 <= k < m.parts@.len(),
    ensures
        spec_contains(
            spec_encode(m),
            "Content-ID: <".spec_bytes() + spec_render_cid(m.parts@[k].content_id)
                + ">\r\n\r\n".spec_bytes(),
        ),
{
    let p = m.parts@[k];
    let needle = "Content-ID: <".spec_bytes() + spec_render_cid(p.content_id)
        + ">\r\n\r\n".spec_bytes();
    let seg_pre = "--".spec_bytes() + m.boundary@ + "\r\n".spec_bytes()
        + "Content-Type: ".spec_bytes() + p.media_type@ + "\r\n".spec_bytes();
    lemma_contains_self(needle);
    lemma_contains_suffix(seg_pre, needle, needle);
    lemma_concat_assoc(
        seg_pre,
        "Content-ID: <".spec_bytes() + spec_render_cid(p.content_id),
        ">\r\n\r\n".spec_bytes(),
    );
    lemma_concat_assoc(seg_pre, "Content-ID: <".spec_bytes(), spec_render_cid(p.content_id));
    let a = seg_pre + "Content-ID: <".spec_bytes() + spec_render_cid(p.content_id)
        + ">\r\n\r\n".spec_bytes();
    assert(seg_pre + needle == a);
    lemma_contains_prefix(a, p.data@, needle);
    lemma_contains_prefix(a + p.data@, "\r\n".spec_bytes(), needle);
    assert(spec_part_enc(p, m.boundary@) == a + p.data@ + "\r\n".spec_bytes());
    lemma_parts_enc_contains(m.parts@, m.boundary@, k);
    lemma_contains_trans(
        spec_parts_enc(m.parts@, m.boundary@),
        spec_part_enc(p, m.boundary@),
        needle,
    );
    lemma_parts_to_encode(m, needle);
}

/// Encoding is deterministic in content: two encodings of the same
/// encodable mail with the same requested type agree byte for byte.
pub proof fn lemma_encode_deterministic(
    m: EncodableMail,
    t: MailType,
    r1: Result<Seq<u8>, EncodeError>,
    r2: Result<Seq<u8>, EncodeError>,
)
    requires
        r1 == spec_encode_result(m, t),
        r2 == spec_encode_result(m, t),
    ensures
        r1 == r2,
{
}

} // verus!
