//! Resource references and their resolution into loaded, content-addressed
//! parts. A reference names its bytes through a locator; resolving it binds
//! the bytes, a media type, and a content ID drawn from the context, under
//! which the rendered body can address the part inline.

use vstd::prelude::*;
use vstd::string::*;
use crate::context::MailContext;
use crate::fileset::{FileSet, spec_lookup};

verus! {

/// Why a resource reference could not be resolved.
#[derive(Clone, Copy, PartialEq, Eq, Structural, Debug)]
pub enum ResourceLoadError {
    /// The locator is not well formed.
    MalformedLocator,
    /// The locator names a scheme this resolver cannot reach, or a file
    /// that is not there.
    UnreachableLocator,
    /// No media type was given and none could be told from the locator.
    AmbiguousMediaType,
}

/// True when `s` can stand as a locator scheme: nonempty lowercase letters.
pub open spec fn spec_valid_scheme(s: Seq<u8>) -> bool {
    s.len() > 0 && forall|i: int| 0 <= i < s.len() ==> 97 <= #[trigger] s[i] <= 122
}

/// A locator for external content: a scheme and the rest of the reference.
pub struct Iri {
    /// The scheme, for example `path`.
    pub scheme: Vec<u8>,
    /// The part after the scheme; for `path` it names a file.
    pub tail: Vec<u8>,
}

impl Iri {
    /// Builds a locator, rejecting a malformed scheme.
    pub fn from_parts(scheme: Vec<u8>, tail: Vec<u8>) -> (r: Result<Iri, ResourceLoadError>)
        ensures
            r is Ok <==> spec_valid_scheme(scheme@),
            r matches Ok(iri) ==> iri.scheme == scheme && iri.tail == tail,
            r matches Err(e) ==> e == ResourceLoadError::MalformedLocator,
    {
        if scheme.len() == 0 {
            return Err(ResourceLoadError::MalformedLocator);
        }
        let mut i: usize = 0;
        while i < scheme.len()
            invariant
                0 <= i <= scheme@.len(),
                forall|j: int| 0 <= j < i ==> 97 <= #[trigger] scheme@[j] <= 122,
            decreases scheme@.len() - i,
        {
            if scheme[i] < 97 || scheme[i] > 122 {
                return Err(ResourceLoadError::MalformedLocator);
            }
            i = i + 1;
        }
        Ok(Iri { scheme, tail })
    }
}

/// A reference to content that will become a mail part: a locator plus
/// optional overrides for the media type and the file name.
pub struct ResourceReference {
    /// Where the bytes come from.
    pub iri: Iri,
    /// Media type to use instead of telling one from the locator.
    pub use_media_type: Option<Vec<u8>>,
    /// File name to present instead of the locator's own.
    pub use_file_name: Option<Vec<u8>>,
}

/// A content ID: a serial number unique within its context, the context's
/// unique tag, and its domain. Two IDs drawn from one context always differ,
/// because their serial numbers do.
pub struct ContentId {
    /// Serial number within the issuing context.
    pub seq_no: u64,
    /// The issuing context's unique tag.
    pub unique: Vec<u8>,
    /// The issuing context's domain.
    pub domain: Vec<u8>,
}

/// The wire form of a content ID: serial, dot, tag, at sign, domain.
pub open spec fn spec_render_cid(c: ContentId) -> Seq<u8> {
    crate::spec_dec(c.seq_no) + ".".spec_bytes() + c.unique@ + "@".spec_bytes() + c.domain@
}

impl ContentId {
    /// Renders the ID in its wire form.
    pub fn render(&self) -> (r: Vec<u8>)
        ensures
            r@ == spec_render_cid(*self),
    {
        let mut out = crate::dec_bytes(self.seq_no);
        crate::push_all(&mut out, crate::lit_bytes(".").as_slice());
        crate::push_all(&mut out, self.unique.as_slice());
        crate::push_all(&mut out, crate::lit_bytes("@").as_slice());
        crate::push_all(&mut out, self.domain.as_slice());
        out
    }
}

/// IDs from one context render to different byte strings whenever their
/// serial numbers differ.
pub proof fn lemma_cid_render_injective(a: ContentId, b: ContentId)
    requires
        a.seq_no != b.seq_no,
        a.unique@ == b.unique@,
        a.domain@ == b.domain@,
    ensures
        spec_render_cid(a) != spec_render_cid(b),
{
    crate::lemma_dec_injective(a.seq_no, b.seq_no);
    if spec_render_cid(a) == spec_render_cid(b) {
        let la = crate::spec_dec(a.seq_no).len() as int;
        let lb = crate::spec_dec(b.seq_no).len() as int;
        assert(spec_render_cid(a).len() == spec_render_cid(b).len());
        assert(la == lb);
        assert(crate::spec_dec(a.seq_no) =~= spec_render_cid(a).subrange(0, la));
        assert(crate::spec_dec(b.seq_no) =~= spec_render_cid(b).subrange(0, lb));
    }
}

/// A resolved resource: its bytes, its media type, and its content ID.
pub struct LoadedResource {
    /// The resolved bytes.
    pub data: Vec<u8>,
    /// The media type of the bytes.
    pub media_type: Vec<u8>,
    /// The ID under which the body can address this part.
    pub content_id: ContentId,
}

/// True when `s` ends with `suffix`.
pub open spec fn spec_ends_with(s: Seq<u8>, suffix: Seq<u8>) -> bool {
    s.len() >= suffix.len() && s.skip(s.len() - suffix.len()) == suffix
}

/// Checks whether `s` ends with `suffix`.
pub fn ends_with(s: &[u8], suffix: &[u8]) -> (r: bool)
    ensures
        r == spec_ends_with(s@, suffix@),
{
    if s.len() < suffix.len() {
        return false;
    }
    let start: usize = s.len() - suffix.len();
    let mut i: usize = 0;
    while i < suffix.len()
        invariant
            0 <= i <= suffix@.len(),
            suffix@.len() <= s@.len() <= usize::MAX,
            start == s@.len() - suffix@.len(),
            forall|j: int| 0 <= j < i ==> s@[start + j] == suffix@[j],
        decreases suffix@.len() - i,
    {
        assert(start + i < s@.len());
        if s[start + i] != suffix[i] {
            assert(s@.skip(start as int)[i as int] != suffix@[i as int]);
            return false;
        }
        i = i + 1;
    }
    assert(s@.skip(start as int) =~= suffix@);
    true
}

/// The media type told from a locator's file ending, if any can be told.
pub open spec fn spec_sniff_media_type(tail: Seq<u8>) -> Option<Seq<u8>> {
    if spec_ends_with(tail, ".png".spec_bytes()) {
        Some("image/png".spec_bytes())
    } else if spec_ends_with(tail, ".txt".spec_bytes()) {
        Some("text/plain".spec_bytes())
    } else if spec_ends_with(tail, ".html".spec_bytes()) {
        Some("text/html".spec_bytes())
    } else {
        None
    }
}

/// Tells a media type from a locator's file ending.
fn sniff_media_type(tail: &[u8]) -> (r: Option<Vec<u8>>)
    ensures
        match r {
            Some(m) => spec_sniff_media_type(tail@) == Some(m@),
            None => spec_sniff_media_type(tail@) is None,
        },
{
    if ends_with(tail, crate::lit_bytes(".png").as_slice()) {
        Some(crate::lit_bytes("image/png"))
    } else if ends_with(tail, crate::lit_bytes(".txt").as_slice()) {
        Some(crate::lit_bytes("text/plain"))
    } else if ends_with(tail, crate::lit_bytes(".html").as_slice()) {
        Some(crate::lit_bytes("text/html"))
    } else {
        None
    }
}

/// True when resolving `r` against `files` succeeds: the scheme is `path`,
/// the named file is present, and a media type is given or can be told.
pub open spec fn spec_resolvable(r: ResourceReference, files: Seq<crate::fileset::FileEntry>) -> bool {
    &&& r.iri.scheme@ == "path".spec_bytes()
    &&& spec_lookup(files, r.iri.tail@) is Some
    &&& (r.use_media_type is Some || spec_sniff_media_type(r.iri.tail@) is Some)
}

/// The media type a successful resolution of `r` carries: the override when
/// one was given, the told one otherwise.
pub open spec fn spec_resolved_media_type(r: ResourceReference) -> Seq<u8> {
    match r.use_media_type {
        Some(m) => m@,
        None => spec_sniff_media_type(r.iri.tail@).unwrap(),
    }
}

/// The error a failing resolution reports: a malformed locator first, then
/// an unreachable file, then an untold media type.
pub open spec fn spec_resolve_err(r: ResourceReference, files: Seq<crate::fileset::FileEntry>) -> ResourceLoadError {
    if r.iri.scheme@ != "path".spec_bytes() {
        ResourceLoadError::MalformedLocator
    } else if spec_lookup(files, r.iri.tail@) is None {
        ResourceLoadError::UnreachableLocator
    } else {
        ResourceLoadError::AmbiguousMediaType
    }
}

/// Resolves a reference against a file set, drawing the part's content ID
/// from the context. The ID is drawn only on success, so a failed
/// resolution leaves the context untouched.
pub fn resolve(
    r: &ResourceReference,
    files: &FileSet,
    ctx: &mut MailContext,
) -> (res: Result<LoadedResource, ResourceLoadError>)
    requires
        old(ctx).counter < u64::MAX,
    ensures
        res is Ok <==> spec_resolvable(*r, files.entries@),
        res matches Ok(lr) ==> {
            &&& Some(lr.data@) == spec_lookup(files.entries@, r.iri.tail@)
            &&& lr.media_type@ == spec_resolved_media_type(*r)
            &&& lr.content_id.seq_no == old(ctx).counter
            &&& lr.content_id.unique@ == old(ctx).unique@
            &&& lr.content_id.domain@ == old(ctx).domain@
            &&& final(ctx).counter == old(ctx).counter + 1
        },
        res is Err ==> *final(ctx) == *old(ctx),
        final(ctx).unique == old(ctx).unique,
        final(ctx).domain == old(ctx).domain,
        res matches Err(e) ==> e == spec_resolve_err(*r, files.entries@),
{
    if !crate::bytes_eq(r.iri.scheme.as_slice(), crate::lit_bytes("path").as_slice()) {
        return Err(ResourceLoadError::MalformedLocator);
    }
    let data = match files.lookup(r.iri.tail.as_slice()) {
        None => {
            return Err(ResourceLoadError::UnreachableLocator);
        },
        Some(d) => crate::copy_bytes(d.as_slice()),
    };
    let media_type = match &r.use_media_type {
        Some(m) => crate::copy_bytes(m.as_slice()),
        None => match sniff_media_type(r.iri.tail.as_slice()) {
            Some(m) => m,
            None => {
                return Err(ResourceLoadError::AmbiguousMediaType);
            },
        },
    };
    let seq_no = ctx.fresh_id();
    let unique = crate::copy_bytes(ctx.unique.as_slice());
    let domain = crate::copy_bytes(ctx.domain.as_slice());
    Ok(
        LoadedResource {
            data,
            media_type,
            content_id: ContentId { seq_no, unique, domain },
        },
    )
}

} // verus!
