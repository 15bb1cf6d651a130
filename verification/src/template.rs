//! The template engine. A template definition holds a subject template and
//! a body template; rendering substitutes `{{name}}` placeholders from a
//! list of named bindings. Loading parses a metadata file of `key=value`
//! lines that names the subject template and the body template file, which
//! is resolved relative to the metadata file.

use vstd::prelude::*;
use vstd::string::*;
use crate::context::MailContext;
use crate::fileset::{FileEntry, FileSet, spec_lookup};
use crate::resource::{LoadedResource, ResourceLoadError, ResourceReference, spec_render_cid, spec_resolvable, spec_resolved_media_type};

verus! {

/// One named value a placeholder can refer to.
pub struct Binding {
    /// The placeholder name.
    pub name: Vec<u8>,
    /// The text substituted for the placeholder.
    pub value: Vec<u8>,
}

/// The bindings as pure pairs of name and value.
pub open spec fn spec_pairs(bs: Seq<Binding>) -> Seq<(Seq<u8>, Seq<u8>)> {
    bs.map_values(|b: Binding| (b.name@, b.value@))
}

/// Value of the first pair named `key` at or after `i`, if any.
pub open spec fn spec_bind_from(ps: Seq<(Seq<u8>, Seq<u8>)>, i: int, key: Seq<u8>) -> Option<
    Seq<u8>,
>
    decreases ps.len() - i when 0 <= i
{
    if i >= ps.len() {
        None
    } else if ps[i].0 == key {
        Some(ps[i].1)
    } else {
        spec_bind_from(ps, i + 1, key)
    }
}

/// Looks up the value bound to `key`; the first binding of a name wins.
fn lookup_binding(bs: &Vec<Binding>, key: &[u8]) -> (r: Option<Vec<u8>>)
    ensures
        match r {
            Some(v) => spec_bind_from(spec_pairs(bs@), 0, key@) == Some(v@),
            None => spec_bind_from(spec_pairs(bs@), 0, key@) is None,
        },
{
    let mut i: usize = 0;
    while i < bs.len()
        invariant
            0 <= i <= bs@.len(),
            spec_bind_from(spec_pairs(bs@), 0, key@) == spec_bind_from(
                spec_pairs(bs@),
                i as int,
                key@,
            ),
        decreases bs@.len() - i,
    {
        if crate::bytes_eq(bs[i].name.as_slice(), key) {
            return Some(crate::copy_bytes(bs[i].value.as_slice()));
        }
        i = i + 1;
    }
    None
}

/// Outcome of rendering a template against bindings.
pub enum RenderOut {
    /// Every placeholder was bound; the rendered text.
    Done(Seq<u8>),
    /// A placeholder with this name has no binding.
    Missing(Seq<u8>),
    /// An opening `{{` is never closed.
    Unclosed,
}

/// First position `j >= i` where `{{` ends with a matching `}}`: the first
/// `j` with `}}` at `j`, if any.
pub open spec fn spec_find_close_from(t: Seq<u8>, i: int) -> Option<int>
    decreases t.len() - i when 0 <= i
{
    if i + 1 >= t.len() {
        None
    } else if t[i] == 125 && t[i + 1] == 125 {
        Some(i)
    } else {
        spec_find_close_from(t, i + 1)
    }
}

/// A found closing brace pair lies at or after the search start, inside `t`.
proof fn lemma_find_close_bounds(t: Seq<u8>, i: int)
    requires
        0 <= i,
    ensures
        spec_find_close_from(t, i) matches Some(j) ==> i <= j && j + 1 < t.len(),
    decreases t.len() - i,
{
    if i + 1 >= t.len() {
    } else if t[i] == 125 && t[i + 1] == 125 {
    } else {
        lemma_find_close_bounds(t, i + 1);
    }
}

/// Rendering of `t` from position `i` on: plain bytes are copied; at each
/// `{{name}}` the binding's value is substituted; a placeholder without a
/// binding or without a closing `}}` fails the whole rendering.
pub open spec fn spec_render_from(t: Seq<u8>, i: int, ps: Seq<(Seq<u8>, Seq<u8>)>) -> RenderOut
    decreases t.len() - i
        when 0 <= i
        via spec_render_from_dec
{
    if i >= t.len() {
        RenderOut::Done(Seq::empty())
    } else if i + 1 < t.len() && t[i] == 123 && t[i + 1] == 123 {
        match spec_find_close_from(t, i + 2) {
            None => RenderOut::Unclosed,
            Some(j) => {
                let key = t.subrange(i + 2, j);
                match spec_bind_from(ps, 0, key) {
                    None => RenderOut::Missing(key),
                    Some(v) => match spec_render_from(t, j + 2, ps) {
                        RenderOut::Done(rest) => RenderOut::Done(v + rest),
                        o => o,
                    },
                }
            },
        }
    } else {
        match spec_render_from(t, i + 1, ps) {
            RenderOut::Done(rest) => RenderOut::Done(seq![t[i]] + rest),
            o => o,
        }
    }
}

#[via_fn]
proof fn spec_render_from_dec(t: Seq<u8>, i: int, ps: Seq<(Seq<u8>, Seq<u8>)>) {
    lemma_find_close_bounds(t, i + 2);
}

/// The whole rendering of `t`.
pub open spec fn spec_render(t: Seq<u8>, ps: Seq<(Seq<u8>, Seq<u8>)>) -> RenderOut {
    spec_render_from(t, 0, ps)
}

/// The placeholder keys of `t` from position `i` on, in scan order; the
/// scan stops at an unclosed placeholder, which no rendering survives.
pub open spec fn spec_placeholders_from(t: Seq<u8>, i: int) -> Seq<Seq<u8>>
    decreases t.len() - i
        when 0 <= i
        via spec_placeholders_from_dec
{
    if i >= t.len() {
        Seq::empty()
    } else if i + 1 < t.len() && t[i] == 123 && t[i + 1] == 123 {
        match spec_find_close_from(t, i + 2) {
            None => Seq::empty(),
            Some(j) => seq![t.subrange(i + 2, j)] + spec_placeholders_from(t, j + 2),
        }
    } else {
        spec_placeholders_from(t, i + 1)
    }
}

#[via_fn]
proof fn spec_placeholders_from_dec(t: Seq<u8>, i: int) {
    lemma_find_close_bounds(t, i + 2);
}

/// A successful rendering binds every placeholder it scanned.
proof fn lemma_done_binds_all(t: Seq<u8>, ps: Seq<(Seq<u8>, Seq<u8>)>, i: int)
    requires
        0 <= i,
        spec_render_from(t, i, ps) is Done,
    ensures
        forall|n: int|
            0 <= n < spec_placeholders_from(t, i).len() ==> spec_bind_from(
                ps,
                0,
                #[trigger] spec_placeholders_from(t, i)[n],
            ) is Some,
    decreases t.len() - i,
{
    lemma_find_close_bounds(t, i + 2);
    if i >= t.len() {
    } else if i + 1 < t.len() && t[i] == 123 && t[i + 1] == 123 {
        match spec_find_close_from(t, i + 2) {
            None => {},
            Some(j) => {
                lemma_done_binds_all(t, ps, j + 2);
                let key = t.subrange(i + 2, j);
                let here = spec_placeholders_from(t, i);
                let rest = spec_placeholders_from(t, j + 2);
                assert(here[0] == key);
                assert forall|n: int| 1 <= n < here.len() implies spec_bind_from(
                    ps,
                    0,
                    #[trigger] here[n],
                ) is Some by {
                    assert(here[n] == rest[n - 1]);
                }
            },
        }
    } else {
        lemma_done_binds_all(t, ps, i + 1);
        assert(spec_placeholders_from(t, i) =~= spec_placeholders_from(t, i + 1));
    }
}

/// A template with a required field that the data does not bind never
/// renders: no blank or default value is substituted, the rendering fails.
pub proof fn lemma_missing_field_never_renders(t: Seq<u8>, ps: Seq<(Seq<u8>, Seq<u8>)>, key: Seq<u8>)
    requires
        spec_placeholders_from(t, 0).contains(key),
        spec_bind_from(ps, 0, key) is None,
    ensures
        !(spec_render(t, ps) is Done),
{
    if spec_render(t, ps) is Done {
        lemma_done_binds_all(t, ps, 0);
        let n = choose|n: int|
            0 <= n < spec_placeholders_from(t, 0).len() && spec_placeholders_from(t, 0)[n] == key;
        assert(spec_bind_from(ps, 0, spec_placeholders_from(t, 0)[n]) is Some);
    }
}

/// `o` with `prefix` prepended to a successful rendering.
pub open spec fn spec_prepend(prefix: Seq<u8>, o: RenderOut) -> RenderOut {
    match o {
        RenderOut::Done(rest) => RenderOut::Done(prefix + rest),
        x => x,
    }
}

/// Why a rendering failed.
#[derive(Debug)]
pub enum RenderError {
    /// The template holds a placeholder with this name, but the data binds
    /// no such field: the field is required and never defaulted.
    MissingField(Vec<u8>),
    /// An opening `{{` is never closed.
    UnclosedPlaceholder,
}

/// Finds the first `}}` at or after `from`.
fn find_close(t: &[u8], from: usize) -> (r: Option<usize>)
    requires
        0 <= from,
    ensures
        match r {
            Some(j) => spec_find_close_from(t@, from as int) == Some(j as int) && from <= j && j
                + 1 < t@.len() && t@[j as int] == 125 && t@[j as int + 1] == 125,
            None => spec_find_close_from(t@, from as int) is None,
        },
{
    let mut j = from;
    if j >= t.len() {
        return None;
    }
    while j < t.len() - 1
        invariant
            from <= j,
            j <= t@.len(),
            t@.len() >= 1,
            spec_find_close_from(t@, from as int) == spec_find_close_from(t@, j as int),
        decreases t@.len() - j,
    {
        if t[j] == 125 && t[j + 1] == 125 {
            return Some(j);
        }
        j = j + 1;
    }
    None
}

/// An owned copy of `t[a..b]`.
fn sub_bytes(t: &[u8], a: usize, b: usize) -> (r: Vec<u8>)
    requires
        a <= b <= t@.len(),
    ensures
        r@ == t@.subrange(a as int, b as int),
{
    let mut out: Vec<u8> = Vec::new();
    let mut i = a;
    while i < b
        invariant
            a <= i <= b <= t@.len(),
            out@ == t@.subrange(a as int, i as int),
        decreases b - i,
    {
        out.push(t[i]);
        assert(out@ =~= t@.subrange(a as int, i + 1 as int));
        i = i + 1;
    }
    out
}

/// Renders template text against bindings. Succeeds exactly when every
/// placeholder is closed and bound; a missing field is an error, never a
/// silently rendered blank.
pub fn render_bytes(t: &[u8], bs: &Vec<Binding>) -> (r: Result<Vec<u8>, RenderError>)
    ensures
        r is Ok <==> spec_render(t@, spec_pairs(bs@)) is Done,
        r matches Ok(v) ==> spec_render(t@, spec_pairs(bs@)) == RenderOut::Done(v@),
        r matches Err(RenderError::MissingField(k)) ==> spec_render(t@, spec_pairs(bs@))
            == RenderOut::Missing(k@),
        r matches Err(RenderError::UnclosedPlaceholder) ==> spec_render(t@, spec_pairs(bs@))
            == RenderOut::Unclosed,
{
    let ghost ps = spec_pairs(bs@);
    let mut out: Vec<u8> = Vec::new();
    let mut pos: usize = 0;
    while pos < t.len()
        invariant
            0 <= pos <= t@.len(),
            ps == spec_pairs(bs@),
            spec_render(t@, ps) == spec_prepend(out@, spec_render_from(t@, pos as int, ps)),
        decreases t@.len() - pos,
    {
        if pos + 1 < t.len() && t[pos] == 123 && t[pos + 1] == 123 {
            match find_close(t, pos + 2) {
                None => {
                    return Err(RenderError::UnclosedPlaceholder);
                },
                Some(j) => {
                    let key = sub_bytes(t, pos + 2, j);
                    match lookup_binding(bs, key.as_slice()) {
                        None => {
                            return Err(RenderError::MissingField(key));
                        },
                        Some(v) => {
                            let ghost pre = out@;
                            crate::push_all(&mut out, v.as_slice());
                            proof {
                                let inner = spec_render_from(t@, j + 2 as int, ps);
                                match inner {
                                    RenderOut::Done(rest) => {
                                        assert(pre + (v@ + rest) =~= out@ + rest);
                                    },
                                    _ => {},
                                }
                                assert(spec_prepend(pre, spec_render_from(t@, pos as int, ps))
                                    == spec_prepend(out@, inner));
                            }
                            pos = j + 2;
                        },
                    }
                },
            }
        } else {
            let b = t[pos];
            let ghost pre = out@;
            out.push(b);
            proof {
                let inner = spec_render_from(t@, pos + 1 as int, ps);
                match inner {
                    RenderOut::Done(rest) => {
                        assert(pre + (seq![t@[pos as int]] + rest) =~= out@ + rest);
                    },
                    _ => {},
                }
                assert(spec_prepend(pre, spec_render_from(t@, pos as int, ps)) == spec_prepend(
                    out@,
                    inner,
                ));
            }
            pos = pos + 1;
        }
    }
    assert(spec_render_from(t@, pos as int, ps) == RenderOut::Done(Seq::<u8>::empty()));
    assert(out@ + Seq::<u8>::empty() =~= out@);
    Ok(out)
}

/// A loaded template definition: the subject template and the body
/// template, immutable and reusable across renders.
pub struct TemplateDefinition {
    /// Template for the subject line.
    pub subject: Vec<u8>,
    /// Template for the body text.
    pub body: Vec<u8>,
}

/// Why a template could not be loaded.
#[derive(Debug)]
pub enum TemplateLoadError {
    /// The metadata file or the body file it names is not in the file set.
    NotFound,
    /// A metadata line is malformed, a key is unknown, or a required key
    /// is missing.
    BadMetadata,
    /// The metadata names a renderer this engine does not provide.
    UnsupportedRenderer,
}

/// What a metadata scan accumulates: the first value of each known key,
/// and whether any line was malformed or unknown.
pub struct MetaAcc {
    /// First `subject` value, if any.
    pub subject: Option<Seq<u8>>,
    /// First `body` value, if any.
    pub body: Option<Seq<u8>>,
    /// First `renderer` value, if any.
    pub renderer: Option<Seq<u8>>,
    /// True when some line is malformed or names an unknown key.
    pub bad: bool,
}

/// First line feed at or after `i`.
pub open spec fn spec_first_lf_from(s: Seq<u8>, i: int) -> Option<int>
    decreases s.len() - i when 0 <= i
{
    if i >= s.len() {
        None
    } else if s[i] == 10 {
        Some(i)
    } else {
        spec_first_lf_from(s, i + 1)
    }
}

/// First equals sign at or after `i`.
pub open spec fn spec_first_eq_from(s: Seq<u8>, i: int) -> Option<int>
    decreases s.len() - i when 0 <= i
{
    if i >= s.len() {
        None
    } else if s[i] == 61 {
        Some(i)
    } else {
        spec_first_eq_from(s, i + 1)
    }
}

/// What one metadata line contributes: nothing for a blank or `#` comment
/// line, a key and value split at the first equals sign otherwise; a line
/// without an equals sign or with an empty key is malformed.
pub open spec fn spec_line_acc(line: Seq<u8>) -> MetaAcc {
    if line.len() == 0 || line[0] == 35 {
        MetaAcc { subject: None, body: None, renderer: None, bad: false }
    } else {
        match spec_first_eq_from(line, 0) {
            None => MetaAcc { subject: None, body: None, renderer: None, bad: true },
            Some(j) => {
                if j == 0 {
                    MetaAcc { subject: None, body: None, renderer: None, bad: true }
                } else {
                    let key = line.subrange(0, j);
                    let value = line.subrange(j + 1, line.len() as int);
                    if key == "subject".spec_bytes() {
                        MetaAcc { subject: Some(value), body: None, renderer: None, bad: false }
                    } else if key == "body".spec_bytes() {
                        MetaAcc { subject: None, body: Some(value), renderer: None, bad: false }
                    } else if key == "renderer".spec_bytes() {
                        MetaAcc { subject: None, body: None, renderer: Some(value), bad: false }
                    } else {
                        MetaAcc { subject: None, body: None, renderer: None, bad: true }
                    }
                }
            },
        }
    }
}

/// Merges two accumulators; values of `a`, the earlier lines, win.
pub open spec fn spec_merge(a: MetaAcc, b: MetaAcc) -> MetaAcc {
    MetaAcc {
        subject: if a.subject is Some {
            a.subject
        } else {
            b.subject
        },
        body: if a.body is Some {
            a.body
        } else {
            b.body
        },
        renderer: if a.renderer is Some {
            a.renderer
        } else {
            b.renderer
        },
        bad: a.bad || b.bad,
    }
}

/// A found line feed lies at or after the search start, inside `s`.
proof fn lemma_first_lf_bounds(s: Seq<u8>, i: int)
    requires
        0 <= i,
    ensures
        spec_first_lf_from(s, i) matches Some(j) ==> i <= j && j < s.len(),
    decreases s.len() - i,
{
    if i >= s.len() {
    } else if s[i] == 10 {
    } else {
        lemma_first_lf_bounds(s, i + 1);
    }
}

/// The scan of the metadata text from position `i` on, line by line.
pub open spec fn spec_meta_from(s: Seq<u8>, i: int) -> MetaAcc
    decreases s.len() - i
        when 0 <= i
        via spec_meta_from_dec
{
    if i >= s.len() {
        MetaAcc { subject: None, body: None, renderer: None, bad: false }
    } else {
        match spec_first_lf_from(s, i) {
            None => spec_line_acc(s.subrange(i, s.len() as int)),
            Some(j) => spec_merge(spec_line_acc(s.subrange(i, j)), spec_meta_from(s, j + 1)),
        }
    }
}

#[via_fn]
proof fn spec_meta_from_dec(s: Seq<u8>, i: int) {
    lemma_first_lf_bounds(s, i);
}

/// Merging accumulators is associative.
proof fn lemma_merge_assoc(a: MetaAcc, b: MetaAcc, c: MetaAcc)
    ensures
        spec_merge(a, spec_merge(b, c)) == spec_merge(spec_merge(a, b), c),
{
}

/// Finds the first line feed at or after `from`.
fn find_lf(s: &[u8], from: usize) -> (r: Option<usize>)
    ensures
        match r {
            Some(j) => spec_first_lf_from(s@, from as int) == Some(j as int) && from <= j && j
                < s@.len() && s@[j as int] == 10,
            None => spec_first_lf_from(s@, from as int) is None,
        },
{
    let mut j = from;
    while j < s.len()
        invariant
            from <= j,
            j <= s@.len() || (from > s@.len() && j == from),
            spec_first_lf_from(s@, from as int) == spec_first_lf_from(s@, j as int),
        decreases s@.len() - j,
    {
        if s[j] == 10 {
            return Some(j);
        }
        j = j + 1;
    }
    None
}

/// Finds the first equals sign at or after `from`.
fn find_eq(s: &[u8], from: usize) -> (r: Option<usize>)
    ensures
        match r {
            Some(j) => spec_first_eq_from(s@, from as int) == Some(j as int) && from <= j && j
                < s@.len() && s@[j as int] == 61,
            None => spec_first_eq_from(s@, from as int) is None,
        },
{
    let mut j = from;
    while j < s.len()
        invariant
            from <= j,
            j <= s@.len() || (from > s@.len() && j == from),
            spec_first_eq_from(s@, from as int) == spec_first_eq_from(s@, j as int),
        decreases s@.len() - j,
    {
        if s[j] == 61 {
            return Some(j);
        }
        j = j + 1;
    }
    None
}

/// The exec side of a metadata scan.
struct MetaScan {
    subject: Option<Vec<u8>>,
    body: Option<Vec<u8>>,
    renderer: Option<Vec<u8>>,
    bad: bool,
}

/// The accumulator a scan result stands for.
spec fn spec_scan_view(
    subject: Option<Vec<u8>>,
    body: Option<Vec<u8>>,
    renderer: Option<Vec<u8>>,
    bad: bool,
) -> MetaAcc {
    MetaAcc {
        subject: match subject {
            Some(v) => Some(v@),
            None => None,
        },
        body: match body {
            Some(v) => Some(v@),
            None => None,
        },
        renderer: match renderer {
            Some(v) => Some(v@),
            None => None,
        },
        bad,
    }
}

impl MetaScan {
    spec fn view_acc(&self) -> MetaAcc {
        spec_scan_view(self.subject, self.body, self.renderer, self.bad)
    }

    /// Folds one line into the scan, earlier lines winning.
    fn take_line(&mut self, s: &[u8], a: usize, b: usize)
        requires
            a <= b <= s@.len(),
        ensures
            final(self).view_acc() == spec_merge(
                old(self).view_acc(),
                spec_line_acc(s@.subrange(a as int, b as int)),
            ),
    {
        let ghost line = s@.subrange(a as int, b as int);
        if a == b || s[a] == 35 {
            return ;
        }
        assert(line.len() > 0 && line[0] != 35);
        match find_eq(s, a) {
            None => {
                self.bad = true;
                proof {
                    lemma_eq_confined(s@, a as int, b as int);
                }
            },
            Some(j) => {
                if j >= b {
                    self.bad = true;
                    proof {
                        lemma_eq_confined(s@, a as int, b as int);
                    }
                } else if j == a {
                    assert(spec_first_eq_from(line, 0) == Some(0int)) by {
                        lemma_eq_confined(s@, a as int, b as int);
                    }
                    self.bad = true;
                } else {
                    proof {
                        lemma_eq_confined(s@, a as int, b as int);
                    }
                    let key = sub_bytes(s, a, j);
                    let value = sub_bytes(s, j + 1, b);
                    assert(key@ =~= line.subrange(0, j - a));
                    assert(value@ =~= line.subrange(j - a + 1, line.len() as int));
                    if crate::bytes_eq(key.as_slice(), crate::lit_bytes("subject").as_slice()) {
                        if matches!(self.subject, None) {
                            self.subject = Some(value);
                        }
                    } else if crate::bytes_eq(key.as_slice(), crate::lit_bytes("body").as_slice()) {
                        if matches!(self.body, None) {
                            self.body = Some(value);
                        }
                    } else if crate::bytes_eq(
                        key.as_slice(),
                        crate::lit_bytes("renderer").as_slice(),
                    ) {
                        if matches!(self.renderer, None) {
                            self.renderer = Some(value);
                        }
                    } else {
                        self.bad = true;
                    }
                }
            },
        }
    }
}

/// Inside a line `s[a..b]` that has no earlier equals sign, the first
/// equals sign of the whole text at or after `a` and the first one of the
/// line coincide.
proof fn lemma_eq_confined(s: Seq<u8>, a: int, b: int)
    requires
        0 <= a <= b <= s.len(),
    ensures
        match spec_first_eq_from(s, a) {
            None => spec_first_eq_from(s.subrange(a, b), 0) is None,
            Some(j) => if j < b {
                spec_first_eq_from(s.subrange(a, b), 0) == Some(j - a)
            } else {
                spec_first_eq_from(s.subrange(a, b), 0) is None
            },
        },
    decreases b - a,
{
    let line = s.subrange(a, b);
    if a == b {
        assert(spec_first_eq_from(line, 0) is None);
        if spec_first_eq_from(s, a) matches Some(j) {
            lemma_eq_lower_bound(s, a);
        }
    } else {
        if s[a] == 61 {
            assert(spec_first_eq_from(s, a) == Some(a));
            assert(line[0] == 61);
            assert(spec_first_eq_from(line, 0) == Some(0int));
        } else {
            lemma_eq_confined(s, a + 1, b);
            let tail = s.subrange(a + 1, b);
            assert(spec_first_eq_from(s, a) == spec_first_eq_from(s, a + 1));
            assert(line[0] != 61);
            assert(spec_first_eq_from(line, 0) == spec_first_eq_from(line, 1));
            lemma_eq_shift(line, tail);
        }
    }
}

/// A first equals sign lies at or after the start of the search.
proof fn lemma_eq_lower_bound(s: Seq<u8>, i: int)
    requires
        0 <= i,
        spec_first_eq_from(s, i) is Some,
    ensures
        spec_first_eq_from(s, i)->0 >= i,
        spec_first_eq_from(s, i)->0 < s.len(),
    decreases s.len() - i,
{
    if i < s.len() && s[i] != 61 {
        lemma_eq_lower_bound(s, i + 1);
    }
}

/// Searching a line from its second byte equals searching its tail,
/// shifted by one.
proof fn lemma_eq_shift(line: Seq<u8>, tail: Seq<u8>)
    requires
        line.len() >= 1,
        tail =~= line.subrange(1, line.len() as int),
    ensures
        spec_first_eq_from(line, 1) == match spec_first_eq_from(tail, 0) {
            None => None::<int>,
            Some(j) => Some(j + 1),
        },
    decreases line.len(),
{
    lemma_eq_shift_from(line, tail, 0);
}

/// The shift, position by position.
proof fn lemma_eq_shift_from(line: Seq<u8>, tail: Seq<u8>, k: int)
    requires
        0 <= k,
        line.len() >= 1,
        tail =~= line.subrange(1, line.len() as int),
    ensures
        spec_first_eq_from(line, k + 1) == match spec_first_eq_from(tail, k) {
            None => None::<int>,
            Some(j) => Some(j + 1),
        },
    decreases tail.len() - k,
{
    if k >= tail.len() {
    } else {
        assert(line[k + 1] == tail[k]);
        if tail[k] != 61 {
            lemma_eq_shift_from(line, tail, k + 1);
        }
    }
}

/// Last slash at or before `i`.
pub open spec fn spec_last_slash_upto(p: Seq<u8>, i: int) -> Option<int>
    decreases i + 1 when i < p.len()
{
    if i < 0 {
        None
    } else if p[i] == 47 {
        Some(i)
    } else {
        spec_last_slash_upto(p, i - 1)
    }
}

/// The directory part of a path: everything up to and including the last
/// slash, empty when there is none.
pub open spec fn spec_dir(p: Seq<u8>) -> Seq<u8> {
    match spec_last_slash_upto(p, p.len() - 1) {
        None => Seq::empty(),
        Some(j) => p.subrange(0, j + 1),
    }
}

/// The directory part of `p`.
fn dir_of(p: &[u8]) -> (r: Vec<u8>)
    ensures
        r@ == spec_dir(p@),
{
    let mut i = p.len();
    while i > 0
        invariant
            0 <= i <= p@.len(),
            spec_last_slash_upto(p@, p@.len() - 1) == spec_last_slash_upto(p@, i - 1),
        decreases i,
    {
        if p[i - 1] == 47 {
            assert(spec_last_slash_upto(p@, i - 1) == Some(i - 1));
            return sub_bytes(p, 0, i);
        }
        i = i - 1;
    }
    assert(spec_last_slash_upto(p@, -1) is None);
    Vec::new()
}

/// Scans a whole metadata text.
fn scan_meta(s: &[u8]) -> (r: MetaScan)
    ensures
        r.view_acc() == spec_meta_from(s@, 0),
{
    let mut scan = MetaScan { subject: None, body: None, renderer: None, bad: false };
    let mut pos: usize = 0;
    while pos < s.len()
        invariant
            0 <= pos <= s@.len(),
            spec_meta_from(s@, 0) == spec_merge(scan.view_acc(), spec_meta_from(s@, pos as int)),
        decreases s@.len() - pos,
    {
        let ghost before = scan.view_acc();
        match find_lf(s, pos) {
            None => {
                scan.take_line(s, pos, s.len());
                proof {
                    assert(spec_meta_from(s@, pos as int) == spec_line_acc(
                        s@.subrange(pos as int, s@.len() as int),
                    ));
                    lemma_merge_assoc(
                        before,
                        spec_line_acc(s@.subrange(pos as int, s@.len() as int)),
                        spec_meta_from(s@, s@.len() as int),
                    );
                }
                pos = s.len();
            },
            Some(j) => {
                scan.take_line(s, pos, j);
                proof {
                    lemma_merge_assoc(
                        before,
                        spec_line_acc(s@.subrange(pos as int, j as int)),
                        spec_meta_from(s@, j + 1),
                    );
                }
                pos = j + 1;
            },
        }
    }
    scan
}

/// What loading yields for given files and metadata path: the subject and
/// body templates, or the failure, in this order of checks.
pub open spec fn spec_load(files: Seq<FileEntry>, path: Seq<u8>) -> Result<
    (Seq<u8>, Seq<u8>),
    TemplateLoadError,
> {
    match spec_lookup(files, path) {
        None => Err(TemplateLoadError::NotFound),
        Some(meta) => {
            let acc = spec_meta_from(meta, 0);
            if acc.bad {
                Err(TemplateLoadError::BadMetadata)
            } else if acc.renderer is Some && acc.renderer.unwrap()
                != "handlebars".spec_bytes() {
                Err(TemplateLoadError::UnsupportedRenderer)
            } else if acc.subject is None || acc.body is None {
                Err(TemplateLoadError::BadMetadata)
            } else {
                match spec_lookup(files, spec_dir(path) + acc.body.unwrap()) {
                    None => Err(TemplateLoadError::NotFound),
                    Some(b) => Ok((acc.subject.unwrap(), b)),
                }
            }
        },
    }
}

/// Loads a template definition: looks the metadata file up, parses its
/// `key=value` lines, checks the renderer directive, and reads the body
/// template named by `body`, relative to the metadata file's directory.
pub fn load_template(files: &FileSet, path: &[u8]) -> (r: Result<
    TemplateDefinition,
    TemplateLoadError,
>)
    ensures
        r matches Ok(d) ==> spec_load(files.entries@, path@) == Ok::<_, TemplateLoadError>(
            (d.subject@, d.body@),
        ),
        r matches Err(e) ==> spec_load(files.entries@, path@) == Err::<
            (Seq<u8>, Seq<u8>),
            _,
        >(e),
{
    let meta = match files.lookup(path) {
        None => {
            return Err(TemplateLoadError::NotFound);
        },
        Some(m) => m,
    };
    let scan = scan_meta(meta.as_slice());
    if scan.bad {
        return Err(TemplateLoadError::BadMetadata);
    }
    match &scan.renderer {
        Some(r) => {
            if !crate::bytes_eq(r.as_slice(), crate::lit_bytes("handlebars").as_slice()) {
                return Err(TemplateLoadError::UnsupportedRenderer);
            }
        },
        None => {},
    }
    let subject = match scan.subject {
        None => {
            return Err(TemplateLoadError::BadMetadata);
        },
        Some(s) => s,
    };
    let body_name = match scan.body {
        None => {
            return Err(TemplateLoadError::BadMetadata);
        },
        Some(b) => b,
    };
    let mut full = dir_of(path);
    crate::push_all(&mut full, body_name.as_slice());
    let body = match files.lookup(full.as_slice()) {
        None => {
            return Err(TemplateLoadError::NotFound);
        },
        Some(b) => crate::copy_bytes(b.as_slice()),
    };
    Ok(TemplateDefinition { subject, body })
}

/// A named inline embedding before resolution.
pub struct EmbeddingRef {
    /// The name the template body refers to the embedding by.
    pub name: Vec<u8>,
    /// The reference to resolve.
    pub resource: ResourceReference,
}

/// A named inline embedding after resolution.
pub struct LoadedEmbedding {
    /// The name the template body refers to the embedding by.
    pub name: Vec<u8>,
    /// The resolved, content-addressed part.
    pub resource: LoadedResource,
}

/// The typed payload of one render: named fields, named inline embeddings,
/// and attachments, all still unresolved.
pub struct TemplateData {
    /// Named text fields bound into placeholders.
    pub fields: Vec<Binding>,
    /// Named inline embeddings; names must be unique to be useful.
    pub inline_embeddings: Vec<EmbeddingRef>,
    /// Attachments.
    pub attachments: Vec<ResourceReference>,
}

/// Template data whose every embedding and attachment is resolved; only
/// this form can be rendered, so a body is never rendered before the
/// content IDs it refers to exist.
pub struct LoadedTemplateData {
    /// Named text fields bound into placeholders.
    pub fields: Vec<Binding>,
    /// Resolved inline embeddings.
    pub inline_embeddings: Vec<LoadedEmbedding>,
    /// Resolved attachments.
    pub attachments: Vec<LoadedResource>,
}

/// Every reference the data holds, embeddings first.
pub open spec fn spec_all_refs(d: TemplateData) -> Seq<ResourceReference> {
    d.inline_embeddings@.map_values(|e: EmbeddingRef| e.resource) + d.attachments@
}

impl TemplateData {
    /// Resolves every embedding and attachment, in order, drawing one
    /// content ID from the context for each; succeeds exactly when every
    /// reference resolves, and fails with the first failing reference's
    /// error. Content IDs are drawn only here, never before.
    pub fn load(self, files: &FileSet, ctx: &mut MailContext) -> (r: Result<
        LoadedTemplateData,
        ResourceLoadError,
    >)
        requires
            old(ctx).counter + self.inline_embeddings@.len() + self.attachments@.len()
                <= u64::MAX,
        ensures
            final(ctx).unique == old(ctx).unique,
            final(ctx).domain == old(ctx).domain,
            r is Ok <==> (forall|k: int|
                0 <= k < spec_all_refs(self).len() ==> spec_resolvable(
                    #[trigger] spec_all_refs(self)[k],
                    files.entries@,
                )),
            r matches Ok(d) ==> {
                &&& d.fields == self.fields
                &&& d.inline_embeddings@.len() == self.inline_embeddings@.len()
                &&& d.attachments@.len() == self.attachments@.len()
                &&& (forall|k: int|
                    0 <= k < d.inline_embeddings@.len() ==> {
                        let le = #[trigger] d.inline_embeddings@[k];
                        let re = self.inline_embeddings@[k];
                        &&& le.name@ == re.name@
                        &&& Some(le.resource.data@) == spec_lookup(
                            files.entries@,
                            re.resource.iri.tail@,
                        )
                        &&& le.resource.media_type@ == spec_resolved_media_type(re.resource)
                        &&& le.resource.content_id.seq_no == old(ctx).counter + k
                        &&& le.resource.content_id.unique@ == old(ctx).unique@
                        &&& le.resource.content_id.domain@ == old(ctx).domain@
                    })
                &&& (forall|k: int|
                    0 <= k < d.attachments@.len() ==> {
                        let la = #[trigger] d.attachments@[k];
                        let ra = self.attachments@[k];
                        &&& Some(la.data@) == spec_lookup(files.entries@, ra.iri.tail@)
                        &&& la.media_type@ == spec_resolved_media_type(ra)
                        &&& la.content_id.seq_no == old(ctx).counter
                            + self.inline_embeddings@.len() + k
                        &&& la.content_id.unique@ == old(ctx).unique@
                        &&& la.content_id.domain@ == old(ctx).domain@
                    })
                &&& final(ctx).counter == old(ctx).counter + self.inline_embeddings@.len()
                    + self.attachments@.len()
            },
            r matches Err(e) ==> exists|k: int|
                0 <= k < spec_all_refs(self).len() && !spec_resolvable(
                    #[trigger] spec_all_refs(self)[k],
                    files.entries@,
                ) && e == crate::resource::spec_resolve_err(spec_all_refs(self)[k], files.entries@)
                    && final(ctx).counter == old(ctx).counter + k && (forall|j: int|
                    0 <= j < k ==> spec_resolvable(spec_all_refs(self)[j], files.entries@)),
    {
        let TemplateData { fields, inline_embeddings, attachments } = self;
        let mut loaded_embs: Vec<LoadedEmbedding> = Vec::new();
        let mut i: usize = 0;
        while i < inline_embeddings.len()
            invariant
                0 <= i <= inline_embeddings@.len(),
                inline_embeddings@ == self.inline_embeddings@,
                attachments@ == self.attachments@,
                old(ctx).counter + inline_embeddings@.len() + attachments@.len() <= u64::MAX,
                ctx.counter == old(ctx).counter + i,
                ctx.unique == old(ctx).unique,
                ctx.domain == old(ctx).domain,
                loaded_embs@.len() == i,
                forall|j: int|
                    0 <= j < i ==> spec_resolvable(
                        #[trigger] inline_embeddings@[j].resource,
                        files.entries@,
                    ),
                forall|k: int|
                    0 <= k < i ==> {
                        let le = #[trigger] loaded_embs@[k];
                        let re = inline_embeddings@[k];
                        &&& le.name@ == re.name@
                        &&& Some(le.resource.data@) == spec_lookup(
                            files.entries@,
                            re.resource.iri.tail@,
                        )
                        &&& le.resource.media_type@ == spec_resolved_media_type(re.resource)
                        &&& le.resource.content_id.seq_no == old(ctx).counter + k
                        &&& le.resource.content_id.unique@ == old(ctx).unique@
                        &&& le.resource.content_id.domain@ == old(ctx).domain@
                    },
            decreases inline_embeddings@.len() - i,
        {
            let name = crate::copy_bytes(inline_embeddings[i].name.as_slice());
            match crate::resource::resolve(&inline_embeddings[i].resource, files, ctx) {
                Err(e) => {
                    proof {
                        assert(spec_all_refs(self)[i as int]
                            == inline_embeddings@[i as int].resource);
                        assert(forall|j: int|
                            0 <= j < i ==> spec_all_refs(self)[j]
                                == inline_embeddings@[j].resource);
                    }
                    return Err(e);
                },
                Ok(lr) => {
                    loaded_embs.push(LoadedEmbedding { name, resource: lr });
                },
            }
            i = i + 1;
        }
        let mut loaded_atts: Vec<LoadedResource> = Vec::new();
        let mut a: usize = 0;
        while a < attachments.len()
            invariant
                0 <= a <= attachments@.len(),
                inline_embeddings@ == self.inline_embeddings@,
                attachments@ == self.attachments@,
                old(ctx).counter + inline_embeddings@.len() + attachments@.len() <= u64::MAX,
                ctx.counter == old(ctx).counter + inline_embeddings@.len() + a,
                ctx.unique == old(ctx).unique,
                ctx.domain == old(ctx).domain,
                loaded_atts@.len() == a,
                forall|j: int|
                    0 <= j < inline_embeddings@.len() ==> spec_resolvable(
                        #[trigger] inline_embeddings@[j].resource,
                        files.entries@,
                    ),
                forall|j: int|
                    0 <= j < a ==> spec_resolvable(#[trigger] attachments@[j], files.entries@),
                forall|k: int|
                    0 <= k < a ==> {
                        let la = #[trigger] loaded_atts@[k];
                        let ra = attachments@[k];
                        &&& Some(la.data@) == spec_lookup(files.entries@, ra.iri.tail@)
                        &&& la.media_type@ == spec_resolved_media_type(ra)
                        &&& la.content_id.seq_no == old(ctx).counter
                            + inline_embeddings@.len() + k
                        &&& la.content_id.unique@ == old(ctx).unique@
                        &&& la.content_id.domain@ == old(ctx).domain@
                    },
            decreases attachments@.len() - a,
        {
            match crate::resource::resolve(&attachments[a], files, ctx) {
                Err(e) => {
                    proof {
                        let k = inline_embeddings@.len() + a;
                        assert(spec_all_refs(self)[k as int] == attachments@[a as int]);
                        assert(forall|j: int|
                            0 <= j < inline_embeddings@.len() ==> spec_all_refs(self)[j]
                                == inline_embeddings@[j].resource);
                        assert(forall|j: int|
                            inline_embeddings@.len() <= j < k ==> spec_all_refs(self)[j]
                                == attachments@[j - inline_embeddings@.len()]);
                    }
                    return Err(e);
                },
                Ok(lr) => {
                    loaded_atts.push(lr);
                },
            }
            a = a + 1;
        }
        proof {
            assert(forall|k: int|
                0 <= k < spec_all_refs(self).len() ==> spec_resolvable(
                    #[trigger] spec_all_refs(self)[k],
                    files.entries@,
                ));
        }
        Ok(
            LoadedTemplateData {
                fields,
                inline_embeddings: loaded_embs,
                attachments: loaded_atts,
            },
        )
    }
}

/// The binding pairs a render of loaded data works with: the text fields,
/// then each embedding's name bound to `cid:` and its content ID.
pub open spec fn spec_data_pairs(d: LoadedTemplateData) -> Seq<(Seq<u8>, Seq<u8>)> {
    spec_pairs(d.fields@) + d.inline_embeddings@.map_values(
        |e: LoadedEmbedding| (e.name@, "cid:".spec_bytes() + spec_render_cid(e.resource.content_id)),
    )
}

/// Renders loaded data against a definition: substitutes the subject and
/// body templates over the data's fields and the `cid:` bindings of its
/// embeddings, and produces a logical mail carrying the resolved parts.
/// Fails exactly when a placeholder is unclosed or unbound, the subject
/// template first.
pub fn render(def: &TemplateDefinition, data: LoadedTemplateData) -> (r: Result<
    crate::mail::Mail,
    RenderError,
>)
    ensures
        r is Ok <==> spec_render(def.subject@, spec_data_pairs(data)) is Done && spec_render(
            def.body@,
            spec_data_pairs(data),
        ) is Done,
        r matches Ok(m) ==> {
            &&& spec_render(def.subject@, spec_data_pairs(data)) == RenderOut::Done(m.subject@)
            &&& spec_render(def.body@, spec_data_pairs(data)) == RenderOut::Done(m.body@)
            &&& m.headers@.len() == 0
            &&& m.embeddings@ == data.inline_embeddings@.map_values(
                |e: LoadedEmbedding| e.resource,
            )
            &&& m.attachments@ == data.attachments@
        },
        r matches Err(e) ==> {
            let subj = spec_render(def.subject@, spec_data_pairs(data));
            let body = spec_render(def.body@, spec_data_pairs(data));
            let failed = if !(subj is Done) {
                subj
            } else {
                body
            };
            match e {
                RenderError::MissingField(k) => failed == RenderOut::Missing(k@),
                RenderError::UnclosedPlaceholder => failed == RenderOut::Unclosed,
            }
        },
{
    let ghost fields0 = data.fields@;
    let ghost embs0 = data.inline_embeddings@;
    let LoadedTemplateData { fields, mut inline_embeddings, attachments } = data;
    let mut binds = fields;
    let mut resources: Vec<LoadedResource> = Vec::new();
    while inline_embeddings.len() > 0
        invariant
            resources@.len() + inline_embeddings@.len() == embs0.len(),
            inline_embeddings@ == embs0.skip(resources@.len() as int),
            forall|i: int| 0 <= i < resources@.len() ==> #[trigger] resources@[i]
                == embs0[i].resource,
            binds@.len() == fields0.len() + resources@.len(),
            forall|i: int| 0 <= i < fields0.len() ==> #[trigger] binds@[i] == fields0[i],
            forall|i: int|
                0 <= i < resources@.len() ==> #[trigger] binds@[fields0.len() + i].name@
                    == embs0[i].name@ && binds@[fields0.len() + i].value@
                    == "cid:".spec_bytes() + spec_render_cid(embs0[i].resource.content_id),
        decreases inline_embeddings@.len(),
    {
        let ghost k = resources@.len() as int;
        let e = inline_embeddings.remove(0);
        proof {
            assert(embs0.skip(k)[0] == embs0[k]);
            assert(embs0.skip(k).remove(0) =~= embs0.skip(k + 1));
        }
        let mut val = crate::lit_bytes("cid:");
        crate::push_all(&mut val, e.resource.content_id.render().as_slice());
        binds.push(Binding { name: e.name, value: val });
        resources.push(e.resource);
    }
    proof {
        let lhs = spec_pairs(binds@);
        let rhs = spec_data_pairs(data);
        assert(lhs.len() == rhs.len());
        assert forall|i: int| 0 <= i < lhs.len() implies #[trigger] lhs[i] == rhs[i] by {
            assert(lhs[i] == (binds@[i].name@, binds@[i].value@));
            if i < fields0.len() {
                assert(rhs[i] == spec_pairs(fields0)[i]);
                assert(binds@[i] == fields0[i]);
            } else {
                let j = i - fields0.len();
                assert(0 <= j < resources@.len());
                assert(binds@[fields0.len() + j].name@ == embs0[j].name@);
                assert(binds@[fields0.len() + j].value@ == "cid:".spec_bytes()
                    + spec_render_cid(embs0[j].resource.content_id));
                assert(i == fields0.len() + j);
                assert(rhs[i] == (
                    embs0[j].name@,
                    "cid:".spec_bytes() + spec_render_cid(embs0[j].resource.content_id),
                ));
            }
        }
        assert(spec_pairs(binds@) =~~= spec_data_pairs(data));
    }
    let subject = match render_bytes(def.subject.as_slice(), &binds) {
        Err(e) => {
            return Err(e);
        },
        Ok(s) => s,
    };
    let body = match render_bytes(def.body.as_slice(), &binds) {
        Err(e) => {
            return Err(e);
        },
        Ok(b) => b,
    };
    proof {
        assert(resources@ =~= data.inline_embeddings@.map_values(
            |e: LoadedEmbedding| e.resource,
        ));
    }
    Ok(
        crate::mail::Mail {
            headers: Vec::new(),
            subject,
            body,
            embeddings: resources,
            attachments,
        },
    )
}

/// Within one load, the drawn content IDs are pairwise distinct, both as
/// serial numbers and in their rendered wire form: every embedding's ID
/// differs from every other embedding's and every attachment's.
pub proof fn lemma_content_ids_unique(d: LoadedTemplateData, start: u64, unique: Seq<u8>, domain: Seq<u8>)
    requires
        forall|k: int|
            0 <= k < d.inline_embeddings@.len() ==> {
                let c = (#[trigger] d.inline_embeddings@[k]).resource.content_id;
                c.seq_no == start + k && c.unique@ == unique && c.domain@ == domain
            },
        forall|k: int|
            0 <= k < d.attachments@.len() ==> {
                let c = (#[trigger] d.attachments@[k]).content_id;
                c.seq_no == start + d.inline_embeddings@.len() + k && c.unique@ == unique
                    && c.domain@ == domain
            },
    ensures
        forall|k: int, l: int|
            0 <= k < d.inline_embeddings@.len() && 0 <= l < d.inline_embeddings@.len() && k != l
                ==> spec_render_cid((#[trigger] d.inline_embeddings@[k]).resource.content_id)
                != spec_render_cid((#[trigger] d.inline_embeddings@[l]).resource.content_id),
        forall|k: int, l: int|
            0 <= k < d.inline_embeddings@.len() && 0 <= l < d.attachments@.len() ==>
                spec_render_cid((#[trigger] d.inline_embeddings@[k]).resource.content_id)
                != spec_render_cid((#[trigger] d.attachments@[l]).content_id),
{
    assert forall|k: int, l: int|
        0 <= k < d.inline_embeddings@.len() && 0 <= l < d.inline_embeddings@.len() && k != l
            implies spec_render_cid((#[trigger] d.inline_embeddings@[k]).resource.content_id)
            != spec_render_cid((#[trigger] d.inline_embeddings@[l]).resource.content_id) by {
        crate::resource::lemma_cid_render_injective(
            d.inline_embeddings@[k].resource.content_id,
            d.inline_embeddings@[l].resource.content_id,
        );
    }
    assert forall|k: int, l: int|
        0 <= k < d.inline_embeddings@.len() && 0 <= l < d.attachments@.len() implies
            spec_render_cid((#[trigger] d.inline_embeddings@[k]).resource.content_id)
            != spec_render_cid((#[trigger] d.attachments@[l]).content_id) by {
        crate::resource::lemma_cid_render_injective(
            d.inline_embeddings@[k].resource.content_id,
            d.attachments@[l].content_id,
        );
    }
}

} // verus!
