//! Type-safe wrappers around single templates. Each wrapper owns one
//! loaded template definition and accepts only its own input data, so a
//! caller cannot feed one template another template's payload.

use vstd::prelude::*;
use vstd::string::*;
use vstd::utf8::encode_utf8;
use crate::context::MailContext;
use crate::fileset::FileSet;
use crate::mail::{
    Header, HeaderValueError, Mail, spec_is_address_header, spec_valid_address,
    spec_valid_header_name,
};
use crate::resource::{ContentId, Iri, ResourceLoadError, ResourceReference, spec_render_cid};
use crate::template::{
    Binding, EmbeddingRef, LoadedTemplateData, RenderError, RenderOut, TemplateData,
    TemplateDefinition, TemplateLoadError, render, load_template, spec_data_pairs, spec_load,
    spec_render,
};

verus! {

/// Why creating a mail from a template failed.
#[derive(Debug)]
pub enum PipelineError {
    /// An embedding or attachment could not be resolved; resolution errors
    /// propagate as they are, never masked.
    Resource(ResourceLoadError),
    /// The subject or body template could not be rendered.
    Render(RenderError),
    /// A supplied header was refused.
    Header(HeaderValueError),
}

/// `From` and `To` are well-formed address header names.
proof fn lemma_address_header_names()
    ensures
        spec_valid_header_name("From".spec_bytes()),
        spec_valid_header_name("To".spec_bytes()),
        spec_is_address_header("From".spec_bytes()),
        spec_is_address_header("To".spec_bytes()),
{
    reveal_strlit("From");
    reveal_strlit("To");
    broadcast use vstd::string::is_ascii_spec_bytes;

    assert(is_ascii("From"));
    assert(is_ascii("To"));
    assert("From".spec_bytes() =~= seq!['F' as u8, 'r' as u8, 'o' as u8, 'm' as u8]);
    assert("To".spec_bytes() =~= seq!['T' as u8, 'o' as u8]);
}

/// The input payload of the hello-world template: the two text fields its
/// body refers to.
pub struct HelloWorldData {
    /// Bound to the `name` placeholder.
    pub name: String,
    /// Bound to the `target` placeholder.
    pub target: String,
}

/// The binding pairs a hello-world render works with.
pub open spec fn spec_hello_pairs(data: HelloWorldData) -> Seq<(Seq<u8>, Seq<u8>)> {
    seq![
        ("name".spec_bytes(), encode_utf8(data.name@)),
        ("target".spec_bytes(), encode_utf8(data.target@)),
    ]
}

/// A type-safe wrapper around the hello-world template.
pub struct HelloWorldTemplate(pub TemplateDefinition);

impl HelloWorldTemplate {
    /// The metadata path of this template.
    pub fn path() -> (r: &'static str)
        ensures
            r@ == "./templates/hello_world/template.toml"@,
    {
        "./templates/hello_world/template.toml"
    }

    /// Loads the template from its well-known path in the file set.
    pub fn load(files: &FileSet) -> (r: Result<HelloWorldTemplate, TemplateLoadError>)
        ensures
            r matches Ok(t) ==> spec_load(
                files.entries@,
                "./templates/hello_world/template.toml".spec_bytes(),
            ) == Ok::<_, TemplateLoadError>((t.0.subject@, t.0.body@)),
            r matches Err(e) ==> spec_load(
                files.entries@,
                "./templates/hello_world/template.toml".spec_bytes(),
            ) == Err::<(Seq<u8>, Seq<u8>), _>(e),
    {
        let path = crate::lit_bytes(Self::path());
        match load_template(files, path.as_slice()) {
            Ok(def) => Ok(HelloWorldTemplate(def)),
            Err(e) => Err(e),
        }
    }

    /// Renders a mail from the template and inserts the From and To
    /// headers. Succeeds exactly when both templates render over the two
    /// fields and both addresses are valid; a missing template field or an
    /// invalid address is an error, nothing is defaulted.
    pub fn create_mail(&self, from: &str, to: &str, data: HelloWorldData) -> (r: Result<
        Mail,
        PipelineError,
    >)
        ensures
            r is Ok <==> {
                &&& spec_render(self.0.subject@, spec_hello_pairs(data)) is Done
                &&& spec_render(self.0.body@, spec_hello_pairs(data)) is Done
                &&& spec_valid_address(from.spec_bytes())
                &&& spec_valid_address(to.spec_bytes())
            },
            r matches Ok(m) ==> {
                &&& spec_render(self.0.subject@, spec_hello_pairs(data)) == RenderOut::Done(
                    m.subject@,
                )
                &&& spec_render(self.0.body@, spec_hello_pairs(data)) == RenderOut::Done(m.body@)
                &&& m.headers@.len() == 2
                &&& m.headers@[0].name@ == "From".spec_bytes()
                &&& m.headers@[0].value@ == from.spec_bytes()
                &&& m.headers@[1].name@ == "To".spec_bytes()
                &&& m.headers@[1].value@ == to.spec_bytes()
                &&& m.embeddings@.len() == 0
                &&& m.attachments@.len() == 0
            },
            !(spec_render(self.0.subject@, spec_hello_pairs(data)) is Done && spec_render(
                self.0.body@,
                spec_hello_pairs(data),
            ) is Done) ==> (r matches Err(PipelineError::Render(e)) && {
                let failed = if !(spec_render(self.0.subject@, spec_hello_pairs(data)) is Done) {
                    spec_render(self.0.subject@, spec_hello_pairs(data))
                } else {
                    spec_render(self.0.body@, spec_hello_pairs(data))
                };
                match e {
                    RenderError::MissingField(k) => failed == RenderOut::Missing(k@),
                    RenderError::UnclosedPlaceholder => failed == RenderOut::Unclosed,
                }
            }),
            spec_render(self.0.subject@, spec_hello_pairs(data)) is Done && spec_render(
                self.0.body@,
                spec_hello_pairs(data),
            ) is Done && !(spec_valid_address(from.spec_bytes()) && spec_valid_address(
                to.spec_bytes(),
            )) ==> r matches Err(PipelineError::Header(_)),
            r matches Err(PipelineError::Header(_)) ==> !(spec_valid_address(from.spec_bytes())
                && spec_valid_address(to.spec_bytes())),
            !(r matches Err(PipelineError::Resource(_))),
    {
        let mut fields: Vec<Binding> = Vec::new();
        fields.push(
            Binding { name: crate::lit_bytes("name"), value: data.name.as_str().as_bytes_vec() },
        );
        fields.push(
            Binding {
                name: crate::lit_bytes("target"),
                value: data.target.as_str().as_bytes_vec(),
            },
        );
        let ldata = LoadedTemplateData {
            fields,
            inline_embeddings: Vec::new(),
            attachments: Vec::new(),
        };
        proof {
            let lhs = spec_data_pairs(ldata);
            let rhs = spec_hello_pairs(data);
            assert(lhs.len() == 2);
            assert(lhs[0] == rhs[0]);
            assert(lhs[1] == rhs[1]);
            assert(lhs =~~= rhs);
        }
        let mut mail = match render(&self.0, ldata) {
            Err(e) => {
                return Err(PipelineError::Render(e));
            },
            Ok(m) => m,
        };
        let mut headers: Vec<Header> = Vec::new();
        headers.push(Header { name: crate::lit_bytes("From"), value: from.as_bytes_vec() });
        headers.push(Header { name: crate::lit_bytes("To"), value: to.as_bytes_vec() });
        proof {
            lemma_address_header_names();
            lemma_address_implies_value(from.spec_bytes());
            lemma_address_implies_value(to.spec_bytes());
            assert(headers@[0].name@ == "From".spec_bytes());
            assert(headers@[1].name@ == "To".spec_bytes());
        }
        match mail.insert_headers(headers) {
            Err(e) => Err(PipelineError::Header(e)),
            Ok(()) => Ok(mail),
        }
    }
}

/// A valid address is in particular a valid header value.
proof fn lemma_address_implies_value(a: Seq<u8>)
    ensures
        spec_valid_address(a) ==> crate::mail::spec_valid_header_value(a),
{
    if spec_valid_address(a) {
        assert forall|i: int| 0 <= i < a.len() implies 32 <= #[trigger] a[i] <= 126 by {
            assert(33 <= a[i] <= 126);
        }
    }
}

/// The avatar template takes no text fields at all.
pub struct AvatarData;

/// The reference the avatar template resolves for its one embedding.
pub open spec fn spec_avatar_ref(iri: Iri) -> ResourceReference {
    ResourceReference { iri, use_media_type: None, use_file_name: None }
}

/// The content ID the next resolution against `c` will assign.
pub open spec fn spec_next_cid(c: MailContext) -> ContentId {
    ContentId { seq_no: c.counter, unique: c.unique, domain: c.domain }
}

/// The binding pairs an avatar render works with: the single `avatar`
/// embedding, bound to its `cid:` reference.
pub open spec fn spec_avatar_pairs(c: MailContext) -> Seq<(Seq<u8>, Seq<u8>)> {
    seq![("avatar".spec_bytes(), "cid:".spec_bytes() + spec_render_cid(spec_next_cid(c)))]
}

/// A type-safe wrapper around the avatar template, whose body embeds one
/// image inline.
pub struct AvatarTemplate(pub TemplateDefinition);

impl AvatarTemplate {
    /// The metadata path of this template.
    pub fn path() -> (r: &'static str)
        ensures
            r@ == "./templates/avatar/template.toml"@,
    {
        "./templates/avatar/template.toml"
    }

    /// Loads the template from its well-known path in the file set.
    pub fn load(files: &FileSet) -> (r: Result<AvatarTemplate, TemplateLoadError>)
        ensures
            r matches Ok(t) ==> spec_load(
                files.entries@,
                "./templates/avatar/template.toml".spec_bytes(),
            ) == Ok::<_, TemplateLoadError>((t.0.subject@, t.0.body@)),
            r matches Err(e) ==> spec_load(
                files.entries@,
                "./templates/avatar/template.toml".spec_bytes(),
            ) == Err::<(Seq<u8>, Seq<u8>), _>(e),
    {
        let path = crate::lit_bytes(Self::path());
        match load_template(files, path.as_slice()) {
            Ok(def) => Ok(AvatarTemplate(def)),
            Err(e) => Err(e),
        }
    }

    /// Builds the template data for one avatar image and resolves it, so
    /// that the embedding carries a content ID before any rendering; only
    /// loaded data can reliably be referred to by `cid:`.
    pub fn prepare_data(iri: Iri, files: &FileSet, ctx: &mut MailContext) -> (r: Result<
        LoadedTemplateData,
        ResourceLoadError,
    >)
        requires
            old(ctx).counter < u64::MAX,
        ensures
            final(ctx).unique == old(ctx).unique,
            final(ctx).domain == old(ctx).domain,
            r is Ok <==> crate::resource::spec_resolvable(spec_avatar_ref(iri), files.entries@),
            r is Err ==> final(ctx).counter == old(ctx).counter,
            r matches Ok(d) ==> {
                &&& d.fields@.len() == 0
                &&& d.attachments@.len() == 0
                &&& d.inline_embeddings@.len() == 1
                &&& d.inline_embeddings@[0].name@ == "avatar".spec_bytes()
                &&& Some(d.inline_embeddings@[0].resource.data@) == crate::fileset::spec_lookup(
                    files.entries@,
                    iri.tail@,
                )
                &&& d.inline_embeddings@[0].resource.media_type@
                    == crate::resource::spec_resolved_media_type(spec_avatar_ref(iri))
                &&& d.inline_embeddings@[0].resource.content_id.seq_no == old(ctx).counter
                &&& d.inline_embeddings@[0].resource.content_id.unique@ == old(ctx).unique@
                &&& d.inline_embeddings@[0].resource.content_id.domain@ == old(ctx).domain@
                &&& final(ctx).counter == old(ctx).counter + 1
            },
            r matches Err(e) ==> e == crate::resource::spec_resolve_err(
                spec_avatar_ref(iri),
                files.entries@,
            ),
    {
        let mut embeddings: Vec<EmbeddingRef> = Vec::new();
        embeddings.push(
            EmbeddingRef {
                name: crate::lit_bytes("avatar"),
                resource: ResourceReference { iri, use_media_type: None, use_file_name: None },
            },
        );
        let template_data = TemplateData {
            fields: Vec::new(),
            inline_embeddings: embeddings,
            attachments: Vec::new(),
        };
        let ghost refs = crate::template::spec_all_refs(template_data);
        let ghost td = template_data;
        proof {
            assert(refs =~= seq![spec_avatar_ref(iri)]);
            assert(refs[0] == spec_avatar_ref(iri));
            assert(td.inline_embeddings@[0].resource == spec_avatar_ref(iri));
            assert(td.inline_embeddings@[0].name@ == "avatar".spec_bytes());
        }
        let r = template_data.load(files, ctx);
        proof {
            if crate::resource::spec_resolvable(spec_avatar_ref(iri), files.entries@) {
                assert(forall|k: int|
                    0 <= k < refs.len() ==> crate::resource::spec_resolvable(
                        #[trigger] refs[k],
                        files.entries@,
                    ));
            }
            match &r {
                Ok(d) => {
                    assert(d.inline_embeddings@[0].name@ == td.inline_embeddings@[0].name@);
                },
                Err(_) => {
                    assert(!crate::resource::spec_resolvable(refs[0], files.entries@));
                },
            }
        }
        r
    }

    /// Resolves the avatar, renders a mail whose body refers to it by
    /// `cid:`, and inserts the From and To headers. Resolution comes
    /// first, rendering second, headers last; the first failure is
    /// returned and nothing is masked.
    pub fn create_mail(
        &self,
        from: &str,
        to: &str,
        avatar_iri: Iri,
        files: &FileSet,
        ctx: &mut MailContext,
    ) -> (r: Result<Mail, PipelineError>)
        requires
            old(ctx).counter < u64::MAX,
        ensures
            final(ctx).unique == old(ctx).unique,
            final(ctx).domain == old(ctx).domain,
            r is Ok <==> {
                &&& crate::resource::spec_resolvable(spec_avatar_ref(avatar_iri), files.entries@)
                &&& spec_render(self.0.subject@, spec_avatar_pairs(*old(ctx))) is Done
                &&& spec_render(self.0.body@, spec_avatar_pairs(*old(ctx))) is Done
                &&& spec_valid_address(from.spec_bytes())
                &&& spec_valid_address(to.spec_bytes())
            },
            r matches Ok(m) ==> {
                &&& spec_render(self.0.subject@, spec_avatar_pairs(*old(ctx)))
                    == RenderOut::Done(m.subject@)
                &&& spec_render(self.0.body@, spec_avatar_pairs(*old(ctx))) == RenderOut::Done(
                    m.body@,
                )
                &&& m.headers@.len() == 2
                &&& m.headers@[0].name@ == "From".spec_bytes()
                &&& m.headers@[0].value@ == from.spec_bytes()
                &&& m.headers@[1].name@ == "To".spec_bytes()
                &&& m.headers@[1].value@ == to.spec_bytes()
                &&& m.embeddings@.len() == 1
                &&& m.embeddings@[0].content_id.seq_no == old(ctx).counter
                &&& m.embeddings@[0].content_id.unique@ == old(ctx).unique@
                &&& m.embeddings@[0].content_id.domain@ == old(ctx).domain@
                &&& Some(m.embeddings@[0].data@) == crate::fileset::spec_lookup(
                    files.entries@,
                    avatar_iri.tail@,
                )
                &&& m.attachments@.len() == 0
            },
            !crate::resource::spec_resolvable(spec_avatar_ref(avatar_iri), files.entries@)
                ==> (r matches Err(PipelineError::Resource(e)) && e
                == crate::resource::spec_resolve_err(spec_avatar_ref(avatar_iri), files.entries@)
                && final(ctx).counter == old(ctx).counter),
            crate::resource::spec_resolvable(spec_avatar_ref(avatar_iri), files.entries@)
                && !(spec_render(self.0.subject@, spec_avatar_pairs(*old(ctx))) is Done
                && spec_render(self.0.body@, spec_avatar_pairs(*old(ctx))) is Done)
                ==> r matches Err(PipelineError::Render(_)),
            crate::resource::spec_resolvable(spec_avatar_ref(avatar_iri), files.entries@)
                && spec_render(self.0.subject@, spec_avatar_pairs(*old(ctx))) is Done
                && spec_render(self.0.body@, spec_avatar_pairs(*old(ctx))) is Done
                && !(spec_valid_address(from.spec_bytes()) && spec_valid_address(
                to.spec_bytes(),
            )) ==> r matches Err(PipelineError::Header(_)),
            r matches Err(PipelineError::Render(e)) ==> {
                let failed = if !(spec_render(self.0.subject@, spec_avatar_pairs(*old(ctx)))
                    is Done) {
                    spec_render(self.0.subject@, spec_avatar_pairs(*old(ctx)))
                } else {
                    spec_render(self.0.body@, spec_avatar_pairs(*old(ctx)))
                };
                match e {
                    RenderError::MissingField(k) => failed == RenderOut::Missing(k@),
                    RenderError::UnclosedPlaceholder => failed == RenderOut::Unclosed,
                }
            },
            r matches Err(PipelineError::Header(_)) ==> !(spec_valid_address(from.spec_bytes())
                && spec_valid_address(to.spec_bytes())),
    {
        let data = match Self::prepare_data(avatar_iri, files, ctx) {
            Err(e) => {
                return Err(PipelineError::Resource(e));
            },
            Ok(d) => d,
        };
        proof {
            let lhs = spec_data_pairs(data);
            let rhs = spec_avatar_pairs(*old(ctx));
            assert(lhs.len() == 1);
            assert(lhs[0].0 == rhs[0].0);
            assert(spec_render_cid(data.inline_embeddings@[0].resource.content_id)
                == spec_render_cid(spec_next_cid(*old(ctx))));
            assert(lhs[0].1 == rhs[0].1);
            assert(lhs =~~= rhs);
        }
        let mut mail = match render(&self.0, data) {
            Err(e) => {
                return Err(PipelineError::Render(e));
            },
            Ok(m) => m,
        };
        let mut headers: Vec<Header> = Vec::new();
        headers.push(Header { name: crate::lit_bytes("From"), value: from.as_bytes_vec() });
        headers.push(Header { name: crate::lit_bytes("To"), value: to.as_bytes_vec() });
        proof {
            lemma_address_header_names();
            lemma_address_implies_value(from.spec_bytes());
            lemma_address_implies_value(to.spec_bytes());
            assert(headers@[0].name@ == "From".spec_bytes());
            assert(headers@[1].name@ == "To".spec_bytes());
        }
        match mail.insert_headers(headers) {
            Err(e) => Err(PipelineError::Header(e)),
            Ok(()) => Ok(mail),
        }
    }
}

} // verus!
