//! End-to-end tests of the composition pipeline: template loading and
//! rendering, resource resolution with content addressing, header
//! insertion, the phase transition, and byte encoding.

use mail_pipeline::context::MailContext;
use mail_pipeline::fileset::FileSet;
use mail_pipeline::mail::{Header, HeaderValueError, MailType};
use mail_pipeline::resource::{Iri, ResourceLoadError, ResourceReference};
use mail_pipeline::template::{
    Binding, EmbeddingRef, RenderError, TemplateData, TemplateLoadError, load_template,
    render_bytes,
};
use mail_pipeline::templates::{AvatarTemplate, HelloWorldData, HelloWorldTemplate, PipelineError};
use mail_pipeline::mail::into_encodable;

fn b(s: &str) -> Vec<u8> {
    s.as_bytes().to_vec()
}

fn hello_files() -> FileSet {
    let mut files = FileSet::new();
    files.add(
        b("./templates/hello_world/template.toml"),
        b("# hello world template\nsubject=Hello {{name}}\nbody=body.txt\nrenderer=handlebars\n"),
    );
    files.add(
        b("./templates/hello_world/body.txt"),
        b("Hello {{name}}, nice greetings from {{target}}.\n"),
    );
    files
}

fn avatar_files() -> FileSet {
    let mut files = FileSet::new();
    files.add(
        b("./templates/avatar/template.toml"),
        b("subject=Your avatar\nbody=body.txt\nrenderer=handlebars\n"),
    );
    files.add(b("./templates/avatar/body.txt"), b("Here it is: {{avatar}}\n"));
    files.add(b("./templates/hello_world/logo.png"), b("PNGDATA"));
    files
}

fn ctx() -> MailContext {
    MailContext::new(b("example.com"), b("u1"))
}

fn contains(haystack: &[u8], needle: &[u8]) -> bool {
    haystack.windows(needle.len()).any(|w| w == needle)
}

fn count(haystack: &[u8], needle: &[u8]) -> usize {
    haystack.windows(needle.len()).filter(|w| *w == needle).count()
}

#[test]
fn load_hello_world_template() {
    let files = hello_files();
    let t = HelloWorldTemplate::load(&files).unwrap();
    assert_eq!(t.0.subject, b("Hello {{name}}"));
    assert_eq!(t.0.body, b("Hello {{name}}, nice greetings from {{target}}.\n"));
}

#[test]
fn load_missing_template_fails() {
    let files = FileSet::new();
    let r = HelloWorldTemplate::load(&files);
    assert!(matches!(r, Err(TemplateLoadError::NotFound)));
}

#[test]
fn load_missing_body_file_fails() {
    let mut files = FileSet::new();
    files.add(
        b("./templates/hello_world/template.toml"),
        b("subject=Hi\nbody=absent.txt\n"),
    );
    let r = HelloWorldTemplate::load(&files);
    assert!(matches!(r, Err(TemplateLoadError::NotFound)));
}

#[test]
fn load_malformed_metadata_fails() {
    let mut files = FileSet::new();
    files.add(b("./templates/hello_world/template.toml"), b("subject Hello\n"));
    let r = HelloWorldTemplate::load(&files);
    assert!(matches!(r, Err(TemplateLoadError::BadMetadata)));
}

#[test]
fn load_unknown_key_fails() {
    let mut files = FileSet::new();
    files.add(
        b("./templates/hello_world/template.toml"),
        b("subject=Hi\nbody=b.txt\ncolour=red\n"),
    );
    let r = HelloWorldTemplate::load(&files);
    assert!(matches!(r, Err(TemplateLoadError::BadMetadata)));
}

#[test]
fn load_missing_subject_fails() {
    let mut files = FileSet::new();
    files.add(b("./templates/hello_world/template.toml"), b("body=b.txt\n"));
    let r = HelloWorldTemplate::load(&files);
    assert!(matches!(r, Err(TemplateLoadError::BadMetadata)));
}

#[test]
fn load_unsupported_renderer_fails() {
    let mut files = FileSet::new();
    files.add(
        b("./templates/hello_world/template.toml"),
        b("subject=Hi\nbody=b.txt\nrenderer=jinja\n"),
    );
    files.add(b("./templates/hello_world/b.txt"), b("x"));
    let r = HelloWorldTemplate::load(&files);
    assert!(matches!(r, Err(TemplateLoadError::UnsupportedRenderer)));
}

#[test]
fn render_substitutes_fields_exactly() {
    let binds = vec![
        Binding { name: b("name"), value: b("Lucy") },
        Binding { name: b("target"), value: b("Tom") },
    ];
    let out = render_bytes(b"Hello {{name}}, from {{target}}!", &binds).unwrap();
    assert_eq!(out, b("Hello Lucy, from Tom!"));
}

#[test]
fn render_missing_field_fails() {
    let binds = vec![Binding { name: b("name"), value: b("Lucy") }];
    let r = render_bytes(b"Hi {{name}}, meet {{other}}", &binds);
    match r {
        Err(RenderError::MissingField(k)) => assert_eq!(k, b("other")),
        _ => panic!("a missing field must fail the render"),
    }
}

#[test]
fn render_unclosed_placeholder_fails() {
    let binds = vec![Binding { name: b("name"), value: b("Lucy") }];
    let r = render_bytes(b"Hi {{name", &binds);
    assert!(matches!(r, Err(RenderError::UnclosedPlaceholder)));
}

#[test]
fn hello_world_end_to_end_ascii() {
    let files = hello_files();
    let t = HelloWorldTemplate::load(&files).unwrap();
    let mail = t
        .create_mail(
            "from@example.com",
            "to@example.com",
            HelloWorldData { name: "Lucy".to_owned(), target: "Tom".to_owned() },
        )
        .unwrap();
    let mut c = ctx();
    let enc = into_encodable(mail, &mut c);
    let bytes = enc.encode(MailType::Ascii).unwrap();
    assert!(contains(&bytes, b"From: from@example.com\r\n"));
    assert!(contains(&bytes, b"To: to@example.com\r\n"));
    assert!(contains(&bytes, b"Subject: Hello Lucy\r\n"));
    assert!(contains(&bytes, b"Hello Lucy, nice greetings from Tom."));
    assert!(bytes.iter().all(|&x| x < 128));
}

#[test]
fn create_mail_rejects_bad_address() {
    let files = hello_files();
    let t = HelloWorldTemplate::load(&files).unwrap();
    let r = t.create_mail(
        "not-an-address",
        "to@example.com",
        HelloWorldData { name: "Lucy".to_owned(), target: "Tom".to_owned() },
    );
    assert!(matches!(r, Err(PipelineError::Header(HeaderValueError::BadAddress))));
}

#[test]
fn create_mail_missing_template_field_fails() {
    let mut files = FileSet::new();
    files.add(
        b("./templates/hello_world/template.toml"),
        b("subject=Hi {{nickname}}\nbody=body.txt\n"),
    );
    files.add(b("./templates/hello_world/body.txt"), b("x"));
    let t = HelloWorldTemplate::load(&files).unwrap();
    let r = t.create_mail(
        "from@example.com",
        "to@example.com",
        HelloWorldData { name: "Lucy".to_owned(), target: "Tom".to_owned() },
    );
    match r {
        Err(PipelineError::Render(RenderError::MissingField(k))) => {
            assert_eq!(k, b("nickname"))
        },
        _ => panic!("an unbound template field must fail the render"),
    }
}

#[test]
fn avatar_end_to_end_content_id_matches() {
    let files = avatar_files();
    let t = AvatarTemplate::load(&files).unwrap();
    let iri = Iri::from_parts(b("path"), b("./templates/hello_world/logo.png")).unwrap();
    let mut c = ctx();
    let mail = t
        .create_mail("from@example.com", "to@example.com", iri, &files, &mut c)
        .unwrap();
    let enc = into_encodable(mail, &mut c);
    let bytes = enc.encode(MailType::EightBit).unwrap();
    // The body refers to the part by the very ID the part carries, and
    // there is exactly one such part.
    assert!(contains(&bytes, b"Here it is: cid:0.u1@example.com"));
    assert_eq!(count(&bytes, b"Content-ID: <0.u1@example.com>"), 1);
    assert_eq!(count(&bytes, b"Content-ID:"), 1);
    assert!(contains(&bytes, b"Content-Type: image/png"));
    assert!(contains(&bytes, b"PNGDATA"));
}

#[test]
fn distinct_embeddings_get_distinct_content_ids() {
    let mut files = FileSet::new();
    files.add(b("a.png"), b("A"));
    files.add(b("b.png"), b("B"));
    let data = TemplateData {
        fields: Vec::new(),
        inline_embeddings: vec![
            EmbeddingRef {
                name: b("one"),
                resource: ResourceReference {
                    iri: Iri::from_parts(b("path"), b("a.png")).unwrap(),
                    use_media_type: None,
                    use_file_name: None,
                },
            },
            EmbeddingRef {
                name: b("two"),
                resource: ResourceReference {
                    iri: Iri::from_parts(b("path"), b("b.png")).unwrap(),
                    use_media_type: None,
                    use_file_name: None,
                },
            },
        ],
        attachments: Vec::new(),
    };
    let mut c = ctx();
    let loaded = data.load(&files, &mut c).unwrap();
    let id0 = loaded.inline_embeddings[0].resource.content_id.render();
    let id1 = loaded.inline_embeddings[1].resource.content_id.render();
    assert_ne!(id0, id1);
    assert_ne!(
        loaded.inline_embeddings[0].resource.content_id.seq_no,
        loaded.inline_embeddings[1].resource.content_id.seq_no
    );
}

#[test]
fn resolve_errors_are_told_apart() {
    let files = avatar_files();
    let mut c = ctx();

    let bad_scheme = Iri::from_parts(b("http"), b("./x.png")).unwrap();
    let r = AvatarTemplate::load(&files)
        .unwrap()
        .create_mail("from@example.com", "to@example.com", bad_scheme, &files, &mut c);
    assert!(matches!(
        r,
        Err(PipelineError::Resource(ResourceLoadError::MalformedLocator))
    ));

    let absent = Iri::from_parts(b("path"), b("./absent.png")).unwrap();
    let data = AvatarTemplate::prepare_data(absent, &files, &mut c);
    assert!(matches!(data, Err(ResourceLoadError::UnreachableLocator)));

    let mut files2 = FileSet::new();
    files2.add(b("blob"), b("?"));
    let ambiguous = Iri::from_parts(b("path"), b("blob")).unwrap();
    let data = AvatarTemplate::prepare_data(ambiguous, &files2, &mut c);
    assert!(matches!(data, Err(ResourceLoadError::AmbiguousMediaType)));
}

#[test]
fn iri_rejects_malformed_scheme() {
    assert!(matches!(
        Iri::from_parts(b(""), b("x")),
        Err(ResourceLoadError::MalformedLocator)
    ));
    assert!(matches!(
        Iri::from_parts(b("pa th"), b("x")),
        Err(ResourceLoadError::MalformedLocator)
    ));
}

#[test]
fn encode_is_idempotent_in_content() {
    let files = hello_files();
    let t = HelloWorldTemplate::load(&files).unwrap();
    let mail = t
        .create_mail(
            "from@example.com",
            "to@example.com",
            HelloWorldData { name: "Lucy".to_owned(), target: "Tom".to_owned() },
        )
        .unwrap();
    let mut c = ctx();
    let enc = into_encodable(mail, &mut c);
    let first = enc.encode(MailType::Ascii).unwrap();
    let second = enc.encode(MailType::Ascii).unwrap();
    assert_eq!(first, second);
    let third = enc.encode(MailType::EightBit).unwrap();
    assert_eq!(first, third);
}

#[test]
fn ascii_encoding_rejects_eight_bit_content() {
    let mut files = FileSet::new();
    files.add(
        b("./templates/hello_world/template.toml"),
        b("subject=Hi\nbody=body.txt\n"),
    );
    files.add(b("./templates/hello_world/body.txt"), "Grüße".as_bytes().to_vec());
    let t = HelloWorldTemplate::load(&files).unwrap();
    let mail = t
        .create_mail(
            "from@example.com",
            "to@example.com",
            HelloWorldData { name: "Lucy".to_owned(), target: "Tom".to_owned() },
        )
        .unwrap();
    let mut c = ctx();
    let enc = into_encodable(mail, &mut c);
    assert!(enc.encode(MailType::Ascii).is_err());
    let eight = enc.encode(MailType::EightBit).unwrap();
    assert!(contains(&eight, "Grüße".as_bytes()));
}

#[test]
fn insert_headers_validates_and_keeps_order() {
    let files = hello_files();
    let t = HelloWorldTemplate::load(&files).unwrap();
    let mut mail = t
        .create_mail(
            "from@example.com",
            "to@example.com",
            HelloWorldData { name: "Lucy".to_owned(), target: "Tom".to_owned() },
        )
        .unwrap();
    let before = mail.headers.len();
    let r = mail.insert_headers(vec![Header { name: b(""), value: b("x") }]);
    assert!(matches!(r, Err(HeaderValueError::BadName)));
    assert_eq!(mail.headers.len(), before);
    let r = mail.insert_headers(vec![Header { name: b("X-Note"), value: b("line\nbreak") }]);
    assert!(matches!(r, Err(HeaderValueError::BadValue)));
    let r = mail.insert_headers(vec![
        Header { name: b("Reply-To"), value: b("reply@example.com") },
        Header { name: b("X-Tag"), value: b("greeting") },
    ]);
    assert!(r.is_ok());
    let n = mail.headers.len();
    assert_eq!(n, before + 2);
    assert_eq!(mail.headers[n - 2].name, b("Reply-To"));
    assert_eq!(mail.headers[n - 1].name, b("X-Tag"));
}

#[test]
fn into_encodable_stamps_ids_from_context() {
    let files = hello_files();
    let t = HelloWorldTemplate::load(&files).unwrap();
    let mail = t
        .create_mail(
            "from@example.com",
            "to@example.com",
            HelloWorldData { name: "Lucy".to_owned(), target: "Tom".to_owned() },
        )
        .unwrap();
    let mut c = ctx();
    let enc = into_encodable(mail, &mut c);
    assert_eq!(c.counter, 2);
    assert_eq!(enc.message_id.render(), b("0.u1@example.com"));
    assert_eq!(enc.boundary, b("=_u1_1"));
    let bytes = enc.encode(MailType::Ascii).unwrap();
    assert!(contains(&bytes, b"Message-ID: <0.u1@example.com>\r\n"));
    assert!(contains(&bytes, b"MIME-Version: 1.0\r\n"));
}

#[test]
fn partial_random_context_has_fixed_domain_and_fresh_counter() {
    let c = mail_pipeline::context::partial_random_context();
    assert_eq!(c.domain, b("mail.crate.example.com"));
    assert_eq!(c.counter, 0);
    assert!(!c.unique.is_empty());
    assert!(c
        .unique
        .iter()
        .all(|&x| (b'0'..=b'9').contains(&x) || (b'a'..=b'f').contains(&x)));
}

#[test]
fn first_metadata_value_wins() {
    let mut files = FileSet::new();
    files.add(
        b("./templates/hello_world/template.toml"),
        b("subject=First\nsubject=Second\nbody=body.txt\n"),
    );
    files.add(b("./templates/hello_world/body.txt"), b("x"));
    let t = HelloWorldTemplate::load(&files).unwrap();
    assert_eq!(t.0.subject, b("First"));
}

#[test]
fn empty_template_renders_empty() {
    let out = render_bytes(b"", &Vec::new()).unwrap();
    assert!(out.is_empty());
}
