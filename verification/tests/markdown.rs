use mind_palace::markdown::{
    assemble_page, direct_keys, fence_delim, front_matter_of, frame_document, key_names_page,
    list_prefix, object_key,
    parse_sections, render_sections, split_document,
};
use mind_palace::page::Page;
use mind_palace::tenant::TenantContext;
use mind_palace::value_objects::{BaseVisibility, PageType, Section, Slug, TenantId, Visibility};

fn page_with_sections(sections: Vec<Section>) -> Page {
    Page::new(
        "Test Page".into(),
        Slug::new("test-page").unwrap(),
        "A summary".into(),
        sections,
        PageType::Concept,
        Visibility::General,
    )
    .unwrap()
}

fn roundtrip(sections: Vec<Section>) -> Vec<Section> {
    let page = page_with_sections(sections);
    let raw = frame_document("{}", &page.sections);
    let (fm, body) = split_document(&raw).unwrap();
    assert_eq!(fm, "{}");
    parse_sections(&body)
}

fn sec(h: &str, c: &str) -> Section {
    Section { heading: h.into(), content: c.into() }
}

#[test]
fn plain_sections_roundtrip() {
    let secs = vec![sec("Overview", "Some text."), sec("Details", "More text.")];
    let out = roundtrip(secs.clone());
    assert_eq!(out, secs);
}

#[test]
fn python_code_with_hash_headings_roundtrips_as_one_section() {
    let content = "Here is the script:\n\n```python\n## configuration\nx = 1\n## main\nprint(x)\n```\n\nThat's it.";
    let out = roundtrip(vec![sec("Script", content)]);
    assert_eq!(out.len(), 1, "code block '## ' lines must not create new sections");
    assert_eq!(out[0].heading, "Script");
    assert!(out[0].content.contains("## configuration"));
    assert!(out[0].content.contains("## main"));
    assert!(out[0].content.contains("print(x)"));
}

#[test]
fn sql_code_block_roundtrips() {
    let content = "```sql\nSELECT * FROM users\nWHERE active = true;\n```";
    let out = roundtrip(vec![sec("Query", content), sec("Notes", "Filters active users.")]);
    assert_eq!(out.len(), 2);
    assert!(out[0].content.contains("SELECT * FROM users"));
    assert_eq!(out[1].heading, "Notes");
}

#[test]
fn tilde_fence_roundtrips() {
    let content = "~~~bash\n## step one\necho hi\n~~~";
    let out = roundtrip(vec![sec("Shell", content)]);
    assert_eq!(out.len(), 1);
    assert!(out[0].content.contains("## step one"));
}

#[test]
fn multiple_sections_with_and_without_code() {
    let secs = vec![sec("Intro", "Prose only."), sec("Code", "```py\n## a\nb=2\n```"), sec("Outro", "More prose.")];
    let out = roundtrip(secs);
    assert_eq!(out.len(), 3);
    assert_eq!(out[0].heading, "Intro");
    assert_eq!(out[1].heading, "Code");
    assert_eq!(out[2].heading, "Outro");
}

#[test]
fn body_rendering_and_crlf_lines() {
    assert_eq!(render_sections(&vec![sec("A", "x")]), "## A\n\nx\n\n");
    let out = parse_sections("## A\r\nline\r\n## B\r\n");
    assert_eq!(out, vec![sec("A", "line"), sec("B", "")]);
    assert!(parse_sections("no heading here").is_empty());
    assert_eq!(fence_delim(&"```rust".chars().collect()), Some("```".chars().collect()));
    assert_eq!(fence_delim(&"~~".chars().collect()), None);
}

#[test]
fn split_document_errors() {
    assert!(split_document("no front matter").is_err());
    assert!(split_document("---\n{}").is_err());
    let (fm, md) = split_document("---\n{\"a\":1}\n---\n## H\n\nc\n").unwrap();
    assert_eq!(fm, "{\"a\":1}");
    assert_eq!(md, "## H\n\nc\n");
}

#[test]
fn object_keys_by_partition() {
    let s = Slug::new("p").unwrap();
    assert_eq!(object_key("v1", &s, &Visibility::General), "v1/general/pages/p.md");
    assert_eq!(object_key("v1", &s, &Visibility::Tenant(TenantId::new("acme"))), "v1/acme/pages/p.md");
    assert_eq!(object_key("v1", &s, &Visibility::User("u@x".into())), "v1/user-u@x/pages/p.md");
    assert_eq!(object_key("v1", &s, &Visibility::Archived), "v1/archived/pages/p.md");
    let ctx = TenantContext::parent(TenantId::new("a"), vec![TenantId::new("b")]).with_user("me@x");
    assert_eq!(
        list_prefix("v1", &ctx),
        vec!["v1/general/pages/", "v1/a/pages/", "v1/b/pages/", "v1/user-me@x/pages/"]
    );
}

#[test]
fn page_front_matter_roundtrip() {
    let mut page = page_with_sections(vec![sec("One", "1"), sec("Two", "2")]);
    page.links = vec![Slug::new("other").unwrap()];
    page.parent = Some(Slug::new("root").unwrap());
    let fm = front_matter_of(&page);
    let body = render_sections(&page.sections);
    let back = assemble_page(fm, &body).unwrap();
    assert_eq!(back.id, page.id);
    assert_eq!(back.slug, page.slug);
    assert_eq!(back.sections, page.sections);
    assert_eq!(back.links, page.links);
    assert_eq!(back.parent, page.parent);
    assert_eq!(back.access, page.access);
    let mut bad = front_matter_of(&page);
    bad.links = vec!["Bad Link".into()];
    assert!(assemble_page(bad, &body).is_err());
    let mut legacy = front_matter_of(&page);
    legacy.access = None;
    legacy.visibility = Visibility::User("old@x.com".into());
    let migrated = assemble_page(legacy, &body).unwrap();
    assert_eq!(migrated.access.base_visibility, BaseVisibility::Private);
    assert_eq!(migrated.access.owner.as_deref(), Some("old@x.com"));
}

#[test]
fn unfiltered_reads_try_general_then_archive() {
    let s = Slug::new("notes").unwrap();
    assert_eq!(
        direct_keys("v1", &s),
        vec!["v1/general/pages/notes.md".to_string(), "v1/archived/pages/notes.md".to_string()]
    );
    assert!(key_names_page("v1/acme/pages/notes.md", &s));
    assert!(key_names_page("v1/user-ann/pages/notes.md", &s));
    assert!(!key_names_page("v1/acme/pages/old-notes.md", &s));
    assert!(!key_names_page("v1/acme/pages/notes.md.bak", &s));
}

#[test]
fn framed_document_splits_back() {
    let sections = vec![
        Section { heading: "One".into(), content: "first".into() },
        Section { heading: "Two".into(), content: "```\n## not a heading\n```".into() },
    ];
    let fm = "{\n  \"slug\": \"p\"\n}";
    let doc = frame_document(fm, &sections);
    let (front, body) = split_document(&doc).unwrap();
    assert_eq!(front, fm);
    assert_eq!(parse_sections(&body), sections);
}
