use mind_palace::page::{Page, PageValidationError, ReadLevel};
use mind_palace::tenant::TenantContext;
use mind_palace::value_objects::{
    BaseVisibility, Grant, Level, PageAccess, PageType, Principal, Section, Slug, SlugError,
    TableOfContents, TenantId, Visibility, GroupId,
};

fn section(h: &str, c: &str) -> Section {
    Section { heading: h.to_string(), content: c.to_string() }
}

#[test]
fn slug_valid() {
    assert!(Slug::new("hello-world").is_ok());
    assert!(Slug::new("page123").is_ok());
    assert!(Slug::new("a").is_ok());
}

#[test]
fn slug_rejects_empty() {
    assert_eq!(Slug::new("").unwrap_err(), SlugError::Empty);
}

#[test]
fn slug_rejects_uppercase() {
    assert_eq!(Slug::new("Hello").unwrap_err(), SlugError::InvalidChars);
}

#[test]
fn slug_rejects_leading_hyphen() {
    assert_eq!(Slug::new("-start").unwrap_err(), SlugError::InvalidFormat);
}

#[test]
fn slug_rejects_trailing_hyphen() {
    assert_eq!(Slug::new("end-").unwrap_err(), SlugError::InvalidFormat);
}

#[test]
fn slug_error_messages() {
    assert_eq!(SlugError::Empty.message(), "slug cannot be empty");
    assert_eq!(
        SlugError::InvalidChars.message(),
        "slug must contain only lowercase ascii, digits, or hyphens"
    );
    assert_eq!(SlugError::InvalidFormat.message(), "slug cannot start or end with a hyphen");
}

#[test]
fn page_creation_valid() {
    let page = Page::new(
        "Test Page".into(),
        Slug::new("test-page").unwrap(),
        "A summary".into(),
        vec![section("Introduction", "Some content")],
        PageType::Concept,
        Visibility::General,
    );
    assert!(page.is_ok());
    let page = page.unwrap();
    assert_eq!(page.title, "Test Page");
    assert_eq!(page.version, 1);
    assert_eq!(page.toc.entries.len(), 1);
    assert_eq!(page.toc.entries[0].anchor, "introduction");
}

#[test]
fn page_rejects_empty_title() {
    let result = Page::new(
        "".into(),
        Slug::new("test").unwrap(),
        "summary".into(),
        vec![section("H", "C")],
        PageType::Leaf,
        Visibility::General,
    );
    assert!(matches!(result, Err(PageValidationError::MissingTitle)));
}

#[test]
fn page_rejects_empty_summary() {
    let result = Page::new(
        "Title".into(),
        Slug::new("test").unwrap(),
        "".into(),
        vec![section("H", "C")],
        PageType::Leaf,
        Visibility::General,
    );
    assert!(matches!(result, Err(PageValidationError::MissingSummary)));
}

#[test]
fn page_rejects_no_sections() {
    let result = Page::new(
        "Title".into(),
        Slug::new("test").unwrap(),
        "Summary".into(),
        vec![],
        PageType::Leaf,
        Visibility::General,
    );
    assert!(matches!(result, Err(PageValidationError::NoSections)));
}

#[test]
fn page_validation_checks_title_first() {
    let result = Page::new(
        "".into(),
        Slug::new("test").unwrap(),
        "".into(),
        vec![],
        PageType::Leaf,
        Visibility::General,
    );
    assert!(matches!(result, Err(PageValidationError::MissingTitle)));
    assert_eq!(PageValidationError::NoSections.message(), "at least one section is required");
}

#[test]
fn page_section_lookup() {
    let page = Page::new(
        "Title".into(),
        Slug::new("test").unwrap(),
        "Summary".into(),
        vec![section("Intro", "Hello"), section("Details", "World")],
        PageType::Concept,
        Visibility::General,
    )
    .unwrap();
    assert_eq!(page.section_by_heading("Intro").unwrap().content, "Hello");
    assert_eq!(page.section_by_heading("Details").unwrap().content, "World");
    assert!(page.section_by_heading("Missing").is_none());
}

#[test]
fn section_lookup_returns_first_of_duplicates() {
    let page = Page::new(
        "Title".into(),
        Slug::new("test").unwrap(),
        "Summary".into(),
        vec![section("A", "first"), section("A", "second")],
        PageType::Concept,
        Visibility::General,
    )
    .unwrap();
    assert_eq!(page.section_by_heading("A").unwrap().content, "first");
}

#[test]
fn full_content_renders_markdown() {
    let page = Page::new(
        "Title".into(),
        Slug::new("title").unwrap(),
        "Sum".into(),
        vec![section("One", "a"), section("Two", "b")],
        PageType::Concept,
        Visibility::General,
    )
    .unwrap();
    assert_eq!(page.full_content(), "# Title\n\nSum\n\n## One\n\na\n\n## Two\n\nb\n\n");
    assert_eq!(page.summary_text(), "Sum");
}

#[test]
fn new_page_access_is_migrated_from_visibility() {
    let page = Page::new(
        "Title".into(),
        Slug::new("title").unwrap(),
        "Sum".into(),
        vec![section("One", "a")],
        PageType::Concept,
        Visibility::User("bob@x.com".into()),
    )
    .unwrap();
    assert_eq!(page.access.owner.as_deref(), Some("bob@x.com"));
    assert_eq!(page.access.base_visibility, BaseVisibility::Private);
    assert!(page.links.is_empty());
    assert!(page.parent.is_none());
    assert_eq!(page.created_at, page.updated_at);
}

#[test]
fn new_with_access_derives_partition() {
    let access = PageAccess {
        owner: None,
        base_visibility: BaseVisibility::Private,
        grants: vec![Grant {
            principal: Principal::Group(mind_palace::value_objects::GroupId::new("eng")),
            level: Level::View,
        }],
    };
    let page = Page::new_with_access(
        "T".into(),
        Slug::new("t").unwrap(),
        "S".into(),
        vec![section("H", "C")],
        PageType::Leaf,
        access,
    )
    .unwrap();
    assert_eq!(page.visibility, Visibility::Tenant(TenantId::new("eng")));
}

#[test]
fn read_level_enum() {
    let _summary = ReadLevel::Summary;
    let _section = ReadLevel::Section("Intro".into());
    let _full = ReadLevel::Full;
}

#[test]
fn global_context_sees_everything() {
    let ctx = TenantContext::global();
    assert!(ctx.can_see(&Visibility::General));
    assert!(ctx.can_see(&Visibility::Tenant(TenantId::new("any"))));
}

#[test]
fn leaf_tenant_sees_general() {
    let ctx = TenantContext::leaf(TenantId::new("client-a"));
    assert!(ctx.can_see(&Visibility::General));
}

#[test]
fn leaf_tenant_sees_own_pages() {
    let ctx = TenantContext::leaf(TenantId::new("client-a"));
    assert!(ctx.can_see(&Visibility::Tenant(TenantId::new("client-a"))));
}

#[test]
fn leaf_tenant_cannot_see_sibling() {
    let ctx = TenantContext::leaf(TenantId::new("client-a"));
    assert!(!ctx.can_see(&Visibility::Tenant(TenantId::new("client-b"))));
}

#[test]
fn parent_tenant_sees_child_pages() {
    let ctx = TenantContext::parent(
        TenantId::new("dashlx"),
        vec![TenantId::new("client-a"), TenantId::new("client-b")],
    );
    assert!(ctx.can_see(&Visibility::Tenant(TenantId::new("client-a"))));
    assert!(ctx.can_see(&Visibility::Tenant(TenantId::new("client-b"))));
    assert!(ctx.can_see(&Visibility::Tenant(TenantId::new("dashlx"))));
    assert!(ctx.can_see(&Visibility::General));
}

#[test]
fn parent_tenant_cannot_see_unrelated() {
    let ctx = TenantContext::parent(TenantId::new("dashlx"), vec![TenantId::new("client-a")]);
    assert!(!ctx.can_see(&Visibility::Tenant(TenantId::new("other-org"))));
}

#[test]
fn archived_pages_are_seen_by_nobody() {
    assert!(!TenantContext::global().can_see(&Visibility::Archived));
    assert!(!TenantContext::anonymous().can_see(&Visibility::Archived));
}

#[test]
fn toc_generated_from_sections() {
    let sections = vec![section("First Section", "..."), section("Second Part", "...")];
    let toc = TableOfContents::from_sections(&sections);
    assert_eq!(toc.entries.len(), 2);
    assert_eq!(toc.entries[0].anchor, "first-section");
    assert_eq!(toc.entries[1].anchor, "second-part");
}

#[test]
fn access_from_visibility_mapping() {
    let general = PageAccess::from_visibility(&Visibility::General);
    assert_eq!(general.base_visibility, BaseVisibility::Public);
    assert!(general.grants.is_empty());
    let user = PageAccess::from_visibility(&Visibility::User("u@x.com".into()));
    assert_eq!(user.owner.as_deref(), Some("u@x.com"));
    assert_eq!(user.grants.len(), 1);
    assert!(user.is_owner("u@x.com"));
    assert!(!user.is_owner("v@x.com"));
    assert_eq!(Visibility::from_access(&user), Visibility::User("u@x.com".into()));
    let archived = PageAccess::from_visibility(&Visibility::Archived);
    assert_eq!(archived.base_visibility, BaseVisibility::Private);
    assert_eq!(Visibility::from_access(&general), Visibility::General);
}

#[test]
fn only_a_single_group_grant_maps_to_a_tenant_partition() {
    let one = PageAccess {
        owner: None,
        base_visibility: BaseVisibility::Private,
        grants: vec![Grant { principal: Principal::Group(GroupId("acme".into())), level: Level::View }],
    };
    assert_eq!(Visibility::from_access(&one), Visibility::Tenant(TenantId("acme".into())));
    let mut two = one.clone();
    two.grants.push(Grant { principal: Principal::User("u@x.com".into()), level: Level::Edit });
    assert_eq!(Visibility::from_access(&two), Visibility::User(String::new()));
}
