use mind_palace::graph::{GraphNode, KnowledgeGraph};
use mind_palace::lint::{lint_issues, lint_page, LintCode, Severity};
use mind_palace::page::Page;
use mind_palace::ports::{SecretError, SecretValue, SecretsResolver};
use mind_palace::secrets::DenySecretsResolver;
use mind_palace::value_objects::{
    BaseVisibility, PageAccess, PageType, SecretRef, Section, Slug, Visibility,
};

struct RefResolver;

impl SecretsResolver for RefResolver {
    fn validate_reference(&self, reference: &str) -> Result<(), SecretError> {
        if reference.starts_with("ref://") {
            Ok(())
        } else {
            Err(SecretError::InvalidReference(format!("not a ref:// locator: {reference}")))
        }
    }
    fn resolve(&self, reference: &str) -> Result<SecretValue, SecretError> {
        Ok(SecretValue::new(format!("VALUE_FOR::{reference}")))
    }
}

fn valid_page() -> Page {
    Page::new(
        "Test Page".into(),
        Slug::new("test-page").unwrap(),
        "A valid summary".into(),
        vec![Section { heading: "Details".into(), content: "Some content here".into() }],
        PageType::Concept,
        Visibility::General,
    )
    .unwrap()
}

const NO_BACKEND: Option<&DenySecretsResolver> = None;

#[test]
fn valid_page_passes_lint() {
    let page = valid_page();
    let issues = lint_page(&page, None, NO_BACKEND);
    assert!(issues.iter().all(|i| i.severity != Severity::Error));
    assert!(issues.is_empty());
}

#[test]
fn empty_section_warning() {
    let mut page = valid_page();
    page.sections.push(Section { heading: "Empty".into(), content: "".into() });
    let issues = lint_page(&page, None, NO_BACKEND);
    assert!(issues.iter().any(|i| i.code == LintCode::EmptySection));
    let issue = issues.iter().find(|i| i.code == LintCode::EmptySection).unwrap();
    assert_eq!(issue.message, "Section 'Empty' has empty content");
    assert_eq!(issue.severity, Severity::Warning);
}

#[test]
fn broken_link_detected() {
    let mut page = valid_page();
    page.links.push(Slug::new("nonexistent").unwrap());
    let kg = KnowledgeGraph::new();
    let issues = lint_page(&page, Some(&kg), NO_BACKEND);
    assert!(issues.iter().any(|i| i.code == LintCode::BrokenLink));
}

#[test]
fn link_to_index_page_is_not_broken() {
    let mut page = valid_page();
    page.links.push(Slug::new("hub").unwrap());
    let mut kg = KnowledgeGraph::new();
    kg.add_node(GraphNode {
        page_id: page.id,
        slug: page.slug.clone(),
        title: page.title.clone(),
        summary: page.summary.clone(),
        visibility: Visibility::General,
        access: PageAccess::from_visibility(&Visibility::General),
        page_type: PageType::Concept,
        parent: None,
    });
    kg.add_node(GraphNode {
        page_id: mind_palace::value_objects::PageId::new(),
        slug: Slug::new("hub").unwrap(),
        title: "Hub".into(),
        summary: "s".into(),
        visibility: Visibility::General,
        access: PageAccess::from_visibility(&Visibility::General),
        page_type: PageType::Index,
        parent: None,
    });
    let issues = lint_page(&page, Some(&kg), NO_BACKEND);
    assert!(!issues.iter().any(|i| i.code == LintCode::BrokenLink));
    assert!(!issues.iter().any(|i| i.code == LintCode::Orphan));
}

#[test]
fn orphan_detected() {
    let page = valid_page();
    let kg = KnowledgeGraph::new();
    let issues = lint_page(&page, Some(&kg), NO_BACKEND);
    assert!(issues.iter().any(|i| i.code == LintCode::Orphan));
}

#[test]
fn title_slug_mismatch_info() {
    let page = Page::new(
        "My Title".into(),
        Slug::new("different-slug").unwrap(),
        "Summary".into(),
        vec![Section { heading: "S".into(), content: "C".into() }],
        PageType::Leaf,
        Visibility::General,
    )
    .unwrap();
    let issues = lint_page(&page, None, NO_BACKEND);
    assert!(issues.iter().any(|i| i.code == LintCode::TitleSlugMismatch));
    let issue = issues.iter().find(|i| i.code == LintCode::TitleSlugMismatch).unwrap();
    assert_eq!(issue.message, "Slug 'different-slug' doesn't match title (expected 'my-title')");
    assert_eq!(issue.severity, Severity::Info);
}

#[test]
fn sop_page_missing_sections_warns_in_order() {
    let page = Page::new(
        "sop".into(),
        Slug::new("sop").unwrap(),
        "Summary".into(),
        vec![Section { heading: "Steps".into(), content: "1.".into() }],
        PageType::Sop,
        Visibility::General,
    )
    .unwrap();
    let issues = lint_page(&page, None, NO_BACKEND);
    let missing: Vec<&str> = issues
        .iter()
        .filter(|i| i.code == LintCode::MissingSopSection)
        .map(|i| i.message.as_str())
        .collect();
    assert_eq!(
        missing,
        vec![
            "SOP page missing required section: 'Prerequisites'",
            "SOP page missing required section: 'Constraints'",
            "SOP page missing required section: 'Verification'",
        ]
    );
}

#[test]
fn lint_flags_invalid_reference_with_resolver() {
    let resolver = RefResolver;
    let mut page = Page::new_with_access(
        "p".into(),
        Slug::new("p").unwrap(),
        "s".into(),
        vec![Section { heading: "H".into(), content: "C".into() }],
        PageType::Leaf,
        PageAccess { owner: Some("o@x.com".into()), base_visibility: BaseVisibility::Private, grants: vec![] },
    )
    .unwrap();
    page.secret_refs = vec![SecretRef::new("bad", "raw-secret-not-a-ref")];
    let issues = lint_page(&page, None, Some(&resolver));
    assert!(issues
        .iter()
        .any(|i| i.code == LintCode::InvalidSecretReference && i.severity == Severity::Error));
}

#[test]
fn public_page_with_secrets_is_an_error() {
    let mut page = valid_page();
    page.secret_refs = vec![SecretRef::new("k", "ref://k")];
    let issues = lint_issues(&page, None, Some(&vec![true]));
    assert!(issues
        .iter()
        .any(|i| i.code == LintCode::PublicPageWithSecrets && i.severity == Severity::Error));
    assert!(!issues.iter().any(|i| i.code == LintCode::InvalidSecretReference));
}

#[test]
fn link_to_any_existing_page_is_not_broken() {
    let mut page = valid_page();
    page.links.push(Slug::new("leaf-notes").unwrap());
    let mut kg = KnowledgeGraph::new();
    kg.add_node(GraphNode {
        page_id: mind_palace::value_objects::PageId::new(),
        slug: Slug::new("leaf-notes").unwrap(),
        title: "Leaf".into(),
        summary: "s".into(),
        visibility: Visibility::General,
        access: PageAccess::from_visibility(&Visibility::General),
        page_type: PageType::Leaf,
        parent: None,
    });
    let issues = lint_page(&page, Some(&kg), NO_BACKEND);
    assert!(!issues.iter().any(|i| i.code == LintCode::BrokenLink));
}
