use std::cell::RefCell;

use mind_palace::clock::Timestamp;
use mind_palace::error::MindPalaceError;
use mind_palace::graph::KnowledgeGraph;
use mind_palace::group::Group;
use mind_palace::lint::{LintCode, Severity};
use mind_palace::page::{Page, ReadLevel};
use mind_palace::ports::{
    ChangelogEntry, ChangelogStore, EmbeddingMetadata, EmbeddingPort, GraphData, GraphEdgeData,
    GraphNodeData, GraphStore, GroupStore, PageFilter, PageStore, SearchResult, SecretError,
    SecretValue, SecretsResolver, VectorSearchPort,
};
use mind_palace::service::{embedding_metadata_for, fetch_count, new_page, CreatePageInput, PageResponse, UpdatePageInput, WikiService};
use mind_palace::tenant::TenantContext;
use mind_palace::value_objects::{
    BaseVisibility, EdgeKind, GroupId, Level, PageId, PageType, Principal, SecretRef, Section,
    Slug, TenantId, Visibility,
};

// --- In-memory ports ---

struct MockPageStore {
    pages: RefCell<Vec<Page>>,
}

impl PageStore for MockPageStore {
    fn get_page(&self, id: &PageId, _ctx: &TenantContext) -> Result<Page, MindPalaceError> {
        self.pages
            .borrow()
            .iter()
            .find(|p| &p.id == id)
            .cloned()
            .ok_or_else(|| MindPalaceError::PageNotFound(format!("{id:?}")))
    }
    fn get_page_by_slug(&self, slug: &Slug, _ctx: &TenantContext) -> Result<Page, MindPalaceError> {
        self.get_page_by_slug_unfiltered(slug)
    }
    fn get_page_by_slug_unfiltered(&self, slug: &Slug) -> Result<Page, MindPalaceError> {
        self.pages
            .borrow()
            .iter()
            .find(|p| &p.slug == slug)
            .cloned()
            .ok_or_else(|| MindPalaceError::PageNotFound(slug.as_str().into()))
    }
    fn save_page(&self, page: &Page) -> Result<(), MindPalaceError> {
        let mut pages = self.pages.borrow_mut();
        pages.retain(|p| p.id != page.id);
        pages.push(page.clone());
        Ok(())
    }
    fn delete_page(&self, id: &PageId) -> Result<(), MindPalaceError> {
        self.pages.borrow_mut().retain(|p| &p.id != id);
        Ok(())
    }
    fn list_pages(&self, _filter: &PageFilter, _ctx: &TenantContext) -> Result<Vec<Page>, MindPalaceError> {
        Ok(self.pages.borrow().clone())
    }
}

struct MockEmbedding;

impl EmbeddingPort for MockEmbedding {
    fn embed_text(&self, _text: &str) -> Result<Vec<u64>, MindPalaceError> {
        Ok(vec![0.1f64.to_bits(), 0.2f64.to_bits(), 0.3f64.to_bits()])
    }
    fn embed_texts(&self, texts: &[String]) -> Result<Vec<Vec<u64>>, MindPalaceError> {
        Ok(texts.iter().map(|_| vec![0.1f64.to_bits()]).collect())
    }
}

/// Returns every embedded page, so the service's own access filter is what
/// decides what a caller sees.
struct MockVectorSearch {
    upserted: RefCell<Vec<EmbeddingMetadata>>,
}

impl VectorSearchPort for MockVectorSearch {
    fn search(&self, _q: &[u64], _limit: usize, _ctx: &TenantContext) -> Result<Vec<SearchResult>, MindPalaceError> {
        Ok(self
            .upserted
            .borrow()
            .iter()
            .map(|m| SearchResult {
                page_id: m.page_id,
                slug: m.slug.clone(),
                title: m.title.clone(),
                summary: String::new(),
                score_bits: 1.0f64.to_bits(),
            })
            .collect())
    }
    fn upsert_embedding(&self, meta: &EmbeddingMetadata, _e: &[u64]) -> Result<(), MindPalaceError> {
        let mut up = self.upserted.borrow_mut();
        up.retain(|m| m.page_id != meta.page_id);
        up.push(meta.clone());
        Ok(())
    }
    fn delete_embedding(&self, id: &PageId) -> Result<(), MindPalaceError> {
        self.upserted.borrow_mut().retain(|m| &m.page_id != id);
        Ok(())
    }
}

struct MockGraphStore {
    persist: bool,
    nodes: RefCell<Vec<GraphNodeData>>,
    edges: RefCell<Vec<GraphEdgeData>>,
}

impl GraphStore for MockGraphStore {
    fn load_graph(&self) -> Result<GraphData, MindPalaceError> {
        Ok(GraphData { nodes: self.nodes.borrow().clone(), edges: self.edges.borrow().clone() })
    }
    fn save_node(&self, node: &GraphNodeData) -> Result<(), MindPalaceError> {
        if self.persist {
            let mut n = self.nodes.borrow_mut();
            n.retain(|x| x.page_id != node.page_id);
            n.push(node.clone());
        }
        Ok(())
    }
    fn save_edge(&self, edge: &GraphEdgeData) -> Result<(), MindPalaceError> {
        if self.persist {
            self.edges.borrow_mut().push(*edge);
        }
        Ok(())
    }
    fn delete_node(&self, id: &PageId) -> Result<(), MindPalaceError> {
        self.nodes.borrow_mut().retain(|x| &x.page_id != id);
        Ok(())
    }
    fn delete_edge(&self, s: &PageId, t: &PageId) -> Result<(), MindPalaceError> {
        let mut es = self.edges.borrow_mut();
        if let Some(k) = es.iter().position(|e| &e.source == s && &e.target == t) {
            es.remove(k);
        }
        Ok(())
    }
}

#[derive(Default)]
struct MockGroupStore {
    groups: RefCell<Vec<Group>>,
}

impl GroupStore for MockGroupStore {
    fn get_group(&self, id: &GroupId) -> Result<Option<Group>, MindPalaceError> {
        Ok(self.groups.borrow().iter().find(|g| &g.id == id).cloned())
    }
    fn list_groups(&self) -> Result<Vec<Group>, MindPalaceError> {
        Ok(self.groups.borrow().clone())
    }
    fn save_group(&self, group: &Group) -> Result<(), MindPalaceError> {
        let mut g = self.groups.borrow_mut();
        g.retain(|x| x.id != group.id);
        g.push(group.clone());
        Ok(())
    }
    fn delete_group(&self, id: &GroupId) -> Result<(), MindPalaceError> {
        self.groups.borrow_mut().retain(|g| &g.id != id);
        Ok(())
    }
}

#[derive(Default)]
struct MemoryChangelog {
    entries: RefCell<Vec<ChangelogEntry>>,
}

impl ChangelogStore for MemoryChangelog {
    fn append(&self, entry: &ChangelogEntry) -> Result<(), MindPalaceError> {
        self.entries.borrow_mut().push(entry.clone());
        Ok(())
    }
    fn since(&self, _since: Timestamp, _limit: Option<usize>) -> Result<Vec<ChangelogEntry>, MindPalaceError> {
        Ok(self.entries.borrow().clone())
    }
    fn prune_before(&self, _before: Timestamp) -> Result<u64, MindPalaceError> {
        Ok(0)
    }
}

/// Accepts references starting with `ref://` and resolves them to a fixed
/// value; records every resolution.
#[derive(Default)]
struct FakeResolver {
    resolved: RefCell<Vec<String>>,
}

impl SecretsResolver for FakeResolver {
    fn validate_reference(&self, reference: &str) -> Result<(), SecretError> {
        if reference.starts_with("ref://") {
            Ok(())
        } else {
            Err(SecretError::InvalidReference(format!("not a ref:// locator: {reference}")))
        }
    }
    fn resolve(&self, reference: &str) -> Result<SecretValue, SecretError> {
        self.resolved.borrow_mut().push(reference.to_string());
        Ok(SecretValue::new(format!("VALUE_FOR::{reference}")))
    }
}

type Svc = WikiService<
    MockPageStore,
    MockVectorSearch,
    MockEmbedding,
    MockGraphStore,
    MemoryChangelog,
    MockGroupStore,
    FakeResolver,
>;

fn base_service(persist_graph: bool) -> Svc {
    WikiService::new(
        MockPageStore { pages: RefCell::new(Vec::new()) },
        MockVectorSearch { upserted: RefCell::new(Vec::new()) },
        MockEmbedding,
        MockGraphStore { persist: persist_graph, nodes: RefCell::new(Vec::new()), edges: RefCell::new(Vec::new()) },
        KnowledgeGraph::new(),
    )
}

/// The service as the unit tests build it: no group store, no backend.
fn make_service() -> Svc {
    base_service(false)
}

/// The service as the access tests build it: persisted graph, group store.
fn access_service() -> Svc {
    base_service(true).with_group_store(MockGroupStore::default())
}

fn sec(h: &str, c: &str) -> Section {
    Section { heading: h.into(), content: c.into() }
}

fn slug(s: &str) -> Slug {
    Slug::new(s).unwrap()
}

fn sample_input() -> CreatePageInput {
    CreatePageInput {
        title: "Rust Basics".into(),
        slug: slug("rust-basics"),
        summary: "An intro to Rust".into(),
        sections: vec![sec("Overview", "Rust is a systems language.")],
        page_type: PageType::Concept,
        visibility: Visibility::General,
        links: vec![],
        base_visibility: None,
        parent: None,
        secret_refs: vec![],
    }
}

fn private_input(slug_str: &str, parent: Option<&str>) -> CreatePageInput {
    CreatePageInput {
        title: slug_str.into(),
        slug: slug(slug_str),
        summary: "s".into(),
        sections: vec![sec("H", "C")],
        page_type: PageType::Leaf,
        visibility: Visibility::General,
        links: vec![],
        base_visibility: Some(BaseVisibility::Private),
        parent: parent.map(slug),
        secret_refs: vec![],
    }
}

fn public_input(slug_str: &str, parent: Option<&str>) -> CreatePageInput {
    CreatePageInput { base_visibility: Some(BaseVisibility::Public), ..private_input(slug_str, parent) }
}

// --- Service basics ---

#[test]
fn create_and_read_page() {
    let mut svc = make_service();
    let ctx = TenantContext::global();
    let (page, issues) = svc.create_page(sample_input(), &ctx).unwrap();
    assert_eq!(page.title, "Rust Basics");
    assert!(!issues.iter().any(|i| i.severity == Severity::Error));
    let resp = svc.read_page(&slug("rust-basics"), ReadLevel::Summary, &ctx).unwrap();
    match resp {
        PageResponse::Summary { title, .. } => assert_eq!(title, "Rust Basics"),
        _ => panic!("expected Summary"),
    }
}

#[test]
fn update_page_changes_title() {
    let mut svc = make_service();
    let ctx = TenantContext::global();
    svc.create_page(sample_input(), &ctx).unwrap();
    let (updated, _) = svc
        .update_page(
            &slug("rust-basics"),
            UpdatePageInput {
                title: Some("Advanced Rust".into()),
                summary: None,
                sections: None,
                links: None,
                replace_sections: false,
                delete_sections: Vec::new(),
                parent: None,
                secret_refs: None,
            },
            &ctx,
        )
        .unwrap();
    assert_eq!(updated.title, "Advanced Rust");
    assert_eq!(updated.version, 2);
}

#[test]
fn update_merges_sections_by_heading() {
    let mut svc = make_service();
    let ctx = TenantContext::global();
    svc.create_page(sample_input(), &ctx).unwrap();
    let (updated, _) = svc
        .update_page(
            &slug("rust-basics"),
            UpdatePageInput {
                sections: Some(vec![sec("Overview", "Updated overview."), sec("Examples", "An example.")]),
                ..Default::default()
            },
            &ctx,
        )
        .unwrap();
    assert_eq!(updated.sections.len(), 2, "merge keeps + adds, not replace");
    let overview = updated.sections.iter().find(|s| s.heading == "Overview").unwrap();
    assert_eq!(overview.content, "Updated overview.");
    assert!(updated.sections.iter().any(|s| s.heading == "Examples"));
    assert_eq!(updated.toc.entries.len(), 2);
}

#[test]
fn update_can_delete_sections() {
    let mut svc = make_service();
    let ctx = TenantContext::global();
    svc.create_page(sample_input(), &ctx).unwrap();
    svc.update_page(
        &slug("rust-basics"),
        UpdatePageInput { sections: Some(vec![sec("Extra", "extra")]), ..Default::default() },
        &ctx,
    )
    .unwrap();
    let (updated, _) = svc
        .update_page(
            &slug("rust-basics"),
            UpdatePageInput { delete_sections: vec!["Overview".into()], ..Default::default() },
            &ctx,
        )
        .unwrap();
    assert!(!updated.sections.iter().any(|s| s.heading == "Overview"));
    assert!(updated.sections.iter().any(|s| s.heading == "Extra"));
}

#[test]
fn update_replace_sections_overwrites_all() {
    let mut svc = make_service();
    let ctx = TenantContext::global();
    svc.create_page(sample_input(), &ctx).unwrap();
    let (updated, _) = svc
        .update_page(
            &slug("rust-basics"),
            UpdatePageInput {
                sections: Some(vec![sec("Only Section", "New content.")]),
                replace_sections: true,
                ..Default::default()
            },
            &ctx,
        )
        .unwrap();
    assert_eq!(updated.sections.len(), 1);
    assert_eq!(updated.sections[0].heading, "Only Section");
}

#[test]
fn delete_page_removes_from_store() {
    let mut svc = make_service();
    let ctx = TenantContext::global();
    svc.create_page(sample_input(), &ctx).unwrap();
    svc.delete_page(&slug("rust-basics"), &ctx).unwrap();
    let result = svc.read_page(&slug("rust-basics"), ReadLevel::Full, &ctx);
    assert!(result.is_err());
    assert_eq!(svc.graph().node_count(), 0);
}

#[test]
fn search_returns_results() {
    let svc = make_service();
    let ctx = TenantContext::global();
    let results = svc.search("rust", &ctx, 10).unwrap();
    assert!(results.is_empty());
}

#[test]
fn archive_hides_and_unarchive_restores() {
    let mut svc = make_service();
    let ctx = TenantContext::global();
    svc.create_page(sample_input(), &ctx).unwrap();
    svc.archive_page(&slug("rust-basics"), &ctx).unwrap();
    assert!(matches!(
        svc.read_page(&slug("rust-basics"), ReadLevel::Summary, &ctx),
        Err(MindPalaceError::PageNotFound(_))
    ));
    assert_eq!(svc.graph().node_count(), 0);
    svc.unarchive_page(&slug("rust-basics")).unwrap();
    assert!(svc.read_page(&slug("rust-basics"), ReadLevel::Summary, &ctx).is_ok());
    assert_eq!(svc.graph().node_count(), 1);
}

#[test]
fn anonymous_cannot_create_private_page() {
    let mut svc = make_service();
    let res = svc.create_page(private_input("x", None), &TenantContext::anonymous());
    assert!(matches!(res, Err(MindPalaceError::AccessDenied(m)) if m == "anonymous callers may only create Public pages"));
    assert_eq!(svc.graph().node_count(), 0);
}

#[test]
fn create_reports_page_validation_errors() {
    let mut svc = make_service();
    let mut input = sample_input();
    input.summary = String::new();
    let res = svc.create_page(input, &TenantContext::global());
    assert!(matches!(res, Err(MindPalaceError::Validation(m)) if m == "summary is required"));
}

#[test]
fn audit_requires_authentication_and_filters() {
    let mut svc = make_service().with_changelog(MemoryChangelog::default());
    assert!(matches!(
        svc.audit_events(None, None, &TenantContext::anonymous()),
        Err(MindPalaceError::AccessDenied(_))
    ));
    let alice = TenantContext::user("alice@x.com");
    svc.create_page(public_input("alpha", None), &alice).unwrap();
    svc.create_page(public_input("beta", None), &alice).unwrap();
    let all = svc.audit_events(None, None, &alice).unwrap();
    assert_eq!(all.len(), 2);
    assert_eq!(all[0].action, "Created");
    let only_beta = svc.audit_events(Some("bet"), None, &alice).unwrap();
    assert_eq!(only_beta.len(), 1);
    assert_eq!(only_beta[0].slug, "beta");
    assert!(svc.audit_events(None, Some("bob"), &alice).unwrap().is_empty());
}

// --- Access control ---

#[test]
fn private_page_owner_only_until_shared() {
    let mut svc = access_service();
    let owner = TenantContext::user("owner@x.com");
    let stranger = TenantContext::user("stranger@x.com");
    let (page, _) = svc.create_page(private_input("secret", None), &owner).unwrap();
    assert_eq!(page.access.owner.as_deref(), Some("owner@x.com"));
    assert_eq!(page.access.base_visibility, BaseVisibility::Private);
    let s = slug("secret");
    assert!(svc.read_page(&s, ReadLevel::Summary, &owner).is_ok());
    assert!(svc.read_page(&s, ReadLevel::Summary, &stranger).is_err());
    let upd = UpdatePageInput { title: Some("hacked".into()), ..Default::default() };
    assert!(svc.update_page(&s, upd, &stranger).is_err());
    svc.share_page(&s, Principal::User("stranger@x.com".into()), Level::View, &owner).unwrap();
    assert!(svc.read_page(&s, ReadLevel::Summary, &stranger).is_ok());
    let upd2 = UpdatePageInput { title: Some("still-cant".into()), ..Default::default() };
    assert!(svc.update_page(&s, upd2, &stranger).is_err());
}

#[test]
fn non_owner_cannot_share() {
    let mut svc = access_service();
    let owner = TenantContext::user("owner@x.com");
    let attacker = TenantContext::user("attacker@x.com");
    svc.create_page(private_input("doc", None), &owner).unwrap();
    let s = slug("doc");
    let res = svc.share_page(&s, Principal::User("attacker@x.com".into()), Level::Edit, &attacker);
    assert!(matches!(res, Err(MindPalaceError::AccessDenied(_))));
    assert!(svc.read_page(&s, ReadLevel::Summary, &attacker).is_err());
}

#[test]
fn group_member_sees_group_shared_page() {
    let mut svc = access_service();
    let owner = TenantContext::user("owner@x.com");
    let member = TenantContext::user("member@x.com");
    let outsider = TenantContext::user("outsider@x.com");
    svc.group_create(GroupId::new("team"), "Team", &owner).unwrap();
    svc.group_add_member(&GroupId::new("team"), "member@x.com", &owner).unwrap();
    svc.create_page(private_input("team-doc", None), &owner).unwrap();
    let s = slug("team-doc");
    svc.share_page(&s, Principal::Group(GroupId::new("team")), Level::View, &owner).unwrap();
    assert!(svc.read_page(&s, ReadLevel::Summary, &member).is_ok());
    assert!(svc.read_page(&s, ReadLevel::Summary, &outsider).is_err());
}

#[test]
fn non_manager_cannot_add_group_member() {
    let svc = access_service();
    let owner = TenantContext::user("owner@x.com");
    let member = TenantContext::user("member@x.com");
    svc.group_create(GroupId::new("g"), "G", &owner).unwrap();
    svc.group_add_member(&GroupId::new("g"), "member@x.com", &owner).unwrap();
    let res = svc.group_add_member(&GroupId::new("g"), "intruder@x.com", &member);
    assert!(matches!(res, Err(MindPalaceError::AccessDenied(_))));
}

#[test]
fn last_manager_cannot_be_removed() {
    let svc = access_service();
    let owner = TenantContext::user("owner@x.com");
    svc.group_create(GroupId::new("g"), "G", &owner).unwrap();
    let res = svc.group_remove_manager(&GroupId::new("g"), "owner@x.com", &owner);
    assert!(matches!(res, Err(MindPalaceError::Validation(m)) if m == "cannot remove the last manager of group 'g'"));
    svc.group_add_manager(&GroupId::new("g"), "second@x.com", &owner).unwrap();
    let g = svc.group_remove_manager(&GroupId::new("g"), "owner@x.com", &owner).unwrap();
    assert_eq!(g.managers, vec!["second@x.com".to_string()]);
    assert!(g.members.contains(&"second@x.com".to_string()));
    assert!(matches!(
        svc.group_create(GroupId::new("g"), "again", &owner),
        Err(MindPalaceError::Validation(_))
    ));
    assert!(matches!(
        make_service().group_list(&owner),
        Err(MindPalaceError::Validation(m)) if m == "no group store configured"
    ));
}

#[test]
fn search_and_list_filter_by_access() {
    let mut svc = access_service();
    let owner = TenantContext::user("owner@x.com");
    let stranger = TenantContext::user("stranger@x.com");
    svc.create_page(public_input("pub", None), &owner).unwrap();
    svc.create_page(private_input("priv", None), &owner).unwrap();
    let listed = svc.list_pages(&PageFilter::default(), &stranger).unwrap();
    let slugs: Vec<_> = listed.iter().map(|p| p.slug.as_str().to_string()).collect();
    assert!(slugs.contains(&"pub".to_string()));
    assert!(!slugs.contains(&"priv".to_string()));
    let results = svc.search("anything", &stranger, 10).unwrap();
    let rslugs: Vec<_> = results.iter().map(|r| r.slug.as_str().to_string()).collect();
    assert!(!rslugs.contains(&"priv".to_string()));
    let owner_list = svc.list_pages(&PageFilter::default(), &owner).unwrap();
    assert_eq!(owner_list.len(), 2);
}

#[test]
fn anonymous_sees_public_page() {
    let mut svc = access_service();
    let owner = TenantContext::user("owner@x.com");
    svc.create_page(public_input("open", None), &owner).unwrap();
    let anon = TenantContext::anonymous();
    assert!(svc.read_page(&slug("open"), ReadLevel::Summary, &anon).is_ok());
}

#[test]
fn page_access_reports_capabilities() {
    let mut svc = access_service();
    let owner = TenantContext::user("owner@x.com");
    let viewer = TenantContext::user("viewer@x.com");
    svc.create_page(private_input("doc", None), &owner).unwrap();
    svc.share_page(&slug("doc"), Principal::User("viewer@x.com".into()), Level::View, &owner).unwrap();
    let info = svc.page_access(&slug("doc"), &viewer).unwrap();
    assert!(!info.can_manage);
    assert!(!info.can_edit);
    let mine = svc.page_access(&slug("doc"), &owner).unwrap();
    assert!(mine.can_manage && mine.can_edit);
    svc.unshare_page(&slug("doc"), &Principal::User("viewer@x.com".into()), &owner).unwrap();
    assert!(svc.page_access(&slug("doc"), &viewer).is_err());
}

// --- Containment ---

#[test]
fn grant_on_parent_inherited_by_descendants() {
    let mut svc = access_service();
    let owner = TenantContext::user("owner@x.com");
    let grantee = TenantContext::user("grantee@x.com");
    let stranger = TenantContext::user("stranger@x.com");
    svc.create_page(private_input("root", None), &owner).unwrap();
    svc.create_page(private_input("child", Some("root")), &owner).unwrap();
    svc.create_page(private_input("grandchild", Some("child")), &owner).unwrap();
    assert!(svc.read_page(&slug("grandchild"), ReadLevel::Summary, &grantee).is_err());
    svc.share_page(&slug("root"), Principal::User("grantee@x.com".into()), Level::Edit, &owner).unwrap();
    assert!(svc.read_page(&slug("child"), ReadLevel::Summary, &grantee).is_ok());
    assert!(svc.read_page(&slug("grandchild"), ReadLevel::Summary, &grantee).is_ok());
    let upd = UpdatePageInput { title: Some("edited-via-inheritance".into()), ..Default::default() };
    assert!(svc.update_page(&slug("grandchild"), upd, &grantee).is_ok());
    assert!(svc.read_page(&slug("grandchild"), ReadLevel::Summary, &stranger).is_err());
}

#[test]
fn grant_does_not_cross_related_link() {
    let mut svc = access_service();
    let owner = TenantContext::user("owner@x.com");
    let grantee = TenantContext::user("grantee@x.com");
    svc.create_page(private_input("shared", None), &owner).unwrap();
    let mut related_input = private_input("associated", None);
    related_input.links = vec![slug("shared")];
    svc.create_page(related_input, &owner).unwrap();
    svc.share_page(&slug("shared"), Principal::User("grantee@x.com".into()), Level::View, &owner).unwrap();
    assert!(svc.read_page(&slug("shared"), ReadLevel::Summary, &grantee).is_ok());
    assert!(svc.read_page(&slug("associated"), ReadLevel::Summary, &grantee).is_err());
}

#[test]
fn cyclic_parent_is_rejected() {
    let mut svc = access_service();
    let owner = TenantContext::user("owner@x.com");
    svc.create_page(private_input("a", None), &owner).unwrap();
    svc.create_page(private_input("b", Some("a")), &owner).unwrap();
    svc.create_page(private_input("c", Some("b")), &owner).unwrap();
    let upd = UpdatePageInput { parent: Some(Some(slug("c"))), ..Default::default() };
    let res = svc.update_page(&slug("a"), upd, &owner);
    assert!(matches!(res, Err(MindPalaceError::Validation(_))));
    let self_parent = UpdatePageInput { parent: Some(Some(slug("b"))), ..Default::default() };
    assert!(matches!(svc.update_page(&slug("b"), self_parent, &owner), Err(MindPalaceError::Validation(_))));
}

#[test]
fn root_page_behaves_like_spec2() {
    let mut svc = access_service();
    let owner = TenantContext::user("owner@x.com");
    let stranger = TenantContext::user("stranger@x.com");
    svc.create_page(private_input("solo", None), &owner).unwrap();
    assert!(svc.read_page(&slug("solo"), ReadLevel::Summary, &owner).is_ok());
    assert!(svc.read_page(&slug("solo"), ReadLevel::Summary, &stranger).is_err());
    svc.share_page(&slug("solo"), Principal::User("stranger@x.com".into()), Level::View, &owner).unwrap();
    assert!(svc.read_page(&slug("solo"), ReadLevel::Summary, &stranger).is_ok());
}

#[test]
fn parent_requires_edit_on_both() {
    let mut svc = access_service();
    let owner = TenantContext::user("owner@x.com");
    let other = TenantContext::user("other@x.com");
    svc.create_page(private_input("container", None), &owner).unwrap();
    let res = svc.create_page(private_input("otherdoc", Some("container")), &other);
    assert!(matches!(res, Err(MindPalaceError::AccessDenied(_))));
    svc.share_page(&slug("container"), Principal::User("other@x.com".into()), Level::View, &owner).unwrap();
    let res_view = svc.create_page(private_input("otherdoc2", Some("container")), &other);
    assert!(matches!(res_view, Err(MindPalaceError::AccessDenied(_))));
    svc.share_page(&slug("container"), Principal::User("other@x.com".into()), Level::Edit, &owner).unwrap();
    assert!(svc.create_page(private_input("otherdoc3", Some("container")), &other).is_ok());
    let res_missing = svc.create_page(private_input("orphan", Some("does-not-exist")), &owner);
    assert!(matches!(res_missing, Err(MindPalaceError::Validation(_))));
}

#[test]
fn traverse_related_unchanged_alongside_containment() {
    let mut svc = access_service();
    let owner = TenantContext::user("owner@x.com");
    svc.create_page(public_input("hub", None), &owner).unwrap();
    svc.create_page(public_input("spoke", None), &owner).unwrap();
    svc.update_page(&slug("hub"), UpdatePageInput { links: Some(vec![slug("spoke")]), ..Default::default() }, &owner)
        .unwrap();
    svc.create_page(public_input("buried", Some("hub")), &owner).unwrap();
    let neighbors = svc.traverse(&slug("hub"), 2, &owner).unwrap();
    let related: Vec<_> = neighbors
        .iter()
        .filter(|n| n.edge_kind == EdgeKind::Related)
        .map(|n| n.slug.as_str().to_string())
        .collect();
    let child: Vec<_> = neighbors
        .iter()
        .filter(|n| n.edge_kind == EdgeKind::Child)
        .map(|n| n.slug.as_str().to_string())
        .collect();
    assert!(related.contains(&"spoke".to_string()));
    assert!(child.contains(&"buried".to_string()));
    assert!(!related.contains(&"buried".to_string()));
}

#[test]
fn group_grant_on_parent_reaches_members_of_descendants() {
    let mut svc = access_service();
    let owner = TenantContext::user("owner@x.com");
    let member = TenantContext::user("member@x.com");
    let outsider = TenantContext::user("outsider@x.com");
    svc.group_create(GroupId::new("team"), "Team", &owner).unwrap();
    svc.group_add_member(&GroupId::new("team"), "member@x.com", &owner).unwrap();
    svc.create_page(private_input("area", None), &owner).unwrap();
    svc.create_page(private_input("doc", Some("area")), &owner).unwrap();
    svc.share_page(&slug("area"), Principal::Group(GroupId::new("team")), Level::View, &owner).unwrap();
    assert!(svc.read_page(&slug("doc"), ReadLevel::Summary, &member).is_ok());
    assert!(svc.read_page(&slug("doc"), ReadLevel::Summary, &outsider).is_err());
}

// --- Integration ---

fn general_input(title: &str, slug_str: &str, summary: &str, sections: Vec<Section>, page_type: PageType, links: Vec<Slug>) -> CreatePageInput {
    CreatePageInput {
        title: title.into(),
        slug: slug(slug_str),
        summary: summary.into(),
        sections,
        page_type,
        visibility: Visibility::General,
        links,
        base_visibility: None,
        parent: None,
        secret_refs: vec![],
    }
}

#[test]
fn create_index_concept_leaf_and_verify_graph_connectivity() {
    let mut svc = make_service();
    let ctx = TenantContext::global();
    svc.create_page(
        general_input("Knowledge Index", "knowledge-index", "Root index for all knowledge", vec![sec("Overview", "Top-level index.")], PageType::Index, vec![]),
        &ctx,
    )
    .unwrap();
    svc.create_page(
        general_input("Rust Language", "rust-language", "Concept page about Rust", vec![sec("Basics", "Rust is a systems programming language.")], PageType::Index, vec![slug("knowledge-index")]),
        &ctx,
    )
    .unwrap();
    svc.create_page(
        general_input("Ownership Rules", "ownership-rules", "Leaf page about ownership", vec![sec("Rules", "Each value has one owner. Detailed explanation of Rust ownership model.")], PageType::Leaf, vec![slug("rust-language")]),
        &ctx,
    )
    .unwrap();
    let concept_neighbors = svc.traverse(&slug("rust-language"), 1, &ctx).unwrap();
    assert!(concept_neighbors.iter().any(|n| n.slug.as_str() == "knowledge-index"));
    let leaf_neighbors = svc.traverse(&slug("ownership-rules"), 1, &ctx).unwrap();
    assert!(leaf_neighbors.iter().any(|n| n.slug.as_str() == "rust-language"));
    let all_pages = svc.list_pages(&PageFilter::default(), &ctx).unwrap();
    assert_eq!(all_pages.len(), 3);
}

#[test]
fn read_at_different_levels_summary_shorter_than_full() {
    let mut svc = make_service();
    let ctx = TenantContext::global();
    svc.create_page(
        general_input(
            "Detailed Page",
            "detailed-page",
            "Short summary",
            vec![
                sec("Introduction", "This is a lengthy introduction section with lots of content to ensure the full version is much longer than the summary."),
                sec("Details", "Even more detailed content here that adds to the total length of the full page read."),
            ],
            PageType::Concept,
            vec![],
        ),
        &ctx,
    )
    .unwrap();
    let s = slug("detailed-page");
    let summary_len = match svc.read_page(&s, ReadLevel::Summary, &ctx).unwrap() {
        PageResponse::Summary { summary, .. } => summary.len(),
        _ => panic!("expected Summary response"),
    };
    let full_len = match svc.read_page(&s, ReadLevel::Full, &ctx).unwrap() {
        PageResponse::Full(page) => page.full_content().len(),
        _ => panic!("expected Full response"),
    };
    assert!(full_len > summary_len);
    match svc.read_page(&s, ReadLevel::Section("Details".into()), &ctx).unwrap() {
        PageResponse::Section { heading, .. } => assert_eq!(heading, "Details"),
        _ => panic!("expected Section response"),
    }
    assert!(matches!(
        svc.read_page(&s, ReadLevel::Section("Nope".into()), &ctx),
        Err(MindPalaceError::PageNotFound(m)) if m == "section: Nope"
    ));
}

#[test]
fn tenant_isolation_prevents_cross_tenant_access() {
    let mut svc = make_service();
    let tenant_a = TenantContext::leaf(TenantId::new("tenant-a"));
    let tenant_b = TenantContext::leaf(TenantId::new("tenant-b"));
    let mut input = general_input("Secret A Page", "secret-a", "Only for tenant A", vec![sec("Content", "Private data.")], PageType::Leaf, vec![]);
    input.visibility = Visibility::Tenant(TenantId::new("tenant-a"));
    svc.create_page(input, &tenant_a).unwrap();
    assert!(svc.read_page(&slug("secret-a"), ReadLevel::Summary, &tenant_a).is_ok());
    assert!(svc.read_page(&slug("secret-a"), ReadLevel::Summary, &tenant_b).is_err());
    assert!(svc.read_page(&slug("secret-a"), ReadLevel::Summary, &TenantContext::global()).is_ok());
}

#[test]
fn tenant_isolation_list_pages_filters_correctly() {
    let mut svc = make_service();
    let tenant_a = TenantContext::leaf(TenantId::new("tenant-a"));
    let tenant_b = TenantContext::leaf(TenantId::new("tenant-b"));
    let mut a_input = general_input("A's Page", "a-page", "Belongs to A", vec![sec("Info", "Data.")], PageType::Leaf, vec![]);
    a_input.visibility = Visibility::Tenant(TenantId::new("tenant-a"));
    svc.create_page(a_input, &tenant_a).unwrap();
    svc.create_page(
        general_input("General Page", "general-page", "Visible to all", vec![sec("Info", "Public data.")], PageType::Concept, vec![]),
        &tenant_a,
    )
    .unwrap();
    let filter = PageFilter::default();
    let b_pages = svc.list_pages(&filter, &tenant_b).unwrap();
    assert_eq!(b_pages.len(), 1);
    assert_eq!(b_pages[0].slug.as_str(), "general-page");
    let a_pages = svc.list_pages(&filter, &tenant_a).unwrap();
    assert_eq!(a_pages.len(), 2);
}

// --- Secrets ---

fn secret_service(with_resolver: bool) -> Svc {
    let svc = base_service(true);
    if with_resolver {
        svc.with_secrets_resolver(FakeResolver::default())
    } else {
        svc
    }
}

fn private_page_with_secret(slug_str: &str, refs: Vec<SecretRef>) -> CreatePageInput {
    CreatePageInput { secret_refs: refs, ..private_input(slug_str, None) }
}

#[test]
fn valid_reference_is_accepted_and_raw_secret_is_rejected() {
    let mut svc = secret_service(true);
    let owner = TenantContext::user("owner@x.com");
    let ok = svc.create_page(private_page_with_secret("db", vec![SecretRef::new("db", "ref://db/creds")]), &owner);
    assert!(ok.is_ok());
    let bad = svc.create_page(private_page_with_secret("api", vec![SecretRef::new("api", "hunter2-raw-secret")]), &owner);
    assert!(matches!(bad, Err(MindPalaceError::Validation(_))));
}

#[test]
fn read_never_returns_resolved_value_only_the_reference() {
    let mut svc = secret_service(true);
    let owner = TenantContext::user("owner@x.com");
    svc.create_page(private_page_with_secret("db", vec![SecretRef::new("db", "ref://db/creds")]), &owner).unwrap();
    match svc.read_page(&slug("db"), ReadLevel::Full, &owner).unwrap() {
        PageResponse::Full(page) => {
            assert_eq!(page.secret_refs.len(), 1);
            assert_eq!(page.secret_refs[0].reference, "ref://db/creds");
            assert!(!page.sections.iter().any(|s| s.content.contains("VALUE_FOR::")));
        }
        _ => panic!("expected Full"),
    }
}

#[test]
fn get_secret_allows_owner_denies_stranger() {
    let mut svc = secret_service(true);
    let owner = TenantContext::user("owner@x.com");
    svc.create_page(private_page_with_secret("db", vec![SecretRef::new("db", "ref://db/creds")]), &owner).unwrap();
    let val = svc.get_secret(&slug("db"), "db", &owner).expect("owner may resolve");
    assert_eq!(val.expose(), "VALUE_FOR::ref://db/creds");
    let stranger = TenantContext::user("stranger@x.com");
    let denied = svc.get_secret(&slug("db"), "db", &stranger);
    assert!(matches!(denied, Err(MindPalaceError::PageNotFound(_))));
    let anon_res = svc.get_secret(&slug("db"), "db", &TenantContext::anonymous());
    assert!(matches!(anon_res, Err(MindPalaceError::PageNotFound(_))));
}

#[test]
fn get_secret_missing_name_is_clean_not_found() {
    let mut svc = secret_service(true);
    let owner = TenantContext::user("owner@x.com");
    svc.create_page(private_page_with_secret("db", vec![SecretRef::new("db", "ref://db/creds")]), &owner).unwrap();
    let res = svc.get_secret(&slug("db"), "does-not-exist", &owner);
    assert!(matches!(res, Err(MindPalaceError::PageNotFound(m)) if m == "secret 'does-not-exist' on page 'db'"));
}

#[test]
fn get_secret_without_backend_is_not_configured() {
    let mut svc = secret_service(false);
    let owner = TenantContext::user("owner@x.com");
    svc.create_page(private_page_with_secret("db", vec![SecretRef::new("db", "ref://db/creds")]), &owner).unwrap();
    let res = svc.get_secret(&slug("db"), "db", &owner);
    assert!(matches!(res, Err(MindPalaceError::Secret(SecretError::NotConfigured(_)))));
}

#[test]
fn public_page_with_secret_ref_fails_lint() {
    let mut svc = secret_service(true);
    let owner = TenantContext::user("owner@x.com");
    let mut input = private_page_with_secret("pub", vec![SecretRef::new("k", "ref://pub/key")]);
    input.base_visibility = Some(BaseVisibility::Public);
    let (_page, issues) = svc.create_page(input, &owner).unwrap();
    assert!(issues.iter().any(|i| i.code == LintCode::PublicPageWithSecrets && i.severity == Severity::Error));
}

#[test]
fn secret_refs_can_be_added_listed_and_removed() {
    let mut svc = secret_service(true);
    let owner = TenantContext::user("owner@x.com");
    svc.create_page(private_input("vault", None), &owner).unwrap();
    svc.add_secret_ref(&slug("vault"), SecretRef::new("db", "ref://a"), &owner).unwrap();
    svc.add_secret_ref(&slug("vault"), SecretRef::new("db", "ref://b"), &owner).unwrap();
    let refs = svc.list_secret_refs(&slug("vault"), &owner).unwrap();
    assert_eq!(refs.len(), 1);
    assert_eq!(refs[0].reference, "ref://b");
    svc.remove_secret_ref(&slug("vault"), "db", &owner).unwrap();
    assert!(svc.list_secret_refs(&slug("vault"), &owner).unwrap().is_empty());
    assert!(svc.list_secret_refs(&slug("vault"), &TenantContext::user("x@y.z")).is_err());
}

#[test]
fn public_access_refused_while_page_has_secrets() {
    let mut svc = secret_service(true);
    let owner = TenantContext::user("owner@x.com");
    svc.create_page(private_page_with_secret("db", vec![SecretRef::new("db", "ref://db/creds")]), &owner).unwrap();
    let res = svc.set_page_access(&slug("db"), Some(BaseVisibility::Public), None, &owner);
    assert!(matches!(res, Err(MindPalaceError::Validation(m)) if m == "cannot make page 'db' public while it carries 1 secret reference(s)"));
    svc.set_page_access(&slug("db"), None, Some(Some("new@x.com".into())), &owner).unwrap();
    let info = svc.page_access(&slug("db"), &TenantContext::user("new@x.com")).unwrap();
    assert_eq!(info.access.owner.as_deref(), Some("new@x.com"));
}

#[test]
fn graph_view_lists_pages_and_their_edges() {
    let mut svc = access_service();
    let owner = TenantContext::user("owner@x.com");
    svc.create_page(public_input("a", None), &owner).unwrap();
    svc.create_page(public_input("b", Some("a")), &owner).unwrap();
    let (pages, edges) = mind_palace::web::get_graph(&mut svc, &owner).unwrap();
    let slugs: Vec<&str> = pages.iter().map(|p| p.slug.as_str()).collect();
    assert_eq!(slugs, vec!["a", "b"]);
    assert!(edges.iter().any(|e| e.source == "a" && e.target == "b" && e.kind == "Child"));
    assert!(edges.iter().all(|e| e.source == "a" || e.source == "b"));
    // A stranger sees the public pages too, but nothing private.
    svc.create_page(private_input("hidden", Some("a")), &owner).unwrap();
    let stranger = TenantContext::user("stranger@x.com");
    let (pages, edges) = mind_palace::web::get_graph(&mut svc, &stranger).unwrap();
    assert!(pages.iter().all(|p| p.slug.as_str() != "hidden"));
    assert!(edges.iter().all(|e| e.target != "hidden"));
}

#[test]
fn reparenting_moves_the_child_edge() {
    let mut svc = access_service();
    let owner = TenantContext::user("owner@x.com");
    svc.create_page(public_input("a", None), &owner).unwrap();
    svc.create_page(public_input("b", None), &owner).unwrap();
    svc.create_page(public_input("c", Some("a")), &owner).unwrap();
    let (_, edges) = mind_palace::web::get_graph(&mut svc, &owner).unwrap();
    assert!(edges.iter().any(|e| e.source == "a" && e.target == "c" && e.kind == "Child"));
    let upd = UpdatePageInput { parent: Some(Some(slug("b"))), ..Default::default() };
    svc.update_page(&slug("c"), upd, &owner).unwrap();
    let (_, edges) = mind_palace::web::get_graph(&mut svc, &owner).unwrap();
    assert!(!edges.iter().any(|e| e.source == "a" && e.target == "c" && e.kind == "Child"));
    assert!(edges.iter().any(|e| e.source == "b" && e.target == "c" && e.kind == "Child"));
    let links = UpdatePageInput { links: Some(vec![slug("a")]), ..Default::default() };
    svc.update_page(&slug("c"), links, &owner).unwrap();
    let (_, edges) = mind_palace::web::get_graph(&mut svc, &owner).unwrap();
    assert!(edges.iter().any(|e| e.source == "c" && e.target == "a" && e.kind == "Related"));
}

#[test]
fn archived_pages_stay_out_of_listings_after_a_reload() {
    let mut svc = access_service();
    let owner = TenantContext::user("owner@x.com");
    svc.create_page(public_input("a", None), &owner).unwrap();
    svc.create_page(public_input("b", None), &owner).unwrap();
    svc.archive_page(&slug("b"), &owner).unwrap();
    let pages = svc.list_pages(&PageFilter::default(), &owner).unwrap();
    let slugs: Vec<&str> = pages.iter().map(|p| p.slug.as_str()).collect();
    assert_eq!(slugs, vec!["a"]);
}

#[test]
fn a_cyclic_parent_leaves_the_graph_unchanged() {
    let mut svc = access_service();
    let owner = TenantContext::user("owner@x.com");
    svc.create_page(private_input("a", None), &owner).unwrap();
    svc.create_page(private_input("b", Some("a")), &owner).unwrap();
    let nodes = svc.graph().node_count();
    let edges = svc.graph().edge_count();
    let upd = UpdatePageInput { parent: Some(Some(slug("b"))), ..Default::default() };
    assert!(matches!(svc.update_page(&slug("a"), upd, &owner), Err(MindPalaceError::Validation(_))));
    assert_eq!(svc.graph().node_count(), nodes);
    assert_eq!(svc.graph().edge_count(), edges);
}

#[test]
fn new_page_builds_what_is_stored() {
    let now = Timestamp { secs: 1_700_000_000, nanos: 0 };
    let access = mind_palace::value_objects::PageAccess::from_visibility(&Visibility::General);
    let p = new_page(sample_input(), access, PageId(42), now).unwrap();
    assert_eq!(p.id, PageId(42));
    assert_eq!(p.title, "Rust Basics");
    assert_eq!(p.version, 1);
    assert_eq!(p.created_at, now);
    assert_eq!(p.updated_at, now);
    assert_eq!(p.toc.entries.len(), 1);
    let mut bad = sample_input();
    bad.summary = String::new();
    let access = mind_palace::value_objects::PageAccess::from_visibility(&Visibility::General);
    match new_page(bad, access, PageId(1), now) {
        Err(MindPalaceError::Validation(m)) => assert_eq!(m, "summary is required"),
        other => panic!("expected a validation error, got {:?}", other.map(|p| p.title)),
    }
}

#[test]
fn page_after_update_moves_parent_and_bumps_version() {
    let now = Timestamp { secs: 1_800_000_000, nanos: 0 };
    let access = mind_palace::value_objects::PageAccess::from_visibility(&Visibility::General);
    let p = new_page(sample_input(), access, PageId(42), Timestamp { secs: 1, nanos: 0 }).unwrap();
    let upd = UpdatePageInput {
        title: Some("New".into()),
        parent: Some(Some(slug("hub"))),
        ..Default::default()
    };
    let q = mind_palace::service::page_after_update(p, upd, now);
    assert_eq!(q.title, "New");
    assert_eq!(q.parent.as_ref().map(|s| s.as_str()), Some("hub"));
    assert_eq!(q.version, 2);
    assert_eq!(q.updated_at, now);
    assert_eq!(q.created_at, Timestamp { secs: 1, nanos: 0 });
}

#[test]
fn refused_creates_and_shares_leave_the_graph_unchanged() {
    let mut svc = access_service().with_secrets_resolver(FakeResolver { resolved: RefCell::new(Vec::new()) });
    let owner = TenantContext::user("owner@x.com");
    let other = TenantContext::user("other@x.com");
    svc.create_page(private_input("container", None), &owner).unwrap();
    let (nodes, edges) = (svc.graph().node_count(), svc.graph().edge_count());
    // A parent the caller may not edit.
    assert!(matches!(
        svc.create_page(private_input("child", Some("container")), &other),
        Err(MindPalaceError::AccessDenied(_))
    ));
    // A raw secret instead of a reference.
    let mut raw = private_input("api", None);
    raw.secret_refs = vec![SecretRef::new("api", "hunter2-raw-secret")];
    assert!(matches!(svc.create_page(raw, &owner), Err(MindPalaceError::Validation(_))));
    // A share by someone who does not own the page.
    assert!(matches!(
        svc.share_page(&slug("container"), Principal::User("other@x.com".into()), Level::Edit, &other),
        Err(MindPalaceError::AccessDenied(_))
    ));
    assert_eq!(svc.graph().node_count(), nodes);
    assert_eq!(svc.graph().edge_count(), edges);
    assert!(svc.read_page(&slug("container"), ReadLevel::Summary, &other).is_err());
}

#[test]
fn embedding_metadata_and_fetch_count() {
    let access = mind_palace::value_objects::PageAccess::from_visibility(&Visibility::User("u".into()));
    let p = new_page(sample_input(), access, PageId(9), Timestamp { secs: 0, nanos: 0 }).unwrap();
    let m = embedding_metadata_for(&p);
    assert_eq!(m.page_id, PageId(9));
    assert_eq!(m.slug.as_str(), "rust-basics");
    assert_eq!(m.title, "Rust Basics");
    assert_eq!(m.visibility, Visibility::User("u".into()));
    assert_eq!(fetch_count(5), 10);
}
