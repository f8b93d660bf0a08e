//! The wiki service: every operation on pages, access and groups, run
//! against the ports and the in-memory knowledge graph.
//!
//! What a port returns is not known in advance. Each operation states what
//! holds whatever came back: which gate a page read from the store must
//! have passed for the operation to succeed, what was computed from it, and
//! which error each refusal gives.
use vstd::multiset::Multiset;
use vstd::prelude::*;

use crate::clock::Timestamp;
use crate::error::{ErrorView, MindPalaceError};
use crate::graph::{
    listed, merge_grant, node_refs_view, union_grant, creates_cycle, effective_access_of, first_with_slug, first_visible_with_slug, kind_code,
    last_index_of, GraphNode, GraphNodeView, GraphView, KnowledgeGraph, NeighborInfo,
};
use crate::group::{strings_contain, strings_view, strings_without, Group};
use crate::lint::{issues_view, lint_page, opt_graph_view, spec_lint, LintIssue, LintIssueView};
use crate::page::{first_section_with, page_error_of, page_error_text, Page, PageView, ReadLevel};
use crate::ports::{
    ChangeAction, ChangelogEntry, ChangelogStore, EmbeddingMetadata, EmbeddingPort, GraphEdgeData,
    GraphNodeData, GraphStore, GroupStore, PageFilter, PageStore, SearchResult, SecretError,
    SecretErrorView, SecretValue, SecretsResolver, VectorSearchPort,
};
use crate::rules::{
    access_for_new_page, caller_is_manager, delete_sections, edit_gate, first_ref_named, grants_without,
    map_validation_error, merge_sections, merge_sections_spec, new_page_access, refs_without,
    remove_grants_to, removes_last_manager, secret_gate, secret_validation_error, spec_caller_is_manager,
    spec_secret_gate, texts_view, view_gate, with_secret_ref, without_headings, without_secret_ref,
};
use crate::tenant::{
    ctx_user, ids_view, member_group_ids, spec_can_edit_page, spec_can_manage_grants,
    spec_can_see_page, ContextView, GroupMembership, TenantContext,
};
use crate::text::{decimal, concat2, concat3, concat4, concat5, contains_chars, chars_of, copy_str, has_infix};
use crate::value_objects::{
    duplicate_opt, duplicate_opt_slug, duplicate_refs, duplicate_sections, duplicate_slugs,
    opt_slug_view, opt_view, refs_view, sections_view, slugs_view, spec_toc,
    spec_visibility_from_access, AccessView, BaseVisibility, EdgeKind, Grant, GrantView, Level,
    Principal, PrincipalView, GroupId, PageAccess, PageId,
    PageType, SecretRef, Section, SectionView, Slug, TableOfContents, Visibility,
    VisibilityView,
};

verus! {

broadcast use vstd::string::group_string_axioms;

// ---------------------------------------------------------------------------
// Inputs and outputs
// ---------------------------------------------------------------------------

/// What a new page is made of.
pub struct CreatePageInput {
    pub title: String,
    pub slug: Slug,
    pub summary: String,
    pub sections: Vec<Section>,
    pub page_type: PageType,
    pub visibility: Visibility,
    pub links: Vec<Slug>,
    /// Explicit base visibility; when `None` it is derived from `visibility`.
    pub base_visibility: Option<BaseVisibility>,
    /// Containment parent; setting one needs edit permission on it and must
    /// not create a cycle.
    pub parent: Option<Slug>,
    /// Secret references (locators, never values), validated on create.
    pub secret_refs: Vec<SecretRef>,
}

/// A change to a page. Fields set to `None` are left unchanged.
#[derive(Debug, Clone)]
pub struct UpdatePageInput {
    pub title: Option<String>,
    pub summary: Option<String>,
    pub sections: Option<Vec<Section>>,
    pub links: Option<Vec<Slug>>,
    /// When false, sections are merged by heading; when true they replace
    /// the page's sections.
    pub replace_sections: bool,
    /// Headings to delete, after the merge or replacement.
    pub delete_sections: Vec<String>,
    /// `None` leaves the parent; `Some(None)` detaches the page to the root;
    /// `Some(Some(s))` moves it under `s`.
    pub parent: Option<Option<Slug>>,
    /// `Some(list)` replaces the page's secret references.
    pub secret_refs: Option<Vec<SecretRef>>,
}

impl Default for UpdatePageInput {
    /// A change that changes nothing.
    fn default() -> (r: Self)
        ensures
            r.title is None,
            r.summary is None,
            r.sections is None,
            r.links is None,
            !r.replace_sections,
            r.delete_sections@.len() == 0,
            r.parent is None,
            r.secret_refs is None,
    {
        UpdatePageInput {
            title: None,
            summary: None,
            sections: None,
            links: None,
            replace_sections: false,
            delete_sections: Vec::new(),
            parent: None,
            secret_refs: None,
        }
    }
}

/// What a read returns, by level of detail.
#[derive(Debug, Clone)]
pub enum PageResponse {
    Summary { title: String, slug: Slug, summary: String, page_type: PageType },
    Section { heading: String, content: String },
    Full(Page),
}

/// A page's access with the caller's own capabilities on it.
#[derive(Debug, Clone)]
pub struct PageAccessInfo {
    pub access: PageAccess,
    /// Whether the caller may change grants and owner.
    pub can_manage: bool,
    /// Whether the caller may edit the page content (effective access).
    pub can_edit: bool,
}

/// One audit event, projected from the changelog.
#[derive(Debug, Clone)]
pub struct AuditEvent {
    pub timestamp: Timestamp,
    pub slug: String,
    pub action: String,
    pub agent_id: Option<String>,
    pub summary: Option<String>,
}

// ---------------------------------------------------------------------------
// Pure parts of the operations
// ---------------------------------------------------------------------------

/// The response a read at `level` gives for page `p`.
pub open spec fn response_matches(r: PageResponse, p: PageView, level: ReadLevel) -> bool {
    match level {
        ReadLevel::Summary => r matches PageResponse::Summary { title, slug, summary, page_type }
            && title@ == p.title && slug@ == p.slug && summary@ == p.summary && page_type
            == p.page_type,
        ReadLevel::Section(h) => match first_section_with(p.sections, h@) {
            Some(i) => r matches PageResponse::Section { heading, content } && heading@
                == p.sections[i].heading && content@ == p.sections[i].content,
            None => false,
        },
        ReadLevel::Full => r matches PageResponse::Full(q) && q@ == p,
    }
}

/// Whether a read at `level` fails on page `p` once access is granted: a
/// missing section is not found.
pub open spec fn response_error(p: PageView, level: ReadLevel) -> Option<ErrorView> {
    match level {
        ReadLevel::Section(h) => match first_section_with(p.sections, h@) {
            Some(_) => None,
            None => Some(ErrorView::PageNotFound("section: "@ + h@)),
        },
        _ => None,
    }
}

/// Shapes a page into the response for `level`.
pub fn page_response(page: Page, level: ReadLevel) -> (r: Result<PageResponse, MindPalaceError>)
    ensures
        match response_error(page@, level) {
            Some(e) => r matches Err(x) && x@ == e,
            None => r matches Ok(resp) && response_matches(resp, page@, level),
        },
{
    match level {
        ReadLevel::Summary => Ok(
            PageResponse::Summary {
                title: page.title,
                slug: page.slug,
                summary: page.summary,
                page_type: page.page_type,
            },
        ),
        ReadLevel::Section(heading) => {
            match page.section_by_heading(heading.as_str()) {
                Some(section) => Ok(
                    PageResponse::Section {
                        heading: section.heading.clone(),
                        content: section.content.clone(),
                    },
                ),
                None => Err(MindPalaceError::PageNotFound(concat2("section: ", heading.as_str()))),
            }
        },
        ReadLevel::Full => Ok(PageResponse::Full(page)),
    }
}

/// The value of a changelog entry.
pub struct EntryView {
    pub timestamp: Timestamp,
    pub slug: Seq<char>,
    pub page_id: u128,
    pub action: ChangeAction,
    pub agent_id: Option<Seq<char>>,
    pub summary: Option<Seq<char>>,
}

impl View for ChangelogEntry {
    type V = EntryView;

    open spec fn view(&self) -> EntryView {
        EntryView {
            timestamp: self.timestamp,
            slug: self.slug@,
            page_id: self.page_id.0,
            action: self.action,
            agent_id: opt_view(self.agent_id),
            summary: opt_view(self.summary),
        }
    }
}

/// The value of an audit event.
pub struct AuditEventView {
    pub timestamp: Timestamp,
    pub slug: Seq<char>,
    pub action: Seq<char>,
    pub agent_id: Option<Seq<char>>,
    pub summary: Option<Seq<char>>,
}

impl View for AuditEvent {
    type V = AuditEventView;

    open spec fn view(&self) -> AuditEventView {
        AuditEventView {
            timestamp: self.timestamp,
            slug: self.slug@,
            action: self.action@,
            agent_id: opt_view(self.agent_id),
            summary: opt_view(self.summary),
        }
    }
}

/// The name of an action.
pub open spec fn action_name(a: ChangeAction) -> Seq<char> {
    match a {
        ChangeAction::Created => "Created"@,
        ChangeAction::Updated => "Updated"@,
        ChangeAction::Deleted => "Deleted"@,
    }
}

/// The name of an action.
pub fn action_to_string(action: ChangeAction) -> (r: String)
    ensures
        r@ == action_name(action),
{
    match action {
        ChangeAction::Created => String::from_str("Created"),
        ChangeAction::Updated => String::from_str("Updated"),
        ChangeAction::Deleted => String::from_str("Deleted"),
    }
}

/// Whether an entry passes the audit filters: its slug contains `resource`,
/// and its acting identity contains `subject` (an entry without one fails a
/// subject filter).
pub open spec fn audit_keep(e: EntryView, resource: Option<Seq<char>>, subject: Option<Seq<char>>) -> bool {
    (match resource {
        Some(r) => has_infix(e.slug, r),
        None => true,
    }) && (match subject {
        Some(s) => match e.agent_id {
            Some(a) => has_infix(a, s),
            None => false,
        },
        None => true,
    })
}

/// The audit events for entries, filtered, in order.
pub open spec fn audit_of(es: Seq<EntryView>, resource: Option<Seq<char>>, subject: Option<Seq<char>>) -> Seq<
    AuditEventView,
>
    decreases es.len(),
{
    if es.len() == 0 {
        Seq::empty()
    } else {
        let rest = audit_of(es.drop_last(), resource, subject);
        let e = es.last();
        if audit_keep(e, resource, subject) {
            rest.push(
                AuditEventView {
                    timestamp: e.timestamp,
                    slug: e.slug,
                    action: action_name(e.action),
                    agent_id: e.agent_id,
                    summary: e.summary,
                },
            )
        } else {
            rest
        }
    }
}

/// The views of changelog entries.
pub open spec fn entries_view(v: Seq<ChangelogEntry>) -> Seq<EntryView> {
    Seq::new(v.len(), |i: int| v[i]@)
}

/// The views of audit events.
pub open spec fn events_view(v: Seq<AuditEvent>) -> Seq<AuditEventView> {
    Seq::new(v.len(), |i: int| v[i]@)
}

/// The view of an optional string argument.
pub open spec fn opt_str_view(o: Option<&str>) -> Option<Seq<char>> {
    match o {
        Some(s) => Some(s@),
        None => None,
    }
}

/// Projects changelog entries into audit events, keeping those whose slug
/// contains `resource` and whose acting identity contains `subject`.
pub fn audit_events_from(entries: Vec<ChangelogEntry>, resource: Option<&str>, subject: Option<&str>) -> (r: Vec<
    AuditEvent,
>)
    ensures
        events_view(r@) == audit_of(entries_view(entries@), opt_str_view(resource), opt_str_view(subject)),
{
    let ghost es = entries_view(entries@);
    let rc = match resource {
        Some(x) => Some(chars_of(x)),
        None => None,
    };
    let sc = match subject {
        Some(x) => Some(chars_of(x)),
        None => None,
    };
    let mut out: Vec<AuditEvent> = Vec::new();
    let n = entries.len();
    for i in 0..n
        invariant
            n == entries@.len(),
            es == entries_view(entries@),
            match resource {
                Some(x) => rc matches Some(v) && v@ == x@,
                None => rc is None,
            },
            match subject {
                Some(x) => sc matches Some(v) && v@ == x@,
                None => sc is None,
            },
            events_view(out@) == audit_of(es.take(i as int), opt_str_view(resource), opt_str_view(subject)),
    {
        let e = &entries[i];
        assert(es.take(i + 1).drop_last() =~= es.take(i as int));
        assert(es.take(i + 1).last() == e@);
        let slug_chars = chars_of(e.slug.as_str());
        let keep_resource = match &rc {
            Some(r) => contains_chars(&slug_chars, r),
            None => true,
        };
        let keep_subject = match &sc {
            Some(s) => match &e.agent_id {
                Some(a) => {
                    let ac = chars_of(a.as_str());
                    contains_chars(&ac, s)
                },
                None => false,
            },
            None => true,
        };
        if keep_resource && keep_subject {
            let ghost before = events_view(out@);
            let ev = AuditEvent {
                timestamp: e.timestamp,
                slug: copy_str(e.slug.as_str()),
                action: action_to_string(e.action),
                agent_id: duplicate_opt(&e.agent_id),
                summary: duplicate_opt(&e.summary),
            };
            out.push(ev);
            assert(events_view(out@) =~= audit_of(es.take(i + 1), opt_str_view(resource), opt_str_view(subject)));
        }
    }
    assert(es.take(n as int) =~= es);
    out
}

/// The value of a search hit.
pub struct SearchResultView {
    pub page_id: u128,
    pub slug: Seq<char>,
    pub title: Seq<char>,
    pub summary: Seq<char>,
    pub score_bits: u64,
}

impl View for SearchResult {
    type V = SearchResultView;

    open spec fn view(&self) -> SearchResultView {
        SearchResultView {
            page_id: self.page_id.0,
            slug: self.slug@,
            title: self.title@,
            summary: self.summary@,
            score_bits: self.score_bits,
        }
    }
}

/// The views of search hits.
pub open spec fn results_view(v: Seq<SearchResult>) -> Seq<SearchResultView> {
    Seq::new(v.len(), |i: int| v[i]@)
}

/// Whether a hit on page `id` is shown: by the effective access of its node
/// when the graph has it; a page not yet in the graph keeps the vector
/// store's decision.
pub open spec fn search_keep(g: GraphView, c: ContextView, id: u128) -> bool {
    match last_index_of(g.nodes, id) {
        Some(i) => spec_can_see_page(
            c,
            match effective_access_of(g, g.nodes[i].page_id) {
                Some(a) => a,
                None => g.nodes[i].access,
            },
        ),
        None => true,
    }
}

/// The shown hits, in order.
pub open spec fn search_shown(g: GraphView, c: ContextView, rs: Seq<SearchResultView>) -> Seq<
    SearchResultView,
>
    decreases rs.len(),
{
    if rs.len() == 0 {
        Seq::empty()
    } else {
        let rest = search_shown(g, c, rs.drop_last());
        if search_keep(g, c, rs.last().page_id) {
            rest.push(rs.last())
        } else {
            rest
        }
    }
}

/// The first `limit` of a sequence (all of it when shorter).
pub open spec fn first_n<A>(s: Seq<A>, limit: nat) -> Seq<A> {
    if s.len() <= limit {
        s
    } else {
        s.take(limit as int)
    }
}

/// Keeps the hits the caller may see by the graph's access model, then the
/// first `limit` of them.
pub fn filter_search_results(
    raw: Vec<SearchResult>,
    graph: &KnowledgeGraph,
    ctx: &TenantContext,
    limit: usize,
) -> (r: Vec<SearchResult>)
    requires
        graph.wf(),
    ensures
        results_view(r@) == first_n(search_shown(graph@, ctx@, results_view(raw@)), limit as nat),
{
    let ghost rs = results_view(raw@);
    let mut shown: Vec<SearchResult> = Vec::new();
    let n = raw.len();
    for i in 0..n
        invariant
            n == raw@.len(),
            rs == results_view(raw@),
            graph.wf(),
            results_view(shown@) == search_shown(graph@, ctx@, rs.take(i as int)),
    {
        let hit = &raw[i];
        assert(rs.take(i + 1).drop_last() =~= rs.take(i as int));
        assert(rs.take(i + 1).last() == hit@);
        let keep = match graph.get_node(&hit.page_id) {
            Some(node) => {
                let access = match graph.effective_access(&node.page_id) {
                    Some(a) => a,
                    None => node.access.duplicate(),
                };
                ctx.can_see_page(&access)
            },
            None => true,
        };
        if keep {
            let ghost before = results_view(shown@);
            shown.push(
                SearchResult {
                    page_id: hit.page_id,
                    slug: hit.slug.duplicate(),
                    title: hit.title.clone(),
                    summary: hit.summary.clone(),
                    score_bits: hit.score_bits,
                },
            );
            assert(results_view(shown@) =~= before.push(hit@));
        }
    }
    assert(rs.take(n as int) =~= rs);
    let ghost all = results_view(shown@);
    if shown.len() > limit {
        shown.truncate(limit);
        assert(results_view(shown@) =~= all.take(limit as int));
    }
    shown
}

// ---------------------------------------------------------------------------
// The service
// ---------------------------------------------------------------------------

/// What the service knows of a caller once group membership is resolved:
/// the same identity and tenant scoping, and the groups of the first list
/// the group store gave that name the caller as a member (none without a
/// store, for an unauthenticated caller, or when the store failed).
pub open spec fn resolved_ctx(c: ContextView, r: ContextView, has_store: bool) -> bool {
    &&& r.identity == c.identity
    &&& r.tenant_id == c.tenant_id
    &&& r.visible_tenants == c.visible_tenants
    &&& if has_store && ctx_user(c) is Some {
        r.groups.len() == 0 || exists|gs: Seq<Group>|
            r.groups == #[trigger] member_group_ids(gs, ctx_user(c)->0)
    } else {
        r.groups.len() == 0
    }
}

/// The access a page is judged by: its own for a root page; otherwise its
/// effective access in the graph (by id, else by slug), falling back to its
/// own when the graph does not have it yet.
pub open spec fn effective_for(g: GraphView, p: PageView) -> AccessView {
    if p.parent is None {
        p.access
    } else {
        match effective_access_of(g, p.id) {
            Some(a) => a,
            None => match first_with_slug(g.nodes, p.slug) {
                Some(i) => match effective_access_of(g, g.nodes[i].page_id) {
                    Some(a) => a,
                    None => p.access,
                },
                None => p.access,
            },
        }
    }
}

/// What a traversal at `depth` gives a caller (`ctx` before its groups are
/// resolved): the start page passes the read gate, and the result is the
/// breadth-first tree from its node, or nothing when it has no node.
pub open spec fn traversed(g: GraphView, ctx: ContextView, has_groups: bool, depth: int, v: Seq<crate::graph::NeighborView>) -> bool {
    exists|p: PageView, c: ContextView|
        resolved_ctx(ctx, c, has_groups) && #[trigger] read_gate(g, c, p) && match last_index_of(
            g.nodes,
            p.id,
        ) {
            None => v.len() == 0,
            Some(i) => exists|order: Seq<int>, dep: Seq<int>, kinds: Seq<u8>|
                #[trigger] crate::graph::bfs_tree(g, c, i, depth, order, dep, kinds) && v
                    == crate::graph::bfs_entries(g, order, kinds),
        }
}

/// What a listing gives a caller (`ctx` before its groups are resolved):
/// a stub of each node it may see that is not archived, in graph order, of
/// the requested type, up to the limit.
pub open spec fn pages_listed(
    g: GraphView,
    ctx: ContextView,
    has_groups: bool,
    page_type: Option<PageType>,
    limit: Option<usize>,
    v: Seq<Page>,
) -> bool {
    exists|c: ContextView|
        #![trigger resolved_ctx(ctx, c, has_groups)]
        resolved_ctx(ctx, c, has_groups) && ({
            let shown = first_n(
                of_type(listed(g, c, g.nodes, false), page_type),
                match limit {
                    Some(l) => l as nat,
                    None => usize::MAX as nat,
                },
            );
            &&& v.len() == shown.len()
            &&& forall|k: int| 0 <= k < v.len() ==> stub_of((#[trigger] v[k])@, shown[k])
        })
}

/// Whether a caller passes the read gate for page `p`: it is not archived
/// and its effective access lets the caller see it.
pub open spec fn read_gate(g: GraphView, c: ContextView, p: PageView) -> bool {
    !(p.visibility is Archived) && spec_can_see_page(c, effective_for(g, p))
}

/// The node a page is stored as in the graph.
pub open spec fn node_of(p: PageView) -> GraphNodeView {
    GraphNodeView {
        page_id: p.id,
        slug: p.slug,
        title: p.title,
        summary: p.summary,
        visibility: p.visibility,
        access: p.access,
        page_type: p.page_type,
        parent: p.parent,
    }
}

/// The wiki service over its ports and the in-memory graph.
pub struct WikiService<P, V, E, G, C, S, R> {
    page_store: P,
    vector_search: V,
    embedding: E,
    graph_store: G,
    graph: KnowledgeGraph,
    changelog: Option<C>,
    group_store: Option<S>,
    secrets_resolver: Option<R>,
    /// The pages the service has handed to its page store to save, in order.
    saved: Ghost<Seq<PageView>>,
    /// The nodes the service has handed to its graph store to save, in order.
    nodes_stored: Ghost<Seq<GraphNodeView>>,
    /// The pages the page store returned to the service's lookups, in order.
    fetched: Ghost<Seq<PageView>>,
}

impl<
    P: PageStore,
    V: VectorSearchPort,
    E: EmbeddingPort,
    G: GraphStore,
    C: ChangelogStore,
    S: GroupStore,
    R: SecretsResolver,
> WikiService<P, V, E, G, C, S, R> {
    /// The service's invariant: its graph is well formed.
    pub closed spec fn wf(&self) -> bool {
        self.graph.wf()
    }

    /// The value of the service's graph.
    pub closed spec fn graph_view(&self) -> GraphView {
        self.graph@
    }

    /// Whether a changelog store is attached.
    pub closed spec fn has_changelog(&self) -> bool {
        self.changelog is Some
    }

    /// Whether a group store is attached.
    pub closed spec fn has_group_store(&self) -> bool {
        self.group_store is Some
    }

    /// Whether a secrets backend is attached.
    pub closed spec fn has_resolver(&self) -> bool {
        self.secrets_resolver is Some
    }

    /// The pages the service has handed to its page store to save, in
    /// order (each recorded when handed over, whatever the store answers).
    pub closed spec fn saved_pages(&self) -> Seq<PageView> {
        self.saved@
    }

    /// How many page saves the service has handed to its page store.
    pub open spec fn pages_saved(&self) -> nat {
        self.saved_pages().len()
    }

    /// The nodes the service has handed to its graph store to save, in
    /// order (each recorded when handed over, whatever the store answers).
    pub closed spec fn saved_nodes(&self) -> Seq<GraphNodeView> {
        self.nodes_stored@
    }

    /// The secrets backend, if any.
    pub closed spec fn backend(&self) -> Option<R> {
        self.secrets_resolver
    }

    /// Whether the secrets backend, if any, accepts `reference` (with none,
    /// every reference passes).
    pub open spec fn accepts_ref(&self, reference: Seq<char>) -> bool {
        match self.backend() {
            Some(res) => res.accepts(reference),
            None => true,
        }
    }

    /// The backend's verdict on each of these references, when there is a
    /// backend.
    pub open spec fn ref_verdicts(&self, refs: Seq<(Seq<char>, Seq<char>)>) -> Option<Seq<bool>> {
        match self.backend() {
            Some(res) => Some(Seq::new(refs.len(), |k: int| res.accepts(refs[k].1))),
            None => None,
        }
    }

    /// The pages the page store returned to the service's lookups, in order.
    pub closed spec fn fetched_pages(&self) -> Seq<PageView> {
        self.fetched@
    }

    /// Looks a page up by slug as the caller may see it, recording what the
    /// store returned.
    fn fetch_page(&mut self, slug: &Slug, ctx: &TenantContext) -> (r: Result<Page, MindPalaceError>)
        ensures
            final(self).backend() == old(self).backend(),
            final(self).graph_view() == old(self).graph_view(),
            final(self).wf() == old(self).wf(),
            final(self).has_changelog() == old(self).has_changelog(),
            final(self).has_group_store() == old(self).has_group_store(),
            final(self).has_resolver() == old(self).has_resolver(),
            final(self).saved_pages() == old(self).saved_pages(),
            final(self).saved_nodes() == old(self).saved_nodes(),
            match r {
                Ok(p) => final(self).fetched_pages() == old(self).fetched_pages().push(p@),
                Err(_) => final(self).fetched_pages() == old(self).fetched_pages(),
            },
    {
        let r = self.page_store.get_page_by_slug(slug, ctx);
        match &r {
            Ok(p) => {
                self.fetched = Ghost(self.fetched@.push(p@));
            },
            Err(_) => {},
        }
        r
    }

    /// Looks a page up by slug, whatever its partition, recording what the
    /// store returned.
    fn fetch_page_unfiltered(&mut self, slug: &Slug) -> (r: Result<Page, MindPalaceError>)
        ensures
            final(self).backend() == old(self).backend(),
            final(self).graph_view() == old(self).graph_view(),
            final(self).wf() == old(self).wf(),
            final(self).has_changelog() == old(self).has_changelog(),
            final(self).has_group_store() == old(self).has_group_store(),
            final(self).has_resolver() == old(self).has_resolver(),
            final(self).saved_pages() == old(self).saved_pages(),
            final(self).saved_nodes() == old(self).saved_nodes(),
            match r {
                Ok(p) => final(self).fetched_pages() == old(self).fetched_pages().push(p@),
                Err(_) => final(self).fetched_pages() == old(self).fetched_pages(),
            },
    {
        let r = self.page_store.get_page_by_slug_unfiltered(slug);
        match &r {
            Ok(p) => {
                self.fetched = Ghost(self.fetched@.push(p@));
            },
            Err(_) => {},
        }
        r
    }

    /// Hands a page to the page store, recording it.
    fn store_page(&mut self, page: &Page) -> (r: Result<(), MindPalaceError>)
        ensures
            final(self).backend() == old(self).backend(),
            final(self).graph_view() == old(self).graph_view(),
            final(self).wf() == old(self).wf(),
            final(self).has_changelog() == old(self).has_changelog(),
            final(self).has_group_store() == old(self).has_group_store(),
            final(self).has_resolver() == old(self).has_resolver(),
            final(self).saved_pages() == old(self).saved_pages().push(page@),
            final(self).saved_nodes() == old(self).saved_nodes(),
            final(self).fetched_pages() == old(self).fetched_pages(),
    {
        self.saved = Ghost(self.saved@.push(page@));
        self.page_store.save_page(page)
    }

    /// Hands a node to the graph store, recording it.
    fn store_node(&mut self, node: &GraphNodeData) -> (r: Result<(), MindPalaceError>)
        ensures
            final(self).backend() == old(self).backend(),
            final(self).graph_view() == old(self).graph_view(),
            final(self).wf() == old(self).wf(),
            final(self).has_changelog() == old(self).has_changelog(),
            final(self).has_group_store() == old(self).has_group_store(),
            final(self).has_resolver() == old(self).has_resolver(),
            final(self).saved_pages() == old(self).saved_pages(),
            final(self).saved_nodes() == old(self).saved_nodes().push(node@),
            final(self).fetched_pages() == old(self).fetched_pages(),
    {
        self.nodes_stored = Ghost(self.nodes_stored@.push(node@));
        self.graph_store.save_node(node)
    }

    /// A service over the given ports and graph, with no changelog, group
    /// store or secrets backend.
    pub fn new(page_store: P, vector_search: V, embedding: E, graph_store: G, graph: KnowledgeGraph) -> (r: Self)
        requires
            graph.wf(),
        ensures
            r.wf(),
            r.graph_view() == graph@,
            !r.has_changelog(),
            !r.has_group_store(),
            !r.has_resolver(),
    {
        WikiService {
            page_store,
            vector_search,
            embedding,
            graph_store,
            graph,
            changelog: None,
            group_store: None,
            secrets_resolver: None,
            saved: Ghost(Seq::empty()),
            nodes_stored: Ghost(Seq::empty()),
            fetched: Ghost(Seq::empty()),
        }
    }

    /// Attaches a changelog store for recording mutations.
    pub fn with_changelog(self, store: C) -> (r: Self)
        ensures
            r.wf() == self.wf(),
            r.graph_view() == self.graph_view(),
            r.has_changelog(),
            r.has_group_store() == self.has_group_store(),
            r.has_resolver() == self.has_resolver(),
    {
        let mut s = self;
        s.changelog = Some(store);
        s
    }

    /// Attaches a group store, enabling group grants and group management.
    pub fn with_group_store(self, store: S) -> (r: Self)
        ensures
            r.wf() == self.wf(),
            r.graph_view() == self.graph_view(),
            r.has_changelog() == self.has_changelog(),
            r.has_group_store(),
            r.has_resolver() == self.has_resolver(),
    {
        let mut s = self;
        s.group_store = Some(store);
        s
    }

    /// Attaches a secrets backend, enabling reference validation and secret
    /// resolution.
    pub fn with_secrets_resolver(self, resolver: R) -> (r: Self)
        ensures
            r.wf() == self.wf(),
            r.graph_view() == self.graph_view(),
            r.has_changelog() == self.has_changelog(),
            r.has_group_store() == self.has_group_store(),
            r.has_resolver(),
    {
        let mut s = self;
        s.secrets_resolver = Some(resolver);
        s
    }

    /// The in-memory graph.
    pub fn graph(&self) -> (r: &KnowledgeGraph)
        ensures
            r@ == self.graph_view(),
            self.wf() ==> r.wf(),
    {
        &self.graph
    }

    /// The groups the caller belongs to, by the group store; none without a
    /// store, for an unauthenticated caller, or when the store fails.
    fn resolve_membership(&self, ctx: &TenantContext) -> (r: GroupMembership)
        ensures
            if self.has_group_store() && ctx_user(ctx@) is Some {
                ids_view(r.groups@).len() == 0 || exists|gs: Seq<Group>|
                    ids_view(r.groups@) == #[trigger] member_group_ids(gs, ctx_user(ctx@)->0)
            } else {
                ids_view(r.groups@).len() == 0
            },
    {
        let store = match &self.group_store {
            None => return GroupMembership::empty(),
            Some(s) => s,
        };
        let email = match ctx.user_id() {
            None => return GroupMembership::empty(),
            Some(e) => e,
        };
        match store.list_groups() {
            Ok(groups) => GroupMembership::for_member(&groups, email),
            Err(_) => GroupMembership::empty(),
        }
    }

    /// The caller with resolved group membership.
    fn resolve_ctx(&self, ctx: &TenantContext) -> (r: TenantContext)
        ensures
            resolved_ctx(ctx@, r@, self.has_group_store()),
    {
        let membership = self.resolve_membership(ctx);
        ctx.duplicate().with_membership(membership)
    }

    /// The access a loaded page is judged by (see [`effective_for`]).
    fn effective_access_for(&self, page: &Page) -> (r: PageAccess)
        requires
            self.wf(),
        ensures
            r@ == effective_for(self.graph_view(), page@),
    {
        if page.parent.is_none() {
            return page.access.duplicate();
        }
        match self.graph.effective_access(&page.id) {
            Some(a) => a,
            None => match self.graph.effective_access_by_slug(&page.slug) {
                Some(a) => a,
                None => page.access.duplicate(),
            },
        }
    }

    /// The id of the first page with this slug in the graph.
    fn find_page_id_by_slug(&self, slug: &Slug) -> (r: Option<PageId>)
        requires
            self.wf(),
        ensures
            match first_with_slug(self.graph_view().nodes, slug@) {
                Some(i) => r matches Some(id) && id.0 == self.graph_view().nodes[i].page_id,
                None => r is None,
            },
    {
        let ctx = TenantContext::global();
        proof {
            crate::graph::lemma_global_first_with_slug(
                self.graph_view(),
                self.graph_view().nodes,
                slug@,
            );
        }
        match self.graph.find_by_slug(slug, &ctx) {
            Some(n) => Some(n.page_id),
            None => None,
        }
    }

    /// Checks every secret reference of the page with the backend; a no-op
    /// without one. The first refusal is returned, mapped as
    /// [`secret_validation_error`] says.
    fn validate_secret_refs(&self, page: &Page) -> (r: Result<(), MindPalaceError>)
        ensures
            !self.has_resolver() ==> r is Ok,
            page@.secret_refs.len() == 0 ==> r is Ok,
            r is Ok <==> refs_accepted(self.backend(), page@.secret_refs),
            r matches Err(e) ==> exists|k: int, se: SecretErrorView|
                0 <= k < page@.secret_refs.len() && e@ == #[trigger] secret_validation_error(
                    page@.secret_refs[k].0,
                    se,
                ),
    {
        let resolver = match &self.secrets_resolver {
            None => return Ok(()),
            Some(r) => r,
        };
        let n = page.secret_refs.len();
        for i in 0..n
            invariant
                n == page.secret_refs@.len(),
                self.has_resolver(),
                self.backend() == Some(*resolver),
                forall|j: int| 0 <= j < i ==> resolver.accepts(#[trigger] page@.secret_refs[j].1),
        {
            let sref = &page.secret_refs[i];
            assert(page@.secret_refs[i as int] == sref@);
            match resolver.validate_reference(sref.reference.as_str()) {
                Ok(()) => {},
                Err(e) => {
                    assert(!resolver.accepts(page@.secret_refs[i as int].1));
                    let ghost ev = e@;
                    let err = map_validation_error(sref.name.as_str(), e);
                    assert(page@.secret_refs[i as int].0 == sref.name@);
                    assert(err@ == secret_validation_error(page@.secret_refs[i as int].0, ev));
                    return Err(err);
                },
            }
        }
        Ok(())
    }

    /// Records an audited secret-resolution attempt in the changelog, when
    /// there is one: who, which page, which name, and whether it succeeded;
    /// never the value. A failed write is ignored.
    fn audit_secret_resolution(
        &self,
        slug: &Slug,
        page_id: &PageId,
        name: &str,
        ctx: &TenantContext,
        success: bool,
    ) {
        match &self.changelog {
            Some(changelog) => {
                let outcome = if success {
                    "success"
                } else {
                    "failure"
                };
                let entry = ChangelogEntry {
                    timestamp: Timestamp::now(),
                    slug: slug.duplicate(),
                    page_id: *page_id,
                    action: ChangeAction::Updated,
                    agent_id: agent_of(ctx),
                    summary: Some(concat4("SecretResolve name=", name, " outcome=", outcome)),
                };
                let _ = changelog.append(&entry);
            },
            None => {},
        }
    }

    /// Resolves the secret `name` of page `slug` through the backend. The
    /// page must pass the same gate as a read of its own access (archived or
    /// unseen pages are not found, and so is a missing name); without a
    /// backend the answer is `NotConfigured`. Every attempt that reaches the
    /// backend is audited.
    pub fn get_secret(&self, slug: &Slug, name: &str, ctx: &TenantContext) -> (r: Result<
        SecretValue,
        MindPalaceError,
    >)
        ensures
            r is Ok ==> self.has_resolver() && exists|p: PageView, c: ContextView|
                resolved_ctx(ctx@, c, self.has_group_store()) && (#[trigger] spec_secret_gate(
                    p.visibility,
                    p.access,
                    p.secret_refs,
                    slug@,
                    c,
                    name@,
                )) is Ok,
    {
        let c = self.resolve_ctx(ctx);
        let page = match self.page_store.get_page_by_slug_unfiltered(slug) {
            Ok(p) => p,
            Err(e) => return Err(e),
        };
        let idx = match secret_to_resolve(&page, &c, name, slug, self.secrets_resolver.is_some()) {
            Ok(i) => i,
            Err(e) => return Err(e),
        };
        let resolver = match &self.secrets_resolver {
            None => return Err(
                MindPalaceError::Secret(
                    SecretError::NotConfigured(String::from_str("no secrets backend configured for this deployment")),
                ),
            ),
            Some(r) => r,
        };
        let result = resolver.resolve(page.secret_refs[idx].reference.as_str());
        let ok = match &result {
            Ok(_) => true,
            Err(_) => false,
        };
        self.audit_secret_resolution(slug, &page.id, name, &c, ok);
        match result {
            Ok(v) => Ok(v),
            Err(e) => Err(MindPalaceError::Secret(e)),
        }
    }

    /// The secret references (names and locators, never values) of page
    /// `slug`, for a caller who passes the read gate.
    pub fn list_secret_refs(&self, slug: &Slug, ctx: &TenantContext) -> (r: Result<
        Vec<SecretRef>,
        MindPalaceError,
    >)
        requires
            self.wf(),
        ensures
            r matches Ok(v) ==> exists|p: PageView, c: ContextView|
                resolved_ctx(ctx@, c, self.has_group_store()) && #[trigger] read_gate(
                    self.graph_view(),
                    c,
                    p,
                ) && refs_view(v@) == p.secret_refs,
    {
        let c = self.resolve_ctx(ctx);
        let page = match self.page_store.get_page_by_slug_unfiltered(slug) {
            Ok(p) => p,
            Err(e) => return Err(e),
        };
        let effective = self.effective_access_for(&page);
        match view_gate(&page.visibility, &effective, &c, slug) {
            Ok(()) => {},
            Err(e) => return Err(e),
        }
        let refs = duplicate_refs(&page.secret_refs);
        assert(read_gate(self.graph_view(), c@, page@));
        Ok(refs)
    }

    /// The audit events of the changelog (read from the beginning of time,
    /// at most 500 entries as the store bounds them), filtered by slug
    /// substring `resource` and acting-identity substring `subject`. An
    /// unauthenticated remote caller is refused; without a changelog the
    /// list is empty.
    pub fn audit_events(&self, resource: Option<&str>, subject: Option<&str>, ctx: &TenantContext) -> (r: Result<
        Vec<AuditEvent>,
        MindPalaceError,
    >)
        ensures
            if ctx_user(ctx@) is None && !(ctx@.identity is Global) {
                r matches Err(e) && e@ == ErrorView::AccessDenied(
                    "authentication required to view audit events"@,
                )
            } else if !self.has_changelog() {
                r matches Ok(v) && v@.len() == 0
            } else {
                r matches Ok(v) ==> exists|es: Seq<EntryView>|
                    events_view(v@) == #[trigger] audit_of(
                        es,
                        opt_str_view(resource),
                        opt_str_view(subject),
                    )
            },
    {
        if ctx.user_id().is_none() && !ctx.identity.is_global() {
            return Err(MindPalaceError::AccessDenied(String::from_str("authentication required to view audit events")));
        }
        let changelog = match &self.changelog {
            None => return Ok(Vec::new()),
            Some(c) => c,
        };
        let entries = match changelog.since(Timestamp::epoch(), Some(500)) {
            Ok(es) => es,
            Err(e) => return Err(e),
        };
        let ghost es = entries_view(entries@);
        let events = audit_events_from(entries, resource, subject);
        Ok(events)
    }

    /// Reads page `slug` at the given level of detail, for a caller who
    /// passes the read gate (archived or unseen pages are not found).
    pub fn read_page(&self, slug: &Slug, level: ReadLevel, ctx: &TenantContext) -> (r: Result<
        PageResponse,
        MindPalaceError,
    >)
        requires
            self.wf(),
        ensures
            r matches Ok(resp) ==> exists|p: PageView, c: ContextView|
                resolved_ctx(ctx@, c, self.has_group_store()) && #[trigger] read_gate(
                    self.graph_view(),
                    c,
                    p,
                ) && response_matches(resp, p, level),
    {
        let c = self.resolve_ctx(ctx);
        let page = match self.page_store.get_page_by_slug_unfiltered(slug) {
            Ok(p) => p,
            Err(e) => return Err(e),
        };
        let effective = self.effective_access_for(&page);
        match view_gate(&page.visibility, &effective, &c, slug) {
            Ok(()) => {},
            Err(e) => return Err(e),
        }
        let ghost pv = page@;
        assert(read_gate(self.graph_view(), c@, pv));
        page_response(page, level)
    }

    /// The pages below page `slug` in the graph, breadth first up to `depth`
    /// steps, that the caller sees; the page itself must pass the read gate.
    pub fn traverse(&self, slug: &Slug, depth: usize, ctx: &TenantContext) -> (r: Result<
        Vec<NeighborInfo>,
        MindPalaceError,
    >)
        requires
            self.wf(),
        ensures
            r matches Ok(v) ==> traversed(
                self.graph_view(),
                ctx@,
                self.has_group_store(),
                depth as int,
                crate::graph::neighbors_view(v@),
            ),
    {
        let c = self.resolve_ctx(ctx);
        let page = match self.page_store.get_page_by_slug_unfiltered(slug) {
            Ok(p) => p,
            Err(e) => return Err(e),
        };
        let effective = self.effective_access_for(&page);
        match view_gate(&page.visibility, &effective, &c, slug) {
            Ok(()) => {},
            Err(e) => return Err(e),
        }
        assert(read_gate(self.graph_view(), c@, page@));
        Ok(self.graph.get_subtree(&page.id, depth, &c))
    }

    /// The access of page `slug` with the caller's capabilities on it, for a
    /// caller who passes the read gate: `can_manage` by the page's own
    /// access, `can_edit` by its effective access.
    pub fn page_access(&self, slug: &Slug, ctx: &TenantContext) -> (r: Result<
        PageAccessInfo,
        MindPalaceError,
    >)
        requires
            self.wf(),
        ensures
            r matches Ok(info) ==> exists|p: PageView, c: ContextView|
                resolved_ctx(ctx@, c, self.has_group_store()) && #[trigger] read_gate(
                    self.graph_view(),
                    c,
                    p,
                ) && info.access@ == p.access && info.can_manage == spec_can_manage_grants(
                    c,
                    p.access,
                ) && info.can_edit == spec_can_edit_page(c, effective_for(self.graph_view(), p)),
    {
        let c = self.resolve_ctx(ctx);
        let page = match self.page_store.get_page_by_slug_unfiltered(slug) {
            Ok(p) => p,
            Err(e) => return Err(e),
        };
        let effective = self.effective_access_for(&page);
        match view_gate(&page.visibility, &effective, &c, slug) {
            Ok(()) => {},
            Err(e) => return Err(e),
        }
        assert(read_gate(self.graph_view(), c@, page@));
        let can_manage = c.can_manage_grants(&page.access);
        let can_edit = c.can_edit_page(&effective);
        Ok(PageAccessInfo { access: page.access, can_manage, can_edit })
    }

    /// Semantic search: embeds the query, over-fetches twice `limit` hits
    /// from the vector store, keeps those the caller may see by the graph's
    /// access model, then the first `limit`.
    pub fn search(&self, query: &str, ctx: &TenantContext, limit: usize) -> (r: Result<
        Vec<SearchResult>,
        MindPalaceError,
    >)
        requires
            self.wf(),
            limit <= usize::MAX / 2,
        ensures
            r matches Ok(v) ==> exists|raw: Seq<SearchResultView>, c: ContextView|
                resolved_ctx(ctx@, c, self.has_group_store()) && results_view(v@) == first_n(
                    #[trigger] search_shown(self.graph_view(), c, raw),
                    limit as nat,
                ),
    {
        let c = self.resolve_ctx(ctx);
        let embedding = match self.embedding.embed_text(query) {
            Ok(e) => e,
            Err(e) => return Err(e),
        };
        let fetch = fetch_count(limit);
        let raw = match self.vector_search.search(embedding.as_slice(), fetch, &c) {
            Ok(r) => r,
            Err(e) => return Err(e),
        };
        let ghost rv = results_view(raw@);
        let shown = filter_search_results(raw, &self.graph, &c, limit);
        assert(results_view(shown@) == first_n(search_shown(self.graph_view(), c@, rv), limit as nat));
        Ok(shown)
    }
}

/// The acting identity recorded for a caller: its user id, if any.
fn agent_of(ctx: &TenantContext) -> (r: Option<String>)
    ensures
        opt_view(r) == ctx_user(ctx@),
{
    match ctx.user_id() {
        Some(u) => Some(copy_str(u)),
        None => None,
    }
}

// ---------------------------------------------------------------------------
// Creating and removing pages
// ---------------------------------------------------------------------------

/// The edge `s -> t` of kind `k` that the graph adds when both pages have
/// nodes; nothing otherwise.
pub open spec fn edge_for(ns: Seq<GraphNodeView>, s: u128, t: u128, k: EdgeKind) -> Seq<(u32, u32, u8)> {
    match (last_index_of(ns, s), last_index_of(ns, t)) {
        (Some(a), Some(b)) => seq![(a as u32, b as u32, kind_code(k))],
        _ => Seq::empty(),
    }
}

/// The `Related` edges from page `src` to the first page with each linked
/// slug that the graph has, in link order.
pub open spec fn link_edges(ns: Seq<GraphNodeView>, src: u128, links: Seq<Seq<char>>) -> Seq<
    (u32, u32, u8),
>
    decreases links.len(),
{
    if links.len() == 0 {
        Seq::empty()
    } else {
        link_edges(ns, src, links.drop_last()) + match first_with_slug(ns, links.last()) {
            Some(i) => edge_for(ns, src, ns[i].page_id, EdgeKind::Related),
            None => Seq::empty(),
        }
    }
}

/// At most one edge per link.
proof fn lemma_link_edges_len(ns: Seq<GraphNodeView>, src: u128, links: Seq<Seq<char>>)
    ensures
        link_edges(ns, src, links).len() <= links.len(),
    decreases links.len(),
{
    if links.len() > 0 {
        lemma_link_edges_len(ns, src, links.drop_last());
    }
}

/// The stored form of a page's node.
pub fn node_data_for(page: &Page) -> (r: GraphNodeData)
    ensures
        r@ == node_of(page@),
{
    GraphNodeData {
        page_id: page.id,
        slug: page.slug.duplicate(),
        title: page.title.clone(),
        summary: page.summary.clone(),
        visibility: page.visibility.duplicate(),
        access: page.access.duplicate(),
        page_type: page.page_type,
        parent: duplicate_opt_slug(&page.parent),
    }
}

/// The in-memory node of a page.
pub fn graph_node_for(page: &Page) -> (r: GraphNode)
    ensures
        r@ == node_of(page@),
{
    GraphNode {
        page_id: page.id,
        slug: page.slug.duplicate(),
        title: page.title.clone(),
        summary: page.summary.clone(),
        visibility: page.visibility.duplicate(),
        access: page.access.duplicate(),
        page_type: page.page_type,
        parent: duplicate_opt_slug(&page.parent),
    }
}

/// A changelog entry for a page.
fn entry_for(page: &Page, action: ChangeAction, agent_id: Option<String>, summary: Option<String>) -> (r: ChangelogEntry)
    ensures
        r@.slug == page@.slug,
        r@.page_id == page@.id,
        r@.action == action,
        r@.agent_id == opt_view(agent_id),
        r@.summary == opt_view(summary),
{
    ChangelogEntry {
        timestamp: Timestamp::now(),
        slug: page.slug.duplicate(),
        page_id: page.id,
        action,
        agent_id,
        summary,
    }
}

/// What a created page holds: the input's fields, the access the caller
/// gets for it, the storage partition derived from that access, version 1.
pub open spec fn created_from(p: PageView, input: CreatePageInput, c: ContextView) -> bool {
    let a = new_page_access(input.visibility@, input.base_visibility, c);
    &&& p.title == input.title@
    &&& p.slug == input.slug@
    &&& p.summary == input.summary@
    &&& p.sections == sections_view(input.sections@)
    &&& p.toc == spec_toc(sections_view(input.sections@))
    &&& p.page_type == input.page_type
    &&& p.access == a
    &&& p.visibility == spec_visibility_from_access(a)
    &&& p.links == slugs_view(input.links@)
    &&& p.parent == opt_slug_view(input.parent)
    &&& p.secret_refs == refs_view(input.secret_refs@)
    &&& p.version == 1
}

/// The refusals a create must get past before its page is saved: an
/// anonymous caller's page must be public, the page must be valid, and a
/// parent must be one the caller may edit that closes no cycle.
pub open spec fn create_gates_passed(g: GraphView, has_groups: bool, input: CreatePageInput, ctx: ContextView) -> bool {
    let a = new_page_access(input.visibility@, input.base_visibility, ctx);
    &&& !(ctx.identity is Anonymous && a.base_visibility != BaseVisibility::Public)
    &&& page_error_of(input.title@, input.summary@, input.sections@.len()) is None
    &&& input.parent is Some ==> exists|pp: PageView, c: ContextView|
        #![trigger parent_access_of(g, input.parent->0@, pp), resolved_ctx(ctx, c, has_groups)]
        resolved_ctx(ctx, c, has_groups) && spec_can_edit_page(c, parent_access_of(g, input.parent->0@, pp))
            && !creates_cycle(g, input.slug@, input.parent->0@)
}

/// The refusals an update must get past before its page is saved: the
/// caller may edit the page, and a new parent is one the caller may edit
/// that closes no cycle.
pub open spec fn update_gates_passed(
    g: GraphView,
    has_groups: bool,
    slug: Seq<char>,
    input: UpdatePageInput,
    ctx: ContextView,
) -> bool {
    &&& exists|o: PageView, c: ContextView|
        #![trigger effective_for(g, o), resolved_ctx(ctx, c, has_groups)]
        resolved_ctx(ctx, c, has_groups) && spec_can_edit_page(c, effective_for(g, o))
    &&& (input.parent matches Some(Some(_))) ==> exists|pp: PageView, c: ContextView|
        #![trigger parent_access_of(g, input.parent->0->0@, pp), resolved_ctx(ctx, c, has_groups)]
        resolved_ctx(ctx, c, has_groups) && spec_can_edit_page(c, parent_access_of(g, input.parent->0->0@, pp))
            && !creates_cycle(g, slug, input.parent->0->0@)
}

/// What the vector store is told of a page beside its embedding: its id,
/// slug, title and storage partition.
pub fn embedding_metadata_for(page: &Page) -> (r: EmbeddingMetadata)
    ensures
        r.page_id == page.id,
        r.slug@ == page@.slug,
        r.title@ == page@.title,
        r.visibility@ == page@.visibility,
{
    EmbeddingMetadata {
        page_id: page.id,
        slug: page.slug.duplicate(),
        title: page.title.clone(),
        visibility: page.visibility.duplicate(),
    }
}

/// How many hits a search asks the vector store for: twice the limit, so
/// that enough remain after the access filter.
pub fn fetch_count(limit: usize) -> (r: usize)
    requires
        limit <= usize::MAX / 2,
    ensures
        r == 2 * limit,
{
    2 * limit
}

/// Page `p` is the page built from `input` with access `a`, id `id`, at
/// time `now`: the input's fields, the table of contents of its sections,
/// the partition derived from the access, version 1.
pub open spec fn page_built(p: PageView, input: CreatePageInput, a: AccessView, id: u128, now: Timestamp) -> bool {
    &&& p.id == id
    &&& p.title == input.title@
    &&& p.slug == input.slug@
    &&& p.summary == input.summary@
    &&& p.sections == sections_view(input.sections@)
    &&& p.toc == spec_toc(sections_view(input.sections@))
    &&& p.page_type == input.page_type
    &&& p.access == a
    &&& p.visibility == spec_visibility_from_access(a)
    &&& p.links == slugs_view(input.links@)
    &&& p.parent == opt_slug_view(input.parent)
    &&& p.secret_refs == refs_view(input.secret_refs@)
    &&& p.version == 1
    &&& p.created_at == now
    &&& p.updated_at == now
}

/// The page a create stores: built from the input as [`page_built`] says,
/// once title, summary and sections pass [`page_error_of`]; else the
/// validation error.
pub fn new_page(input: CreatePageInput, access: PageAccess, id: PageId, now: Timestamp) -> (r: Result<
    Page,
    MindPalaceError,
>)
    ensures
        match page_error_of(input.title@, input.summary@, input.sections@.len()) {
            Some(e) => r matches Err(x) && x@ == ErrorView::Validation(page_error_text(e)),
            None => r matches Ok(p) && page_built(p@, input, access@, id.0, now),
        },
{
    if input.title.as_str().is_empty() {
        return Err(MindPalaceError::Validation(String::from_str("title is required")));
    }
    if input.summary.as_str().is_empty() {
        return Err(MindPalaceError::Validation(String::from_str("summary is required")));
    }
    if input.sections.len() == 0 {
        return Err(MindPalaceError::Validation(String::from_str("at least one section is required")));
    }
    let toc = TableOfContents::from_sections(input.sections.as_slice());
    let visibility = Visibility::from_access(&access);
    Ok(
        Page {
            id,
            slug: input.slug,
            title: input.title,
            summary: input.summary,
            toc,
            sections: input.sections,
            page_type: input.page_type,
            visibility,
            access,
            secret_refs: input.secret_refs,
            version: 1,
            created_at: now,
            updated_at: now,
            links: input.links,
            parent: input.parent,
        },
    )
}

/// Applies the content part of an update to a page.
fn apply_content(page: &mut Page, input: UpdatePageInput)
    ensures
        ({
            let o = old(page)@;
            let p = final(page)@;
            &&& p.id == o.id
            &&& p.slug == o.slug
            &&& p.title == match input.title {
                Some(t) => t@,
                None => o.title,
            }
            &&& p.summary == match input.summary {
                Some(t) => t@,
                None => o.summary,
            }
            &&& p.sections == updated_sections(o.sections, input)
            &&& p.toc == if input.sections is Some || input.delete_sections@.len() > 0 {
                spec_toc(p.sections)
            } else {
                o.toc
            }
            &&& p.page_type == o.page_type
            &&& p.visibility == o.visibility
            &&& p.access == o.access
            &&& p.secret_refs == match input.secret_refs {
                Some(r) => refs_view(r@),
                None => o.secret_refs,
            }
            &&& p.links == match input.links {
                Some(l) => slugs_view(l@),
                None => o.links,
            }
            &&& p.parent == o.parent
            &&& p.version == o.version
            &&& p.created_at == o.created_at
            &&& p.updated_at == o.updated_at
        }),
{
    let ghost o = page@;
    match input.title {
        Some(t) => {
            page.title = t;
        },
        None => {},
    }
    match input.summary {
        Some(t) => {
            page.summary = t;
        },
        None => {},
    }
    let ghost s0 = sections_view(page.sections@);
    let replace = input.replace_sections;
    let has_sections = input.sections.is_some();
    match input.sections {
        Some(ss) => {
            if replace {
                page.sections = ss;
            } else {
                merge_sections(&mut page.sections, ss);
            }
            page.toc = TableOfContents::from_sections(page.sections.as_slice());
        },
        None => {},
    }
    if input.delete_sections.len() > 0 {
        delete_sections(&mut page.sections, &input.delete_sections);
        page.toc = TableOfContents::from_sections(page.sections.as_slice());
    }
    match input.links {
        Some(l) => {
            page.links = l;
        },
        None => {},
    }
    match input.secret_refs {
        Some(r) => {
            page.secret_refs = r;
        },
        None => {},
    }
}

/// The page stored after an update of `page` at time `now`: the parent
/// moved when asked, the content applied, the version bumped.
pub fn page_after_update(page: Page, input: UpdatePageInput, now: Timestamp) -> (r: Page)
    ensures
        updated_page(page@, input, r@),
        r@.updated_at == now,
{
    let ghost o = page@;
    let mut page = page;
    match &input.parent {
        Some(np) => {
            page.parent = duplicate_opt_slug(np);
        },
        None => {},
    }
    let ghost p1 = page@;
    let ghost input_v = input;
    apply_content(&mut page, input);
    page.version = page.version.wrapping_add(1);
    page.updated_at = now;
    assert(updated_page(o, input_v, page@));
    page
}

impl<
    P: PageStore,
    V: VectorSearchPort,
    E: EmbeddingPort,
    G: GraphStore,
    C: ChangelogStore,
    S: GroupStore,
    R: SecretsResolver,
> WikiService<P, V, E, G, C, S, R> {
    /// Lints a page against the current graph and the secrets backend.
    fn lint(&self, page: &Page) -> (r: Vec<LintIssue>)
        requires
            self.wf(),
        ensures
            linted(issues_view(r@), page@, self.graph_view(), self.ref_verdicts(page@.secret_refs)),
    {
        let resolver: Option<&R> = match &self.secrets_resolver {
            Some(r) => Some(r),
            None => None,
        };
        let r = lint_page(page, Some(&self.graph), resolver);
        assert(opt_graph_view(Some(&self.graph)) == Some(self.graph_view()));
        r
    }

    /// Embeds the page and stores the vector, best effort: the page is
    /// already saved, so a failure here is ignored.
    fn reindex_embedding(&self, page: &Page) {
        let text = page.full_content();
        match self.embedding.embed_text(text.as_str()) {
            Ok(embedding) => {
                let meta = embedding_metadata_for(page);
                let _ = self.vector_search.upsert_embedding(&meta, embedding.as_slice());
            },
            Err(_) => {},
        }
    }

    /// Checks a proposed containment parent for page `child_slug`: the
    /// parent must exist in the store, the caller must be able to edit it
    /// (by its effective access in the graph, else its own), and the move
    /// must not close a cycle. Returns the parent's id.
    fn validate_parent(&self, child_slug: &Slug, parent_slug: &Slug, ctx: &TenantContext) -> (r: Result<
        PageId,
        MindPalaceError,
    >)
        requires
            self.wf(),
        ensures
            creates_cycle(self.graph_view(), child_slug@, parent_slug@) ==> r is Err,
            r matches Ok(id) ==> exists|pp: PageView|
                #![trigger parent_access_of(self.graph_view(), parent_slug@, pp)]
                id.0 == pp.id && spec_can_edit_page(
                    ctx@,
                    parent_access_of(self.graph_view(), parent_slug@, pp),
                ),
    {
        let loaded = self.page_store.get_page_by_slug_unfiltered(parent_slug);
        let ghost mut pp: PageView = arbitrary();
        let (found, access) = match &loaded {
            Ok(p) => {
                let a = match self.graph.effective_access_by_slug(parent_slug) {
                    Some(a) => a,
                    None => p.access.duplicate(),
                };
                proof {
                    pp = p@;
                }
                assert(a@ == parent_access_of(self.graph_view(), parent_slug@, p@));
                (Some(p.id), a)
            },
            Err(_) => (None, PageAccess::default()),
        };
        let cycle = self.graph.would_create_cycle(child_slug, parent_slug);
        let r = parent_check(found, &access, ctx, child_slug, parent_slug, cycle);
        proof {
            if let Ok(id) = r {
                assert(id.0 == pp.id && spec_can_edit_page(ctx@, parent_access_of(self.graph_view(), parent_slug@, pp)));
            }
        }
        r
    }

    /// Creates a page: its access is derived for the caller, a parent is
    /// checked, secret references are validated, the page is linted, saved,
    /// indexed and added to the graph with an edge for each resolvable link
    /// and a containment edge from its parent, and the creation is logged.
    pub fn create_page(&mut self, input: CreatePageInput, ctx: &TenantContext) -> (r: Result<
        (Page, Vec<LintIssue>),
        MindPalaceError,
    >)
        requires
            old(self).wf(),
            old(self).graph_view().nodes.len() + 1 < 0xffff_ffff,
            old(self).graph_view().edges.len() + input.links@.len() + 1 < 0xffff_ffff,
        ensures
            r matches Ok((p, _)) ==> refs_accepted(old(self).backend(), p@.secret_refs),
            final(self).pages_saved() != old(self).pages_saved() ==> refs_accepted(
                old(self).backend(),
                final(self).saved_pages().last().secret_refs,
            ),
            r matches Ok((p, _)) ==> final(self).saved_pages() == old(self).saved_pages().push(p@)
                && final(self).saved_nodes() == old(self).saved_nodes().push(node_of(p@)),
            final(self).pages_saved() == old(self).pages_saved() ==> final(self).graph_view() == old(self).graph_view(),
            r is Ok ==> final(self).pages_saved() == old(self).pages_saved() + 1,
            final(self).pages_saved() != old(self).pages_saved() ==> create_gates_passed(
                old(self).graph_view(),
                old(self).has_group_store(),
                input,
                ctx@,
            ),
            r is Ok && input.parent is Some ==> exists|pp: PageView, c: ContextView|
                #![trigger parent_access_of(old(self).graph_view(), input.parent->0@, pp), resolved_ctx(ctx@, c, old(self).has_group_store())]
                resolved_ctx(ctx@, c, old(self).has_group_store()) && spec_can_edit_page(
                    c,
                    parent_access_of(old(self).graph_view(), input.parent->0@, pp),
                ) && !creates_cycle(old(self).graph_view(), input.slug@, input.parent->0@),
            r is Err ==> final(self).graph_view().nodes == old(self).graph_view().nodes || exists|p: PageView|
                final(self).graph_view().nodes == old(self).graph_view().nodes.push(#[trigger] node_of(p)),
            input.parent matches Some(ps) && creates_cycle(old(self).graph_view(), input.slug@, ps@) ==> (r is Err
                && final(self).graph_view() == old(self).graph_view()),
            final(self).wf(),
            final(self).has_changelog() == old(self).has_changelog(),
            final(self).has_group_store() == old(self).has_group_store(),
            final(self).has_resolver() == old(self).has_resolver(),
            ({
                let a = new_page_access(input.visibility@, input.base_visibility, ctx@);
                ctx@.identity is Anonymous && a.base_visibility != BaseVisibility::Public ==> (
                r matches Err(e) && e@ == ErrorView::AccessDenied(
                    "anonymous callers may only create Public pages"@,
                ) && final(self).graph_view() == old(self).graph_view())
            }),
            ({
                let a = new_page_access(input.visibility@, input.base_visibility, ctx@);
                !(ctx@.identity is Anonymous && a.base_visibility != BaseVisibility::Public)
                    && input.parent is None ==> match page_error_of(
                    input.title@,
                    input.summary@,
                    input.sections@.len(),
                ) {
                    Some(pe) => (r matches Err(e) && e@ == ErrorView::Validation(page_error_text(pe))),
                    None => true,
                }
            }),
            r matches Ok((p, issues)) ==> {
                &&& created_from(p@, input, ctx@)
                &&& linted(issues_view(issues@), p@, old(self).graph_view(), old(self).ref_verdicts(p@.secret_refs))
                &&& final(self).graph_view().nodes == old(self).graph_view().nodes.push(node_of(p@))
                &&& exists|pid: Option<u128>|
                    #![trigger parent_edge(final(self).graph_view().nodes, pid, p@.id)]
                    (pid is Some <==> input.parent is Some) && final(self).graph_view().edges
                        == old(self).graph_view().edges + link_edges(
                        final(self).graph_view().nodes,
                        p@.id,
                        p@.links,
                    ) + parent_edge(final(self).graph_view().nodes, pid, p@.id)
            },
    {
        let access = match access_for_new_page(&input.visibility, input.base_visibility, ctx) {
            Ok(a) => a,
            Err(e) => return Err(e),
        };
        let parent = duplicate_opt_slug(&input.parent);
        let parent_id: Option<PageId> = match &parent {
            Some(parent_slug) => {
                let c = self.resolve_ctx(ctx);
                match self.validate_parent(&input.slug, parent_slug, &c) {
                    Ok(id) => Some(id),
                    Err(e) => return Err(e),
                }
            },
            None => None,
        };
        let ghost input_v = input;
        let id = PageId::new();
        let now = Timestamp::now();
        let page = match new_page(input, access, id, now) {
            Ok(p) => p,
            Err(e) => return Err(e),
        };
        assert(page_built(page@, input_v, page@.access, id.0, now));
        match self.validate_secret_refs(&page) {
            Ok(()) => {},
            Err(e) => return Err(e),
        }
        let issues = self.lint(&page);
        match self.store_page(&page) {
            Ok(()) => {},
            Err(e) => return Err(e),
        }
        self.reindex_embedding(&page);
        let node_data = node_data_for(&page);
        match self.store_node(&node_data) {
            Ok(()) => {},
            Err(e) => return Err(e),
        }
        let ghost g0 = self.graph_view();
        self.graph.add_node(graph_node_for(&page));
        let ghost ns = self.graph_view().nodes;
        let n = page.links.len();
        #[verifier::loop_isolation(false)]
        for k in 0..n
            invariant
                self.wf(),
                n == page.links@.len(),
                ns == self.graph_view().nodes,
                self.graph_view().edges == g0.edges + link_edges(ns, page@.id, page@.links.take(k as int)),
                self.saved_pages() == old(self).saved_pages().push(page@),
                self.saved_nodes() == old(self).saved_nodes().push(node_of(page@)),
                g0.edges.len() + n + 1 < 0xffff_ffff,
                self.has_changelog() == old(self).has_changelog(),
                self.has_group_store() == old(self).has_group_store(),
                self.has_resolver() == old(self).has_resolver(),
        {
            proof {
                lemma_link_edges_len(ns, page@.id, page@.links.take(k as int));
            }
            let link_slug = &page.links[k];
            assert(page@.links.take(k + 1).drop_last() =~= page@.links.take(k as int));
            assert(page@.links.take(k + 1).last() == link_slug@);
            match self.find_page_id_by_slug(link_slug) {
                Some(tid) => {
                    let edge = GraphEdgeData { source: page.id, target: tid, kind: EdgeKind::Related };
                    match self.graph_store.save_edge(&edge) {
                        Ok(()) => {},
                        Err(e) => return Err(e),
                    }
                    self.graph.add_edge(&page.id, &tid, EdgeKind::Related);
                },
                None => {},
            }
            assert(self.graph_view().edges =~= g0.edges + link_edges(ns, page@.id, page@.links.take(k + 1)));
        }
        assert(page@.links.take(n as int) =~= page@.links);
        let ghost after_links = self.graph_view().edges;
        proof {
            lemma_link_edges_len(ns, page@.id, page@.links);
        }
        match &parent_id {
            Some(pid) => {
                let edge = GraphEdgeData { source: *pid, target: page.id, kind: EdgeKind::Child };
                match self.graph_store.save_edge(&edge) {
                    Ok(()) => {},
                    Err(e) => return Err(e),
                }
                self.graph.add_edge(pid, &page.id, EdgeKind::Child);
            },
            None => {},
        }
        let ghost pidv: Option<u128> = match parent_id {
            Some(x) => Some(x.0),
            None => None,
        };
        assert(self.graph_view().edges =~= after_links + parent_edge(ns, pidv, page@.id));
        match &self.changelog {
            Some(changelog) => {
                let entry = entry_for(&page, ChangeAction::Created, agent_of(ctx), Some(page.summary.clone()));
                match changelog.append(&entry) {
                    Ok(()) => {},
                    Err(e) => return Err(e),
                }
            },
            None => {},
        }
        Ok((page, issues))
    }

    /// Deletes page `slug`, for a caller who may edit it by its own access:
    /// from the store, the vector index, the graph store and the graph; the
    /// deletion is logged.
    pub fn delete_page(&mut self, slug: &Slug, ctx: &TenantContext) -> (r: Result<(), MindPalaceError>)
        requires
            old(self).wf(),
        ensures
            final(self).wf(),
            final(self).has_changelog() == old(self).has_changelog(),
            final(self).has_group_store() == old(self).has_group_store(),
            final(self).has_resolver() == old(self).has_resolver(),
            r is Ok ==> exists|p: PageView, c: ContextView|
                #![trigger removed_node(old(self).graph_view(), final(self).graph_view(), p.id), spec_can_edit_page(c, p.access)]
                resolved_ctx(ctx@, c, old(self).has_group_store()) && spec_can_edit_page(
                    c,
                    p.access,
                ) && removed_node(old(self).graph_view(), final(self).graph_view(), p.id),
    {
        let c = self.resolve_ctx(ctx);
        let page = match self.page_store.get_page_by_slug_unfiltered(slug) {
            Ok(p) => p,
            Err(e) => return Err(e),
        };
        match edit_gate(&page.access, &c, "delete", slug) {
            Ok(()) => {},
            Err(e) => return Err(e),
        }
        match self.page_store.delete_page(&page.id) {
            Ok(()) => {},
            Err(e) => return Err(e),
        }
        match self.vector_search.delete_embedding(&page.id) {
            Ok(()) => {},
            Err(e) => return Err(e),
        }
        match self.graph_store.delete_node(&page.id) {
            Ok(()) => {},
            Err(e) => return Err(e),
        }
        let ghost g0 = self.graph_view();
        self.graph.remove_node(&page.id);
        assert(removed_node(g0, self.graph_view(), page@.id));
        assert(resolved_ctx(ctx@, c@, self.has_group_store()) && spec_can_edit_page(c@, page@.access));
        match &self.changelog {
            Some(changelog) => {
                let entry = entry_for(&page, ChangeAction::Deleted, agent_of(ctx), None);
                match changelog.append(&entry) {
                    Ok(()) => {},
                    Err(e) => return Err(e),
                }
            },
            None => {},
        }
        Ok(())
    }

    /// Archives page `slug`, for a caller who may edit it by its own access:
    /// it is saved as `Archived` with its access kept (so unarchiving can
    /// restore it), removed from the vector index and from the in-memory
    /// graph, and the change is logged.
    pub fn archive_page(&mut self, slug: &Slug, ctx: &TenantContext) -> (r: Result<(), MindPalaceError>)
        requires
            old(self).wf(),
        ensures
            r is Ok ==> final(self).fetched_pages().len() == old(self).fetched_pages().len() + 1
                && saved_with_visibility(
                old(self).saved_pages(),
                final(self).saved_pages(),
                final(self).fetched_pages().last(),
                VisibilityView::Archived,
            ),
            final(self).wf(),
            final(self).has_changelog() == old(self).has_changelog(),
            final(self).has_group_store() == old(self).has_group_store(),
            final(self).has_resolver() == old(self).has_resolver(),
            r is Ok ==> exists|p: PageView, c: ContextView|
                #![trigger removed_node(old(self).graph_view(), final(self).graph_view(), p.id), spec_can_edit_page(c, p.access)]
                resolved_ctx(ctx@, c, old(self).has_group_store()) && spec_can_edit_page(
                    c,
                    p.access,
                ) && removed_node(old(self).graph_view(), final(self).graph_view(), p.id) && saved_with_visibility(
                    old(self).saved_pages(),
                    final(self).saved_pages(),
                    p,
                    VisibilityView::Archived,
                ) && final(self).saved_nodes() == old(self).saved_nodes().push(node_of(final(self).saved_pages().last())),
            final(self).pages_saved() == old(self).pages_saved() ==> final(self).graph_view() == old(self).graph_view(),
    {
        let c = self.resolve_ctx(ctx);
        let mut page = match self.fetch_page_unfiltered(slug) {
            Ok(p) => p,
            Err(e) => return Err(e),
        };
        match edit_gate(&page.access, &c, "archive", slug) {
            Ok(()) => {},
            Err(e) => return Err(e),
        }
        let ghost p0 = page@;
        page.visibility = Visibility::Archived;
        page.version = page.version.wrapping_add(1);
        page.updated_at = Timestamp::now();
        match self.store_page(&page) {
            Ok(()) => {},
            Err(e) => return Err(e),
        }
        match self.vector_search.delete_embedding(&page.id) {
            Ok(()) => {},
            Err(e) => return Err(e),
        }
        let node_data = GraphNodeData {
            page_id: page.id,
            slug: page.slug.duplicate(),
            title: page.title.clone(),
            summary: page.summary.clone(),
            visibility: Visibility::Archived,
            access: page.access.duplicate(),
            page_type: page.page_type,
            parent: duplicate_opt_slug(&page.parent),
        };
        match self.store_node(&node_data) {
            Ok(()) => {},
            Err(e) => return Err(e),
        }
        assert(self.saved_pages().drop_last() =~= old(self).saved_pages());
        assert(saved_with_visibility(old(self).saved_pages(), self.saved_pages(), p0, VisibilityView::Archived));
        assert(node_data@ == node_of(self.saved_pages().last()));
        let ghost g0 = self.graph_view();
        self.graph.remove_node(&page.id);
        assert(removed_node(g0, self.graph_view(), p0.id));
        assert(resolved_ctx(ctx@, c@, self.has_group_store()) && spec_can_edit_page(c@, p0.access));
        match &self.changelog {
            Some(changelog) => {
                let entry = entry_for(&page, ChangeAction::Updated, agent_of(ctx), Some(String::from_str("Archived")));
                match changelog.append(&entry) {
                    Ok(()) => {},
                    Err(e) => return Err(e),
                }
            },
            None => {},
        }
        Ok(())
    }
}

/// `issues` are the lint findings for page `p` against graph `g`, for
/// whatever answers the secrets backend (when there is one) gave.
pub open spec fn linted(issues: Seq<LintIssueView>, p: PageView, g: GraphView, valid: Option<Seq<bool>>) -> bool {
    issues == spec_lint(p, Some(g), valid)
}

/// The containment edge from the parent `pid` (when there is one) to the
/// page `child`.
pub open spec fn parent_edge(ns: Seq<GraphNodeView>, pid: Option<u128>, child: u128) -> Seq<(u32, u32, u8)> {
    match pid {
        Some(p) => edge_for(ns, p, child, EdgeKind::Child),
        None => Seq::empty(),
    }
}

/// The graph `g1` is `g0` with the node of page `id` removed (see
/// `KnowledgeGraph::remove_node`).
pub open spec fn removed_node(g0: GraphView, g1: GraphView, id: u128) -> bool {
    match last_index_of(g0.nodes, id) {
        None => g1 == g0,
        Some(i) => {
            &&& g1.nodes == g0.nodes.update(i, g0.nodes.last()).drop_last()
            &&& g1.edges.to_multiset() == crate::graph::edges_without_node(
                g0.edges,
                i as u32,
                (g0.nodes.len() - 1) as u32,
            ).to_multiset()
        },
    }
}

/// The access a proposed parent is judged by: the effective access of the
/// first page with its slug in the graph, else the stored page's own.
pub open spec fn parent_access_of(g: GraphView, parent_slug: Seq<char>, pp: PageView) -> AccessView {
    match first_with_slug(g.nodes, parent_slug) {
        Some(i) => match effective_access_of(g, g.nodes[i].page_id) {
            Some(a) => a,
            None => pp.access,
        },
        None => pp.access,
    }
}

/// What a parent check gives once the parent page was looked up (`found`
/// holds its id when the store had it) and `access` is the parent's access
/// as judged: a parent the store does not have is a validation error; one
/// the caller may not edit is refused; one that would close a containment
/// cycle is a validation error; else the parent's id.
pub open spec fn spec_parent_check(
    found: Option<u128>,
    access: AccessView,
    c: ContextView,
    child: Seq<char>,
    parent: Seq<char>,
    cycle: bool,
) -> Result<u128, ErrorView> {
    match found {
        None => Err(ErrorView::Validation("parent page '"@ + parent + "' does not exist"@)),
        Some(id) => if !spec_can_edit_page(c, access) {
            Err(ErrorView::AccessDenied("no edit permission on parent page '"@ + parent + "'"@))
        } else if cycle {
            Err(
                ErrorView::Validation(
                    "setting parent '"@ + parent + "' on '"@ + child + "' would create a containment cycle"@,
                ),
            )
        } else {
            Ok(id)
        },
    }
}

/// The parent check, as [`spec_parent_check`] says.
pub fn parent_check(
    found: Option<PageId>,
    access: &PageAccess,
    ctx: &TenantContext,
    child: &Slug,
    parent: &Slug,
    cycle: bool,
) -> (r: Result<PageId, MindPalaceError>)
    ensures
        match spec_parent_check(id_of(found), access@, ctx@, child@, parent@, cycle) {
            Ok(id) => r matches Ok(p) && p.0 == id,
            Err(e) => r matches Err(x) && x@ == e,
        },
{
    let id = match found {
        None => return Err(
            MindPalaceError::Validation(concat3("parent page '", parent.as_str(), "' does not exist")),
        ),
        Some(id) => id,
    };
    if !ctx.can_edit_page(access) {
        return Err(
            MindPalaceError::AccessDenied(concat3("no edit permission on parent page '", parent.as_str(), "'")),
        );
    }
    if cycle {
        return Err(
            MindPalaceError::Validation(
                concat5(
                    "setting parent '",
                    parent.as_str(),
                    "' on '",
                    child.as_str(),
                    "' would create a containment cycle",
                ),
            ),
        );
    }
    Ok(id)
}

/// The condition an update of page `slug` must meet: the caller may edit
/// it by its effective access.
pub fn page_edit_gate(access: &PageAccess, ctx: &TenantContext, slug: &Slug) -> (r: Result<(), MindPalaceError>)
    ensures
        if spec_can_edit_page(ctx@, access@) {
            r is Ok
        } else {
            r matches Err(e) && e@ == ErrorView::AccessDenied("no edit permission for page '"@ + slug@ + "'"@)
        },
{
    if !ctx.can_edit_page(access) {
        return Err(MindPalaceError::AccessDenied(concat3("no edit permission for page '", slug.as_str(), "'")));
    }
    Ok(())
}

// ---------------------------------------------------------------------------
// Updating pages
// ---------------------------------------------------------------------------

/// The sections after an update: replaced or merged by heading when new
/// ones are given, then without the deleted headings.
pub open spec fn updated_sections(o: Seq<SectionView>, input: UpdatePageInput) -> Seq<SectionView> {
    let s1 = match input.sections {
        Some(ss) => if input.replace_sections {
            sections_view(ss@)
        } else {
            merge_sections_spec(o, sections_view(ss@))
        },
        None => o,
    };
    if input.delete_sections@.len() > 0 {
        without_headings(s1, texts_view(input.delete_sections@))
    } else {
        s1
    }
}

/// The version after a change (wrapping at the top of `u32`).
pub open spec fn next_version(v: u32) -> u32 {
    if v == u32::MAX {
        0
    } else {
        (v + 1) as u32
    }
}

/// `p` is page `o` with only its secret references changed (and its
/// version and update time moved on).
pub open spec fn refs_updated(o: PageView, p: PageView) -> bool {
    &&& p.id == o.id
    &&& p.slug == o.slug
    &&& p.title == o.title
    &&& p.summary == o.summary
    &&& p.sections == o.sections
    &&& p.toc == o.toc
    &&& p.page_type == o.page_type
    &&& p.visibility == o.visibility
    &&& p.access == o.access
    &&& p.links == o.links
    &&& p.parent == o.parent
    &&& p.version == next_version(o.version)
    &&& p.created_at == o.created_at
}

/// References that end with `r` and hold no other of its name.
pub open spec fn refs_end_with(rs: Seq<(Seq<char>, Seq<char>)>, r: (Seq<char>, Seq<char>)) -> bool {
    &&& rs.len() > 0
    &&& rs.last() == r
    &&& forall|i: int| 0 <= i < rs.len() - 1 ==> (#[trigger] rs[i]).0 != r.0
}

/// References none of which is named `name`.
pub open spec fn refs_lack(rs: Seq<(Seq<char>, Seq<char>)>, name: Seq<char>) -> bool {
    forall|i: int| 0 <= i < rs.len() ==> (#[trigger] rs[i]).0 != name
}

/// No reference is left with the removed name.
pub proof fn lemma_refs_without_lacks(rs: Seq<(Seq<char>, Seq<char>)>, name: Seq<char>)
    ensures
        refs_lack(refs_without(rs, name), name),
    decreases rs.len(),
{
    if rs.len() > 0 {
        lemma_refs_without_lacks(rs.drop_last(), name);
        let rest = refs_without(rs.drop_last(), name);
        if rs.last().0 != name {
            assert forall|i: int| 0 <= i < rest.push(rs.last()).len() implies (#[trigger] rest.push(
                rs.last(),
            )[i]).0 != name by {
                if i < rest.len() {
                    assert(rest.push(rs.last())[i] == rest[i]);
                }
            }
        }
    }
}

/// Page `p` is page `o` after `input` was applied: each given field
/// replaced, sections as [`updated_sections`] says with the table of
/// contents rebuilt when they changed, the parent moved when asked, and the
/// version bumped.
pub open spec fn updated_page(o: PageView, input: UpdatePageInput, p: PageView) -> bool {
    &&& p.id == o.id
    &&& p.slug == o.slug
    &&& p.title == match input.title {
        Some(t) => t@,
        None => o.title,
    }
    &&& p.summary == match input.summary {
        Some(t) => t@,
        None => o.summary,
    }
    &&& p.sections == updated_sections(o.sections, input)
    &&& p.toc == if input.sections is Some || input.delete_sections@.len() > 0 {
        spec_toc(p.sections)
    } else {
        o.toc
    }
    &&& p.page_type == o.page_type
    &&& p.visibility == o.visibility
    &&& p.access == o.access
    &&& p.secret_refs == match input.secret_refs {
        Some(r) => refs_view(r@),
        None => o.secret_refs,
    }
    &&& p.links == match input.links {
        Some(l) => slugs_view(l@),
        None => o.links,
    }
    &&& p.parent == match input.parent {
        Some(np) => opt_slug_view(np),
        None => o.parent,
    }
    &&& p.version == next_version(o.version)
    &&& p.created_at == o.created_at
}

/// The 128-bit value of an optional page id.
pub open spec fn id_of(o: Option<PageId>) -> Option<u128> {
    match o {
        Some(x) => Some(x.0),
        None => None,
    }
}

/// The id of the first page in `ns` with the slug of parent `parent`.
pub open spec fn parent_id_in(ns: Seq<GraphNodeView>, parent: Option<Seq<char>>) -> Option<u128> {
    match parent {
        Some(s) => match first_with_slug(ns, s) {
            Some(i) => Some(ns[i].page_id),
            None => None,
        },
        None => None,
    }
}

/// `e1` is the edges `e0` after removing one edge from the old parent
/// `old_pid` to `child`, when the graph has such an edge (which of several
/// parallel ones is not stated).
pub open spec fn parent_edge_dropped(
    ns: Seq<GraphNodeView>,
    e0: Seq<(u32, u32, u8)>,
    e1: Multiset<(u32, u32, u8)>,
    old_pid: Option<u128>,
    child: u128,
) -> bool {
    match old_pid {
        None => e1 == e0.to_multiset(),
        Some(op) => match (last_index_of(ns, op), last_index_of(ns, child)) {
            (Some(a), Some(b)) => if exists|k: u8| #[trigger] e0.contains((a as u32, b as u32, k)) {
                exists|k: u8|
                    #[trigger] e0.contains((a as u32, b as u32, k)) && e1 == e0.to_multiset().remove(
                        (a as u32, b as u32, k),
                    )
            } else {
                e1 == e0.to_multiset()
            },
            _ => e1 == e0.to_multiset(),
        },
    }
}

/// The edges after an update of page `p`, stored before as `o`. Without a
/// parent change, a `Related` edge is added for each link that resolves.
/// With one (`reparent` holding the new parent's id, if any), an edge from
/// the old parent is dropped first and a `Child` edge from the new parent
/// added.
pub open spec fn edges_updated(g0: GraphView, g1: GraphView, o: PageView, p: PageView, reparent: Option<Option<u128>>) -> bool {
    let ns = g1.nodes;
    match reparent {
        None => g1.edges == g0.edges + link_edges(ns, p.id, p.links),
        Some(new_pid) => exists|mid: Multiset<(u32, u32, u8)>|
            #[trigger] parent_edge_dropped(ns, g0.edges, mid, parent_id_in(g0.nodes, o.parent), p.id)
                && g1.edges.to_multiset() == mid.add(
                (parent_edge(ns, new_pid, p.id) + link_edges(ns, p.id, p.links)).to_multiset(),
            ),
    }
}

/// The node of page `p` in `g0` (if any) with its title, summary,
/// visibility, access and parent refreshed from `p`.
pub open spec fn node_refreshed(g0: GraphView, g1: GraphView, p: PageView) -> bool {
    match last_index_of(g0.nodes, p.id) {
        Some(i) => g1.nodes == g0.nodes.update(
            i,
            GraphNodeView {
                page_id: g0.nodes[i].page_id,
                slug: g0.nodes[i].slug,
                title: p.title,
                summary: p.summary,
                visibility: p.visibility,
                access: p.access,
                page_type: g0.nodes[i].page_type,
                parent: p.parent,
            },
        ),
        None => g1.nodes == g0.nodes,
    }
}

/// The node of page `id` in `g0` (if any) with visibility and access set.
pub open spec fn access_refreshed(g0: GraphView, g1: GraphView, id: u128, vis: VisibilityView, a: AccessView) -> bool {
    &&& g1.edges == g0.edges
    &&& match last_index_of(g0.nodes, id) {
        Some(i) => g1.nodes == g0.nodes.update(
            i,
            GraphNodeView { visibility: vis, access: a, ..g0.nodes[i] },
        ),
        None => g1.nodes == g0.nodes,
    }
}

impl<
    P: PageStore,
    V: VectorSearchPort,
    E: EmbeddingPort,
    G: GraphStore,
    C: ChangelogStore,
    S: GroupStore,
    R: SecretsResolver,
> WikiService<P, V, E, G, C, S, R> {
    /// Rewires the edges of `page` after an update: with a parent change,
    /// drops one edge from the old parent and adds a `Child` edge from the
    /// new one; then adds a `Related` edge for each link that resolves. A
    /// graph too full for another edge is a graph error.
    fn relink(&mut self, page: &Page, reparent: &Option<(Option<PageId>, Option<PageId>)>) -> (r: Result<
        (),
        MindPalaceError,
    >)
        requires
            old(self).wf(),
        ensures
            final(self).saved_pages() == old(self).saved_pages(),
            final(self).saved_nodes() == old(self).saved_nodes(),
            final(self).fetched_pages() == old(self).fetched_pages(),
            final(self).wf(),
            final(self).has_changelog() == old(self).has_changelog(),
            final(self).has_group_store() == old(self).has_group_store(),
            final(self).has_resolver() == old(self).has_resolver(),
            final(self).graph_view().nodes == old(self).graph_view().nodes,
            r is Ok ==> match *reparent {
                None => final(self).graph_view().edges == old(self).graph_view().edges + link_edges(
                    old(self).graph_view().nodes,
                    page@.id,
                    page@.links,
                ),
                Some((op, np)) => exists|mid: Multiset<(u32, u32, u8)>|
                    #[trigger] parent_edge_dropped(
                        old(self).graph_view().nodes,
                        old(self).graph_view().edges,
                        mid,
                        id_of(op),
                        page@.id,
                    ) && final(self).graph_view().edges.to_multiset() == mid.add(
                        (parent_edge(old(self).graph_view().nodes, id_of(np), page@.id) + link_edges(
                            old(self).graph_view().nodes,
                            page@.id,
                            page@.links,
                        )).to_multiset(),
                    ),
            },
    {
        let ghost g0 = self.graph_view();
        let ghost ns = g0.nodes;
        match reparent {
            Some((old_parent_id, new_parent_id)) => {
                match self.reparent_edges(&page.id, old_parent_id, new_parent_id) {
                    Ok(()) => {},
                    Err(e) => return Err(e),
                }
                let ghost e_mid = self.graph_view().edges;
                match self.add_link_edges(page) {
                    Ok(()) => {},
                    Err(e) => return Err(e),
                }
                proof {
                    let pe = parent_edge(ns, id_of(*new_parent_id), page@.id);
                    let le = link_edges(ns, page@.id, page@.links);
                    let e_m = choose|e_m: Seq<(u32, u32, u8)>|
                        #[trigger] parent_edge_dropped(ns, g0.edges, e_m.to_multiset(), id_of(*old_parent_id), page@.id)
                            && e_mid == e_m + pe;
                    assert(self.graph_view().edges =~= e_m + (pe + le));
                    vstd::seq_lib::lemma_multiset_commutative(e_m, pe + le);
                    assert(parent_edge_dropped(ns, g0.edges, e_m.to_multiset(), id_of(*old_parent_id), page@.id));
                }
                Ok(())
            },
            None => self.add_link_edges(page),
        }
    }

    /// With a parent change: drops one edge from the old parent to `child`
    /// (when there is one) and adds a `Child` edge from the new parent.
    fn reparent_edges(&mut self, child: &PageId, old_parent: &Option<PageId>, new_parent: &Option<PageId>) -> (r: Result<
        (),
        MindPalaceError,
    >)
        requires
            old(self).wf(),
        ensures
            final(self).saved_pages() == old(self).saved_pages(),
            final(self).saved_nodes() == old(self).saved_nodes(),
            final(self).fetched_pages() == old(self).fetched_pages(),
            final(self).wf(),
            final(self).has_changelog() == old(self).has_changelog(),
            final(self).has_group_store() == old(self).has_group_store(),
            final(self).has_resolver() == old(self).has_resolver(),
            final(self).graph_view().nodes == old(self).graph_view().nodes,
            r is Ok ==> exists|e_m: Seq<(u32, u32, u8)>|
                #[trigger] parent_edge_dropped(
                    old(self).graph_view().nodes,
                    old(self).graph_view().edges,
                    e_m.to_multiset(),
                    id_of(*old_parent),
                    child.0,
                ) && final(self).graph_view().edges == e_m + parent_edge(
                    old(self).graph_view().nodes,
                    id_of(*new_parent),
                    child.0,
                ),
    {
        let ghost g0 = self.graph_view();
        let ghost ns = g0.nodes;
        match old_parent {
            Some(old_pid) => {
                match self.graph_store.delete_edge(old_pid, child) {
                    Ok(()) => {},
                    Err(e) => return Err(e),
                }
                self.graph.remove_edge(old_pid, child);
            },
            None => {},
        }
        let ghost e_mid = self.graph_view().edges;
        assert(parent_edge_dropped(ns, g0.edges, e_mid.to_multiset(), id_of(*old_parent), child.0));
        match new_parent {
            Some(new_pid) => {
                let edge = GraphEdgeData { source: *new_pid, target: *child, kind: EdgeKind::Child };
                match self.graph_store.save_edge(&edge) {
                    Ok(()) => {},
                    Err(e) => return Err(e),
                }
                if self.graph.edge_count() >= 0xffff_fffe {
                    return Err(MindPalaceError::Graph(String::from_str("the graph cannot hold more edges")));
                }
                self.graph.add_edge(new_pid, child, EdgeKind::Child);
            },
            None => {},
        }
        assert(self.graph_view().edges =~= e_mid + parent_edge(ns, id_of(*new_parent), child.0));
        Ok(())
    }

    /// Adds a `Related` edge from `page` for each link that resolves, in
    /// link order.
    fn add_link_edges(&mut self, page: &Page) -> (r: Result<(), MindPalaceError>)
        requires
            old(self).wf(),
        ensures
            final(self).saved_pages() == old(self).saved_pages(),
            final(self).saved_nodes() == old(self).saved_nodes(),
            final(self).fetched_pages() == old(self).fetched_pages(),
            final(self).wf(),
            final(self).has_changelog() == old(self).has_changelog(),
            final(self).has_group_store() == old(self).has_group_store(),
            final(self).has_resolver() == old(self).has_resolver(),
            final(self).graph_view().nodes == old(self).graph_view().nodes,
            r is Ok ==> final(self).graph_view().edges == old(self).graph_view().edges + link_edges(
                old(self).graph_view().nodes,
                page@.id,
                page@.links,
            ),
    {
        let ghost g0 = self.graph_view();
        let ghost ns = g0.nodes;
        let n = page.links.len();
        for k in 0..n
            invariant
                self.wf(),
                n == page.links@.len(),
                ns == old(self).graph_view().nodes,
                self.saved_pages() == old(self).saved_pages(),
                self.saved_nodes() == old(self).saved_nodes(),
                self.fetched_pages() == old(self).fetched_pages(),
                g0 == old(self).graph_view(),
                self.graph_view().nodes == ns,
                self.graph_view().edges == g0.edges + link_edges(ns, page@.id, page@.links.take(k as int)),
                self.has_changelog() == old(self).has_changelog(),
                self.has_group_store() == old(self).has_group_store(),
                self.has_resolver() == old(self).has_resolver(),
        {
            let link_slug = &page.links[k];
            assert(page@.links.take(k + 1).drop_last() =~= page@.links.take(k as int));
            assert(page@.links.take(k + 1).last() == link_slug@);
            match self.find_page_id_by_slug(link_slug) {
                Some(tid) => {
                    let edge = GraphEdgeData { source: page.id, target: tid, kind: EdgeKind::Related };
                    match self.graph_store.save_edge(&edge) {
                        Ok(()) => {},
                        Err(e) => return Err(e),
                    }
                    if self.graph.edge_count() >= 0xffff_fffe {
                        return Err(MindPalaceError::Graph(String::from_str("the graph cannot hold more edges")));
                    }
                    self.graph.add_edge(&page.id, &tid, EdgeKind::Related);
                },
                None => {},
            }
            assert(self.graph_view().edges =~= g0.edges + link_edges(ns, page@.id, page@.links.take(k + 1)));
        }
        assert(page@.links.take(n as int) =~= page@.links);
        Ok(())
    }

    /// Updates page `slug` for a caller who may edit it by its effective
    /// access: the parent is moved when asked (checked as on creation),
    /// the content changes are applied, secret references validated, the
    /// version bumped, the page linted, saved and indexed, its graph node
    /// refreshed and its edges rebuilt, and the change logged.
    pub fn update_page(&mut self, slug: &Slug, input: UpdatePageInput, ctx: &TenantContext) -> (r: Result<
        (Page, Vec<LintIssue>),
        MindPalaceError,
    >)
        requires
            old(self).wf(),
        ensures
            r matches Ok((p, _)) ==> refs_accepted(old(self).backend(), p@.secret_refs),
            final(self).pages_saved() != old(self).pages_saved() ==> refs_accepted(
                old(self).backend(),
                final(self).saved_pages().last().secret_refs,
            ),
            final(self).pages_saved() != old(self).pages_saved() ==> final(self).fetched_pages().len()
                == old(self).fetched_pages().len() + 1 && exists|c: ContextView|
                #![trigger resolved_ctx(ctx@, c, old(self).has_group_store())]
                resolved_ctx(ctx@, c, old(self).has_group_store()) && spec_can_edit_page(
                    c,
                    effective_for(old(self).graph_view(), final(self).fetched_pages().last()),
                ),
            r matches Ok((p, _)) ==> final(self).fetched_pages().len() == old(self).fetched_pages().len() + 1
                && updated_page(final(self).fetched_pages().last(), input, p@) && exists|c: ContextView|
                #![trigger resolved_ctx(ctx@, c, old(self).has_group_store())]
                resolved_ctx(ctx@, c, old(self).has_group_store()) && spec_can_edit_page(
                    c,
                    effective_for(old(self).graph_view(), final(self).fetched_pages().last()),
                ),
            r matches Ok((p, _)) ==> final(self).saved_pages() == old(self).saved_pages().push(p@)
                && final(self).saved_nodes() == old(self).saved_nodes().push(node_of(p@)),
            final(self).pages_saved() == old(self).pages_saved() ==> final(self).graph_view() == old(self).graph_view(),
            r is Ok ==> final(self).pages_saved() == old(self).pages_saved() + 1,
            final(self).pages_saved() != old(self).pages_saved() ==> update_gates_passed(
                old(self).graph_view(),
                old(self).has_group_store(),
                slug@,
                input,
                ctx@,
            ),
            r is Ok && (input.parent matches Some(Some(_))) ==> exists|pp: PageView, c: ContextView|
                #![trigger parent_access_of(old(self).graph_view(), input.parent->0->0@, pp), resolved_ctx(ctx@, c, old(self).has_group_store())]
                resolved_ctx(ctx@, c, old(self).has_group_store()) && spec_can_edit_page(
                    c,
                    parent_access_of(old(self).graph_view(), input.parent->0->0@, pp),
                ) && !creates_cycle(old(self).graph_view(), slug@, input.parent->0->0@),
            r is Err ==> final(self).graph_view().nodes == old(self).graph_view().nodes || exists|p: PageView|
                #[trigger] node_refreshed(old(self).graph_view(), final(self).graph_view(), p),
            input.parent matches Some(Some(ps)) && creates_cycle(old(self).graph_view(), slug@, ps@) ==> (r is Err
                && final(self).graph_view() == old(self).graph_view()),
            final(self).wf(),
            final(self).has_changelog() == old(self).has_changelog(),
            final(self).has_group_store() == old(self).has_group_store(),
            final(self).has_resolver() == old(self).has_resolver(),
            r matches Ok((p, issues)) ==> exists|o: PageView, c: ContextView|
                #![trigger updated_page(o, input, p@), resolved_ctx(ctx@, c, old(self).has_group_store())]
                resolved_ctx(ctx@, c, old(self).has_group_store()) && spec_can_edit_page(
                    c,
                    effective_for(old(self).graph_view(), o),
                ) && updated_page(o, input, p@) && linted(
                    issues_view(issues@),
                    p@,
                    old(self).graph_view(),
                    old(self).ref_verdicts(p@.secret_refs),
                ) && node_refreshed(
                    old(self).graph_view(),
                    final(self).graph_view(),
                    p@,
                ) && exists|rp: Option<Option<u128>>|
                    #![trigger edges_updated(old(self).graph_view(), final(self).graph_view(), o, p@, rp)]
                    (rp is Some <==> input.parent is Some) && (rp matches Some(np) ==> (np is Some
                        <==> input.parent->0 is Some)) && edges_updated(
                        old(self).graph_view(),
                        final(self).graph_view(),
                        o,
                        p@,
                        rp,
                    ),
    {
        let c = self.resolve_ctx(ctx);
        let mut page = match self.fetch_page(slug, &c) {
            Ok(p) => p,
            Err(e) => return Err(e),
        };
        let effective = self.effective_access_for(&page);
        match page_edit_gate(&effective, &c, slug) {
            Ok(()) => {},
            Err(e) => return Err(e),
        }
        let ghost o = page@;
        let ghost g_start = self.graph_view();
        let mut reparent: Option<(Option<PageId>, Option<PageId>)> = None;
        match &input.parent {
            Some(new_parent) => {
                let old_parent_id = match &page.parent {
                    Some(s) => self.find_page_id_by_slug(s),
                    None => None,
                };
                assert(id_of(old_parent_id) == parent_id_in(g_start.nodes, opt_slug_view(page.parent)));
                let new_parent_id = match new_parent {
                    Some(parent_slug) => match self.validate_parent(slug, parent_slug, &c) {
                        Ok(id) => Some(id),
                        Err(e) => return Err(e),
                    },
                    None => None,
                };
                assert(new_parent_id is Some <==> new_parent is Some);
                reparent = Some((old_parent_id, new_parent_id));
            },
            None => {},
        }
        assert(reparent is Some <==> input.parent is Some);
        assert(reparent matches Some((_, np)) ==> (np is Some <==> input.parent->0 is Some));
        let ghost input_copy = input;
        let now = Timestamp::now();
        let page = page_after_update(page, input, now);
        match self.validate_secret_refs(&page) {
            Ok(()) => {},
            Err(e) => return Err(e),
        }
        assert(updated_page(o, input_copy, page@));
        let issues = self.lint(&page);
        match self.store_page(&page) {
            Ok(()) => {},
            Err(e) => return Err(e),
        }
        self.reindex_embedding(&page);
        let node_data = node_data_for(&page);
        match self.store_node(&node_data) {
            Ok(()) => {},
            Err(e) => return Err(e),
        }
        proof {
            crate::graph::lemma_last_index_of(self.graph_view().nodes, page@.id);
        }
        match self.graph.get_node_mut(&page.id) {
            Some(node) => {
                node.title = page.title.clone();
                node.summary = page.summary.clone();
                node.visibility = page.visibility.duplicate();
                node.access = page.access.duplicate();
                node.parent = duplicate_opt_slug(&page.parent);
            },
            None => {},
        }
        let ghost g_nodes = self.graph_view();
        assert(node_refreshed(g_start, g_nodes, page@));
        assert(g_start == old(self).graph_view());
        let ghost rp: Option<Option<u128>> = match reparent {
            Some((_, np)) => Some(id_of(np)),
            None => None,
        };
        match self.relink(&page, &reparent) {
            Ok(()) => {},
            Err(e) => {
                assert(node_refreshed(old(self).graph_view(), self.graph_view(), page@));
                return Err(e);
            },
        }
        assert(edges_updated(old(self).graph_view(), self.graph_view(), o, page@, rp));
        match &self.changelog {
            Some(changelog) => {
                let entry = entry_for(&page, ChangeAction::Updated, agent_of(&c), Some(page.summary.clone()));
                match changelog.append(&entry) {
                    Ok(()) => {},
                    Err(e) => {
                        assert(node_refreshed(old(self).graph_view(), self.graph_view(), page@));
                        return Err(e);
                    },
                }
            },
            None => {},
        }
        assert(resolved_ctx(ctx@, c@, old(self).has_group_store()));
        assert(node_refreshed(old(self).graph_view(), self.graph_view(), page@));
        assert(spec_can_edit_page(c@, effective_for(old(self).graph_view(), o)));
        assert(linted(issues_view(issues@), page@, old(self).graph_view(), old(self).ref_verdicts(page@.secret_refs)));
        Ok((page, issues))
    }
}

// ---------------------------------------------------------------------------
// Access changes, secret references, unarchiving and listing
// ---------------------------------------------------------------------------

/// The access after sharing with `p` at `level`: the grant is merged in (a
/// principal already granted keeps the higher level).
pub open spec fn shared_access(a: AccessView, p: PrincipalView, level: Level) -> AccessView {
    AccessView {
        owner: a.owner,
        base_visibility: a.base_visibility,
        grants: union_grant(a.grants, GrantView { principal: p, level }),
    }
}

/// The access after unsharing with `p`: every grant to it is removed.
pub open spec fn unshared_access(a: AccessView, p: PrincipalView) -> AccessView {
    AccessView { owner: a.owner, base_visibility: a.base_visibility, grants: grants_without(a.grants, p) }
}

/// The access after setting base visibility and owner, each when given.
pub open spec fn set_access(a: AccessView, bv: Option<BaseVisibility>, owner: Option<Option<Seq<char>>>) -> AccessView {
    AccessView {
        owner: match owner {
            Some(o) => o,
            None => a.owner,
        },
        base_visibility: match bv {
            Some(b) => b,
            None => a.base_visibility,
        },
        grants: a.grants,
    }
}

/// The view of an optional optional owner.
pub open spec fn owner_change_view(o: Option<Option<String>>) -> Option<Option<Seq<char>>> {
    match o {
        Some(x) => Some(opt_view(x)),
        None => None,
    }
}

/// A change to a page's access model.
#[derive(Debug, Clone)]
pub enum AccessChange {
    /// Grant a principal access at a level (raising an existing grant).
    Share(Principal, Level),
    /// Remove every grant to a principal.
    Unshare(Principal),
    /// Set the base visibility and the owner, each when given.
    SetAccess(Option<BaseVisibility>, Option<Option<String>>),
}

/// The access after a change.
pub open spec fn spec_changed_access(a: AccessView, change: AccessChange) -> AccessView {
    match change {
        AccessChange::Share(p, l) => shared_access(a, p@, l),
        AccessChange::Unshare(p) => unshared_access(a, p@),
        AccessChange::SetAccess(bv, owner) => set_access(a, bv, owner_change_view(owner)),
    }
}

/// What a caller who may not manage page `slug` is told.
pub open spec fn access_denied_text(change: AccessChange, slug: Seq<char>) -> Seq<char> {
    match change {
        AccessChange::SetAccess(_, _) => "only the owner may change access for page '"@ + slug + "'"@,
        _ => "only the owner may change grants for page '"@ + slug + "'"@,
    }
}

/// The access of page `slug` (which carries `n_refs` secret references)
/// after a change requested by `c`: only whoever may manage the page's
/// grants may change it, and a page with secret references cannot be made
/// public.
pub fn changed_access(access: &PageAccess, n_refs: usize, slug: &Slug, change: AccessChange, c: &TenantContext) -> (r: Result<
    PageAccess,
    MindPalaceError,
>)
    ensures
        !spec_can_manage_grants(c@, access@) ==> (r matches Err(e) && e@ == ErrorView::AccessDenied(
            access_denied_text(change, slug@),
        )),
        spec_can_manage_grants(c@, access@) ==> if (change matches AccessChange::SetAccess(Some(bv), _) && bv
            == BaseVisibility::Public && n_refs > 0) {
            r matches Err(e) && e@ == ErrorView::Validation(
                "cannot make page '"@ + slug@ + "' public while it carries "@ + crate::text::spec_decimal(n_refs as nat)
                    + " secret reference(s)"@,
            )
        } else {
            r matches Ok(a) && a@ == spec_changed_access(access@, change)
        },
{
    if !c.can_manage_grants(access) {
        let m = match change {
            AccessChange::SetAccess(_, _) => concat3("only the owner may change access for page '", slug.as_str(), "'"),
            _ => concat3("only the owner may change grants for page '", slug.as_str(), "'"),
        };
        return Err(MindPalaceError::AccessDenied(m));
    }
    let mut a = access.duplicate();
    match change {
        AccessChange::Share(principal, level) => {
            merge_grant(&mut a.grants, Grant { principal, level });
        },
        AccessChange::Unshare(principal) => {
            remove_grants_to(&mut a.grants, &principal);
        },
        AccessChange::SetAccess(base_visibility, owner) => {
            match base_visibility {
                Some(bv) => {
                    if bv == BaseVisibility::Public && n_refs > 0 {
                        let count = decimal(n_refs);
                        return Err(
                            MindPalaceError::Validation(
                                concat5(
                                    "cannot make page '",
                                    slug.as_str(),
                                    "' public while it carries ",
                                    count.as_str(),
                                    " secret reference(s)",
                                ),
                            ),
                        );
                    }
                    a.base_visibility = bv;
                },
                None => {},
            }
            match owner {
                Some(new_owner) => {
                    a.owner = new_owner;
                },
                None => {},
            }
        },
    }
    Ok(a)
}

/// Whether the backend, if any, accepts every one of these references.
pub open spec fn refs_accepted<R: SecretsResolver>(backend: Option<R>, refs: Seq<(Seq<char>, Seq<char>)>) -> bool {
    match backend {
        Some(res) => forall|k: int| 0 <= k < refs.len() ==> res.accepts(#[trigger] refs[k].1),
        None => true,
    }
}

/// The log of saved pages `log1` is `log0` with one more page: page `o`
/// moved to partition `vis`, with the version bumped.
pub open spec fn saved_with_visibility(log0: Seq<PageView>, log1: Seq<PageView>, o: PageView, vis: VisibilityView) -> bool {
    &&& log1.len() == log0.len() + 1
    &&& log1.drop_last() == log0
    &&& log1.last() == (PageView {
        visibility: vis,
        version: next_version(o.version),
        updated_at: log1.last().updated_at,
        ..o
    })
}

/// The log of saved pages `log1` is `log0` with one more page: page `o`
/// with access `a`, the partition derived from it, and the version bumped.
pub open spec fn access_saved(log0: Seq<PageView>, log1: Seq<PageView>, o: PageView, a: AccessView) -> bool {
    &&& log1.len() == log0.len() + 1
    &&& log1.drop_last() == log0
    &&& log1.last() == (PageView {
        access: a,
        visibility: spec_visibility_from_access(a),
        version: next_version(o.version),
        updated_at: log1.last().updated_at,
        ..o
    })
}

/// The outcome of an access change on page `o` to access `a` for caller
/// `c`: the caller may manage the page's grants, and the graph node gets
/// the new access with the storage partition derived from it.
pub open spec fn access_changed(g0: GraphView, g1: GraphView, c: ContextView, o: PageView, a: AccessView) -> bool {
    &&& spec_can_manage_grants(c, o.access)
    &&& access_refreshed(g0, g1, o.id, spec_visibility_from_access(a), a)
}

/// The stub a listed node becomes: its metadata, no content, version 0.
pub open spec fn stub_of(p: PageView, n: GraphNodeView) -> bool {
    &&& p.id == n.page_id
    &&& p.slug == n.slug
    &&& p.title == n.title
    &&& p.summary == n.summary
    &&& p.page_type == n.page_type
    &&& p.visibility == n.visibility
    &&& p.access == n.access
    &&& p.parent == n.parent
    &&& p.toc.len() == 0
    &&& p.sections.len() == 0
    &&& p.secret_refs.len() == 0
    &&& p.links.len() == 0
    &&& p.version == 0
}

/// The listed nodes that are not archived, of a given page type (of any
/// type without a filter).
pub open spec fn of_type(ns: Seq<GraphNodeView>, pt: Option<PageType>) -> Seq<GraphNodeView>
    decreases ns.len(),
{
    if ns.len() == 0 {
        Seq::empty()
    } else {
        let rest = of_type(ns.drop_last(), pt);
        if !(ns.last().visibility is Archived) && (pt is None || pt == Some(ns.last().page_type)) {
            rest.push(ns.last())
        } else {
            rest
        }
    }
}

/// No archived node is kept by [`of_type`].
pub proof fn lemma_of_type_unarchived(ns: Seq<GraphNodeView>, pt: Option<PageType>)
    ensures
        forall|k: int| 0 <= k < of_type(ns, pt).len() ==> !((#[trigger] of_type(ns, pt)[k]).visibility is Archived),
    decreases ns.len(),
{
    if ns.len() > 0 {
        lemma_of_type_unarchived(ns.drop_last(), pt);
        let rest = of_type(ns.drop_last(), pt);
        assert forall|k: int| 0 <= k < of_type(ns, pt).len() implies !((#[trigger] of_type(ns, pt)[k]).visibility is Archived) by {
            if k < rest.len() {
                assert(of_type(ns, pt)[k] == rest[k]);
            }
        }
    }
}

/// A stub page for a listed node.
fn stub_for(node: &GraphNode) -> (r: Page)
    ensures
        stub_of(r@, node@),
{
    let r = Page {
        id: node.page_id,
        slug: node.slug.duplicate(),
        title: node.title.clone(),
        summary: node.summary.clone(),
        toc: TableOfContents::empty(),
        sections: Vec::new(),
        page_type: node.page_type,
        visibility: node.visibility.duplicate(),
        access: node.access.duplicate(),
        secret_refs: Vec::new(),
        version: 0,
        created_at: Timestamp::now(),
        updated_at: Timestamp::now(),
        links: Vec::new(),
        parent: duplicate_opt_slug(&node.parent),
    };
    assert(r@.sections.len() == 0 && r@.secret_refs.len() == 0 && r@.links.len() == 0);
    r
}

impl<
    P: PageStore,
    V: VectorSearchPort,
    E: EmbeddingPort,
    G: GraphStore,
    C: ChangelogStore,
    S: GroupStore,
    R: SecretsResolver,
> WikiService<P, V, E, G, C, S, R> {
    /// Saves an access change: bumps the version, derives the storage
    /// partition from the access, saves the page and its node, refreshes the
    /// graph node's visibility and access, and logs `action`.
    fn persist_access_change(&mut self, page: &mut Page, ctx: &TenantContext, action: &str) -> (r: Result<
        (),
        MindPalaceError,
    >)
        requires
            old(self).wf(),
        ensures
            final(self).fetched_pages() == old(self).fetched_pages(),
            final(self).saved_pages() == old(self).saved_pages().push(final(page)@),
            r is Ok ==> final(self).saved_nodes() == old(self).saved_nodes().push(node_of(final(page)@)),
            final(page)@ == (PageView {
                visibility: spec_visibility_from_access(old(page)@.access),
                version: next_version(old(page)@.version),
                updated_at: final(page)@.updated_at,
                ..old(page)@
            }),
            final(self).pages_saved() == old(self).pages_saved() + 1,
            final(self).wf(),
            final(self).has_changelog() == old(self).has_changelog(),
            final(self).has_group_store() == old(self).has_group_store(),
            final(self).has_resolver() == old(self).has_resolver(),
            final(page)@.id == old(page)@.id,
            final(page)@.access == old(page)@.access,
            final(page)@.visibility == spec_visibility_from_access(old(page)@.access),
            final(page)@.version == next_version(old(page)@.version),
            r is Ok ==> access_refreshed(
                old(self).graph_view(),
                final(self).graph_view(),
                old(page)@.id,
                spec_visibility_from_access(old(page)@.access),
                old(page)@.access,
            ),
    {
        page.version = page.version.wrapping_add(1);
        page.updated_at = Timestamp::now();
        page.visibility = Visibility::from_access(&page.access);
        match self.store_page(page) {
            Ok(()) => {},
            Err(e) => return Err(e),
        }
        let node_data = node_data_for(page);
        match self.store_node(&node_data) {
            Ok(()) => {},
            Err(e) => return Err(e),
        }
        proof {
            crate::graph::lemma_last_index_of(self.graph_view().nodes, page@.id);
        }
        match self.graph.get_node_mut(&page.id) {
            Some(node) => {
                node.visibility = page.visibility.duplicate();
                node.access = page.access.duplicate();
            },
            None => {},
        }
        let ghost g1 = self.graph_view();
        assert(g1.nodes =~= match last_index_of(old(self).graph_view().nodes, page@.id) {
            Some(i) => old(self).graph_view().nodes.update(
                i,
                GraphNodeView {
                    visibility: page@.visibility,
                    access: page@.access,
                    ..old(self).graph_view().nodes[i]
                },
            ),
            None => old(self).graph_view().nodes,
        });
        match &self.changelog {
            Some(changelog) => {
                let entry = entry_for(page, ChangeAction::Updated, agent_of(ctx), Some(copy_str(action)));
                match changelog.append(&entry) {
                    Ok(()) => {},
                    Err(e) => return Err(e),
                }
            },
            None => {},
        }
        Ok(())
    }

    /// Grants `principal` access at `level` to page `slug`. Only a caller
    /// who may manage the page's grants (its owner, or the untenanted
    /// admin) may; an existing grant to the principal is raised, not
    /// duplicated.
    pub fn share_page(&mut self, slug: &Slug, principal: Principal, level: Level, ctx: &TenantContext) -> (r: Result<
        (),
        MindPalaceError,
    >)
        requires
            old(self).wf(),
        ensures
            r is Ok ==> final(self).fetched_pages().len() == old(self).fetched_pages().len() + 1 && ({
                let o = final(self).fetched_pages().last();
                access_saved(old(self).saved_pages(), final(self).saved_pages(), o, shared_access(o.access, principal@, level))
            }),
            final(self).pages_saved() == old(self).pages_saved() ==> final(self).graph_view() == old(self).graph_view(),
            r is Ok ==> final(self).pages_saved() == old(self).pages_saved() + 1,
            final(self).pages_saved() != old(self).pages_saved() ==> exists|o: PageView, c: ContextView|
                #![trigger resolved_ctx(ctx@, c, old(self).has_group_store()), spec_can_manage_grants(c, o.access)]
                resolved_ctx(ctx@, c, old(self).has_group_store()) && spec_can_manage_grants(c, o.access),
            final(self).wf(),
            final(self).has_changelog() == old(self).has_changelog(),
            final(self).has_group_store() == old(self).has_group_store(),
            final(self).has_resolver() == old(self).has_resolver(),
            r is Ok ==> exists|o: PageView, c: ContextView|
                #![trigger access_changed(old(self).graph_view(), final(self).graph_view(), c, o, shared_access(o.access, principal@, level))]
                resolved_ctx(ctx@, c, old(self).has_group_store()) && access_changed(
                    old(self).graph_view(),
                    final(self).graph_view(),
                    c,
                    o,
                    shared_access(o.access, principal@, level),
                ) && access_saved(old(self).saved_pages(), final(self).saved_pages(), o, shared_access(o.access, principal@, level))
    {
        let c = self.resolve_ctx(ctx);
        let mut page = match self.fetch_page_unfiltered(slug) {
            Ok(p) => p,
            Err(e) => return Err(e),
        };
        let ghost o = page@;
        let ghost pv = principal@;
        page.access = match changed_access(&page.access, page.secret_refs.len(), slug, AccessChange::Share(principal, level), &c) {
            Ok(a) => a,
            Err(e) => return Err(e),
        };
        assert(page@.access == shared_access(o.access, pv, level));
        assert(page@ == (PageView { access: shared_access(o.access, pv, level), ..o }));
        let r = self.persist_access_change(&mut page, &c, "Shared");
        assert(self.saved_pages().drop_last() =~= old(self).saved_pages());
        assert(access_saved(old(self).saved_pages(), self.saved_pages(), o, shared_access(o.access, pv, level)));
        assert(r is Ok ==> access_changed(old(self).graph_view(), self.graph_view(), c@, o, shared_access(o.access, pv, level)));
        r
    }

    /// Removes every grant to `principal` from page `slug`; only a caller
    /// who may manage the page's grants may.
    pub fn unshare_page(&mut self, slug: &Slug, principal: &Principal, ctx: &TenantContext) -> (r: Result<
        (),
        MindPalaceError,
    >)
        requires
            old(self).wf(),
        ensures
            r is Ok ==> final(self).fetched_pages().len() == old(self).fetched_pages().len() + 1 && ({
                let o = final(self).fetched_pages().last();
                access_saved(old(self).saved_pages(), final(self).saved_pages(), o, unshared_access(o.access, principal@))
            }),
            final(self).pages_saved() == old(self).pages_saved() ==> final(self).graph_view() == old(self).graph_view(),
            r is Ok ==> final(self).pages_saved() == old(self).pages_saved() + 1,
            final(self).pages_saved() != old(self).pages_saved() ==> exists|o: PageView, c: ContextView|
                #![trigger resolved_ctx(ctx@, c, old(self).has_group_store()), spec_can_manage_grants(c, o.access)]
                resolved_ctx(ctx@, c, old(self).has_group_store()) && spec_can_manage_grants(c, o.access),
            final(self).wf(),
            final(self).has_changelog() == old(self).has_changelog(),
            final(self).has_group_store() == old(self).has_group_store(),
            final(self).has_resolver() == old(self).has_resolver(),
            r is Ok ==> exists|o: PageView, c: ContextView|
                #![trigger access_changed(old(self).graph_view(), final(self).graph_view(), c, o, unshared_access(o.access, principal@))]
                resolved_ctx(ctx@, c, old(self).has_group_store()) && access_changed(
                    old(self).graph_view(),
                    final(self).graph_view(),
                    c,
                    o,
                    unshared_access(o.access, principal@),
                ) && access_saved(old(self).saved_pages(), final(self).saved_pages(), o, unshared_access(o.access, principal@))
    {
        let c = self.resolve_ctx(ctx);
        let mut page = match self.fetch_page_unfiltered(slug) {
            Ok(p) => p,
            Err(e) => return Err(e),
        };
        let ghost o = page@;
        page.access = match changed_access(&page.access, page.secret_refs.len(), slug, AccessChange::Unshare(principal.duplicate()), &c) {
            Ok(a) => a,
            Err(e) => return Err(e),
        };
        assert(page@.access == unshared_access(o.access, principal@));
        assert(page@ == (PageView { access: unshared_access(o.access, principal@), ..o }));
        let r = self.persist_access_change(&mut page, &c, "Unshared");
        assert(self.saved_pages().drop_last() =~= old(self).saved_pages());
        assert(access_saved(old(self).saved_pages(), self.saved_pages(), o, unshared_access(o.access, principal@)));
        assert(r is Ok ==> access_changed(old(self).graph_view(), self.graph_view(), c@, o, unshared_access(o.access, principal@)));
        r
    }

    /// Sets the base visibility and/or owner of page `slug` (each when
    /// given; `Some(None)` clears the owner); only a caller who may manage
    /// the page's grants may. A page carrying secret references cannot be
    /// made Public.
    pub fn set_page_access(
        &mut self,
        slug: &Slug,
        base_visibility: Option<BaseVisibility>,
        owner: Option<Option<String>>,
        ctx: &TenantContext,
    ) -> (r: Result<(), MindPalaceError>)
        requires
            old(self).wf(),
        ensures
            r is Ok ==> final(self).fetched_pages().len() == old(self).fetched_pages().len() + 1 && ({
                let o = final(self).fetched_pages().last();
                access_saved(old(self).saved_pages(), final(self).saved_pages(), o, set_access(o.access, base_visibility, owner_change_view(owner)))
            }),
            final(self).pages_saved() == old(self).pages_saved() ==> final(self).graph_view() == old(self).graph_view(),
            r is Ok ==> final(self).pages_saved() == old(self).pages_saved() + 1,
            final(self).pages_saved() != old(self).pages_saved() ==> exists|o: PageView, c: ContextView|
                #![trigger resolved_ctx(ctx@, c, old(self).has_group_store()), spec_can_manage_grants(c, o.access)]
                resolved_ctx(ctx@, c, old(self).has_group_store()) && spec_can_manage_grants(c, o.access),
            final(self).wf(),
            final(self).has_changelog() == old(self).has_changelog(),
            final(self).has_group_store() == old(self).has_group_store(),
            final(self).has_resolver() == old(self).has_resolver(),
            r is Ok ==> exists|o: PageView, c: ContextView|
                #![trigger access_changed(old(self).graph_view(), final(self).graph_view(), c, o, set_access(o.access, base_visibility, owner_change_view(owner)))]
                resolved_ctx(ctx@, c, old(self).has_group_store()) && (base_visibility
                    == Some(BaseVisibility::Public) ==> o.secret_refs.len() == 0) && access_changed(
                    old(self).graph_view(),
                    final(self).graph_view(),
                    c,
                    o,
                    set_access(o.access, base_visibility, owner_change_view(owner)),
                ) && access_saved(old(self).saved_pages(), final(self).saved_pages(), o, set_access(o.access, base_visibility, owner_change_view(owner)))
    {
        let c = self.resolve_ctx(ctx);
        let mut page = match self.fetch_page_unfiltered(slug) {
            Ok(p) => p,
            Err(e) => return Err(e),
        };
        let ghost o = page@;
        let ghost ov = owner_change_view(owner);
        page.access = match changed_access(&page.access, page.secret_refs.len(), slug, AccessChange::SetAccess(base_visibility, owner), &c) {
            Ok(a) => a,
            Err(e) => return Err(e),
        };
        assert(page@.access == set_access(o.access, base_visibility, ov));
        assert(page@ == (PageView { access: set_access(o.access, base_visibility, ov), ..o }));
        let r = self.persist_access_change(&mut page, &c, "AccessChanged");
        assert(self.saved_pages().drop_last() =~= old(self).saved_pages());
        assert(access_saved(old(self).saved_pages(), self.saved_pages(), o, set_access(o.access, base_visibility, ov)));
        assert(r is Ok ==> access_changed(old(self).graph_view(), self.graph_view(), c@, o, set_access(o.access, base_visibility, ov)));
        r
    }

    /// Attaches a secret reference to page `slug`, replacing one of the same
    /// name, through [`Self::update_page`] (same edit gate, validation and
    /// lint).
    pub fn add_secret_ref(&mut self, slug: &Slug, secret_ref: SecretRef, ctx: &TenantContext) -> (r: Result<
        (),
        MindPalaceError,
    >)
        requires
            old(self).wf(),
        ensures
            final(self).wf(),
            final(self).has_changelog() == old(self).has_changelog(),
            final(self).has_group_store() == old(self).has_group_store(),
            final(self).has_resolver() == old(self).has_resolver(),
            r is Ok ==> exists|o: PageView, c: ContextView, p: PageView|
                #![trigger refs_updated(o, p), resolved_ctx(ctx@, c, old(self).has_group_store())]
                resolved_ctx(ctx@, c, old(self).has_group_store()) && spec_can_edit_page(
                    c,
                    effective_for(old(self).graph_view(), o),
                ) && refs_updated(o, p) && refs_end_with(p.secret_refs, secret_ref@) && node_refreshed(
                    old(self).graph_view(),
                    final(self).graph_view(),
                    p,
                ) && final(self).saved_pages() == old(self).saved_pages().push(p),
    {
        let page = match self.page_store.get_page_by_slug_unfiltered(slug) {
            Ok(p) => p,
            Err(e) => return Err(e),
        };
        let ghost refs0 = refs_view(page.secret_refs@);
        let ghost sr = secret_ref@;
        let refs = with_secret_ref(&page.secret_refs, secret_ref);
        proof {
            lemma_refs_without_lacks(refs0, sr.0);
            assert(refs_end_with(refs_view(refs@), sr));
        }
        let mut input = UpdatePageInput::default();
        input.secret_refs = Some(refs);
        let ghost input_v = input;
        let ghost g0 = self.graph_view();
        let ghost gs = self.has_group_store();
        match self.update_page(slug, input, ctx) {
            Ok((p, _)) => {
                proof {
                    let (o, c) = choose|o: PageView, c: ContextView|
                        resolved_ctx(ctx@, c, gs) && spec_can_edit_page(c, effective_for(g0, o))
                            && updated_page(o, input_v, p@) && node_refreshed(g0, self.graph_view(), p@);
                    assert(updated_sections(o.sections, input_v) == o.sections);
                    assert(refs_updated(o, p@));
                    assert(refs_end_with(p@.secret_refs, sr));
                }
                Ok(())
            },
            Err(e) => Err(e),
        }
    }

    /// Removes the secret references named `name` from page `slug`, through
    /// [`Self::update_page`]; removing an absent name changes nothing else.
    pub fn remove_secret_ref(&mut self, slug: &Slug, name: &str, ctx: &TenantContext) -> (r: Result<
        (),
        MindPalaceError,
    >)
        requires
            old(self).wf(),
        ensures
            final(self).wf(),
            final(self).has_changelog() == old(self).has_changelog(),
            final(self).has_group_store() == old(self).has_group_store(),
            final(self).has_resolver() == old(self).has_resolver(),
            r is Ok ==> exists|o: PageView, c: ContextView, p: PageView|
                #![trigger refs_updated(o, p), resolved_ctx(ctx@, c, old(self).has_group_store())]
                resolved_ctx(ctx@, c, old(self).has_group_store()) && spec_can_edit_page(
                    c,
                    effective_for(old(self).graph_view(), o),
                ) && refs_updated(o, p) && refs_lack(p.secret_refs, name@) && node_refreshed(
                    old(self).graph_view(),
                    final(self).graph_view(),
                    p,
                ) && final(self).saved_pages() == old(self).saved_pages().push(p),
    {
        let page = match self.page_store.get_page_by_slug_unfiltered(slug) {
            Ok(p) => p,
            Err(e) => return Err(e),
        };
        let ghost refs0 = refs_view(page.secret_refs@);
        let refs = without_secret_ref(&page.secret_refs, name);
        proof {
            lemma_refs_without_lacks(refs0, name@);
        }
        let mut input = UpdatePageInput::default();
        input.secret_refs = Some(refs);
        let ghost input_v = input;
        let ghost g0 = self.graph_view();
        let ghost gs = self.has_group_store();
        match self.update_page(slug, input, ctx) {
            Ok((p, _)) => {
                proof {
                    let (o, c) = choose|o: PageView, c: ContextView|
                        resolved_ctx(ctx@, c, gs) && spec_can_edit_page(c, effective_for(g0, o))
                            && updated_page(o, input_v, p@) && node_refreshed(g0, self.graph_view(), p@);
                    assert(updated_sections(o.sections, input_v) == o.sections);
                    assert(refs_updated(o, p@));
                    assert(refs_lack(p@.secret_refs, name@));
                }
                Ok(())
            },
            Err(e) => Err(e),
        }
    }

    /// Restores an archived page `slug`: its storage partition is derived
    /// again from its preserved access (a private page stays private), the
    /// version bumped, the page saved and re-indexed, its graph node
    /// refreshed or added back, and the change logged. There is no access
    /// gate: the caller is trusted.
    pub fn unarchive_page(&mut self, slug: &Slug) -> (r: Result<(), MindPalaceError>)
        requires
            old(self).wf(),
        ensures
            r is Ok ==> final(self).fetched_pages().len() == old(self).fetched_pages().len() + 1 && ({
                let o = final(self).fetched_pages().last();
                saved_with_visibility(old(self).saved_pages(), final(self).saved_pages(), o, spec_visibility_from_access(o.access))
            }),
            final(self).wf(),
            final(self).has_changelog() == old(self).has_changelog(),
            final(self).has_group_store() == old(self).has_group_store(),
            final(self).has_resolver() == old(self).has_resolver(),
            r is Ok ==> exists|o: PageView|
                #![trigger restored(old(self).graph_view(), final(self).graph_view(), o)]
                restored(old(self).graph_view(), final(self).graph_view(), o) && saved_with_visibility(
                    old(self).saved_pages(),
                    final(self).saved_pages(),
                    o,
                    spec_visibility_from_access(o.access),
                ) && final(self).saved_nodes() == old(self).saved_nodes().push(node_of(final(self).saved_pages().last())),
            final(self).pages_saved() == old(self).pages_saved() ==> final(self).graph_view() == old(self).graph_view(),
    {
        let mut page = match self.fetch_page_unfiltered(slug) {
            Ok(p) => p,
            Err(e) => return Err(e),
        };
        let ghost o = page@;
        page.visibility = Visibility::from_access(&page.access);
        page.version = page.version.wrapping_add(1);
        page.updated_at = Timestamp::now();
        match self.store_page(&page) {
            Ok(()) => {},
            Err(e) => return Err(e),
        }
        let text = page.full_content();
        let embedding = match self.embedding.embed_text(text.as_str()) {
            Ok(e) => e,
            Err(e) => return Err(e),
        };
        let meta = embedding_metadata_for(&page);
        match self.vector_search.upsert_embedding(&meta, embedding.as_slice()) {
            Ok(()) => {},
            Err(e) => return Err(e),
        }
        let node_data = node_data_for(&page);
        match self.store_node(&node_data) {
            Ok(()) => {},
            Err(e) => return Err(e),
        }
        assert(self.saved_pages().drop_last() =~= old(self).saved_pages());
        assert(saved_with_visibility(old(self).saved_pages(), self.saved_pages(), o, spec_visibility_from_access(o.access)));
        proof {
            crate::graph::lemma_last_index_of(self.graph_view().nodes, page@.id);
        }
        let ghost g0 = self.graph_view();
        if self.graph.has_node(&page.id) {
            match self.graph.get_node_mut(&page.id) {
                Some(node) => {
                    node.visibility = page.visibility.duplicate();
                    node.access = page.access.duplicate();
                },
                None => {},
            }
        } else {
            if self.graph.node_count() >= 0xffff_fffe {
                return Err(MindPalaceError::Graph(String::from_str("the graph cannot hold more nodes")));
            }
            self.graph.add_node(graph_node_for(&page));
        }
        assert(restored(g0, self.graph_view(), o));
        match &self.changelog {
            Some(changelog) => {
                let entry = entry_for(&page, ChangeAction::Updated, None, Some(String::from_str("Unarchived")));
                match changelog.append(&entry) {
                    Ok(()) => {},
                    Err(e) => return Err(e),
                }
            },
            None => {},
        }
        Ok(())
    }

    /// Lists the pages the caller sees as metadata-only stubs, from the
    /// graph, optionally of one page type and up to `filter.limit` of them.
    /// The graph is first reloaded from the graph store when that returns
    /// at least one node (a failed or empty load keeps the current graph).
    #[verifier::rlimit(40)]
    pub fn list_pages(&mut self, filter: &PageFilter, ctx: &TenantContext) -> (r: Result<
        Vec<Page>,
        MindPalaceError,
    >)
        requires
            old(self).wf(),
        ensures
            final(self).wf(),
            final(self).has_changelog() == old(self).has_changelog(),
            final(self).has_group_store() == old(self).has_group_store(),
            final(self).has_resolver() == old(self).has_resolver(),
            r matches Ok(v) && pages_listed(
                final(self).graph_view(),
                ctx@,
                old(self).has_group_store(),
                filter.page_type,
                filter.limit,
                v@,
            ),
            r matches Ok(v) ==> forall|k: int| 0 <= k < v@.len() ==> !((#[trigger] v@[k])@.visibility is Archived),
    {
        let c = self.resolve_ctx(ctx);
        match self.graph_store.load_graph() {
            Ok(data) => {
                if data.nodes.len() > 0 && data.nodes.len() < 0xffff_ffff && data.edges.len() < 0xffff_ffff {
                    self.graph = KnowledgeGraph::from_data(data);
                }
            },
            Err(_) => {},
        }
        let limit = match filter.limit {
            Some(l) => l,
            None => usize::MAX,
        };
        let nodes = self.graph.all_nodes(&c);
        let ghost g = self.graph_view();
        let ghost listed_nodes = node_refs_view(nodes@);
        let mut out: Vec<Page> = Vec::new();
        let n = nodes.len();
        for i in 0..n
            invariant
                n == nodes@.len(),
                listed_nodes == node_refs_view(nodes@),
                out@.len() <= limit,
                out@.len() == first_n(of_type(listed_nodes.take(i as int), filter.page_type), limit as nat).len(),
                forall|k: int|
                    0 <= k < out@.len() ==> stub_of(
                        (#[trigger] out@[k])@,
                        first_n(of_type(listed_nodes.take(i as int), filter.page_type), limit as nat)[k],
                    ),
        {
            let node = nodes[i];
            assert(listed_nodes.take(i + 1).drop_last() =~= listed_nodes.take(i as int));
            assert(listed_nodes.take(i + 1).last() == node@);
            let matches_type = !node.visibility.is_archived() && match filter.page_type {
                Some(pt) => pt == node.page_type,
                None => true,
            };
            let ghost before = of_type(listed_nodes.take(i as int), filter.page_type);
            if matches_type && out.len() < limit {
                out.push(stub_for(node));
            }
            proof {
                let after = of_type(listed_nodes.take(i + 1), filter.page_type);
                if matches_type {
                    assert(after == before.push(node@));
                    if before.len() < limit {
                        assert(first_n(after, limit as nat) =~= first_n(before, limit as nat).push(node@));
                    } else {
                        assert(first_n(after, limit as nat) =~= first_n(before, limit as nat));
                    }
                } else {
                    assert(after == before);
                }
            }
        }
        assert(listed_nodes.take(n as int) =~= listed_nodes);
        assert(resolved_ctx(ctx@, c@, old(self).has_group_store()));
        proof {
            let shown = of_type(listed_nodes, filter.page_type);
            lemma_of_type_unarchived(listed_nodes, filter.page_type);
            assert forall|k: int| 0 <= k < out@.len() implies !((#[trigger] out@[k])@.visibility is Archived) by {
                assert(stub_of(out@[k]@, first_n(shown, limit as nat)[k]));
                assert(first_n(shown, limit as nat)[k] == shown[k]);
            }
        }
        Ok(out)
    }
}

/// The graph after a page's node was restored: refreshed when present,
/// otherwise added back, with the partition derived from the page's access.
pub open spec fn restored(g0: GraphView, g1: GraphView, o: PageView) -> bool {
    let vis = spec_visibility_from_access(o.access);
    match last_index_of(g0.nodes, o.id) {
        Some(i) => g1.nodes == g0.nodes.update(
            i,
            GraphNodeView { visibility: vis, access: o.access, ..g0.nodes[i] },
        ) && g1.edges == g0.edges,
        None => g1.nodes == g0.nodes.push(node_of(PageView { visibility: vis, ..o })) && g1.edges
            == g0.edges,
    }
}

// ---------------------------------------------------------------------------
// Groups
// ---------------------------------------------------------------------------

/// Group `g` keeps the id and name of group `g0`.
pub open spec fn same_group(g0: Group, g: Group) -> bool {
    g.id@ == g0.id@ && g.name@ == g0.name@
}

/// The list `v` with `e` appended unless already present.
pub open spec fn with_email(v: Seq<String>, e: Seq<char>) -> Seq<Seq<char>> {
    if strings_contain(v, e) {
        strings_view(v)
    } else {
        strings_view(v).push(e)
    }
}

/// `g` is `g0` after a manager-authorised `add_member(e)`.
pub open spec fn member_added(g0: Group, g: Group, c: ContextView, e: Seq<char>) -> bool {
    &&& same_group(g0, g)
    &&& spec_caller_is_manager(c, g0.managers@, ctx_user(c))
    &&& g.managers@ == g0.managers@
    &&& strings_view(g.members@) == with_email(g0.members@, e)
}

/// `g` is `g0` after a manager-authorised `remove_member(e)`.
pub open spec fn member_removed(g0: Group, g: Group, c: ContextView, e: Seq<char>) -> bool {
    &&& same_group(g0, g)
    &&& spec_caller_is_manager(c, g0.managers@, ctx_user(c))
    &&& g.managers@ == g0.managers@
    &&& strings_view(g.members@) == strings_without(g0.members@, e)
}

/// `g` is `g0` after a manager-authorised `add_manager(e)`.
pub open spec fn manager_added(g0: Group, g: Group, c: ContextView, e: Seq<char>) -> bool {
    &&& same_group(g0, g)
    &&& spec_caller_is_manager(c, g0.managers@, ctx_user(c))
    &&& strings_view(g.managers@) == with_email(g0.managers@, e)
    &&& strings_view(g.members@) == with_email(g0.members@, e)
}

/// `g` is `g0` after a manager-authorised `remove_manager(e)` that did not
/// remove the last manager.
pub open spec fn manager_removed(g0: Group, g: Group, c: ContextView, e: Seq<char>) -> bool {
    &&& same_group(g0, g)
    &&& spec_caller_is_manager(c, g0.managers@, ctx_user(c))
    &&& !(strings_contain(g0.managers@, e) && g0.managers@.len() == 1)
    &&& g.members@ == g0.members@
    &&& strings_view(g.managers@) == strings_without(g0.managers@, e)
}

/// What a group lookup gives for the store's answer `res`: the group when
/// the store has it, a not-found error naming the group when it has none,
/// and the store's own error when it fails.
pub open spec fn found_group(res: Result<Option<Group>, MindPalaceError>, id: Seq<char>, r: Result<Group, MindPalaceError>) -> bool {
    match res {
        Ok(Some(g)) => r == Ok::<Group, MindPalaceError>(g),
        Ok(None) => r matches Err(e) && e@ == ErrorView::PageNotFound("group: "@ + id),
        Err(e) => r == Err::<Group, MindPalaceError>(e),
    }
}

/// The group a store lookup found, as [`found_group`] says.
pub fn group_found(res: Result<Option<Group>, MindPalaceError>, id: &GroupId) -> (r: Result<Group, MindPalaceError>)
    ensures
        found_group(res, id@, r),
{
    match res {
        Ok(Some(g)) => Ok(g),
        Ok(None) => Err(MindPalaceError::PageNotFound(concat2("group: ", id.as_str()))),
        Err(e) => Err(e),
    }
}

/// What a resolution without a secrets backend is told.
pub open spec fn not_configured_text() -> Seq<char> {
    "no secrets backend configured for this deployment"@
}

/// The reference of `page` that a resolution of `name` uses: the caller
/// must pass [`secret_gate`], and a backend must be `configured`, else the
/// answer is `NotConfigured`.
pub fn secret_to_resolve(page: &Page, ctx: &TenantContext, name: &str, slug: &Slug, configured: bool) -> (r: Result<
    usize,
    MindPalaceError,
>)
    ensures
        match spec_secret_gate(page@.visibility, page@.access, page@.secret_refs, slug@, ctx@, name@) {
            Err(e) => r matches Err(x) && x@ == e,
            Ok(i) => if configured {
                r matches Ok(k) && k as int == i && i < page.secret_refs@.len()
            } else {
                r matches Err(x) && x@ == ErrorView::Secret(SecretErrorView::NotConfigured(not_configured_text()))
            },
        },
{
    let idx = match secret_gate(page, ctx, name, slug) {
        Ok(i) => i,
        Err(e) => return Err(e),
    };
    if !configured {
        return Err(
            MindPalaceError::Secret(
                SecretError::NotConfigured(String::from_str("no secrets backend configured for this deployment")),
            ),
        );
    }
    Ok(idx)
}

/// A change to a group's membership.
#[derive(Debug, Clone, Copy, PartialEq, Eq, Structural)]
pub enum GroupChange {
    AddMember,
    RemoveMember,
    AddManager,
    RemoveManager,
}

/// What a caller who may not manage group `id` is told for each change.
pub open spec fn denied_text(change: GroupChange, id: Seq<char>) -> Seq<char> {
    match change {
        GroupChange::AddMember => "only a manager may add members to group '"@ + id + "'"@,
        GroupChange::RemoveMember => "only a manager may remove members from group '"@ + id + "'"@,
        GroupChange::AddManager => "only a manager may add managers to group '"@ + id + "'"@,
        GroupChange::RemoveManager => "only a manager may remove managers from group '"@ + id + "'"@,
    }
}

fn denied_message(change: GroupChange, id: &GroupId) -> (r: String)
    ensures
        r@ == denied_text(change, id@),
{
    match change {
        GroupChange::AddMember => concat3("only a manager may add members to group '", id.as_str(), "'"),
        GroupChange::RemoveMember => concat3(
            "only a manager may remove members from group '",
            id.as_str(),
            "'",
        ),
        GroupChange::AddManager => concat3("only a manager may add managers to group '", id.as_str(), "'"),
        GroupChange::RemoveManager => concat3(
            "only a manager may remove managers from group '",
            id.as_str(),
            "'",
        ),
    }
}

/// Group `group` (stored under `id`) after a change for `email` requested
/// by the caller: only a manager of the group, or the untenanted admin, may
/// change it, and its last manager cannot be removed.
pub fn changed_group(group: Group, id: &GroupId, change: GroupChange, email: &str, ctx: &TenantContext) -> (r: Result<
    Group,
    MindPalaceError,
>)
    ensures
        !spec_caller_is_manager(ctx@, group.managers@, ctx_user(ctx@)) ==> (r matches Err(e) && e@
            == ErrorView::AccessDenied(denied_text(change, id@))),
        spec_caller_is_manager(ctx@, group.managers@, ctx_user(ctx@)) ==> match change {
            GroupChange::AddMember => r matches Ok(g) && member_added(group, g, ctx@, email@),
            GroupChange::RemoveMember => r matches Ok(g) && member_removed(group, g, ctx@, email@),
            GroupChange::AddManager => r matches Ok(g) && manager_added(group, g, ctx@, email@),
            GroupChange::RemoveManager => if strings_contain(group.managers@, email@)
                && group.managers@.len() == 1 {
                r matches Err(e) && e@ == ErrorView::Validation(
                    "cannot remove the last manager of group '"@ + id@ + "'"@,
                )
            } else {
                r matches Ok(g) && manager_removed(group, g, ctx@, email@)
            },
        },
{
    let caller = ctx.user_id();
    let ghost cv: Option<Seq<char>> = match caller {
        Some(e) => Some(e@),
        None => None,
    };
    assert(cv == ctx_user(ctx@));
    if !caller_is_manager(&group, caller, ctx) {
        return Err(MindPalaceError::AccessDenied(denied_message(change, id)));
    }
    let ghost g0 = group;
    let mut group = group;
    match change {
        GroupChange::AddMember => group.add_member(email),
        GroupChange::RemoveMember => group.remove_member(email),
        GroupChange::AddManager => group.add_manager(email),
        GroupChange::RemoveManager => {
            if removes_last_manager(&group, email) {
                return Err(
                    MindPalaceError::Validation(
                        concat3("cannot remove the last manager of group '", id.as_str(), "'"),
                    ),
                );
            }
            group.remove_manager(email);
        },
    }
    assert(same_group(g0, group));
    Ok(group)
}

impl<
    P: PageStore,
    V: VectorSearchPort,
    E: EmbeddingPort,
    G: GraphStore,
    C: ChangelogStore,
    S: GroupStore,
    R: SecretsResolver,
> WikiService<P, V, E, G, C, S, R> {
    /// The group store, or a validation error when there is none.
    fn require_group_store(&self) -> (r: Result<&S, MindPalaceError>)
        ensures
            self.has_group_store() ==> r is Ok,
            !self.has_group_store() ==> (r matches Err(e) && e@ == ErrorView::Validation(
                "no group store configured"@,
            )),
    {
        match &self.group_store {
            Some(s) => Ok(s),
            None => Err(MindPalaceError::Validation(String::from_str("no group store configured"))),
        }
    }

    /// Loads group `id` from the store, as [`group_found`] reads the store's
    /// answer.
    fn load_group(store: &S, id: &GroupId) -> (r: Result<Group, MindPalaceError>)
        ensures
            exists|res: Result<Option<Group>, MindPalaceError>| #[trigger] found_group(res, id@, r),
    {
        let res = store.get_group(id);
        let ghost rv = res;
        let r = group_found(res, id);
        assert(found_group(rv, id@, r));
        r
    }

    /// Creates group `id` named `name`, with the authenticated caller as its
    /// sole manager and member. Anonymous callers cannot; an existing id is
    /// refused.
    pub fn group_create(&self, id: GroupId, name: &str, ctx: &TenantContext) -> (r: Result<
        Group,
        MindPalaceError,
    >)
        ensures
            !self.has_group_store() ==> (r matches Err(e) && e@ == ErrorView::Validation(
                "no group store configured"@,
            )),
            self.has_group_store() && ctx_user(ctx@) is None ==> (r matches Err(e) && e@
                == ErrorView::AccessDenied("must be authenticated to create a group"@)),
            r matches Ok(g) ==> ctx_user(ctx@) is Some && g.id@ == id@ && g.name@ == name@
                && strings_view(g.members@) == seq![ctx_user(ctx@)->0] && strings_view(
                g.managers@,
            ) == seq![ctx_user(ctx@)->0],
    {
        let store = match self.require_group_store() {
            Ok(s) => s,
            Err(e) => return Err(e),
        };
        let creator = match ctx.user_id() {
            Some(u) => u,
            None => return Err(
                MindPalaceError::AccessDenied(String::from_str("must be authenticated to create a group")),
            ),
        };
        match store.get_group(&id) {
            Ok(Some(_)) => {
                return Err(
                    MindPalaceError::Validation(concat3("group '", id.as_str(), "' already exists")),
                );
            },
            Ok(None) => {},
            Err(e) => return Err(e),
        }
        let group = Group::new(id, name, creator);
        match store.save_group(&group) {
            Ok(()) => {},
            Err(e) => return Err(e),
        }
        Ok(group)
    }

    /// Adds a member to group `id`. Only a manager of the group (or the
    /// untenanted admin) may.
    pub fn group_add_member(&self, id: &GroupId, member_email: &str, ctx: &TenantContext) -> (r: Result<
        Group,
        MindPalaceError,
    >)
        ensures
            !self.has_group_store() ==> (r matches Err(e) && e@ == ErrorView::Validation(
                "no group store configured"@,
            )),
            r matches Ok(g) ==> exists|g0: Group|
                #[trigger] member_added(g0, g, ctx@, member_email@),
    {
        let store = match self.require_group_store() {
            Ok(s) => s,
            Err(e) => return Err(e),
        };
        let group = match Self::load_group(store, id) {
            Ok(g) => g,
            Err(e) => return Err(e),
        };
        let ghost g0 = group;
        let group = match changed_group(group, id, GroupChange::AddMember, member_email, ctx) {
            Ok(g) => g,
            Err(e) => return Err(e),
        };
        match store.save_group(&group) {
            Ok(()) => {},
            Err(e) => return Err(e),
        }
        assert(member_added(g0, group, ctx@, member_email@));
        Ok(group)
    }

    /// Removes a member from group `id`. Only a manager (or the untenanted
    /// admin) may.
    pub fn group_remove_member(&self, id: &GroupId, member_email: &str, ctx: &TenantContext) -> (r: Result<
        Group,
        MindPalaceError,
    >)
        ensures
            !self.has_group_store() ==> (r matches Err(e) && e@ == ErrorView::Validation(
                "no group store configured"@,
            )),
            r matches Ok(g) ==> exists|g0: Group|
                #[trigger] member_removed(g0, g, ctx@, member_email@),
    {
        let store = match self.require_group_store() {
            Ok(s) => s,
            Err(e) => return Err(e),
        };
        let group = match Self::load_group(store, id) {
            Ok(g) => g,
            Err(e) => return Err(e),
        };
        let ghost g0 = group;
        let group = match changed_group(group, id, GroupChange::RemoveMember, member_email, ctx) {
            Ok(g) => g,
            Err(e) => return Err(e),
        };
        match store.save_group(&group) {
            Ok(()) => {},
            Err(e) => return Err(e),
        }
        assert(member_removed(g0, group, ctx@, member_email@));
        Ok(group)
    }

    /// All groups, from the group store.
    pub fn group_list(&self, ctx: &TenantContext) -> (r: Result<Vec<Group>, MindPalaceError>)
        ensures
            !self.has_group_store() ==> (r matches Err(e) && e@ == ErrorView::Validation(
                "no group store configured"@,
            )),
    {
        let store = match self.require_group_store() {
            Ok(s) => s,
            Err(e) => return Err(e),
        };
        store.list_groups()
    }

    /// Adds a manager to group `id` (a new manager also becomes a member).
    /// Only a manager (or the untenanted admin) may.
    pub fn group_add_manager(&self, id: &GroupId, manager_email: &str, ctx: &TenantContext) -> (r: Result<
        Group,
        MindPalaceError,
    >)
        ensures
            !self.has_group_store() ==> (r matches Err(e) && e@ == ErrorView::Validation(
                "no group store configured"@,
            )),
            r matches Ok(g) ==> exists|g0: Group|
                #[trigger] manager_added(g0, g, ctx@, manager_email@),
    {
        let store = match self.require_group_store() {
            Ok(s) => s,
            Err(e) => return Err(e),
        };
        let group = match Self::load_group(store, id) {
            Ok(g) => g,
            Err(e) => return Err(e),
        };
        let ghost g0 = group;
        let group = match changed_group(group, id, GroupChange::AddManager, manager_email, ctx) {
            Ok(g) => g,
            Err(e) => return Err(e),
        };
        match store.save_group(&group) {
            Ok(()) => {},
            Err(e) => return Err(e),
        }
        assert(manager_added(g0, group, ctx@, manager_email@));
        Ok(group)
    }

    /// Removes a manager from group `id`. Only a manager (or the untenanted
    /// admin) may, and never the last one: a group always keeps someone who
    /// can manage it.
    pub fn group_remove_manager(&self, id: &GroupId, manager_email: &str, ctx: &TenantContext) -> (r: Result<
        Group,
        MindPalaceError,
    >)
        ensures
            !self.has_group_store() ==> (r matches Err(e) && e@ == ErrorView::Validation(
                "no group store configured"@,
            )),
            r matches Ok(g) ==> exists|g0: Group|
                #[trigger] manager_removed(g0, g, ctx@, manager_email@),
    {
        let store = match self.require_group_store() {
            Ok(s) => s,
            Err(e) => return Err(e),
        };
        let group = match Self::load_group(store, id) {
            Ok(g) => g,
            Err(e) => return Err(e),
        };
        let ghost g0 = group;
        let group = match changed_group(group, id, GroupChange::RemoveManager, manager_email, ctx) {
            Ok(g) => g,
            Err(e) => return Err(e),
        };
        match store.save_group(&group) {
            Ok(()) => {},
            Err(e) => return Err(e),
        }
        assert(manager_removed(g0, group, ctx@, manager_email@));
        Ok(group)
    }
}

// ---------------------------------------------------------------------------
// Laws of sharing
// ---------------------------------------------------------------------------

/// Sharing with a user lets that user see the page, and edit it when shared
/// at `Edit`; owner and base visibility are unchanged.
pub proof fn lemma_share_grants_access(c: ContextView, a: AccessView, u: Seq<char>, level: Level)
    requires
        ctx_user(c) == Some(u),
    ensures
        spec_can_see_page(c, shared_access(a, PrincipalView::User(u), level)),
        level == Level::Edit ==> spec_can_edit_page(c, shared_access(a, PrincipalView::User(u), level)),
        shared_access(a, PrincipalView::User(u), level).owner == a.owner,
        shared_access(a, PrincipalView::User(u), level).base_visibility == a.base_visibility,
{
    let g = GrantView { principal: PrincipalView::User(u), level };
    let s = shared_access(a, PrincipalView::User(u), level);
    crate::graph::lemma_first_grant_for(a.grants, g.principal);
    match crate::graph::first_grant_for(a.grants, g.principal) {
        Some(i) => {
            assert(s.grants[i].principal == g.principal);
            assert(crate::tenant::principal_covers(c, s.grants[i].principal));
            if level == Level::Edit {
                assert(s.grants[i].level == Level::Edit);
            }
            assert(crate::tenant::grant_reaches(c, s, Level::View));
        },
        None => {
            let i = a.grants.len() as int;
            assert(s.grants[i] == g);
            assert(crate::tenant::principal_covers(c, s.grants[i].principal));
            assert(crate::tenant::grant_reaches(c, s, Level::View));
        },
    }
}

/// Unsharing removes every grant to the principal and keeps the owner and
/// base visibility: the owner keeps full access.
pub proof fn lemma_unshare_removes_principal(a: AccessView, p: PrincipalView)
    ensures
        forall|i: int|
            0 <= i < unshared_access(a, p).grants.len() ==> (#[trigger] unshared_access(
                a,
                p,
            ).grants[i]).principal != p,
        unshared_access(a, p).owner == a.owner,
        unshared_access(a, p).base_visibility == a.base_visibility,
{
    lemma_grants_without_excludes(a.grants, p);
}

/// No grant to `p` is left after removing the grants to `p`.
proof fn lemma_grants_without_excludes(gs: Seq<GrantView>, p: PrincipalView)
    ensures
        forall|i: int| 0 <= i < grants_without(gs, p).len() ==> (#[trigger] grants_without(gs, p)[i]).principal != p,
    decreases gs.len(),
{
    if gs.len() > 0 {
        lemma_grants_without_excludes(gs.drop_last(), p);
        let rest = grants_without(gs.drop_last(), p);
        if gs.last().principal != p {
            assert forall|i: int| 0 <= i < rest.push(gs.last()).len() implies (
            #[trigger] rest.push(gs.last())[i]).principal != p by {
                if i < rest.len() {
                    assert(rest.push(gs.last())[i] == rest[i]);
                }
            }
        }
    }
}

} // verus!
