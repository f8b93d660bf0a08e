//! The web API: request bodies, how they become service inputs, the views
//! it answers with, and the HTTP status of each domain error.
use vstd::prelude::*;

use crate::error::{ErrorView, MindPalaceError};
use crate::graph::{NeighborInfo, NeighborView};
use crate::group::{strings_contain, Group};
use crate::mcp::{inputs_view, sections_from, slugs_from, valid_slugs, SectionInput};
use crate::rules::spec_caller_is_manager;
use crate::graph::neighbors_view;
use crate::page::Page;
use crate::ports::{
    ChangelogStore, EmbeddingPort, GraphStore, GroupStore, PageFilter, PageStore, SecretsResolver,
    VectorSearchPort,
};
use crate::service::{pages_listed, traversed, CreatePageInput, UpdatePageInput, WikiService};
use crate::tools::{edge_kind_name, edge_kind_str};
use crate::tenant::{ctx_user, is_admin, ContextView, Identity, IdentityView, TenantContext};
use crate::text::{
    ascii_lowercase, copy_str, spec_ascii_lowercase, spec_trim, str_eq, strs_view, trim_str,
};
use crate::value_objects::{
    opt_slug_view, sections_view, slug_error_of, slugs_view, BaseVisibility, EdgeKind, Grant,
    GrantView, GroupId, Level, PageType, Principal, PrincipalView, Slug, Visibility,
};

verus! {

broadcast use vstd::string::group_string_axioms;

/// Web server configuration: the port to bind.
#[derive(Debug, Clone, Copy)]
pub struct WebConfig {
    pub port: u16,
}

impl WebConfig {
    pub fn new(port: u16) -> (r: WebConfig)
        ensures
            r.port == port,
    {
        WebConfig { port }
    }
}

// ---------------------------------------------------------------------------
// Identity and errors
// ---------------------------------------------------------------------------

/// The per-request context of an authenticated identity.
pub fn ctx(identity: Identity) -> (r: TenantContext)
    ensures
        r@.identity == identity@,
        r@.tenant_id is None,
        r@.visible_tenants.len() == 0,
        r@.groups.len() == 0,
{
    TenantContext::from_identity(identity)
}

/// The per-request context of the identity the auth layer attached; none
/// attached means an anonymous request, never a privileged one.
pub fn context_for(identity: Option<Identity>) -> (r: TenantContext)
    ensures
        r@.identity == match identity {
            Some(i) => i@,
            None => IdentityView::Anonymous,
        },
        r@.tenant_id is None,
        r@.visible_tenants.len() == 0,
        r@.groups.len() == 0,
{
    let id = match identity {
        Some(i) => i,
        None => Identity::Anonymous,
    };
    TenantContext::from_identity(id)
}

/// The HTTP status of a domain error, without revealing which pages exist:
/// not found 404, access denied 403, validation 400, anything else 500.
pub open spec fn spec_status(e: ErrorView) -> u16 {
    match e {
        ErrorView::PageNotFound(_) => 404,
        ErrorView::AccessDenied(_) => 403,
        ErrorView::Validation(_) => 400,
        _ => 500,
    }
}

/// The HTTP status of a domain error.
pub fn map_err(e: &MindPalaceError) -> (r: u16)
    ensures
        r == spec_status(e@),
{
    match e {
        MindPalaceError::PageNotFound(_) => 404,
        MindPalaceError::AccessDenied(_) => 403,
        MindPalaceError::Validation(_) => 400,
        _ => 500,
    }
}

// ---------------------------------------------------------------------------
// Parsing request fields
// ---------------------------------------------------------------------------

/// A field as matched: trimmed and ASCII lower-cased.
pub open spec fn normalized(s: Seq<char>) -> Seq<char> {
    spec_ascii_lowercase(spec_trim(s))
}

fn normalize(s: &str) -> (r: String)
    ensures
        r@ == normalized(s@),
{
    let t = trim_str(s);
    ascii_lowercase(t.as_str())
}

/// The base visibility a name denotes: `public`, or `private`/`user`
/// (trimmed, case ignored).
pub open spec fn spec_base_visibility(v: Seq<char>) -> Option<BaseVisibility> {
    if normalized(v) == "public"@ {
        Some(BaseVisibility::Public)
    } else if normalized(v) == "private"@ || normalized(v) == "user"@ {
        Some(BaseVisibility::Private)
    } else {
        None
    }
}

/// A base visibility: `public`, or `private`/`user`; anything else, or
/// nothing, is none.
pub fn parse_base_visibility(s: Option<&str>) -> (r: Option<BaseVisibility>)
    ensures
        r == match s {
            Some(v) => spec_base_visibility(v@),
            None => None::<BaseVisibility>,
        },
{
    match s {
        Some(v) => {
            let n = normalize(v);
            if str_eq(n.as_str(), "public") {
                Some(BaseVisibility::Public)
            } else if str_eq(n.as_str(), "private") || str_eq(n.as_str(), "user") {
                Some(BaseVisibility::Private)
            } else {
                None
            }
        },
        None => None,
    }
}

/// The name of a base visibility.
pub fn base_visibility_str(b: BaseVisibility) -> (r: String)
    ensures
        r@ == match b {
            BaseVisibility::Public => "public"@,
            BaseVisibility::Private => "private"@,
        },
{
    match b {
        BaseVisibility::Public => String::from_str("public"),
        BaseVisibility::Private => String::from_str("private"),
    }
}

/// A grantee of a request: `user` or `group` (trimmed, case ignored); any
/// other kind is a bad request (400).
pub fn parse_principal(principal_type: &str, principal: &str) -> (r: Result<Principal, u16>)
    ensures
        if normalized(principal_type@) == "user"@ {
            r matches Ok(p) && p@ == PrincipalView::User(principal@)
        } else if normalized(principal_type@) == "group"@ {
            r matches Ok(p) && p@ == PrincipalView::Group(principal@)
        } else {
            r == Err::<Principal, u16>(400)
        },
{
    let n = normalize(principal_type);
    if str_eq(n.as_str(), "user") {
        Ok(Principal::User(copy_str(principal)))
    } else if str_eq(n.as_str(), "group") {
        Ok(Principal::Group(GroupId(copy_str(principal))))
    } else {
        Err(400)
    }
}

/// A grant level: `edit` (trimmed, case ignored), else `view`.
pub fn parse_level(s: Option<&str>) -> (r: Level)
    ensures
        r == match s {
            Some(v) => if normalized(v@) == "edit"@ {
                Level::Edit
            } else {
                Level::View
            },
            None => Level::View,
        },
{
    match s {
        Some(v) => {
            let n = normalize(v);
            if str_eq(n.as_str(), "edit") {
                Level::Edit
            } else {
                Level::View
            }
        },
        None => Level::View,
    }
}

// ---------------------------------------------------------------------------
// Views
// ---------------------------------------------------------------------------

/// A grant as the UI sees it.
#[derive(Debug, Clone)]
pub struct GrantEntry {
    pub principal_type: String,
    pub principal: String,
    pub level: String,
}

/// A grant as the UI sees it: the principal's kind and name, and the level.
pub fn grant_view(g: &Grant) -> (r: GrantEntry)
    ensures
        match g@.principal {
            PrincipalView::User(u) => r.principal_type@ == "user"@ && r.principal@ == u,
            PrincipalView::Group(x) => r.principal_type@ == "group"@ && r.principal@ == x,
        },
        r.level@ == match g.level {
            Level::View => "view"@,
            Level::Edit => "edit"@,
        },
{
    let (principal_type, principal) = match &g.principal {
        Principal::User(email) => (String::from_str("user"), email.clone()),
        Principal::Group(id) => (String::from_str("group"), copy_str(id.as_str())),
    };
    let level = match g.level {
        Level::View => String::from_str("view"),
        Level::Edit => String::from_str("edit"),
    };
    GrantEntry { principal_type, principal, level }
}

/// A group as the UI sees it, with whether the caller may manage it.
#[derive(Debug, Clone)]
pub struct GroupView {
    pub id: String,
    pub name: String,
    pub members: Vec<String>,
    pub managers: Vec<String>,
    pub can_manage: bool,
}

/// A group as the UI sees it: `can_manage` mirrors the service's manager
/// gate (the untenanted admin, or a listed manager).
pub fn group_view(g: Group, ctx: &TenantContext) -> (r: GroupView)
    ensures
        r.id@ == g.id@,
        r.name@ == g.name@,
        r.members == g.members,
        r.managers == g.managers,
        r.can_manage == spec_caller_is_manager(ctx@, g.managers@, ctx_user(ctx@)),
{
    let can_manage = crate::rules::caller_is_manager(&g, ctx.user_id(), ctx);
    GroupView { id: copy_str(g.id.as_str()), name: g.name, members: g.members, managers: g.managers, can_manage }
}

/// The containment part of a traversal: the entries reached by `Child` or
/// `Parent` edges, in order.
pub open spec fn containment(v: Seq<NeighborView>) -> Seq<NeighborView>
    decreases v.len(),
{
    if v.len() == 0 {
        Seq::empty()
    } else {
        let rest = containment(v.drop_last());
        if v.last().edge_kind == EdgeKind::Child || v.last().edge_kind == EdgeKind::Parent {
            rest.push(v.last())
        } else {
            rest
        }
    }
}

/// Keeps the entries reached by containment edges.
pub fn tree_entries(neighbors: Vec<NeighborInfo>) -> (r: Vec<NeighborInfo>)
    ensures
        crate::graph::neighbors_view(r@) == containment(crate::graph::neighbors_view(neighbors@)),
{
    let ghost nv = crate::graph::neighbors_view(neighbors@);
    let mut out: Vec<NeighborInfo> = Vec::new();
    let n = neighbors.len();
    for i in 0..n
        invariant
            n == neighbors@.len(),
            nv == crate::graph::neighbors_view(neighbors@),
            crate::graph::neighbors_view(out@) == containment(nv.take(i as int)),
    {
        let e = &neighbors[i];
        assert(nv.take(i + 1).drop_last() =~= nv.take(i as int));
        assert(nv.take(i + 1).last() == e@);
        if e.edge_kind == EdgeKind::Child || e.edge_kind == EdgeKind::Parent {
            let ghost before = crate::graph::neighbors_view(out@);
            out.push(
                NeighborInfo {
                    page_id: e.page_id,
                    slug: e.slug.duplicate(),
                    title: e.title.clone(),
                    summary: e.summary.clone(),
                    page_type: e.page_type,
                    edge_kind: e.edge_kind,
                },
            );
            assert(crate::graph::neighbors_view(out@) =~= before.push(e@));
        }
    }
    assert(nv.take(n as int) =~= nv);
    out
}

// ---------------------------------------------------------------------------
// Request bodies
// ---------------------------------------------------------------------------

/// `POST /api/pages`.
#[derive(Debug, Clone)]
pub struct CreatePageRequest {
    pub title: String,
    pub slug: String,
    pub summary: String,
    pub sections: Vec<SectionInput>,
    pub page_type: Option<PageType>,
    pub links: Option<Vec<String>>,
    /// `public` or `private`.
    pub base_visibility: Option<String>,
    pub parent: Option<String>,
}

/// `PUT /api/pages/{slug}`.
#[derive(Debug, Clone)]
pub struct UpdatePageRequest {
    pub title: Option<String>,
    pub summary: Option<String>,
    pub sections: Option<Vec<SectionInput>>,
    pub links: Option<Vec<String>>,
    /// The editor sends the whole page, so sections are replaced by default.
    pub replace_sections: Option<bool>,
}

/// `GET /api/search`.
#[derive(Debug, Clone)]
pub struct SearchQuery {
    pub q: String,
}

/// `PUT /api/pages/{slug}/access`.
#[derive(Debug, Clone)]
pub struct SetAccessRequest {
    pub base_visibility: Option<String>,
    pub owner: Option<Option<String>>,
}

/// `POST`/`DELETE /api/pages/{slug}/grants`.
#[derive(Debug, Clone)]
pub struct GrantRequest {
    pub principal_type: String,
    pub principal: String,
    pub level: Option<String>,
}

/// `POST /api/groups`.
#[derive(Debug, Clone)]
pub struct CreateGroupRequest {
    pub id: String,
    pub name: String,
}

/// Group member or manager changes.
#[derive(Debug, Clone)]
pub struct GroupMemberRequest {
    pub email: String,
}

/// `PUT /api/pages/{slug}/parent`: a parent slug, or none to detach.
#[derive(Debug, Clone)]
pub struct SetParentRequest {
    pub parent: Option<String>,
}

/// `POST /api/pages/{slug}/secret-refs`.
#[derive(Debug, Clone)]
pub struct AddSecretRefRequest {
    pub name: String,
    pub reference: String,
}

/// `DELETE /api/pages/{slug}/secret-refs`.
#[derive(Debug, Clone)]
pub struct RemoveSecretRefRequest {
    pub name: String,
}

/// `GET /api/audit`.
#[derive(Debug, Clone)]
pub struct AuditQuery {
    pub subject: Option<String>,
    pub resource: Option<String>,
}

/// The input a create request hands the service: an invalid slug or parent
/// is a bad request; invalid links are dropped; the page type defaults to
/// `Concept`; the page goes to the general partition with the requested
/// base visibility, and no secret references.
pub fn create_input_from_request(body: CreatePageRequest) -> (r: Result<CreatePageInput, u16>)
    ensures
        slug_error_of(body.slug@) is Some ==> r == Err::<CreatePageInput, u16>(400),
        (body.parent matches Some(p) && slug_error_of(p@) is Some) ==> r == Err::<
            CreatePageInput,
            u16,
        >(400),
        slug_error_of(body.slug@) is None && !(body.parent matches Some(p) && slug_error_of(p@) is Some)
            ==> r is Ok,
        r matches Ok(i) ==> {
            &&& i.title@ == body.title@
            &&& i.slug@ == body.slug@
            &&& i.summary@ == body.summary@
            &&& sections_view(i.sections@) == inputs_view(body.sections@)
            &&& i.page_type == match body.page_type {
                Some(t) => t,
                None => PageType::Concept,
            }
            &&& i.visibility == Visibility::General
            &&& slugs_view(i.links@) == match body.links {
                Some(l) => valid_slugs(strs_view(l@)),
                None => Seq::empty(),
            }
            &&& opt_slug_view(i.parent) == match body.parent {
                Some(p) => Some(p@),
                None => None,
            }
            &&& i.secret_refs@.len() == 0
        },
{
    let slug = match Slug::new(body.slug.as_str()) {
        Ok(s) => s,
        Err(_) => return Err(400),
    };
    let links = match &body.links {
        Some(l) => slugs_from(l),
        None => Vec::new(),
    };
    assert(slugs_view(links@) == match body.links {
        Some(l) => valid_slugs(strs_view(l@)),
        None => Seq::empty(),
    }) by {
        if body.links is None {
            assert(slugs_view(links@) =~= Seq::empty());
        }
    }
    let parent = match &body.parent {
        Some(p) => match Slug::new(p.as_str()) {
            Ok(s) => Some(s),
            Err(_) => return Err(400),
        },
        None => None,
    };
    let base_visibility = match &body.base_visibility {
        Some(b) => parse_base_visibility(Some(b.as_str())),
        None => None,
    };
    Ok(
        CreatePageInput {
            title: body.title,
            slug,
            summary: body.summary,
            sections: sections_from(body.sections),
            page_type: match body.page_type {
                Some(t) => t,
                None => PageType::Concept,
            },
            visibility: Visibility::General,
            links,
            base_visibility,
            parent,
            secret_refs: Vec::new(),
        },
    )
}

/// The input an update request hands the service: the given fields, invalid
/// links dropped, sections replaced unless the request says otherwise.
pub fn update_input_from_request(body: UpdatePageRequest) -> (r: UpdatePageInput)
    ensures
        r.replace_sections == (body.replace_sections != Some(false)),
        r.delete_sections@.len() == 0,
        r.parent is None,
        r.secret_refs is None,
        match r.sections {
            Some(ss) => body.sections matches Some(ps) && sections_view(ss@) == inputs_view(ps@),
            None => body.sections is None,
        },
        match r.links {
            Some(ls) => body.links matches Some(pl) && slugs_view(ls@) == valid_slugs(strs_view(pl@)),
            None => body.links is None,
        },
{
    let links = match &body.links {
        Some(l) => Some(slugs_from(l)),
        None => None,
    };
    let replace = match body.replace_sections {
        Some(b) => b,
        None => true,
    };
    UpdatePageInput {
        title: body.title,
        summary: body.summary,
        sections: match body.sections {
            Some(ss) => Some(sections_from(ss)),
            None => None,
        },
        links,
        replace_sections: replace,
        delete_sections: Vec::new(),
        parent: None,
        secret_refs: None,
    }
}

/// The input a parent change hands the service: move under the given slug
/// (an invalid one is a bad request) or detach when none is given.
pub fn set_parent_input(parent: Option<String>) -> (r: Result<UpdatePageInput, u16>)
    ensures
        match parent {
            Some(p) => if slug_error_of(p@) is Some {
                r == Err::<UpdatePageInput, u16>(400)
            } else {
                r matches Ok(i) && (i.parent matches Some(Some(s)) && s@ == p@)
            },
            None => r matches Ok(i) && i.parent == Some(None::<Slug>),
        },
        r matches Ok(i) ==> i.title is None && i.summary is None && i.sections is None
            && i.links is None && !i.replace_sections && i.delete_sections@.len() == 0
            && i.secret_refs is None,
{
    let p = match parent {
        Some(p) => match Slug::new(p.as_str()) {
            Ok(s) => Some(Some(s)),
            Err(_) => return Err(400),
        },
        None => Some(None),
    };
    let mut input = UpdatePageInput::default();
    input.parent = p;
    Ok(input)
}

/// The base visibility a set-access request asks for: none when absent, a
/// bad request when present but not a known name.
pub fn requested_base_visibility(s: Option<&str>) -> (r: Result<Option<BaseVisibility>, u16>)
    ensures
        match s {
            None => r == Ok::<Option<BaseVisibility>, u16>(None),
            Some(v) => match spec_base_visibility(v@) {
                Some(b) => r == Ok::<Option<BaseVisibility>, u16>(Some(b)),
                None => r == Err::<Option<BaseVisibility>, u16>(400),
            },
        },
{
    match s {
        None => Ok(None),
        Some(v) => match parse_base_visibility(Some(v)) {
            Some(b) => Ok(Some(b)),
            None => Err(400),
        },
    }
}

// ---------------------------------------------------------------------------
// The graph view
// ---------------------------------------------------------------------------

/// An edge of the graph view: the slugs it joins and its kind's name.
#[derive(Debug, Clone)]
pub struct GraphEdgeEntry {
    pub source: String,
    pub target: String,
    pub kind: String,
}

/// The views of graph-view edges.
pub open spec fn edges_view(es: Seq<GraphEdgeEntry>) -> Seq<(Seq<char>, Seq<char>, Seq<char>)> {
    Seq::new(es.len(), |i: int| (es[i].source@, es[i].target@, es[i].kind@))
}

/// The slugs of listed pages.
pub open spec fn page_slugs(ps: Seq<Page>) -> Seq<Seq<char>> {
    Seq::new(ps.len(), |i: int| ps[i]@.slug)
}

/// The edges from page `source` to the pages a traversal reached.
pub open spec fn page_edges(source: Seq<char>, ns: Seq<NeighborView>) -> Seq<(Seq<char>, Seq<char>, Seq<char>)> {
    Seq::new(ns.len(), |j: int| (source, ns[j].slug, edge_kind_name(ns[j].edge_kind)))
}

/// The edges of every page, in page order.
pub open spec fn all_edges(sources: Seq<Seq<char>>, ns: Seq<Seq<NeighborView>>) -> Seq<
    (Seq<char>, Seq<char>, Seq<char>),
>
    decreases sources.len(),
{
    if sources.len() == 0 || ns.len() == 0 {
        Seq::empty()
    } else {
        all_edges(sources.drop_last(), ns.drop_last()) + page_edges(sources.last(), ns.last())
    }
}

/// The graph as the UI draws it: the pages the caller may list, and for
/// each, in order, an edge to every page one step away that the caller may
/// see. A page whose traversal fails contributes no edges.
pub fn get_graph<
    P: PageStore,
    V: VectorSearchPort,
    E: EmbeddingPort,
    G: GraphStore,
    C: ChangelogStore,
    S: GroupStore,
    R: SecretsResolver,
>(service: &mut WikiService<P, V, E, G, C, S, R>, ctx: &TenantContext) -> (r: Result<
    (Vec<Page>, Vec<GraphEdgeEntry>),
    MindPalaceError,
>)
    requires
        old(service).wf(),
    ensures
        final(service).wf(),
        final(service).has_changelog() == old(service).has_changelog(),
        final(service).has_group_store() == old(service).has_group_store(),
        final(service).has_resolver() == old(service).has_resolver(),
        r is Ok,
        r matches Ok((pages, edges)) ==> pages_listed(
            final(service).graph_view(),
            ctx@,
            old(service).has_group_store(),
            None,
            None,
            pages@,
        ),
        r matches Ok((pages, edges)) ==> ({
            let g = final(service).graph_view();
            let h = final(service).has_group_store();
            exists|ns: Seq<Seq<NeighborView>>|
                #![trigger all_edges(page_slugs(pages@), ns)]
                ns.len() == pages@.len() && edges_view(edges@) == all_edges(page_slugs(pages@), ns)
                    && forall|k: int|
                    0 <= k < ns.len() ==> (#[trigger] ns[k]).len() == 0 || traversed(g, ctx@, h, 1, ns[k])
        }),
{
    let filter = PageFilter::default();
    let pages = match service.list_pages(&filter, ctx) {
        Ok(p) => p,
        Err(e) => return Err(e),
    };
    let mut edges: Vec<GraphEdgeEntry> = Vec::new();
    let ghost mut ns: Seq<Seq<NeighborView>> = Seq::empty();
    let n = pages.len();
    for i in 0..n
        invariant
            service.wf(),
            n == pages@.len(),
            ns.len() == i,
            edges_view(edges@) == all_edges(page_slugs(pages@.take(i as int)), ns),
            forall|k: int|
                0 <= k < ns.len() ==> (#[trigger] ns[k]).len() == 0 || traversed(
                    service.graph_view(),
                    ctx@,
                    service.has_group_store(),
                    1,
                    ns[k],
                ),
    {
        let neighbors = match service.traverse(&pages[i].slug, 1, ctx) {
            Ok(v) => v,
            Err(_) => Vec::new(),
        };
        let ghost nv = neighbors_view(neighbors@);
        let ghost before = edges_view(edges@);
        let ghost src = pages@[i as int]@.slug;
        let m = neighbors.len();
        for j in 0..m
            invariant
                i < n,
                n == pages@.len(),
                m == neighbors@.len(),
                nv == neighbors_view(neighbors@),
                src == pages@[i as int]@.slug,
                edges_view(edges@) == before + page_edges(src, nv.take(j as int)),
        {
            let ghost e0 = edges_view(edges@);
            edges.push(
                GraphEdgeEntry {
                    source: copy_str(pages[i].slug.as_str()),
                    target: copy_str(neighbors[j].slug.as_str()),
                    kind: edge_kind_str(neighbors[j].edge_kind),
                },
            );
            assert(edges_view(edges@) =~= e0.push((src, nv[j as int].slug, edge_kind_name(nv[j as int].edge_kind))));
            assert(page_edges(src, nv.take(j + 1)) =~= page_edges(src, nv.take(j as int)).push(
                (src, nv[j as int].slug, edge_kind_name(nv[j as int].edge_kind)),
            ));
        }
        assert(nv.take(m as int) =~= nv);
        proof {
            let slugs_next = page_slugs(pages@.take(i + 1));
            assert(slugs_next.drop_last() =~= page_slugs(pages@.take(i as int)));
            assert(slugs_next.last() == src);
            assert(ns.push(nv).drop_last() =~= ns);
            ns = ns.push(nv);
        }
    }
    assert(pages@.take(n as int) =~= pages@);
    assert(edges_view(edges@) == all_edges(page_slugs(pages@), ns));
    let res: Result<(Vec<Page>, Vec<GraphEdgeEntry>), MindPalaceError> = Ok((pages, edges));
    assert(res matches Ok((p2, e2)) && edges_view(e2@) == all_edges(page_slugs(p2@), ns) && ns.len()
        == p2@.len());
    res
}

} // verus!
