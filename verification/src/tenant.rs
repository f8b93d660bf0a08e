//! Who is asking: the request identity, optional tenant scoping, resolved
//! group membership, and the authorization rules built on them.
use vstd::prelude::*;

use crate::group::{strings_contain, Group};
use crate::text::{copy_str, str_eq};
use crate::value_objects::{
    spec_access_from_visibility, AccessView, BaseVisibility, GroupId, Level, PageAccess, Principal,
    PrincipalView, TenantId, Visibility, VisibilityView,
};

verus! {

broadcast use vstd::string::group_string_axioms;

/// Who is making a request, independent of tenant scoping.
#[derive(Debug, Clone, PartialEq, Eq)]
pub enum Identity {
    /// Trusted local/admin context — sees everything (subject to tenant rules).
    Global,
    /// Unauthenticated remote request — sees only fully-open pages.
    Anonymous,
    /// An authenticated principal, keyed on a stable id string (email preferred).
    User { id: String },
}

/// The mathematical value of an [`Identity`].
pub enum IdentityView {
    Global,
    Anonymous,
    User(Seq<char>),
}

impl View for Identity {
    type V = IdentityView;

    open spec fn view(&self) -> IdentityView {
        match self {
            Identity::Global => IdentityView::Global,
            Identity::Anonymous => IdentityView::Anonymous,
            Identity::User { id } => IdentityView::User(id@),
        }
    }
}

impl Identity {
    /// The stable identity string, if this is an authenticated user.
    pub fn user_id(&self) -> (r: Option<&str>)
        ensures
            match self@ {
                IdentityView::User(u) => r is Some && r->0@ == u,
                _ => r is None,
            },
    {
        match self {
            Identity::User { id } => Some(id.as_str()),
            _ => None,
        }
    }

    /// True for the trusted, everything-visible local/admin context.
    pub fn is_global(&self) -> (r: bool)
        ensures
            r == (self@ is Global),
    {
        match self {
            Identity::Global => true,
            _ => false,
        }
    }

    /// True for an unauthenticated remote request (public-only).
    pub fn is_anonymous(&self) -> (r: bool)
        ensures
            r == (self@ is Anonymous),
    {
        match self {
            Identity::Anonymous => true,
            _ => false,
        }
    }

    /// A copy with the same value.
    pub fn duplicate(&self) -> (r: Identity)
        ensures
            r@ == self@,
    {
        match self {
            Identity::Global => Identity::Global,
            Identity::Anonymous => Identity::Anonymous,
            Identity::User { id } => Identity::User { id: id.clone() },
        }
    }
}

/// The groups an identity belongs to, resolved once per request.
#[derive(Debug, Clone, PartialEq, Eq)]
pub struct GroupMembership {
    pub groups: Vec<GroupId>,
}

/// The views of a list of group (or tenant) identifiers.
pub open spec fn ids_view<T: View<V = Seq<char>>>(v: Seq<T>) -> Seq<Seq<char>> {
    Seq::new(v.len(), |i: int| v[i]@)
}

impl GroupMembership {
    pub fn new(groups: Vec<GroupId>) -> (r: GroupMembership)
        ensures
            r.groups == groups,
    {
        GroupMembership { groups }
    }

    /// Membership in no group.
    pub fn empty() -> (r: GroupMembership)
        ensures
            r.groups@.len() == 0,
    {
        GroupMembership { groups: Vec::new() }
    }

    /// The membership of `email`: the ids of the groups listing it as a
    /// member, in order.
    pub fn for_member(groups: &Vec<Group>, email: &str) -> (r: GroupMembership)
        ensures
            ids_view(r.groups@) == member_group_ids(groups@, email@),
    {
        let mut ids: Vec<GroupId> = Vec::new();
        let n = groups.len();
        for i in 0..n
            invariant
                n == groups@.len(),
                ids_view(ids@) == member_group_ids(groups@.take(i as int), email@),
        {
            proof {
                assert(groups@.take(i + 1).drop_last() =~= groups@.take(i as int));
            }
            if groups[i].is_member(email) {
                let ghost before = ids@;
                ids.push(groups[i].id.duplicate());
                assert(ids_view(ids@) =~= ids_view(before).push(groups@[i as int].id@));
            }
        }
        assert(groups@.take(n as int) =~= groups@);
        GroupMembership { groups: ids }
    }
}

/// The ids of the groups in `gs` that list `email` as a member, in order.
pub open spec fn member_group_ids(gs: Seq<Group>, email: Seq<char>) -> Seq<Seq<char>>
    decreases gs.len(),
{
    if gs.len() == 0 {
        Seq::empty()
    } else {
        let rest = member_group_ids(gs.drop_last(), email);
        if strings_contain(gs.last().members@, email) {
            rest.push(gs.last().id@)
        } else {
            rest
        }
    }
}

/// Who is making the request and what they can see.
#[derive(Debug, Clone)]
pub struct TenantContext {
    pub identity: Identity,
    pub tenant_id: Option<TenantId>,
    /// All tenant ids whose pages this context can access.
    pub visible_tenants: Vec<TenantId>,
    /// The groups the identity belongs to (resolved per request).
    pub membership: GroupMembership,
}

/// The mathematical value of a [`TenantContext`].
pub struct ContextView {
    pub identity: IdentityView,
    pub tenant_id: Option<Seq<char>>,
    pub visible_tenants: Seq<Seq<char>>,
    pub groups: Seq<Seq<char>>,
}

impl View for TenantContext {
    type V = ContextView;

    open spec fn view(&self) -> ContextView {
        ContextView {
            identity: self.identity@,
            tenant_id: match self.tenant_id {
                Some(t) => Some(t@),
                None => None,
            },
            visible_tenants: ids_view(self.visible_tenants@),
            groups: ids_view(self.membership.groups@),
        }
    }
}

// ---------------------------------------------------------------------------
// Authorization rules
// ---------------------------------------------------------------------------

/// The untenanted global context.
pub open spec fn global_view() -> ContextView {
    ContextView {
        identity: IdentityView::Global,
        tenant_id: None,
        visible_tenants: Seq::empty(),
        groups: Seq::empty(),
    }
}

/// The untenanted trusted admin: `Global` identity with no tenant.
pub open spec fn is_admin(c: ContextView) -> bool {
    c.tenant_id is None && c.identity is Global
}

/// The authenticated user id of the context, if any.
pub open spec fn ctx_user(c: ContextView) -> Option<Seq<char>> {
    match c.identity {
        IdentityView::User(u) => Some(u),
        _ => None,
    }
}

/// Whether the context belongs to the group (or tenant) `g`. A tenant is
/// modelled as a group whose members are its users.
pub open spec fn in_group(c: ContextView, g: Seq<char>) -> bool {
    c.groups.contains(g) || c.visible_tenants.contains(g)
}

/// Whether a grant to `p` reaches the context.
pub open spec fn principal_covers(c: ContextView, p: PrincipalView) -> bool {
    match p {
        PrincipalView::User(u) => ctx_user(c) == Some(u),
        PrincipalView::Group(g) => in_group(c, g),
    }
}

/// Whether some grant reaching the context is at least `min`.
pub open spec fn grant_reaches(c: ContextView, a: AccessView, min: Level) -> bool {
    exists|i: int|
        0 <= i < a.grants.len() && principal_covers(c, (#[trigger] a.grants[i]).principal) && (
        min == Level::View || a.grants[i].level == Level::Edit)
}

/// The context's user owns the page.
pub open spec fn owns(c: ContextView, a: AccessView) -> bool {
    ctx_user(c) is Some && a.owner == ctx_user(c)
}

/// The view rule: anonymous callers see only Public pages; the untenanted
/// admin sees everything; anyone else sees Public pages, pages they own, and
/// pages with a grant (at any level) reaching them.
pub open spec fn spec_can_see_page(c: ContextView, a: AccessView) -> bool {
    if c.identity is Anonymous {
        a.base_visibility == BaseVisibility::Public
    } else if is_admin(c) {
        true
    } else {
        a.base_visibility == BaseVisibility::Public || owns(c, a) || grant_reaches(c, a, Level::View)
    }
}

/// The edit rule: never anonymous; always the untenanted admin; otherwise the
/// owner or a holder of an `Edit` grant.
pub open spec fn spec_can_edit_page(c: ContextView, a: AccessView) -> bool {
    if c.identity is Anonymous {
        false
    } else if is_admin(c) {
        true
    } else {
        owns(c, a) || grant_reaches(c, a, Level::Edit)
    }
}

/// Who may change grants, owner or base visibility: the owner, or the
/// untenanted admin.
pub open spec fn spec_can_manage_grants(c: ContextView, a: AccessView) -> bool {
    !(c.identity is Anonymous) && (is_admin(c) || owns(c, a))
}

/// The legacy rule on storage visibility.
pub open spec fn spec_can_see(c: ContextView, v: VisibilityView) -> bool {
    if v is Archived {
        false
    } else if c.identity is Anonymous {
        v is General
    } else if is_admin(c) {
        true
    } else {
        match v {
            VisibilityView::Archived => false,
            VisibilityView::General => true,
            VisibilityView::Tenant(t) => c.visible_tenants.contains(t),
            VisibilityView::User(u) => ctx_user(c) == Some(u),
        }
    }
}

/// Whether a list of tenant ids holds `t`.
fn tenants_contain(v: &Vec<TenantId>, t: &str) -> (r: bool)
    ensures
        r == ids_view(v@).contains(t@),
{
    let n = v.len();
    for i in 0..n
        invariant
            n == v@.len(),
            forall|j: int| 0 <= j < i ==> ids_view(v@)[j] != t@,
    {
        if str_eq(v[i].0.as_str(), t) {
            assert(ids_view(v@)[i as int] == t@);
            return true;
        }
    }
    false
}

/// Whether a list of group ids holds `g`.
fn groups_contain(v: &Vec<GroupId>, g: &str) -> (r: bool)
    ensures
        r == ids_view(v@).contains(g@),
{
    let n = v.len();
    for i in 0..n
        invariant
            n == v@.len(),
            forall|j: int| 0 <= j < i ==> ids_view(v@)[j] != g@,
    {
        if str_eq(v[i].0.as_str(), g) {
            assert(ids_view(v@)[i as int] == g@);
            return true;
        }
    }
    false
}

impl TenantContext {
    /// Trusted, unauthenticated single-user/admin context — tenancy disabled
    /// and everything visible.
    pub fn global() -> (r: TenantContext)
        ensures
            r@ == global_view(),
    {
        let r = TenantContext {
            identity: Identity::Global,
            tenant_id: None,
            visible_tenants: Vec::new(),
            membership: GroupMembership::empty(),
        };
        assert(r@.visible_tenants =~= Seq::<Seq<char>>::empty());
        assert(r@.groups =~= Seq::<Seq<char>>::empty());
        r
    }

    /// An unauthenticated remote request that may see only fully-open pages.
    pub fn anonymous() -> (r: TenantContext)
        ensures
            r@.identity is Anonymous,
            r@.tenant_id is None,
            r@.visible_tenants.len() == 0,
            r@.groups.len() == 0,
    {
        TenantContext {
            identity: Identity::Anonymous,
            tenant_id: None,
            visible_tenants: Vec::new(),
            membership: GroupMembership::empty(),
        }
    }

    /// An authenticated user context (no tenant scoping).
    pub fn user(id: &str) -> (r: TenantContext)
        ensures
            r@.identity == IdentityView::User(id@),
            r@.tenant_id is None,
            r@.visible_tenants.len() == 0,
            r@.groups.len() == 0,
    {
        TenantContext {
            identity: Identity::User { id: copy_str(id) },
            tenant_id: None,
            visible_tenants: Vec::new(),
            membership: GroupMembership::empty(),
        }
    }

    /// A context built directly from an identity (no tenant scoping).
    pub fn from_identity(identity: Identity) -> (r: TenantContext)
        ensures
            r@.identity == identity@,
            r@.tenant_id is None,
            r@.visible_tenants.len() == 0,
            r@.groups.len() == 0,
    {
        TenantContext {
            identity,
            tenant_id: None,
            visible_tenants: Vec::new(),
            membership: GroupMembership::empty(),
        }
    }

    /// A tenant that can only see its own pages (and General ones).
    pub fn leaf(tenant_id: TenantId) -> (r: TenantContext)
        ensures
            r@.identity is Global,
            r@.tenant_id == Some(tenant_id@),
            r@.visible_tenants == seq![tenant_id@],
            r@.groups.len() == 0,
    {
        let visible = vec![tenant_id.duplicate()];
        let r = TenantContext {
            identity: Identity::Global,
            tenant_id: Some(tenant_id),
            visible_tenants: visible,
            membership: GroupMembership::empty(),
        };
        assert(r@.visible_tenants =~= seq![tenant_id@]);
        r
    }

    /// A parent tenant that can see its own pages and those of all its
    /// descendants.
    pub fn parent(tenant_id: TenantId, descendants: Vec<TenantId>) -> (r: TenantContext)
        ensures
            r@.identity is Global,
            r@.tenant_id == Some(tenant_id@),
            r@.visible_tenants == seq![tenant_id@] + ids_view(descendants@),
            r@.groups.len() == 0,
    {
        let mut visible = vec![tenant_id.duplicate()];
        let mut rest = descendants;
        let ghost d = rest@;
        visible.append(&mut rest);
        let r = TenantContext {
            identity: Identity::Global,
            tenant_id: Some(tenant_id),
            visible_tenants: visible,
            membership: GroupMembership::empty(),
        };
        assert(r@.visible_tenants =~= seq![tenant_id@] + ids_view(d));
        r
    }

    /// Attaches a user identity, keeping the tenant scoping.
    pub fn with_user(self, user_id: &str) -> (r: TenantContext)
        ensures
            r@.identity == IdentityView::User(user_id@),
            r@.tenant_id == self@.tenant_id,
            r@.visible_tenants == self@.visible_tenants,
            r@.groups == self@.groups,
    {
        let mut s = self;
        s.identity = Identity::User { id: copy_str(user_id) };
        s
    }

    /// Attaches an explicit identity, keeping the tenant scoping.
    pub fn with_identity(self, identity: Identity) -> (r: TenantContext)
        ensures
            r@.identity == identity@,
            r@.tenant_id == self@.tenant_id,
            r@.visible_tenants == self@.visible_tenants,
            r@.groups == self@.groups,
    {
        let mut s = self;
        s.identity = identity;
        s
    }

    /// Attaches resolved group membership, keeping everything else.
    pub fn with_membership(self, membership: GroupMembership) -> (r: TenantContext)
        ensures
            r@.identity == self@.identity,
            r@.tenant_id == self@.tenant_id,
            r@.visible_tenants == self@.visible_tenants,
            r@.groups == ids_view(membership.groups@),
    {
        let mut s = self;
        s.membership = membership;
        s
    }

    /// The user id if the identity is an authenticated user.
    pub fn user_id(&self) -> (r: Option<&str>)
        ensures
            match ctx_user(self@) {
                Some(u) => r is Some && r->0@ == u,
                None => r is None,
            },
    {
        self.identity.user_id()
    }

    /// The untenanted trusted admin context.
    pub fn is_admin(&self) -> (r: bool)
        ensures
            r == is_admin(self@),
    {
        self.tenant_id.is_none() && self.identity.is_global()
    }

    /// A copy with the same value.
    pub fn duplicate(&self) -> (r: TenantContext)
        ensures
            r@ == self@,
    {
        let mut vt: Vec<TenantId> = Vec::new();
        let n = self.visible_tenants.len();
        for i in 0..n
            invariant
                n == self.visible_tenants@.len(),
                ids_view(vt@) == ids_view(self.visible_tenants@).take(i as int),
        {
            let ghost before = vt@;
            vt.push(self.visible_tenants[i].duplicate());
            assert(ids_view(vt@) =~= ids_view(before).push(self.visible_tenants@[i as int]@));
        }
        let mut gs: Vec<GroupId> = Vec::new();
        let m = self.membership.groups.len();
        for i in 0..m
            invariant
                m == self.membership.groups@.len(),
                ids_view(gs@) == ids_view(self.membership.groups@).take(i as int),
        {
            let ghost before = gs@;
            gs.push(self.membership.groups[i].duplicate());
            assert(ids_view(gs@) =~= ids_view(before).push(self.membership.groups@[i as int]@));
        }
        let r = TenantContext {
            identity: self.identity.duplicate(),
            tenant_id: match &self.tenant_id {
                Some(t) => Some(t.duplicate()),
                None => None,
            },
            visible_tenants: vt,
            membership: GroupMembership { groups: gs },
        };
        assert(r@.visible_tenants =~= self@.visible_tenants);
        assert(r@.groups =~= self@.groups);
        r
    }

    /// The legacy visibility check on a storage partition.
    pub fn can_see(&self, visibility: &Visibility) -> (r: bool)
        ensures
            r == spec_can_see(self@, visibility@),
    {
        if visibility.is_archived() {
            return false;
        }
        if self.identity.is_anonymous() {
            return match visibility {
                Visibility::General => true,
                _ => false,
            };
        }
        if self.tenant_id.is_none() && self.identity.is_global() {
            return true;
        }
        match visibility {
            Visibility::Archived => false,
            Visibility::General => true,
            Visibility::Tenant(page_tenant) => tenants_contain(
                &self.visible_tenants,
                page_tenant.0.as_str(),
            ),
            Visibility::User(page_user) => match self.user_id() {
                Some(u) => str_eq(u, page_user.as_str()),
                None => false,
            },
        }
    }

    /// Whether the context belongs to group `g` (or tenant `g`).
    pub fn in_group(&self, g: &str) -> (r: bool)
        ensures
            r == in_group(self@, g@),
    {
        groups_contain(&self.membership.groups, g) || tenants_contain(&self.visible_tenants, g)
    }

    /// Whether a grant to `p` reaches this context.
    pub fn covers(&self, p: &Principal) -> (r: bool)
        ensures
            r == principal_covers(self@, p@),
    {
        match p {
            Principal::User(u) => match self.user_id() {
                Some(me) => str_eq(me, u.as_str()),
                None => false,
            },
            Principal::Group(g) => self.in_group(g.0.as_str()),
        }
    }

    /// Whether some grant reaching this context is at least `min`.
    pub fn has_grant(&self, access: &PageAccess, min: Level) -> (r: bool)
        ensures
            r == grant_reaches(self@, access@, min),
    {
        let n = access.grants.len();
        for i in 0..n
            invariant
                n == access@.grants.len(),
                n == access.grants@.len(),
                forall|j: int|
                    0 <= j < i ==> !(principal_covers(self@, (#[trigger] access@.grants[j]).principal)
                        && (min == Level::View || access@.grants[j].level == Level::Edit)),
        {
            let g = &access.grants[i];
            if self.covers(&g.principal) && (min == Level::View || g.level == Level::Edit) {
                assert(access@.grants[i as int] == g@);
                return true;
            }
            assert(access@.grants[i as int] == g@);
        }
        false
    }

    /// Whether this context's user owns the page.
    pub fn owns(&self, access: &PageAccess) -> (r: bool)
        ensures
            r == owns(self@, access@),
    {
        match self.user_id() {
            Some(me) => access.is_owner(me),
            None => false,
        }
    }

    /// The view rule (see [`spec_can_see_page`]).
    pub fn can_see_page(&self, access: &PageAccess) -> (r: bool)
        ensures
            r == spec_can_see_page(self@, access@),
    {
        if self.identity.is_anonymous() {
            return access.base_visibility == BaseVisibility::Public;
        }
        if self.is_admin() {
            return true;
        }
        access.base_visibility == BaseVisibility::Public || self.owns(access) || self.has_grant(
            access,
            Level::View,
        )
    }

    /// The edit rule (see [`spec_can_edit_page`]).
    pub fn can_edit_page(&self, access: &PageAccess) -> (r: bool)
        ensures
            r == spec_can_edit_page(self@, access@),
    {
        if self.identity.is_anonymous() {
            return false;
        }
        if self.is_admin() {
            return true;
        }
        self.owns(access) || self.has_grant(access, Level::Edit)
    }

    /// Whether this context may change the page's grants, owner or base
    /// visibility (see [`spec_can_manage_grants`]).
    pub fn can_manage_grants(&self, access: &PageAccess) -> (r: bool)
        ensures
            r == spec_can_manage_grants(self@, access@),
    {
        !self.identity.is_anonymous() && (self.is_admin() || self.owns(access))
    }
}

// ---------------------------------------------------------------------------
// Laws of the access model
// ---------------------------------------------------------------------------

/// Edit implies view: whoever may edit a page may also see it.
pub proof fn lemma_edit_implies_see(c: ContextView, a: AccessView)
    requires
        spec_can_edit_page(c, a),
    ensures
        spec_can_see_page(c, a),
{
    if !is_admin(c) && !owns(c, a) {
        let i = choose|i: int|
            0 <= i < a.grants.len() && principal_covers(c, (#[trigger] a.grants[i]).principal) && (
            Level::Edit == Level::View || a.grants[i].level == Level::Edit);
        assert(grant_reaches(c, a, Level::View));
    }
}

/// Managing grants implies editing: the owner and the admin may edit.
pub proof fn lemma_manage_implies_edit(c: ContextView, a: AccessView)
    requires
        spec_can_manage_grants(c, a),
    ensures
        spec_can_edit_page(c, a),
        spec_can_see_page(c, a),
{
    lemma_edit_implies_see(c, a);
}

/// An anonymous caller sees exactly the Public pages and may edit none.
pub proof fn lemma_anonymous_public_only(c: ContextView, a: AccessView)
    requires
        c.identity is Anonymous,
    ensures
        spec_can_see_page(c, a) == (a.base_visibility == BaseVisibility::Public),
        !spec_can_edit_page(c, a),
        !spec_can_manage_grants(c, a),
{
}

/// The untenanted admin may see, edit and manage every page.
pub proof fn lemma_admin_sees_all(c: ContextView, a: AccessView)
    requires
        is_admin(c),
    ensures
        spec_can_see_page(c, a),
        spec_can_edit_page(c, a),
        spec_can_manage_grants(c, a),
{
}

/// The owner of a page may see, edit and manage it.
pub proof fn lemma_owner_full_access(c: ContextView, a: AccessView)
    requires
        ctx_user(c) is Some,
        a.owner == ctx_user(c),
    ensures
        spec_can_see_page(c, a),
        spec_can_edit_page(c, a),
        spec_can_manage_grants(c, a),
{
}

/// A Public page is visible to every caller.
pub proof fn lemma_public_visible_to_all(c: ContextView, a: AccessView)
    requires
        a.base_visibility == BaseVisibility::Public,
    ensures
        spec_can_see_page(c, a),
{
}

/// Migrating a legacy visibility to the access model does not change who can
/// see the page, for a non-archived page and a context with no resolved
/// group membership (a tenant is a group whose members are its users).
pub proof fn lemma_migration_preserves_visibility(c: ContextView, v: VisibilityView)
    requires
        !(v is Archived),
        c.groups.len() == 0,
    ensures
        spec_can_see_page(c, spec_access_from_visibility(v)) == spec_can_see(c, v),
{
    let a = spec_access_from_visibility(v);
    match v {
        VisibilityView::User(u) => {
            if grant_reaches(c, a, Level::View) {
                let i = choose|i: int|
                    0 <= i < a.grants.len() && principal_covers(c, (#[trigger] a.grants[i]).principal)
                        && (Level::View == Level::View || a.grants[i].level == Level::Edit);
                assert(i == 0);
            }
            if ctx_user(c) == Some(u) && !is_admin(c) && !(c.identity is Anonymous) {
                assert(owns(c, a));
            }
        },
        VisibilityView::Tenant(t) => {
            if grant_reaches(c, a, Level::View) {
                let i = choose|i: int|
                    0 <= i < a.grants.len() && principal_covers(c, (#[trigger] a.grants[i]).principal)
                        && (Level::View == Level::View || a.grants[i].level == Level::Edit);
                assert(i == 0);
                assert(!c.groups.contains(t));
            }
            if c.visible_tenants.contains(t) && !is_admin(c) && !(c.identity is Anonymous) {
                assert(principal_covers(c, a.grants[0].principal));
                assert(grant_reaches(c, a, Level::View));
            }
        },
        _ => {},
    }
}

} // verus!
