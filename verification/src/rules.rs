//! The decisions the wiki service makes, on plain values: the access a new
//! page gets, how an update merges sections, who may manage a group, which
//! gate a read passes, and the errors each refusal gives.
use vstd::prelude::*;

use crate::error::{ErrorView, MindPalaceError};
use crate::group::{strings_contain, Group};
use crate::page::{first_section_with, lemma_first_section_with, Page, ReadLevel};
use crate::ports::{SecretError, SecretErrorView};
use crate::tenant::{ctx_user, is_admin, spec_can_edit_page, spec_can_see_page, ContextView, TenantContext};
use crate::text::{concat3, concat4, concat5, copy_str, str_eq};
use crate::value_objects::{
    duplicate_grants, duplicate_sections, grants_view, refs_view, sections_view,
    spec_access_from_visibility, AccessView, BaseVisibility, Grant, GrantView, Level, PageAccess,
    PageType, Principal, PrincipalView, SecretRef, Section, SectionView, Slug, Visibility,
    VisibilityView,
};

verus! {

broadcast use vstd::string::group_string_axioms;

// ---------------------------------------------------------------------------
// The access of a new page
// ---------------------------------------------------------------------------

/// Whether some grant goes to principal `p`.
pub open spec fn has_grant_to(gs: Seq<GrantView>, p: PrincipalView) -> bool {
    exists|i: int| 0 <= i < gs.len() && (#[trigger] gs[i]).principal == p
}

/// The access a page created by `c` gets: migrated from the legacy
/// visibility; owned by the caller when authenticated, who also gets an
/// `Edit` grant unless already granted; with the explicit base visibility
/// when one is given.
pub open spec fn new_page_access(vis: VisibilityView, bv: Option<BaseVisibility>, c: ContextView) -> AccessView {
    let a0 = spec_access_from_visibility(vis);
    let a1 = match ctx_user(c) {
        Some(u) => AccessView {
            owner: Some(u),
            base_visibility: a0.base_visibility,
            grants: if has_grant_to(a0.grants, PrincipalView::User(u)) {
                a0.grants
            } else {
                a0.grants.push(GrantView { principal: PrincipalView::User(u), level: Level::Edit })
            },
        },
        None => a0,
    };
    match bv {
        Some(b) => AccessView { owner: a1.owner, base_visibility: b, grants: a1.grants },
        None => a1,
    }
}

/// The access for a new page, or `AccessDenied` when an anonymous caller
/// asks for anything but a Public page.
pub fn access_for_new_page(
    visibility: &Visibility,
    base_visibility: Option<BaseVisibility>,
    ctx: &TenantContext,
) -> (r: Result<PageAccess, MindPalaceError>)
    ensures
        ({
            let a = new_page_access(visibility@, base_visibility, ctx@);
            if ctx@.identity is Anonymous && a.base_visibility != BaseVisibility::Public {
                r matches Err(e) && e@ == ErrorView::AccessDenied(
                    "anonymous callers may only create Public pages"@,
                )
            } else {
                r matches Ok(x) && x@ == a
            }
        }),
{
    let mut access = PageAccess::from_visibility(visibility);
    let ghost a0 = access@;
    match ctx.user_id() {
        Some(email) => {
            access.owner = Some(copy_str(email));
            let n = access.grants.len();
            let mut found = false;
            for i in 0..n
                invariant
                    n == access.grants@.len(),
                    grants_view(access.grants@) == a0.grants,
                    found == exists|j: int|
                        0 <= j < i && (#[trigger] a0.grants[j]).principal == PrincipalView::User(
                            email@,
                        ),
            {
                let is_same = match &access.grants[i].principal {
                    Principal::User(u) => str_eq(u.as_str(), email),
                    Principal::Group(_) => false,
                };
                assert(a0.grants[i as int] == access.grants@[i as int]@);
                if is_same {
                    found = true;
                }
            }
            if !found {
                let ghost before = grants_view(access.grants@);
                access.grants.push(Grant { principal: Principal::User(copy_str(email)), level: Level::Edit });
                assert(grants_view(access.grants@) =~= before.push(
                    GrantView { principal: PrincipalView::User(email@), level: Level::Edit },
                ));
            }
        },
        None => {},
    }
    match base_visibility {
        Some(bv) => {
            access.base_visibility = bv;
        },
        None => {},
    }
    if ctx.identity.is_anonymous() && access.base_visibility != BaseVisibility::Public {
        return Err(MindPalaceError::AccessDenied(String::from_str("anonymous callers may only create Public pages")));
    }
    Ok(access)
}

// ---------------------------------------------------------------------------
// Sections
// ---------------------------------------------------------------------------

/// Merging sections by heading, one incoming section at a time: the first
/// section with the same heading takes the new content in place; a new
/// heading is appended.
pub open spec fn merge_sections_spec(ex: Seq<SectionView>, inc: Seq<SectionView>) -> Seq<SectionView>
    decreases inc.len(),
{
    if inc.len() == 0 {
        ex
    } else {
        let m = merge_sections_spec(ex, inc.drop_last());
        let s = inc.last();
        match first_section_with(m, s.heading) {
            Some(i) => m.update(i, SectionView { heading: m[i].heading, content: s.content }),
            None => m.push(s),
        }
    }
}

/// The index of the first section with this heading.
pub fn find_section(sections: &Vec<Section>, heading: &str) -> (r: Option<usize>)
    ensures
        match first_section_with(sections_view(sections@), heading@) {
            Some(i) => r matches Some(k) && k as int == i && i < sections@.len(),
            None => r is None,
        },
{
    let ghost m = sections_view(sections@);
    let n = sections.len();
    for i in 0..n
        invariant
            n == sections@.len(),
            m == sections_view(sections@),
            forall|j: int| 0 <= j < i ==> (#[trigger] m[j]).heading != heading@,
    {
        if str_eq(sections[i].heading.as_str(), heading) {
            assert(m[i as int].heading == heading@);
            proof {
                lemma_first_section_with(m, heading@, i as int);
            }
            return Some(i);
        }
    }
    assert(first_section_with(m, heading@) is None) by {
        if exists|j: int| 0 <= j < m.len() && (#[trigger] m[j]).heading == heading@ {
            let j = choose|j: int| 0 <= j < m.len() && (#[trigger] m[j]).heading == heading@;
            assert(m[j].heading != heading@);
        }
    }
    None
}

/// Merges `incoming` into `sections` by heading (see [`merge_sections_spec`]).
pub fn merge_sections(sections: &mut Vec<Section>, incoming: Vec<Section>)
    ensures
        sections_view(final(sections)@) == merge_sections_spec(
            sections_view(old(sections)@),
            sections_view(incoming@),
        ),
{
    let ghost ex = sections_view(sections@);
    let ghost inc = sections_view(incoming@);
    let n = incoming.len();
    for k in 0..n
        invariant
            n == incoming@.len(),
            inc == sections_view(incoming@),
            sections_view(sections@) == merge_sections_spec(ex, inc.take(k as int)),
    {
        let s = &incoming[k];
        assert(inc.take(k + 1).drop_last() =~= inc.take(k as int));
        assert(inc.take(k + 1).last() == s@);
        let ghost m = sections_view(sections@);
        let found = find_section(sections, s.heading.as_str());
        match found {
            Some(i) => {
                let h = sections[i].heading.clone();
                sections.set(i, Section { heading: h, content: s.content.clone() });
                assert(sections_view(sections@) =~= m.update(
                    i as int,
                    SectionView { heading: m[i as int].heading, content: s@.content },
                ));
            },
            None => {
                sections.push(s.duplicate());
                assert(sections_view(sections@) =~= m.push(s@));
            },
        }
    }
    assert(inc.take(n as int) =~= inc);
}

/// The sections whose heading is not among `headings`, in order.
pub open spec fn without_headings(ss: Seq<SectionView>, headings: Seq<Seq<char>>) -> Seq<SectionView>
    decreases ss.len(),
{
    if ss.len() == 0 {
        Seq::empty()
    } else {
        let rest = without_headings(ss.drop_last(), headings);
        if headings.contains(ss.last().heading) {
            rest
        } else {
            rest.push(ss.last())
        }
    }
}

/// The views of a list of strings.
pub open spec fn texts_view(v: Seq<String>) -> Seq<Seq<char>> {
    Seq::new(v.len(), |i: int| v[i]@)
}

/// Whether a list of strings holds `s`.
fn texts_contain(v: &Vec<String>, s: &str) -> (r: bool)
    ensures
        r == texts_view(v@).contains(s@),
{
    let n = v.len();
    for i in 0..n
        invariant
            n == v@.len(),
            forall|j: int| 0 <= j < i ==> texts_view(v@)[j] != s@,
    {
        if str_eq(v[i].as_str(), s) {
            assert(texts_view(v@)[i as int] == s@);
            return true;
        }
    }
    false
}

/// Removes the sections whose heading is listed.
pub fn delete_sections(sections: &mut Vec<Section>, headings: &Vec<String>)
    ensures
        sections_view(final(sections)@) == without_headings(
            sections_view(old(sections)@),
            texts_view(headings@),
        ),
{
    let ghost ss = sections_view(sections@);
    let mut kept: Vec<Section> = Vec::new();
    let n = sections.len();
    for i in 0..n
        invariant
            n == sections@.len(),
            ss == sections_view(sections@),
            sections_view(kept@) == without_headings(ss.take(i as int), texts_view(headings@)),
    {
        assert(ss.take(i + 1).drop_last() =~= ss.take(i as int));
        assert(ss.take(i + 1).last() == sections@[i as int]@);
        if !texts_contain(headings, sections[i].heading.as_str()) {
            let ghost before = sections_view(kept@);
            kept.push(sections[i].duplicate());
            assert(sections_view(kept@) =~= before.push(sections@[i as int]@));
        }
    }
    assert(ss.take(n as int) =~= ss);
    *sections = kept;
}

// ---------------------------------------------------------------------------
// Grants and secret references
// ---------------------------------------------------------------------------

/// The grants not to principal `p`, in order.
pub open spec fn grants_without(gs: Seq<GrantView>, p: PrincipalView) -> Seq<GrantView>
    decreases gs.len(),
{
    if gs.len() == 0 {
        Seq::empty()
    } else {
        let rest = grants_without(gs.drop_last(), p);
        if gs.last().principal == p {
            rest
        } else {
            rest.push(gs.last())
        }
    }
}

/// Removes every grant to `principal`.
pub fn remove_grants_to(grants: &mut Vec<Grant>, principal: &Principal)
    ensures
        grants_view(final(grants)@) == grants_without(grants_view(old(grants)@), principal@),
{
    let ghost gs = grants_view(grants@);
    let mut kept: Vec<Grant> = Vec::new();
    let n = grants.len();
    for i in 0..n
        invariant
            n == grants@.len(),
            gs == grants_view(grants@),
            grants_view(kept@) == grants_without(gs.take(i as int), principal@),
    {
        assert(gs.take(i + 1).drop_last() =~= gs.take(i as int));
        assert(gs.take(i + 1).last() == grants@[i as int]@);
        if !grants[i].principal.same_as(principal) {
            let ghost before = grants_view(kept@);
            kept.push(grants[i].duplicate());
            assert(grants_view(kept@) =~= before.push(grants@[i as int]@));
        }
    }
    assert(gs.take(n as int) =~= gs);
    *grants = kept;
}

/// The secret references not named `name`, in order.
pub open spec fn refs_without(rs: Seq<(Seq<char>, Seq<char>)>, name: Seq<char>) -> Seq<
    (Seq<char>, Seq<char>),
>
    decreases rs.len(),
{
    if rs.len() == 0 {
        Seq::empty()
    } else {
        let rest = refs_without(rs.drop_last(), name);
        if rs.last().0 == name {
            rest
        } else {
            rest.push(rs.last())
        }
    }
}

/// The references without those named `name`.
pub fn without_secret_ref(refs: &Vec<SecretRef>, name: &str) -> (r: Vec<SecretRef>)
    ensures
        refs_view(r@) == refs_without(refs_view(refs@), name@),
{
    let ghost rs = refs_view(refs@);
    let mut kept: Vec<SecretRef> = Vec::new();
    let n = refs.len();
    for i in 0..n
        invariant
            n == refs@.len(),
            rs == refs_view(refs@),
            refs_view(kept@) == refs_without(rs.take(i as int), name@),
    {
        assert(rs.take(i + 1).drop_last() =~= rs.take(i as int));
        assert(rs.take(i + 1).last() == refs@[i as int]@);
        if !str_eq(refs[i].name.as_str(), name) {
            let ghost before = refs_view(kept@);
            kept.push(refs[i].duplicate());
            assert(refs_view(kept@) =~= before.push(refs@[i as int]@));
        }
    }
    assert(rs.take(n as int) =~= rs);
    kept
}

/// The references with `secret_ref` in place of any of the same name, at
/// the end.
pub fn with_secret_ref(refs: &Vec<SecretRef>, secret_ref: SecretRef) -> (r: Vec<SecretRef>)
    ensures
        refs_view(r@) == refs_without(refs_view(refs@), secret_ref@.0).push(secret_ref@),
{
    let mut kept = without_secret_ref(refs, secret_ref.name.as_str());
    let ghost before = refs_view(kept@);
    kept.push(secret_ref);
    assert(refs_view(kept@) =~= before.push(secret_ref@));
    kept
}

// ---------------------------------------------------------------------------
// Groups
// ---------------------------------------------------------------------------

/// Whether a caller may manage a group: the untenanted admin always, an
/// authenticated caller when listed as a manager.
pub open spec fn spec_caller_is_manager(c: ContextView, managers: Seq<String>, caller: Option<Seq<char>>) -> bool {
    is_admin(c) || match caller {
        Some(e) => strings_contain(managers, e),
        None => false,
    }
}

/// A caller may manage a group's membership if they are a manager of it,
/// or are the untenanted admin.
pub fn caller_is_manager(group: &Group, caller: Option<&str>, ctx: &TenantContext) -> (r: bool)
    ensures
        r == spec_caller_is_manager(
            ctx@,
            group.managers@,
            match caller {
                Some(e) => Some(e@),
                None => None,
            },
        ),
{
    if ctx.tenant_id.is_none() && ctx.identity.is_global() {
        return true;
    }
    match caller {
        Some(email) => group.is_manager(email),
        None => false,
    }
}

/// Whether removing `email` as a manager would leave the group with none.
pub fn removes_last_manager(group: &Group, email: &str) -> (r: bool)
    ensures
        r == (strings_contain(group.managers@, email@) && group.managers@.len() == 1),
{
    group.is_manager(email) && group.managers.len() == 1
}

// ---------------------------------------------------------------------------
// Secrets
// ---------------------------------------------------------------------------

/// The error a failed reference validation becomes: an invalid reference
/// is a validation error naming the reference, anything else stays a
/// secrets error.
pub open spec fn secret_validation_error(name: Seq<char>, e: SecretErrorView) -> ErrorView {
    match e {
        SecretErrorView::InvalidReference(m) => ErrorView::Validation(
            "secret ref '"@ + name
                + "' is not a valid backend reference (looks like a raw secret?): "@ + m,
        ),
        _ => ErrorView::Secret(e),
    }
}

/// Maps a failed validation of reference `name` to a domain error.
pub fn map_validation_error(name: &str, e: SecretError) -> (r: MindPalaceError)
    ensures
        r@ == secret_validation_error(name@, e@),
{
    match e {
        SecretError::InvalidReference(msg) => MindPalaceError::Validation(
            concat4(
                "secret ref '",
                name,
                "' is not a valid backend reference (looks like a raw secret?): ",
                msg.as_str(),
            ),
        ),
        other => MindPalaceError::Secret(other),
    }
}

/// The index of the first secret reference named `name`.
pub open spec fn first_ref_named(rs: Seq<(Seq<char>, Seq<char>)>, name: Seq<char>) -> Option<int> {
    if exists|i: int| 0 <= i < rs.len() && (#[trigger] rs[i]).0 == name {
        Some(
            choose|i: int|
                0 <= i < rs.len() && (#[trigger] rs[i]).0 == name && forall|j: int|
                    0 <= j < i ==> (#[trigger] rs[j]).0 != name,
        )
    } else {
        None
    }
}

/// Where a name first occurs among references, it is the only index
/// before which it does not occur.
pub proof fn lemma_first_ref_named_at(rs: Seq<(Seq<char>, Seq<char>)>, name: Seq<char>, k: int)
    requires
        0 <= k < rs.len(),
        rs[k].0 == name,
        forall|j: int| 0 <= j < k ==> (#[trigger] rs[j]).0 != name,
    ensures
        first_ref_named(rs, name) == Some(k),
{
    let i = choose|i: int|
        0 <= i < rs.len() && (#[trigger] rs[i]).0 == name && forall|j: int|
            0 <= j < i ==> (#[trigger] rs[j]).0 != name;
    if i < k {
        assert(rs[i].0 != name);
    } else if i > k {
        assert(rs[k].0 != name);
    }
}

/// The condition a secret resolution must meet: an archived page, or one the caller
/// cannot see by its own access, is not found; so is a missing name; else
/// the index of the named reference.
pub open spec fn spec_secret_gate(
    vis: VisibilityView,
    access: AccessView,
    refs: Seq<(Seq<char>, Seq<char>)>,
    slug: Seq<char>,
    c: ContextView,
    name: Seq<char>,
) -> Result<int, ErrorView> {
    if vis is Archived || !spec_can_see_page(c, access) {
        Err(ErrorView::PageNotFound(slug))
    } else {
        match first_ref_named(refs, name) {
            Some(i) => Ok(i),
            None => Err(ErrorView::PageNotFound("secret '"@ + name + "' on page '"@ + slug + "'"@)),
        }
    }
}

/// Decides whether the caller may resolve secret `name` of `page`, and
/// which reference it is.
pub fn secret_gate(page: &Page, ctx: &TenantContext, name: &str, slug: &Slug) -> (r: Result<
    usize,
    MindPalaceError,
>)
    ensures
        match spec_secret_gate(
            page@.visibility,
            page@.access,
            page@.secret_refs,
            slug@,
            ctx@,
            name@,
        ) {
            Ok(i) => r matches Ok(k) && k as int == i && i < page.secret_refs@.len(),
            Err(e) => r matches Err(x) && x@ == e,
        },
{
    if page.visibility.is_archived() || !ctx.can_see_page(&page.access) {
        return Err(MindPalaceError::PageNotFound(copy_str(slug.as_str())));
    }
    let n = page.secret_refs.len();
    for i in 0..n
        invariant
            n == page.secret_refs@.len(),
            !(page@.visibility is Archived),
            spec_can_see_page(ctx@, page@.access),
            forall|j: int| 0 <= j < i ==> (#[trigger] page@.secret_refs[j]).0 != name@,
    {
        if str_eq(page.secret_refs[i].name.as_str(), name) {
            proof {
                assert(page@.secret_refs[i as int] == page.secret_refs@[i as int]@);
                assert(page@.secret_refs[i as int].0 == name@);
                lemma_first_ref_named_at(page@.secret_refs, name@, i as int);
            }
            return Ok(i);
        }
    }
    Err(MindPalaceError::PageNotFound(concat5("secret '", name, "' on page '", slug.as_str(), "'")))
}

/// The condition a read must meet: an archived page, or one the caller cannot see
/// by the given (effective) access, is not found.
pub fn view_gate(visibility: &Visibility, access: &PageAccess, ctx: &TenantContext, slug: &Slug) -> (r: Result<
    (),
    MindPalaceError,
>)
    ensures
        if visibility@ is Archived || !spec_can_see_page(ctx@, access@) {
            r matches Err(e) && e@ == ErrorView::PageNotFound(slug@)
        } else {
            r is Ok
        },
{
    if visibility.is_archived() || !ctx.can_see_page(access) {
        return Err(MindPalaceError::PageNotFound(copy_str(slug.as_str())));
    }
    Ok(())
}

/// The condition a change to page `slug` must meet: the caller may edit it
/// by the given access; otherwise the refusal names the action.
pub fn edit_gate(access: &PageAccess, ctx: &TenantContext, action: &str, slug: &Slug) -> (r: Result<
    (),
    MindPalaceError,
>)
    ensures
        if spec_can_edit_page(ctx@, access@) {
            r is Ok
        } else {
            r matches Err(e) && e@ == ErrorView::AccessDenied(
                "no edit permission to "@ + action@ + " page '"@ + slug@ + "'"@,
            )
        },
{
    if !ctx.can_edit_page(access) {
        let mut m = concat3("no edit permission to ", action, " page '");
        crate::text::append_str(&mut m, slug.as_str());
        crate::text::append_str(&mut m, "'");
        return Err(MindPalaceError::AccessDenied(m));
    }
    Ok(())
}

// ---------------------------------------------------------------------------
// Laws of removal
// ---------------------------------------------------------------------------

/// Unsharing with `p` keeps exactly the grants to other principals, in
/// their order: the result is the grants filtered by "the principal is not
/// `p`".
pub proof fn lemma_grants_without_filters(gs: Seq<GrantView>, p: PrincipalView)
    ensures
        grants_without(gs, p) == gs.filter(|g: GrantView| g.principal != p),
    decreases gs.len(),
{
    if gs.len() > 0 {
        lemma_grants_without_filters(gs.drop_last(), p);
        gs.drop_last().lemma_filter_push(gs.last(), |g: GrantView| g.principal != p);
        assert(gs.drop_last().push(gs.last()) =~= gs);
    } else {
        assert(gs.filter(|g: GrantView| g.principal != p) =~= Seq::<GrantView>::empty()) by {
            reveal_with_fuel(Seq::filter, 1);
        }
    }
}

/// Unsharing with `p` leaves no grant to `p`, keeps every grant to
/// another principal, and adds none.
pub proof fn lemma_unshare_keeps_others(gs: Seq<GrantView>, p: PrincipalView)
    ensures
        forall|i: int| 0 <= i < gs.len() && gs[i].principal != p ==> grants_without(gs, p).contains(#[trigger] gs[i]),
        forall|g: GrantView| #[trigger] grants_without(gs, p).contains(g) ==> gs.contains(g) && g.principal != p,
{
    lemma_grants_without_filters(gs, p);
    let pred = |g: GrantView| g.principal != p;
    broadcast use vstd::seq_lib::group_filter_ensures;
    assert forall|i: int| 0 <= i < gs.len() && gs[i].principal != p implies grants_without(gs, p).contains(#[trigger] gs[i]) by {
        gs.lemma_filter_contains(pred, i);
    }
    lemma_grants_without_sub(gs, p);
}

/// What unsharing keeps was there, and is not a grant to `p`.
proof fn lemma_grants_without_sub(gs: Seq<GrantView>, p: PrincipalView)
    ensures
        forall|g: GrantView| #[trigger] grants_without(gs, p).contains(g) ==> gs.contains(g) && g.principal != p,
    decreases gs.len(),
{
    if gs.len() > 0 {
        let d = gs.drop_last();
        lemma_grants_without_sub(d, p);
        let rest = grants_without(d, p);
        assert forall|g: GrantView| #[trigger] grants_without(gs, p).contains(g) implies gs.contains(g) && g.principal != p by {
            let w = grants_without(gs, p);
            let k = choose|k: int| 0 <= k < w.len() && w[k] == g;
            if k < rest.len() {
                assert(w[k] == rest[k]);
                assert(rest.contains(g));
                let j = choose|j: int| 0 <= j < d.len() && d[j] == g;
                assert(gs[j] == g);
            } else {
                assert(g == gs.last());
                assert(gs[gs.len() - 1] == g);
            }
        }
    }
}

/// Deleting headings `hs` keeps exactly the sections whose heading is not
/// in `hs`, in their order.
pub proof fn lemma_without_headings_filters(ss: Seq<SectionView>, hs: Seq<Seq<char>>)
    ensures
        without_headings(ss, hs) == ss.filter(|s: SectionView| !hs.contains(s.heading)),
    decreases ss.len(),
{
    if ss.len() > 0 {
        lemma_without_headings_filters(ss.drop_last(), hs);
        ss.drop_last().lemma_filter_push(ss.last(), |s: SectionView| !hs.contains(s.heading));
        assert(ss.drop_last().push(ss.last()) =~= ss);
    } else {
        assert(ss.filter(|s: SectionView| !hs.contains(s.heading)) =~= Seq::<SectionView>::empty()) by {
            reveal_with_fuel(Seq::filter, 1);
        }
    }
}

/// After deleting headings `hs`, no section left has a heading in `hs`,
/// and every section whose heading is not in `hs` is still there.
pub proof fn lemma_delete_sections_by_heading(ss: Seq<SectionView>, hs: Seq<Seq<char>>)
    ensures
        forall|k: int| 0 <= k < without_headings(ss, hs).len() ==> !hs.contains(#[trigger] without_headings(ss, hs)[k].heading),
        forall|i: int| 0 <= i < ss.len() && !hs.contains(ss[i].heading) ==> without_headings(ss, hs).contains(#[trigger] ss[i]),
{
    lemma_without_headings_filters(ss, hs);
    let pred = |s: SectionView| !hs.contains(s.heading);
    assert forall|k: int| 0 <= k < without_headings(ss, hs).len() implies !hs.contains(#[trigger] without_headings(ss, hs)[k].heading) by {
        ss.lemma_filter_pred(pred, k);
    }
    assert forall|i: int| 0 <= i < ss.len() && !hs.contains(ss[i].heading) implies without_headings(ss, hs).contains(#[trigger] ss[i]) by {
        ss.lemma_filter_contains(pred, i);
    }
}

} // verus!
