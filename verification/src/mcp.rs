//! The tool interface for agents: the parameters of each tool and how they
//! become service inputs.
use vstd::prelude::*;

use crate::page::ReadLevel;
use crate::ports::PageFilter;
use crate::service::{CreatePageInput, UpdatePageInput};
use crate::tenant::{ctx_user, TenantContext};
use crate::text::{concat3, copy_str, str_eq, strs_view};
use crate::value_objects::{
    sections_view, slug_error_of, slug_error_text, slugs_view, valid_slug, BaseVisibility, GroupId,
    Level, PageType, Principal, PrincipalView, SecretRef, Section, SectionView, Slug, Visibility,
    VisibilityView,
};

verus! {

broadcast use vstd::string::group_string_axioms;

// ---------------------------------------------------------------------------
// Parameters
// ---------------------------------------------------------------------------

/// `wiki_search`: a query and an optional result limit (default 5).
#[derive(Debug, Clone)]
pub struct SearchParams {
    pub query: String,
    pub limit: Option<usize>,
}

/// `wiki_read`: a slug, a level (`summary`, `section` or `full`) and the
/// section heading for `section`.
#[derive(Debug, Clone)]
pub struct ReadParams {
    pub slug: String,
    pub level: Option<String>,
    pub section: Option<String>,
}

/// `wiki_traverse`: a starting slug and a depth (default 2).
#[derive(Debug, Clone)]
pub struct TraverseParams {
    pub slug: String,
    pub depth: Option<usize>,
}

/// A section as a tool receives it.
#[derive(Debug, Clone)]
pub struct SectionInput {
    pub heading: String,
    pub content: String,
}

/// A secret reference as a tool receives it.
#[derive(Debug, Clone)]
pub struct SecretRefInput {
    pub name: String,
    pub reference: String,
}

/// `wiki_create`.
#[derive(Debug, Clone)]
pub struct CreateParams {
    pub title: String,
    pub slug: String,
    pub summary: String,
    pub sections: Vec<SectionInput>,
    pub page_type: String,
    pub links: Option<Vec<String>>,
    /// `general` (default) or `user`.
    pub visibility: Option<String>,
    /// `public` or `private`, used when `visibility` is absent.
    pub base_visibility: Option<String>,
    pub parent: Option<String>,
    pub secret_refs: Option<Vec<SecretRefInput>>,
}

/// `wiki_update`.
#[derive(Debug, Clone)]
pub struct UpdateParams {
    pub slug: String,
    pub title: Option<String>,
    pub summary: Option<String>,
    pub sections: Option<Vec<SectionInput>>,
    pub links: Option<Vec<String>>,
    pub replace_sections: Option<bool>,
    pub delete_sections: Option<Vec<String>>,
    pub parent: Option<String>,
    pub detach_parent: Option<bool>,
    pub secret_refs: Option<Vec<SecretRefInput>>,
}

/// `wiki_list`: an optional page type and limit (none: every page).
#[derive(Debug, Clone)]
pub struct ListParams {
    pub page_type: Option<String>,
    pub limit: Option<usize>,
}

/// `wiki_archive` and `wiki_unarchive`.
#[derive(Debug, Clone)]
pub struct ArchiveParams {
    pub slug: String,
}

/// `wiki_share`.
#[derive(Debug, Clone)]
pub struct ShareParams {
    pub slug: String,
    pub principal_type: String,
    pub principal: String,
    pub level: Option<String>,
}

/// `wiki_unshare`.
#[derive(Debug, Clone)]
pub struct UnshareParams {
    pub slug: String,
    pub principal_type: String,
    pub principal: String,
}

/// `wiki_group_create`.
#[derive(Debug, Clone)]
pub struct GroupCreateParams {
    pub id: String,
    pub name: String,
}

/// `wiki_group_add_member` and `wiki_group_remove_member`.
#[derive(Debug, Clone)]
pub struct GroupMemberParams {
    pub id: String,
    pub member: String,
}

/// `wiki_get_secret`.
#[derive(Debug, Clone)]
pub struct GetSecretParams {
    pub slug: String,
    pub name: String,
}

// ---------------------------------------------------------------------------
// Conversions
// ---------------------------------------------------------------------------

/// The page type a name denotes; an unknown name is a `Leaf`.
pub open spec fn spec_page_type(s: Seq<char>) -> PageType {
    if s == "Index"@ {
        PageType::Index
    } else if s == "Concept"@ {
        PageType::Concept
    } else if s == "Entity"@ {
        PageType::Entity
    } else if s == "Decision"@ {
        PageType::Decision
    } else if s == "Sop"@ {
        PageType::Sop
    } else if s == "Skill"@ {
        PageType::Skill
    } else {
        PageType::Leaf
    }
}

/// The page type a name denotes; an unknown name is a `Leaf`.
pub fn parse_page_type(s: &str) -> (r: PageType)
    ensures
        r == spec_page_type(s@),
{
    if str_eq(s, "Index") {
        PageType::Index
    } else if str_eq(s, "Concept") {
        PageType::Concept
    } else if str_eq(s, "Entity") {
        PageType::Entity
    } else if str_eq(s, "Decision") {
        PageType::Decision
    } else if str_eq(s, "Sop") {
        PageType::Sop
    } else if str_eq(s, "Skill") {
        PageType::Skill
    } else {
        PageType::Leaf
    }
}

/// A grantee: `user` (an email) or `group` (a group id); any other kind is
/// refused with a message naming it.
pub fn parse_principal(kind: &str, value: &str) -> (r: Result<Principal, String>)
    ensures
        if kind@ == "user"@ {
            r matches Ok(p) && p@ == PrincipalView::User(value@)
        } else if kind@ == "group"@ {
            r matches Ok(p) && p@ == PrincipalView::Group(value@)
        } else {
            r matches Err(m) && m@ == "invalid principal_type '"@ + kind@
                + "' (expected 'user' or 'group')"@
        },
{
    if str_eq(kind, "user") {
        Ok(Principal::User(copy_str(value)))
    } else if str_eq(kind, "group") {
        Ok(Principal::Group(GroupId(copy_str(value))))
    } else {
        Err(concat3("invalid principal_type '", kind, "' (expected 'user' or 'group')"))
    }
}

/// The level of a share: `edit`, else `view`.
pub fn share_level(level: Option<&str>) -> (r: Level)
    ensures
        r == (match level {
            Some(l) => if l@ == "edit"@ {
                Level::Edit
            } else {
                Level::View
            },
            None => Level::View,
        }),
{
    match level {
        Some(l) => if str_eq(l, "edit") {
            Level::Edit
        } else {
            Level::View
        },
        None => Level::View,
    }
}

/// The read level of a request: `full`; `section` with its heading (an
/// error when the heading is missing); anything else, or nothing, is
/// `summary`.
pub fn read_level(level: Option<&str>, section: Option<String>) -> (r: Result<ReadLevel, String>)
    ensures
        match level {
            Some(l) => if l@ == "full"@ {
                r matches Ok(ReadLevel::Full)
            } else if l@ == "section"@ {
                match section {
                    Some(h) => r matches Ok(ReadLevel::Section(x)) && x@ == h@,
                    None => r matches Err(m) && m@ == "missing section heading"@,
                }
            } else {
                r matches Ok(ReadLevel::Summary)
            },
            None => r matches Ok(ReadLevel::Summary),
        },
{
    match level {
        Some(l) => {
            if str_eq(l, "full") {
                Ok(ReadLevel::Full)
            } else if str_eq(l, "section") {
                match section {
                    Some(h) => Ok(ReadLevel::Section(h)),
                    None => Err(String::from_str("missing section heading")),
                }
            } else {
                Ok(ReadLevel::Summary)
            }
        },
        None => Ok(ReadLevel::Summary),
    }
}

/// The views of section inputs.
pub open spec fn inputs_view(v: Seq<SectionInput>) -> Seq<SectionView> {
    Seq::new(v.len(), |i: int| SectionView { heading: v[i].heading@, content: v[i].content@ })
}

/// Section inputs as sections.
pub fn sections_from(inputs: Vec<SectionInput>) -> (r: Vec<Section>)
    ensures
        sections_view(r@) == inputs_view(inputs@),
{
    let mut out: Vec<Section> = Vec::new();
    let n = inputs.len();
    for i in 0..n
        invariant
            n == inputs@.len(),
            out@.len() == i,
            forall|k: int|
                0 <= k < i ==> (#[trigger] out@[k])@ == (SectionView {
                    heading: inputs@[k].heading@,
                    content: inputs@[k].content@,
                }),
    {
        let s = &inputs[i];
        out.push(Section { heading: s.heading.clone(), content: s.content.clone() });
    }
    assert(sections_view(out@) =~= inputs_view(inputs@));
    out
}

/// The strings that are valid slugs, in order.
pub open spec fn valid_slugs(v: Seq<Seq<char>>) -> Seq<Seq<char>>
    decreases v.len(),
{
    if v.len() == 0 {
        Seq::empty()
    } else {
        let rest = valid_slugs(v.drop_last());
        if valid_slug(v.last()) {
            rest.push(v.last())
        } else {
            rest
        }
    }
}

/// The valid slugs among strings; the others are dropped.
pub fn slugs_from(v: &Vec<String>) -> (r: Vec<Slug>)
    ensures
        slugs_view(r@) == valid_slugs(strs_view(v@)),
{
    let ghost sv = strs_view(v@);
    let mut out: Vec<Slug> = Vec::new();
    let n = v.len();
    for i in 0..n
        invariant
            n == v@.len(),
            sv == strs_view(v@),
            slugs_view(out@) == valid_slugs(sv.take(i as int)),
    {
        assert(sv.take(i + 1).drop_last() =~= sv.take(i as int));
        assert(sv.take(i + 1).last() == v@[i as int]@);
        match Slug::new(v[i].as_str()) {
            Ok(s) => {
                let ghost before = slugs_view(out@);
                out.push(s);
                assert(slugs_view(out@) =~= before.push(v@[i as int]@));
            },
            Err(_) => {},
        }
    }
    assert(sv.take(n as int) =~= sv);
    out
}

/// The views of secret-reference inputs.
pub open spec fn ref_inputs_view(v: Seq<SecretRefInput>) -> Seq<(Seq<char>, Seq<char>)> {
    Seq::new(v.len(), |i: int| (v[i].name@, v[i].reference@))
}

/// Secret-reference inputs as references.
pub fn refs_from(inputs: &Vec<SecretRefInput>) -> (r: Vec<SecretRef>)
    ensures
        crate::value_objects::refs_view(r@) == ref_inputs_view(inputs@),
{
    let mut out: Vec<SecretRef> = Vec::new();
    let n = inputs.len();
    for i in 0..n
        invariant
            n == inputs@.len(),
            out@.len() == i,
            forall|k: int| 0 <= k < i ==> (#[trigger] out@[k])@ == (inputs@[k].name@, inputs@[k].reference@),
    {
        out.push(SecretRef::new(inputs[i].name.as_str(), inputs[i].reference.as_str()));
    }
    assert(crate::value_objects::refs_view(out@) =~= ref_inputs_view(inputs@));
    out
}

/// The storage partition and base visibility a created page asks for:
/// `user` or `private` (from `visibility`, else `base_visibility`) is the
/// caller's own partition and Private; anything else is General and Public.
pub open spec fn spec_create_visibility(
    visibility: Option<Seq<char>>,
    base_visibility: Option<Seq<char>>,
    c: crate::tenant::ContextView,
) -> (VisibilityView, BaseVisibility) {
    let choice = match visibility {
        Some(v) => Some(v),
        None => base_visibility,
    };
    if choice == Some("user"@) || choice == Some("private"@) {
        (
            VisibilityView::User(match ctx_user(c) {
                Some(u) => u,
                None => "unknown"@,
            }),
            BaseVisibility::Private,
        )
    } else {
        (VisibilityView::General, BaseVisibility::Public)
    }
}

/// The view of an optional string.
pub open spec fn opt_str(o: Option<String>) -> Option<Seq<char>> {
    match o {
        Some(s) => Some(s@),
        None => None,
    }
}

/// The input `wiki_create` hands the service: an anonymous caller is
/// refused, and so is an invalid slug; invalid links are dropped; an
/// invalid parent is dropped too.
pub fn create_input(params: CreateParams, ctx: &TenantContext) -> (r: Result<CreatePageInput, String>)
    ensures
        ctx@.identity is Anonymous ==> (r matches Err(m) && m@ == "anonymous callers may not create pages"@),
        !(ctx@.identity is Anonymous) && slug_error_of(params.slug@) is Some ==> (r matches Err(m)
            && m@ == slug_error_text(slug_error_of(params.slug@)->0)),
        !(ctx@.identity is Anonymous) && slug_error_of(params.slug@) is None ==> r is Ok,
        r matches Ok(i) ==> {
            let (vis, bv) = spec_create_visibility(opt_str(params.visibility), opt_str(params.base_visibility), ctx@);
            &&& !(ctx@.identity is Anonymous)
            &&& i.title@ == params.title@
            &&& i.slug@ == params.slug@
            &&& i.summary@ == params.summary@
            &&& sections_view(i.sections@) == inputs_view(params.sections@)
            &&& i.page_type == spec_page_type(params.page_type@)
            &&& i.visibility@ == vis
            &&& i.base_visibility == Some(bv)
            &&& slugs_view(i.links@) == match params.links {
                Some(l) => valid_slugs(strs_view(l@)),
                None => Seq::empty(),
            }
            &&& crate::value_objects::opt_slug_view(i.parent) == match params.parent {
                Some(p) => if valid_slug(p@) {
                    Some(p@)
                } else {
                    None
                },
                None => None,
            }
            &&& crate::value_objects::refs_view(i.secret_refs@) == match params.secret_refs {
                Some(v) => ref_inputs_view(v@),
                None => Seq::empty(),
            }
        },
{
    if ctx.identity.is_anonymous() {
        return Err(String::from_str("anonymous callers may not create pages"));
    }
    let slug = match Slug::new(params.slug.as_str()) {
        Ok(s) => s,
        Err(e) => return Err(copy_str(e.message())),
    };
    let sections = sections_from(params.sections);
    let links = match &params.links {
        Some(l) => slugs_from(l),
        None => Vec::new(),
    };
    assert(slugs_view(links@) == match params.links {
        Some(l) => valid_slugs(strs_view(l@)),
        None => Seq::empty(),
    }) by {
        if params.links is None {
            assert(slugs_view(links@) =~= Seq::empty());
        }
    }
    let choice: Option<&str> = match &params.visibility {
        Some(v) => Some(v.as_str()),
        None => match &params.base_visibility {
            Some(b) => Some(b.as_str()),
            None => None,
        },
    };
    let private = match choice {
        Some(c) => str_eq(c, "user") || str_eq(c, "private"),
        None => false,
    };
    let (visibility, base_visibility) = if private {
        let who = match ctx.user_id() {
            Some(u) => copy_str(u),
            None => String::from_str("unknown"),
        };
        (Visibility::User(who), Some(BaseVisibility::Private))
    } else {
        (Visibility::General, Some(BaseVisibility::Public))
    };
    let parent = match &params.parent {
        Some(p) => match Slug::new(p.as_str()) {
            Ok(s) => Some(s),
            Err(_) => None,
        },
        None => None,
    };
    let secret_refs = match &params.secret_refs {
        Some(v) => refs_from(v),
        None => Vec::new(),
    };
    assert(crate::value_objects::refs_view(secret_refs@) == match params.secret_refs {
        Some(v) => ref_inputs_view(v@),
        None => Seq::empty(),
    }) by {
        if params.secret_refs is None {
            assert(crate::value_objects::refs_view(secret_refs@) =~= Seq::empty());
        }
    }
    Ok(
        CreatePageInput {
            title: params.title,
            slug,
            summary: params.summary,
            sections,
            page_type: parse_page_type(params.page_type.as_str()),
            visibility,
            links,
            base_visibility,
            parent,
            secret_refs,
        },
    )
}

/// The slug and input `wiki_update` hands the service: an invalid slug or
/// parent is refused; invalid links are dropped; `detach_parent` detaches
/// unless a parent is given.
pub fn update_input(params: UpdateParams) -> (r: Result<(Slug, UpdatePageInput), String>)
    ensures
        slug_error_of(params.slug@) is Some ==> (r matches Err(m) && m@ == slug_error_text(
            slug_error_of(params.slug@)->0,
        )),
        slug_error_of(params.slug@) is None && (params.parent matches Some(p) && slug_error_of(p@) is Some)
            ==> (r matches Err(m) && m@ == slug_error_text(slug_error_of(params.parent->0@)->0)),
        slug_error_of(params.slug@) is None && !(params.parent matches Some(p) && slug_error_of(p@) is Some)
            ==> r is Ok,
        r matches Ok((s, i)) ==> {
            &&& s@ == params.slug@
            &&& opt_str(i.title) == opt_str(params.title)
            &&& opt_str(i.summary) == opt_str(params.summary)
            &&& match i.sections {
                Some(ss) => params.sections matches Some(ps) && sections_view(ss@) == inputs_view(ps@),
                None => params.sections is None,
            }
            &&& match i.links {
                Some(ls) => params.links matches Some(pl) && slugs_view(ls@) == valid_slugs(strs_view(pl@)),
                None => params.links is None,
            }
            &&& i.replace_sections == (params.replace_sections == Some(true))
            &&& strs_view(i.delete_sections@) == match params.delete_sections {
                Some(d) => strs_view(d@),
                None => Seq::empty(),
            }
            &&& match params.parent {
                Some(p) => i.parent matches Some(Some(x)) && x@ == p@,
                None => if params.detach_parent == Some(true) {
                    i.parent == Some(None::<Slug>)
                } else {
                    i.parent is None
                },
            }
            &&& match i.secret_refs {
                Some(rs) => params.secret_refs matches Some(pr) && crate::value_objects::refs_view(rs@)
                    == ref_inputs_view(pr@),
                None => params.secret_refs is None,
            }
        },
{
    let slug = match Slug::new(params.slug.as_str()) {
        Ok(s) => s,
        Err(e) => return Err(copy_str(e.message())),
    };
    let sections = match params.sections {
        Some(ss) => Some(sections_from(ss)),
        None => None,
    };
    let links = match &params.links {
        Some(l) => Some(slugs_from(l)),
        None => None,
    };
    let parent = match &params.parent {
        Some(p) => match Slug::new(p.as_str()) {
            Ok(s) => Some(Some(s)),
            Err(e) => return Err(copy_str(e.message())),
        },
        None => match params.detach_parent {
            Some(true) => Some(None),
            _ => None,
        },
    };
    let replace = match params.replace_sections {
        Some(b) => b,
        None => false,
    };
    let delete_sections = match params.delete_sections {
        Some(d) => d,
        None => Vec::new(),
    };
    assert(strs_view(delete_sections@) == match params.delete_sections {
        Some(d) => strs_view(d@),
        None => Seq::empty(),
    }) by {
        if params.delete_sections is None {
            assert(strs_view(delete_sections@) =~= Seq::empty());
        }
    }
    let secret_refs = match &params.secret_refs {
        Some(v) => Some(refs_from(v)),
        None => None,
    };
    Ok(
        (
            slug,
            UpdatePageInput {
                title: params.title,
                summary: params.summary,
                sections,
                links,
                replace_sections: replace,
                delete_sections,
                parent,
                secret_refs,
            },
        ),
    )
}

/// The filter `wiki_list` hands the service: the page type when named, no
/// partition filter, the limit as given.
pub fn list_filter(params: &ListParams) -> (r: PageFilter)
    ensures
        r.page_type == match params.page_type {
            Some(t) => Some(spec_page_type(t@)),
            None => None::<PageType>,
        },
        r.visibility is None,
        r.limit == params.limit,
{
    PageFilter {
        page_type: match &params.page_type {
            Some(t) => Some(parse_page_type(t.as_str())),
            None => None,
        },
        visibility: None,
        limit: params.limit,
    }
}

} // verus!
