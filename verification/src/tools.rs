//! The wiki as tools for an agent framework: their arguments and outputs,
//! and how arguments become service inputs.
use vstd::prelude::*;

use crate::error::MindPalaceError;
use crate::graph::{NeighborInfo, NeighborView};
use crate::mcp::{inputs_view, parse_page_type, sections_from, slugs_from, spec_page_type, valid_slugs, SectionInput};
use crate::page::Page;
use crate::ports::{PageFilter, SearchResult};
use crate::service::{CreatePageInput, UpdatePageInput};
use crate::tenant::{ctx_user, TenantContext};
use crate::text::{copy_str, str_eq, strs_view};
use crate::value_objects::{
    sections_view, slug_error_of, slug_error_text, slugs_view, EdgeKind, PageType, Slug,
    Visibility, VisibilityView,
};

verus! {

broadcast use vstd::string::group_string_axioms;

/// A tool failure, carrying the error's text.
#[derive(Debug, Clone)]
pub struct MindPalaceToolError(pub String);

impl MindPalaceToolError {
    /// The tool error for a domain error: its message.
    pub fn from_error(e: &MindPalaceError) -> (r: MindPalaceToolError)
        ensures
            r.0@ == crate::error::error_text(*e),
    {
        MindPalaceToolError(e.message())
    }
}

/// `wiki_search`: a query and a result limit (default 5).
#[derive(Debug, Clone)]
pub struct WikiSearchArgs {
    pub query: String,
    pub limit: Option<usize>,
}

/// `wiki_read`.
#[derive(Debug, Clone)]
pub struct WikiReadArgs {
    pub slug: String,
    pub level: Option<String>,
    pub section: Option<String>,
}

/// `wiki_traverse`: a starting slug and a depth (default 2).
#[derive(Debug, Clone)]
pub struct WikiTraverseArgs {
    pub slug: String,
    pub depth: Option<usize>,
}

/// What `wiki_traverse` returns.
#[derive(Debug, Clone)]
pub struct WikiTraverseOutput {
    pub neighbors: Vec<NeighborItem>,
}

/// One traversed page.
#[derive(Debug, Clone)]
pub struct NeighborItem {
    pub slug: String,
    pub title: String,
    pub summary: String,
    pub page_type: String,
    pub edge_kind: String,
}

/// `wiki_create`.
#[derive(Debug, Clone)]
pub struct WikiCreateArgs {
    pub title: String,
    pub slug: String,
    pub summary: String,
    pub sections: Vec<SectionInput>,
    pub page_type: String,
    pub links: Option<Vec<String>>,
    /// `general` (default) or `user`.
    pub visibility: Option<String>,
}

/// What `wiki_create` returns.
#[derive(Debug, Clone)]
pub struct WikiCreateOutput {
    pub slug: String,
    pub title: String,
    pub lint_issues: usize,
}

/// `wiki_update`.
#[derive(Debug, Clone)]
pub struct WikiUpdateArgs {
    pub slug: String,
    pub title: Option<String>,
    pub summary: Option<String>,
    pub sections: Option<Vec<SectionInput>>,
    pub links: Option<Vec<String>>,
}

/// What `wiki_update` returns.
#[derive(Debug, Clone)]
pub struct WikiUpdateOutput {
    pub slug: String,
    pub version: u32,
    pub lint_issues: usize,
}

/// `wiki_list`: an optional page type and a limit (default 20).
#[derive(Debug, Clone)]
pub struct WikiListArgs {
    pub page_type: Option<String>,
    pub limit: Option<usize>,
}

/// What `wiki_list` returns.
#[derive(Debug, Clone)]
pub struct WikiListOutput {
    pub pages: Vec<PageSummaryItem>,
}

/// One listed page.
#[derive(Debug, Clone)]
pub struct PageSummaryItem {
    pub slug: String,
    pub title: String,
    pub page_type: String,
    pub summary: String,
}

/// `wiki_archive`.
#[derive(Debug, Clone)]
pub struct WikiArchiveArgs {
    pub slug: String,
}

/// What `wiki_archive` returns.
#[derive(Debug, Clone)]
pub struct WikiArchiveOutput {
    pub slug: String,
    pub archived: bool,
}

/// `wiki_unarchive`.
#[derive(Debug, Clone)]
pub struct WikiUnarchiveArgs {
    pub slug: String,
}

/// What `wiki_unarchive` returns.
#[derive(Debug, Clone)]
pub struct WikiUnarchiveOutput {
    pub slug: String,
    pub unarchived: bool,
}

/// The name of a page type.
pub open spec fn page_type_name(t: PageType) -> Seq<char> {
    match t {
        PageType::Index => "Index"@,
        PageType::Concept => "Concept"@,
        PageType::Entity => "Entity"@,
        PageType::Decision => "Decision"@,
        PageType::Leaf => "Leaf"@,
        PageType::Sop => "Sop"@,
        PageType::Skill => "Skill"@,
    }
}

/// The name of a page type.
pub fn page_type_str(t: PageType) -> (r: String)
    ensures
        r@ == page_type_name(t),
{
    match t {
        PageType::Index => String::from_str("Index"),
        PageType::Concept => String::from_str("Concept"),
        PageType::Entity => String::from_str("Entity"),
        PageType::Decision => String::from_str("Decision"),
        PageType::Leaf => String::from_str("Leaf"),
        PageType::Sop => String::from_str("Sop"),
        PageType::Skill => String::from_str("Skill"),
    }
}

/// The name of an edge kind.
pub open spec fn edge_kind_name(k: EdgeKind) -> Seq<char> {
    match k {
        EdgeKind::Parent => "Parent"@,
        EdgeKind::Child => "Child"@,
        EdgeKind::Related => "Related"@,
        EdgeKind::Backlink => "Backlink"@,
    }
}

/// The name of an edge kind.
pub fn edge_kind_str(k: EdgeKind) -> (r: String)
    ensures
        r@ == edge_kind_name(k),
{
    match k {
        EdgeKind::Parent => String::from_str("Parent"),
        EdgeKind::Child => String::from_str("Child"),
        EdgeKind::Related => String::from_str("Related"),
        EdgeKind::Backlink => String::from_str("Backlink"),
    }
}

/// A traversed page as the tool reports it.
pub fn neighbor_item(n: &NeighborInfo) -> (r: NeighborItem)
    ensures
        r.slug@ == n@.slug,
        r.title@ == n@.title,
        r.summary@ == n@.summary,
        r.page_type@ == page_type_name(n@.page_type),
        r.edge_kind@ == edge_kind_name(n@.edge_kind),
{
    NeighborItem {
        slug: copy_str(n.slug.as_str()),
        title: n.title.clone(),
        summary: n.summary.clone(),
        page_type: page_type_str(n.page_type),
        edge_kind: edge_kind_str(n.edge_kind),
    }
}

/// Search hits as an agent's vector index ranks them: each hit's score
/// (the bits of an `f64`) and slug, in the order found.
pub fn ranked_ids(results: &Vec<SearchResult>) -> (r: Vec<(u64, String)>)
    ensures
        r@.len() == results@.len(),
        forall|i: int|
            0 <= i < r@.len() ==> (#[trigger] r@[i]).0 == results@[i].score_bits && r@[i].1@
                == results@[i].slug@,
{
    let mut out: Vec<(u64, String)> = Vec::new();
    let n = results.len();
    for i in 0..n
        invariant
            n == results@.len(),
            out@.len() == i,
            forall|k: int|
                0 <= k < i ==> (#[trigger] out@[k]).0 == results@[k].score_bits && out@[k].1@
                    == results@[k].slug@,
    {
        out.push((results[i].score_bits, copy_str(results[i].slug.as_str())));
    }
    out
}

/// A listed page as the tool reports it.
pub fn page_summary_item(p: &Page) -> (r: PageSummaryItem)
    ensures
        r.slug@ == p@.slug,
        r.title@ == p@.title,
        r.page_type@ == page_type_name(p@.page_type),
        r.summary@ == p@.summary,
{
    PageSummaryItem {
        slug: copy_str(p.slug.as_str()),
        title: p.title.clone(),
        page_type: page_type_str(p.page_type),
        summary: p.summary.clone(),
    }
}

/// The input `wiki_create` hands the service: an invalid slug is refused
/// with the slug error's text; invalid links are dropped; `user` visibility
/// is the caller's own partition (`unknown` without a user), anything else
/// the general one.
pub fn create_args_input(args: WikiCreateArgs, ctx: &TenantContext) -> (r: Result<
    CreatePageInput,
    MindPalaceToolError,
>)
    ensures
        slug_error_of(args.slug@) is Some ==> (r matches Err(e) && e.0@ == slug_error_text(
            slug_error_of(args.slug@)->0,
        )),
        slug_error_of(args.slug@) is None ==> r is Ok,
        r matches Ok(i) ==> {
            &&& i.title@ == args.title@
            &&& i.slug@ == args.slug@
            &&& i.summary@ == args.summary@
            &&& sections_view(i.sections@) == inputs_view(args.sections@)
            &&& i.page_type == spec_page_type(args.page_type@)
            &&& i.visibility@ == (if args.visibility matches Some(v) && v@ == "user"@ {
                VisibilityView::User(
                    match ctx_user(ctx@) {
                        Some(u) => u,
                        None => "unknown"@,
                    },
                )
            } else {
                VisibilityView::General
            })
            &&& slugs_view(i.links@) == match args.links {
                Some(l) => valid_slugs(strs_view(l@)),
                None => Seq::empty(),
            }
            &&& i.base_visibility is None
            &&& i.parent is None
            &&& i.secret_refs@.len() == 0
        },
{
    let slug = match Slug::new(args.slug.as_str()) {
        Ok(s) => s,
        Err(e) => return Err(MindPalaceToolError(copy_str(e.message()))),
    };
    let links = match &args.links {
        Some(l) => slugs_from(l),
        None => Vec::new(),
    };
    assert(slugs_view(links@) == match args.links {
        Some(l) => valid_slugs(strs_view(l@)),
        None => Seq::empty(),
    }) by {
        if args.links is None {
            assert(slugs_view(links@) =~= Seq::empty());
        }
    }
    let user = match &args.visibility {
        Some(v) => str_eq(v.as_str(), "user"),
        None => false,
    };
    let visibility = if user {
        match ctx.user_id() {
            Some(u) => Visibility::User(copy_str(u)),
            None => Visibility::User(String::from_str("unknown")),
        }
    } else {
        Visibility::General
    };
    Ok(
        CreatePageInput {
            title: args.title,
            slug,
            summary: args.summary,
            sections: sections_from(args.sections),
            page_type: parse_page_type(args.page_type.as_str()),
            visibility,
            links,
            base_visibility: None,
            parent: None,
            secret_refs: Vec::new(),
        },
    )
}

/// The slug and input `wiki_update` hands the service: an invalid slug is
/// refused; invalid links are dropped; sections are merged.
pub fn update_args_input(args: WikiUpdateArgs) -> (r: Result<(Slug, UpdatePageInput), MindPalaceToolError>)
    ensures
        slug_error_of(args.slug@) is Some ==> (r matches Err(e) && e.0@ == slug_error_text(
            slug_error_of(args.slug@)->0,
        )),
        slug_error_of(args.slug@) is None ==> r is Ok,
        r matches Ok((s, i)) ==> {
            &&& s@ == args.slug@
            &&& crate::mcp::opt_str(i.title) == crate::mcp::opt_str(args.title)
            &&& crate::mcp::opt_str(i.summary) == crate::mcp::opt_str(args.summary)
            &&& match i.sections {
                Some(ss) => args.sections matches Some(ps) && sections_view(ss@) == inputs_view(ps@),
                None => args.sections is None,
            }
            &&& match i.links {
                Some(ls) => args.links matches Some(pl) && slugs_view(ls@) == valid_slugs(strs_view(pl@)),
                None => args.links is None,
            }
            &&& !i.replace_sections
            &&& i.delete_sections@.len() == 0
            &&& i.parent is None
            &&& i.secret_refs is None
        },
{
    let slug = match Slug::new(args.slug.as_str()) {
        Ok(s) => s,
        Err(e) => return Err(MindPalaceToolError(copy_str(e.message()))),
    };
    let links = match &args.links {
        Some(l) => Some(slugs_from(l)),
        None => None,
    };
    let mut input = UpdatePageInput::default();
    input.title = args.title;
    input.summary = args.summary;
    input.sections = match args.sections {
        Some(ss) => Some(sections_from(ss)),
        None => None,
    };
    input.links = links;
    Ok((slug, input))
}

/// The filter `wiki_list` hands the service: the page type when named, at
/// most `limit` pages (default 20).
pub fn list_args_filter(args: &WikiListArgs) -> (r: PageFilter)
    ensures
        r.page_type == match args.page_type {
            Some(t) => Some(spec_page_type(t@)),
            None => None::<PageType>,
        },
        r.visibility is None,
        r.limit == Some(match args.limit {
            Some(l) => l,
            None => 20usize,
        }),
{
    PageFilter {
        page_type: match &args.page_type {
            Some(t) => Some(parse_page_type(t.as_str())),
            None => None,
        },
        visibility: None,
        limit: Some(
            match args.limit {
                Some(l) => l,
                None => 20,
            },
        ),
    }
}

} // verus!
