//! Wiki pages: their fields, validation on creation, and rendering.
use vstd::prelude::*;

use crate::clock::Timestamp;
use crate::text::append_str;
use crate::value_objects::{
    duplicate_opt_slug, duplicate_refs, duplicate_sections, duplicate_slugs, opt_slug_view,
    refs_view, sections_view, slugs_view, spec_access_from_visibility, spec_toc,
    spec_visibility_from_access, AccessView, PageAccess, PageId, PageType, SecretRef, Section,
    SectionView, Slug, TableOfContents, Visibility, VisibilityView,
};

verus! {

broadcast use vstd::string::group_string_axioms;

/// A wiki page.
#[derive(Debug, Clone)]
pub struct Page {
    pub id: PageId,
    pub slug: Slug,
    pub title: String,
    pub summary: String,
    pub toc: TableOfContents,
    pub sections: Vec<Section>,
    pub page_type: PageType,
    /// Storage partition (kept in step with `access` by the service).
    pub visibility: Visibility,
    /// Who may see and edit the page.
    pub access: PageAccess,
    /// Named references to secrets held by a secrets backend; never values.
    pub secret_refs: Vec<SecretRef>,
    pub version: u32,
    pub created_at: Timestamp,
    pub updated_at: Timestamp,
    pub links: Vec<Slug>,
    /// Containment parent; `None` for a root page.
    pub parent: Option<Slug>,
}

/// The mathematical value of a [`Page`].
pub struct PageView {
    pub id: u128,
    pub slug: Seq<char>,
    pub title: Seq<char>,
    pub summary: Seq<char>,
    pub toc: Seq<(Seq<char>, Seq<char>, u8)>,
    pub sections: Seq<SectionView>,
    pub page_type: PageType,
    pub visibility: VisibilityView,
    pub access: AccessView,
    pub secret_refs: Seq<(Seq<char>, Seq<char>)>,
    pub version: u32,
    pub created_at: Timestamp,
    pub updated_at: Timestamp,
    pub links: Seq<Seq<char>>,
    pub parent: Option<Seq<char>>,
}

impl View for Page {
    type V = PageView;

    open spec fn view(&self) -> PageView {
        PageView {
            id: self.id.0,
            slug: self.slug@,
            title: self.title@,
            summary: self.summary@,
            toc: self.toc@,
            sections: sections_view(self.sections@),
            page_type: self.page_type,
            visibility: self.visibility@,
            access: self.access@,
            secret_refs: refs_view(self.secret_refs@),
            version: self.version,
            created_at: self.created_at,
            updated_at: self.updated_at,
            links: slugs_view(self.links@),
            parent: opt_slug_view(self.parent),
        }
    }
}

/// Why a page could not be created.
#[derive(Debug, Clone, Copy, PartialEq, Eq, Structural)]
pub enum PageValidationError {
    MissingSummary,
    MissingTitle,
    NoSections,
}

/// The text of a page validation error.
pub open spec fn page_error_text(e: PageValidationError) -> Seq<char> {
    match e {
        PageValidationError::MissingSummary => "summary is required"@,
        PageValidationError::MissingTitle => "title is required"@,
        PageValidationError::NoSections => "at least one section is required"@,
    }
}

impl PageValidationError {
    /// The human-readable message of the error.
    pub fn message(&self) -> (r: &'static str)
        ensures
            r@ == page_error_text(*self),
    {
        match self {
            PageValidationError::MissingSummary => "summary is required",
            PageValidationError::MissingTitle => "title is required",
            PageValidationError::NoSections => "at least one section is required",
        }
    }
}

/// The error `Page::new` reports for these fields, if any: the title is
/// checked first, then the summary, then the sections.
pub open spec fn page_error_of(title: Seq<char>, summary: Seq<char>, n_sections: nat) -> Option<
    PageValidationError,
> {
    if title.len() == 0 {
        Some(PageValidationError::MissingTitle)
    } else if summary.len() == 0 {
        Some(PageValidationError::MissingSummary)
    } else if n_sections == 0 {
        Some(PageValidationError::NoSections)
    } else {
        None
    }
}

/// A freshly created page holds the given fields, a table of contents built
/// from its sections, version 1, equal creation and update times, and no
/// links, secret references or parent.
pub open spec fn fresh_page(
    p: PageView,
    title: Seq<char>,
    slug: Seq<char>,
    summary: Seq<char>,
    sections: Seq<SectionView>,
    page_type: PageType,
    visibility: VisibilityView,
    access: AccessView,
) -> bool {
    &&& p.title == title
    &&& p.slug == slug
    &&& p.summary == summary
    &&& p.sections == sections
    &&& p.toc == spec_toc(sections)
    &&& p.page_type == page_type
    &&& p.visibility == visibility
    &&& p.access == access
    &&& p.secret_refs.len() == 0
    &&& p.version == 1
    &&& p.created_at == p.updated_at
    &&& p.links.len() == 0
    &&& p.parent is None
}

/// Two line breaks.
pub open spec fn blank_line() -> Seq<char> {
    seq!['\n', '\n']
}

/// The rendering of sections: for each, `## heading`, a blank line, the
/// content and a blank line.
pub open spec fn sections_text(ss: Seq<SectionView>) -> Seq<char>
    decreases ss.len(),
{
    if ss.len() == 0 {
        Seq::empty()
    } else {
        sections_text(ss.drop_last()) + seq!['#', '#', ' '] + ss.last().heading + blank_line()
            + ss.last().content + blank_line()
    }
}

/// The full text of a page: `# title`, a blank line, the summary, a blank
/// line, then every section.
pub open spec fn spec_full_content(
    title: Seq<char>,
    summary: Seq<char>,
    ss: Seq<SectionView>,
) -> Seq<char> {
    seq!['#', ' '] + title + blank_line() + summary + blank_line() + sections_text(ss)
}

/// The index of the first section with this heading, if any.
pub open spec fn first_section_with(ss: Seq<SectionView>, heading: Seq<char>) -> Option<int> {
    if exists|i: int| 0 <= i < ss.len() && (#[trigger] ss[i]).heading == heading {
        Some(
            choose|i: int|
                0 <= i < ss.len() && (#[trigger] ss[i]).heading == heading && forall|j: int|
                    0 <= j < i ==> (#[trigger] ss[j]).heading != heading,
        )
    } else {
        None
    }
}

/// Where a heading first occurs among sections, it is the only index before
/// which it does not occur.
pub proof fn lemma_first_section_with(ss: Seq<SectionView>, heading: Seq<char>, k: int)
    requires
        0 <= k < ss.len(),
        ss[k].heading == heading,
        forall|j: int| 0 <= j < k ==> (#[trigger] ss[j]).heading != heading,
    ensures
        first_section_with(ss, heading) == Some(k),
{
    let i = choose|i: int|
        0 <= i < ss.len() && (#[trigger] ss[i]).heading == heading && forall|j: int|
            0 <= j < i ==> (#[trigger] ss[j]).heading != heading;
    if i < k {
        assert(ss[i].heading != heading);
    } else if i > k {
        assert(ss[k].heading != heading);
    }
}

impl Page {
    /// Creates a page, checking that title, summary and sections are present.
    /// Its access is migrated from `visibility`.
    pub fn new(
        title: String,
        slug: Slug,
        summary: String,
        sections: Vec<Section>,
        page_type: PageType,
        visibility: Visibility,
    ) -> (r: Result<Page, PageValidationError>)
        ensures
            match r {
                Ok(p) => page_error_of(title@, summary@, sections@.len()) is None && fresh_page(
                    p@,
                    title@,
                    slug@,
                    summary@,
                    sections_view(sections@),
                    page_type,
                    visibility@,
                    spec_access_from_visibility(visibility@),
                ),
                Err(e) => page_error_of(title@, summary@, sections@.len()) == Some(e),
            },
    {
        let access = PageAccess::from_visibility(&visibility);
        Page::build(title, slug, summary, sections, page_type, visibility, access)
    }

    /// Creates a page with an explicit access model; the storage partition is
    /// derived from it.
    pub fn new_with_access(
        title: String,
        slug: Slug,
        summary: String,
        sections: Vec<Section>,
        page_type: PageType,
        access: PageAccess,
    ) -> (r: Result<Page, PageValidationError>)
        ensures
            match r {
                Ok(p) => page_error_of(title@, summary@, sections@.len()) is None && fresh_page(
                    p@,
                    title@,
                    slug@,
                    summary@,
                    sections_view(sections@),
                    page_type,
                    spec_visibility_from_access(access@),
                    access@,
                ),
                Err(e) => page_error_of(title@, summary@, sections@.len()) == Some(e),
            },
    {
        let visibility = Visibility::from_access(&access);
        Page::build(title, slug, summary, sections, page_type, visibility, access)
    }

    fn build(
        title: String,
        slug: Slug,
        summary: String,
        sections: Vec<Section>,
        page_type: PageType,
        visibility: Visibility,
        access: PageAccess,
    ) -> (r: Result<Page, PageValidationError>)
        ensures
            match r {
                Ok(p) => page_error_of(title@, summary@, sections@.len()) is None && fresh_page(
                    p@,
                    title@,
                    slug@,
                    summary@,
                    sections_view(sections@),
                    page_type,
                    visibility@,
                    access@,
                ),
                Err(e) => page_error_of(title@, summary@, sections@.len()) == Some(e),
            },
    {
        if title.as_str().is_empty() {
            return Err(PageValidationError::MissingTitle);
        }
        if summary.as_str().is_empty() {
            return Err(PageValidationError::MissingSummary);
        }
        if sections.len() == 0 {
            return Err(PageValidationError::NoSections);
        }
        let toc = TableOfContents::from_sections(sections.as_slice());
        let now = Timestamp::now();
        let p = Page {
            id: PageId::new(),
            slug,
            title,
            summary,
            toc,
            sections,
            page_type,
            visibility,
            access,
            secret_refs: Vec::new(),
            version: 1,
            created_at: now,
            updated_at: now,
            links: Vec::new(),
            parent: None,
        };
        assert(p@.secret_refs.len() == 0);
        assert(p@.links.len() == 0);
        Ok(p)
    }

    /// The page's summary.
    pub fn summary_text(&self) -> (r: &str)
        ensures
            r@ == self.summary@,
    {
        self.summary.as_str()
    }

    /// The first section with exactly this heading.
    pub fn section_by_heading(&self, heading: &str) -> (r: Option<&Section>)
        ensures
            match first_section_with(self@.sections, heading@) {
                Some(i) => r is Some && r->0@ == self@.sections[i],
                None => r is None,
            },
    {
        let n = self.sections.len();
        for i in 0..n
            invariant
                n == self.sections@.len(),
                forall|j: int| 0 <= j < i ==> (#[trigger] self@.sections[j]).heading != heading@,
        {
            if crate::text::str_eq(self.sections[i].heading.as_str(), heading) {
                proof {
                    lemma_first_section_with(self@.sections, heading@, i as int);
                }
                return Some(&self.sections[i]);
            }
        }
        None
    }

    /// The whole page as Markdown: `# title`, the summary, then each section
    /// under a `##` heading, separated by blank lines.
    pub fn full_content(&self) -> (r: String)
        ensures
            r@ == spec_full_content(self@.title, self@.summary, self@.sections),
    {
        let mut out = String::new();
        proof {
            reveal_strlit("# ");
            reveal_strlit("\n\n");
            reveal_strlit("## ");
        }
        append_str(&mut out, "# ");
        append_str(&mut out, self.title.as_str());
        append_str(&mut out, "\n\n");
        append_str(&mut out, self.summary.as_str());
        append_str(&mut out, "\n\n");
        let ghost head = out@;
        assert(head =~= seq!['#', ' '] + self@.title + blank_line() + self@.summary + blank_line());
        let n = self.sections.len();
        for i in 0..n
            invariant
                n == self.sections@.len(),
                out@ == head + sections_text(self@.sections.take(i as int)),
        {
            let s = &self.sections[i];
            proof {
                reveal_strlit("\n\n");
                reveal_strlit("## ");
            }
            append_str(&mut out, "## ");
            append_str(&mut out, s.heading.as_str());
            append_str(&mut out, "\n\n");
            append_str(&mut out, s.content.as_str());
            append_str(&mut out, "\n\n");
            assert(self@.sections.take(i + 1).drop_last() =~= self@.sections.take(i as int));
            assert(self@.sections.take(i + 1).last() == s@);
            assert(sections_text(self@.sections.take(i + 1)) == sections_text(
                self@.sections.take(i as int),
            ) + seq!['#', '#', ' '] + s@.heading + blank_line() + s@.content + blank_line());
            assert(out@ =~= head + sections_text(self@.sections.take(i + 1)));
        }
        assert(self@.sections.take(n as int) =~= self@.sections);
        out
    }

    /// A copy with the same value.
    pub fn duplicate(&self) -> (r: Page)
        ensures
            r@ == self@,
    {
        Page {
            id: self.id,
            slug: self.slug.duplicate(),
            title: self.title.clone(),
            summary: self.summary.clone(),
            toc: self.toc.duplicate(),
            sections: duplicate_sections(&self.sections),
            page_type: self.page_type,
            visibility: self.visibility.duplicate(),
            access: self.access.duplicate(),
            secret_refs: duplicate_refs(&self.secret_refs),
            version: self.version,
            created_at: self.created_at,
            updated_at: self.updated_at,
            links: duplicate_slugs(&self.links),
            parent: duplicate_opt_slug(&self.parent),
        }
    }
}

/// What level of detail to return when reading a page.
#[derive(Debug, Clone, PartialEq, Eq)]
pub enum ReadLevel {
    Summary,
    Section(String),
    Full,
}

} // verus!
