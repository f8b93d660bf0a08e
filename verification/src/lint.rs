//! Lint rules for pages: missing parts, naming, required sections, secret
//! references and, with a graph, broken links and orphans.
use vstd::prelude::*;

use crate::graph::{last_index_of, GraphView, KnowledgeGraph};
use crate::page::{Page, PageView};
use crate::ports::SecretsResolver;
use crate::tenant::TenantContext;
use crate::text::{append_str, is_blank, lowercase, replace_char, spec_trim, str_eq};
use crate::value_objects::{
    spec_anchor, BaseVisibility, PageType, SectionView, Slug,
};

verus! {

broadcast use vstd::string::group_string_axioms;

/// How serious a lint finding is.
#[derive(Debug, Clone, Copy, PartialEq, Eq, Structural)]
pub enum Severity {
    Error,
    Warning,
    Info,
}

/// What a lint finding is about.
#[derive(Debug, Clone, Copy, PartialEq, Eq, Structural)]
pub enum LintCode {
    MissingSummary,
    MissingToc,
    EmptySection,
    BrokenLink,
    Orphan,
    TitleSlugMismatch,
    MissingSopSection,
    MissingSkillSection,
    /// A Public page carries secret references.
    PublicPageWithSecrets,
    /// A secret reference is not a well-formed locator for the backend.
    InvalidSecretReference,
}

/// One lint finding.
#[derive(Debug, Clone)]
pub struct LintIssue {
    pub code: LintCode,
    pub severity: Severity,
    pub message: String,
}

/// The mathematical value of a [`LintIssue`].
pub struct LintIssueView {
    pub code: LintCode,
    pub severity: Severity,
    pub message: Seq<char>,
}

impl View for LintIssue {
    type V = LintIssueView;

    open spec fn view(&self) -> LintIssueView {
        LintIssueView { code: self.code, severity: self.severity, message: self.message@ }
    }
}

/// The views of a list of issues.
pub open spec fn issues_view(v: Seq<LintIssue>) -> Seq<LintIssueView> {
    Seq::new(v.len(), |i: int| v[i]@)
}

pub open spec fn issue(code: LintCode, severity: Severity, message: Seq<char>) -> LintIssueView {
    LintIssueView { code, severity, message }
}

// ---------------------------------------------------------------------------
// The rules
// ---------------------------------------------------------------------------

/// An empty summary is an error.
pub open spec fn summary_issues(p: PageView) -> Seq<LintIssueView> {
    if p.summary.len() == 0 {
        seq![issue(LintCode::MissingSummary, Severity::Error, "Page is missing a summary"@)]
    } else {
        Seq::empty()
    }
}

/// An empty table of contents is an error.
pub open spec fn toc_issues(p: PageView) -> Seq<LintIssueView> {
    if p.toc.len() == 0 {
        seq![
            issue(
                LintCode::MissingToc,
                Severity::Error,
                "Page has no table of contents entries"@,
            ),
        ]
    } else {
        Seq::empty()
    }
}

/// Each section whose content is blank is a warning, in section order.
pub open spec fn empty_section_issues(ss: Seq<SectionView>) -> Seq<LintIssueView>
    decreases ss.len(),
{
    if ss.len() == 0 {
        Seq::empty()
    } else {
        let rest = empty_section_issues(ss.drop_last());
        let s = ss.last();
        if spec_trim(s.content).len() == 0 {
            rest.push(
                issue(
                    LintCode::EmptySection,
                    Severity::Warning,
                    "Section '"@ + s.heading + "' has empty content"@,
                ),
            )
        } else {
            rest
        }
    }
}

/// A slug other than the title's anchor form is noted.
pub open spec fn slug_issues(p: PageView) -> Seq<LintIssueView> {
    let expected = spec_anchor(p.title);
    if p.slug != expected {
        seq![
            issue(
                LintCode::TitleSlugMismatch,
                Severity::Info,
                "Slug '"@ + p.slug + "' doesn't match title (expected '"@ + expected + "')"@,
            ),
        ]
    } else {
        Seq::empty()
    }
}

/// Whether some section has exactly this heading.
pub open spec fn has_heading(ss: Seq<SectionView>, h: Seq<char>) -> bool {
    exists|i: int| 0 <= i < ss.len() && (#[trigger] ss[i]).heading == h
}

/// A warning for each required heading (in order) that no section has.
pub open spec fn required_issues(
    ss: Seq<SectionView>,
    required: Seq<Seq<char>>,
    code: LintCode,
    prefix: Seq<char>,
) -> Seq<LintIssueView>
    decreases required.len(),
{
    if required.len() == 0 {
        Seq::empty()
    } else {
        let rest = required_issues(ss, required.drop_last(), code, prefix);
        let h = required.last();
        if has_heading(ss, h) {
            rest
        } else {
            rest.push(issue(code, Severity::Warning, prefix + h + "'"@))
        }
    }
}

/// The sections an SOP page must have.
pub open spec fn sop_required() -> Seq<Seq<char>> {
    seq!["Prerequisites"@, "Steps"@, "Constraints"@, "Verification"@]
}

/// The sections a skill page must have.
pub open spec fn skill_required() -> Seq<Seq<char>> {
    seq!["When to Use"@, "Prompt Pattern"@, "Example"@, "Limitations"@]
}

/// Missing required sections of SOP and skill pages.
pub open spec fn type_issues(p: PageView) -> Seq<LintIssueView> {
    if p.page_type == PageType::Sop {
        required_issues(
            p.sections,
            sop_required(),
            LintCode::MissingSopSection,
            "SOP page missing required section: '"@,
        )
    } else if p.page_type == PageType::Skill {
        required_issues(
            p.sections,
            skill_required(),
            LintCode::MissingSkillSection,
            "Skill page missing required section: '"@,
        )
    } else {
        Seq::empty()
    }
}

/// A Public page may not carry secret references: that is an error.
pub open spec fn public_secret_issues(p: PageView) -> Seq<LintIssueView> {
    if p.access.base_visibility == BaseVisibility::Public && p.secret_refs.len() > 0 {
        seq![
            issue(
                LintCode::PublicPageWithSecrets,
                Severity::Error,
                "Public page carries secret references; only a Private page may gate a secret"@,
            ),
        ]
    } else {
        Seq::empty()
    }
}

/// An error for each secret reference the backend found invalid
/// (`valid[k]` false), in order.
pub open spec fn invalid_ref_issues(refs: Seq<(Seq<char>, Seq<char>)>, valid: Seq<bool>) -> Seq<
    LintIssueView,
>
    decreases refs.len(),
{
    if refs.len() == 0 || valid.len() != refs.len() {
        Seq::empty()
    } else {
        let rest = invalid_ref_issues(refs.drop_last(), valid.drop_last());
        if valid.last() {
            rest
        } else {
            rest.push(
                issue(
                    LintCode::InvalidSecretReference,
                    Severity::Error,
                    "Secret ref '"@ + refs.last().0 + "' is not a valid backend reference"@,
                ),
            )
        }
    }
}

/// Whether some page of the graph has this slug.
pub open spec fn page_with(g: GraphView, slug: Seq<char>) -> bool {
    exists|k: int| 0 <= k < g.nodes.len() && (#[trigger] g.nodes[k]).slug == slug
}

/// A warning for each link that no page of the graph has, in order.
pub open spec fn link_issues(g: GraphView, links: Seq<Seq<char>>) -> Seq<LintIssueView>
    decreases links.len(),
{
    if links.len() == 0 {
        Seq::empty()
    } else {
        let rest = link_issues(g, links.drop_last());
        let l = links.last();
        if page_with(g, l) {
            rest
        } else {
            rest.push(
                issue(
                    LintCode::BrokenLink,
                    Severity::Warning,
                    "Link to '"@ + l + "' has no matching page"@,
                ),
            )
        }
    }
}

/// A page with no node in the graph is an orphan.
pub open spec fn orphan_issues(g: GraphView, p: PageView) -> Seq<LintIssueView> {
    if last_index_of(g.nodes, p.id) is None {
        seq![
            issue(
                LintCode::Orphan,
                Severity::Warning,
                "Page is not connected to the knowledge graph"@,
            ),
        ]
    } else {
        Seq::empty()
    }
}

/// Every finding for a page, in rule order. `valid`, when given, says for
/// each secret reference whether the backend accepted it; `g` is the graph,
/// when given.
pub open spec fn spec_lint(p: PageView, g: Option<GraphView>, valid: Option<Seq<bool>>) -> Seq<
    LintIssueView,
> {
    summary_issues(p) + toc_issues(p) + empty_section_issues(p.sections) + slug_issues(p)
        + type_issues(p) + public_secret_issues(p) + match valid {
        Some(v) => invalid_ref_issues(p.secret_refs, v),
        None => Seq::empty(),
    } + match g {
        Some(g) => link_issues(g, p.links) + orphan_issues(g, p),
        None => Seq::empty(),
    }
}

/// The value of an optional graph.
pub open spec fn opt_graph_view(g: Option<&KnowledgeGraph>) -> Option<GraphView> {
    match g {
        Some(g) => Some(g@),
        None => None,
    }
}

// ---------------------------------------------------------------------------
// Laws of the required sections
// ---------------------------------------------------------------------------

/// A missing required heading gets its warning among the required-section findings.
proof fn lemma_required_issue_present(
    ss: Seq<SectionView>,
    required: Seq<Seq<char>>,
    code: LintCode,
    prefix: Seq<char>,
    j: int,
)
    requires
        0 <= j < required.len(),
        !has_heading(ss, required[j]),
    ensures
        required_issues(ss, required, code, prefix).contains(
            issue(code, Severity::Warning, prefix + required[j] + "'"@),
        ),
    decreases required.len(),
{
    let x = issue(code, Severity::Warning, prefix + required[j] + "'"@);
    let rest = required_issues(ss, required.drop_last(), code, prefix);
    let all = required_issues(ss, required, code, prefix);
    if j == required.len() - 1 {
        assert(all == rest.push(x));
        assert(all[rest.len() as int] == x);
    } else {
        assert(required.drop_last()[j] == required[j]);
        lemma_required_issue_present(ss, required.drop_last(), code, prefix, j);
        let k = choose|k: int| 0 <= k < rest.len() && rest[k] == x;
        assert(all[k] == x);
    }
}

/// A finding of the typed-page rules is among all the findings of the page.
proof fn lemma_type_issue_in_lint(
    p: PageView,
    g: Option<GraphView>,
    valid: Option<Seq<bool>>,
    x: LintIssueView,
)
    requires
        type_issues(p).contains(x),
    ensures
        spec_lint(p, g, valid).contains(x),
{
    let a = summary_issues(p) + toc_issues(p) + empty_section_issues(p.sections) + slug_issues(p);
    let t = type_issues(p);
    let k = choose|k: int| 0 <= k < t.len() && t[k] == x;
    let at = a + t;
    assert(at[a.len() + k] == x);
    let b = at + public_secret_issues(p);
    assert(b[a.len() + k] == x);
    let c = b + match valid {
        Some(v) => invalid_ref_issues(p.secret_refs, v),
        None => Seq::empty(),
    };
    assert(c[a.len() + k] == x);
    let d = c + match g {
        Some(g) => link_issues(g, p.links) + orphan_issues(g, p),
        None => Seq::empty(),
    };
    assert(d[a.len() + k] == x);
    assert(d == spec_lint(p, g, valid));
}

/// No finding in `s` has one of the required-section codes.
spec fn free_of_required_codes(s: Seq<LintIssueView>) -> bool {
    forall|i: int|
        0 <= i < s.len() ==> (#[trigger] s[i]).code != LintCode::MissingSopSection && s[i].code
            != LintCode::MissingSkillSection
}

proof fn lemma_free_concat(a: Seq<LintIssueView>, b: Seq<LintIssueView>)
    requires
        free_of_required_codes(a),
        free_of_required_codes(b),
    ensures
        free_of_required_codes(a + b),
{
    assert forall|i: int| 0 <= i < (a + b).len() implies (#[trigger] (a + b)[i]).code
        != LintCode::MissingSopSection && (a + b)[i].code != LintCode::MissingSkillSection by {
        if i < a.len() {
            assert((a + b)[i] == a[i]);
        } else {
            assert((a + b)[i] == b[i - a.len()]);
        }
    }
}

proof fn lemma_empty_section_codes(ss: Seq<SectionView>)
    ensures
        free_of_required_codes(empty_section_issues(ss)),
    decreases ss.len(),
{
    if ss.len() > 0 {
        lemma_empty_section_codes(ss.drop_last());
    }
}

proof fn lemma_invalid_ref_codes(refs: Seq<(Seq<char>, Seq<char>)>, valid: Seq<bool>)
    ensures
        free_of_required_codes(invalid_ref_issues(refs, valid)),
    decreases refs.len(),
{
    if refs.len() > 0 && valid.len() == refs.len() {
        lemma_invalid_ref_codes(refs.drop_last(), valid.drop_last());
    }
}

proof fn lemma_link_codes(g: GraphView, links: Seq<Seq<char>>)
    ensures
        free_of_required_codes(link_issues(g, links)),
    decreases links.len(),
{
    if links.len() > 0 {
        lemma_link_codes(g, links.drop_last());
    }
}

/// Each required-section finding names a required heading that no section has.
proof fn lemma_required_issue_shape(
    ss: Seq<SectionView>,
    required: Seq<Seq<char>>,
    code: LintCode,
    prefix: Seq<char>,
    x: LintIssueView,
)
    requires
        required_issues(ss, required, code, prefix).contains(x),
    ensures
        exists|j: int|
            0 <= j < required.len() && !has_heading(ss, #[trigger] required[j]) && x == issue(
                code,
                Severity::Warning,
                prefix + required[j] + "'"@,
            ),
    decreases required.len(),
{
    let rest = required_issues(ss, required.drop_last(), code, prefix);
    let all = required_issues(ss, required, code, prefix);
    let k = choose|k: int| 0 <= k < all.len() && all[k] == x;
    if k < rest.len() {
        assert(rest[k] == x);
        lemma_required_issue_shape(ss, required.drop_last(), code, prefix, x);
        let j = choose|j: int|
            0 <= j < required.drop_last().len() && !has_heading(
                ss,
                #[trigger] required.drop_last()[j],
            ) && x == issue(code, Severity::Warning, prefix + required.drop_last()[j] + "'"@);
        assert(required[j] == required.drop_last()[j]);
    } else {
        let j = required.len() - 1;
        assert(required[j] == required.last());
    }
}

/// A required-section finding of the page comes from the typed-page rules:
/// no other rule gives one of those codes.
proof fn lemma_required_codes_come_from_type_rules(
    p: PageView,
    g: Option<GraphView>,
    valid: Option<Seq<bool>>,
    x: LintIssueView,
)
    requires
        spec_lint(p, g, valid).contains(x),
        x.code == LintCode::MissingSopSection || x.code == LintCode::MissingSkillSection,
    ensures
        type_issues(p).contains(x),
{
    let a = summary_issues(p) + toc_issues(p) + empty_section_issues(p.sections) + slug_issues(p);
    let t = type_issues(p);
    let b1 = public_secret_issues(p);
    let b2 = match valid {
        Some(v) => invalid_ref_issues(p.secret_refs, v),
        None => Seq::empty(),
    };
    let b3 = match g {
        Some(g) => link_issues(g, p.links) + orphan_issues(g, p),
        None => Seq::empty(),
    };
    lemma_empty_section_codes(p.sections);
    lemma_free_concat(summary_issues(p), toc_issues(p));
    lemma_free_concat(summary_issues(p) + toc_issues(p), empty_section_issues(p.sections));
    lemma_free_concat(
        summary_issues(p) + toc_issues(p) + empty_section_issues(p.sections),
        slug_issues(p),
    );
    match valid {
        Some(v) => lemma_invalid_ref_codes(p.secret_refs, v),
        None => {},
    }
    match g {
        Some(gv) => {
            lemma_link_codes(gv, p.links);
            lemma_free_concat(link_issues(gv, p.links), orphan_issues(gv, p));
        },
        None => {},
    }
    lemma_free_concat(b1, b2);
    lemma_free_concat(b1 + b2, b3);
    let all = spec_lint(p, g, valid);
    assert(all == a + t + b1 + b2 + b3);
    let rest = b1 + b2 + b3;
    assert(all =~= (a + t) + rest);
    let k = choose|k: int| 0 <= k < all.len() && all[k] == x;
    if k < a.len() {
        assert(all[k] == a[k]);
    } else if k < a.len() + t.len() {
        assert(all[k] == t[k - a.len()]);
    } else {
        assert(all[k] == rest[k - a.len() - t.len()]);
    }
}

/// Every `MissingSkillSection` finding is on a Skill page and names one of
/// "When to Use", "Prompt Pattern", "Example" and "Limitations" that none of
/// the page's sections has; together with the law above, these warnings are
/// exactly the missing headings.
pub proof fn lemma_skill_warnings_name_missing_sections(
    p: PageView,
    g: Option<GraphView>,
    valid: Option<Seq<bool>>,
    x: LintIssueView,
)
    requires
        spec_lint(p, g, valid).contains(x),
        x.code == LintCode::MissingSkillSection,
    ensures
        p.page_type == PageType::Skill,
        exists|h: Seq<char>|
            (h == "When to Use"@ || h == "Prompt Pattern"@ || h == "Example"@ || h
                == "Limitations"@) && (forall|i: int|
                0 <= i < p.sections.len() ==> (#[trigger] p.sections[i]).heading != h) && x
                == issue(
                LintCode::MissingSkillSection,
                Severity::Warning,
                "Skill page missing required section: '"@ + h + "'"@,
            ),
{
    lemma_required_codes_come_from_type_rules(p, g, valid, x);
    if p.page_type == PageType::Sop {
        lemma_required_issue_shape(
            p.sections,
            sop_required(),
            LintCode::MissingSopSection,
            "SOP page missing required section: '"@,
            x,
        );
    } else if p.page_type == PageType::Skill {
        let req = skill_required();
        lemma_required_issue_shape(
            p.sections,
            req,
            LintCode::MissingSkillSection,
            "Skill page missing required section: '"@,
            x,
        );
        let j = choose|j: int|
            0 <= j < req.len() && !has_heading(p.sections, #[trigger] req[j]) && x == issue(
                LintCode::MissingSkillSection,
                Severity::Warning,
                "Skill page missing required section: '"@ + req[j] + "'"@,
            );
        let h = req[j];
        assert(h == "When to Use"@ || h == "Prompt Pattern"@ || h == "Example"@ || h
            == "Limitations"@);
        assert(forall|i: int|
            0 <= i < p.sections.len() ==> (#[trigger] p.sections[i]).heading != h);
    } else {
        assert(type_issues(p) =~= Seq::<LintIssueView>::empty());
    }
}

/// Every `MissingSopSection` finding is on an SOP page and names one of
/// "Prerequisites", "Steps", "Constraints" and "Verification" that none of
/// the page's sections has.
pub proof fn lemma_sop_warnings_name_missing_sections(
    p: PageView,
    g: Option<GraphView>,
    valid: Option<Seq<bool>>,
    x: LintIssueView,
)
    requires
        spec_lint(p, g, valid).contains(x),
        x.code == LintCode::MissingSopSection,
    ensures
        p.page_type == PageType::Sop,
        exists|h: Seq<char>|
            (h == "Prerequisites"@ || h == "Steps"@ || h == "Constraints"@ || h
                == "Verification"@) && (forall|i: int|
                0 <= i < p.sections.len() ==> (#[trigger] p.sections[i]).heading != h) && x
                == issue(
                LintCode::MissingSopSection,
                Severity::Warning,
                "SOP page missing required section: '"@ + h + "'"@,
            ),
{
    lemma_required_codes_come_from_type_rules(p, g, valid, x);
    if p.page_type == PageType::Skill {
        lemma_required_issue_shape(
            p.sections,
            skill_required(),
            LintCode::MissingSkillSection,
            "Skill page missing required section: '"@,
            x,
        );
    } else if p.page_type == PageType::Sop {
        let req = sop_required();
        lemma_required_issue_shape(
            p.sections,
            req,
            LintCode::MissingSopSection,
            "SOP page missing required section: '"@,
            x,
        );
        let j = choose|j: int|
            0 <= j < req.len() && !has_heading(p.sections, #[trigger] req[j]) && x == issue(
                LintCode::MissingSopSection,
                Severity::Warning,
                "SOP page missing required section: '"@ + req[j] + "'"@,
            );
        let h = req[j];
        assert(h == "Prerequisites"@ || h == "Steps"@ || h == "Constraints"@ || h
            == "Verification"@);
        assert(forall|i: int|
            0 <= i < p.sections.len() ==> (#[trigger] p.sections[i]).heading != h);
    } else {
        assert(type_issues(p) =~= Seq::<LintIssueView>::empty());
    }
}

/// A Skill page is warned, with code `MissingSkillSection`, of each of the
/// headings "When to Use", "Prompt Pattern", "Example" and "Limitations" that
/// none of its sections has, whatever graph and backend verdicts are given.
pub proof fn lemma_skill_page_needs_sections(
    p: PageView,
    g: Option<GraphView>,
    valid: Option<Seq<bool>>,
    h: Seq<char>,
)
    requires
        p.page_type == PageType::Skill,
        h == "When to Use"@ || h == "Prompt Pattern"@ || h == "Example"@ || h == "Limitations"@,
        forall|i: int| 0 <= i < p.sections.len() ==> (#[trigger] p.sections[i]).heading != h,
    ensures
        spec_lint(p, g, valid).contains(
            issue(
                LintCode::MissingSkillSection,
                Severity::Warning,
                "Skill page missing required section: '"@ + h + "'"@,
            ),
        ),
{
    let req = skill_required();
    let j: int = if h == "When to Use"@ {
        0
    } else if h == "Prompt Pattern"@ {
        1
    } else if h == "Example"@ {
        2
    } else {
        3
    };
    assert(req[j] == h);
    lemma_required_issue_present(
        p.sections,
        req,
        LintCode::MissingSkillSection,
        "Skill page missing required section: '"@,
        j,
    );
    lemma_type_issue_in_lint(
        p,
        g,
        valid,
        issue(
            LintCode::MissingSkillSection,
            Severity::Warning,
            "Skill page missing required section: '"@ + h + "'"@,
        ),
    );
}

/// An SOP page is warned, with code `MissingSopSection`, of each of the
/// headings "Prerequisites", "Steps", "Constraints" and "Verification" that
/// none of its sections has, whatever graph and backend verdicts are given.
pub proof fn lemma_sop_page_needs_sections(
    p: PageView,
    g: Option<GraphView>,
    valid: Option<Seq<bool>>,
    h: Seq<char>,
)
    requires
        p.page_type == PageType::Sop,
        h == "Prerequisites"@ || h == "Steps"@ || h == "Constraints"@ || h == "Verification"@,
        forall|i: int| 0 <= i < p.sections.len() ==> (#[trigger] p.sections[i]).heading != h,
    ensures
        spec_lint(p, g, valid).contains(
            issue(
                LintCode::MissingSopSection,
                Severity::Warning,
                "SOP page missing required section: '"@ + h + "'"@,
            ),
        ),
{
    let req = sop_required();
    let j: int = if h == "Prerequisites"@ {
        0
    } else if h == "Steps"@ {
        1
    } else if h == "Constraints"@ {
        2
    } else {
        3
    };
    assert(req[j] == h);
    lemma_required_issue_present(
        p.sections,
        req,
        LintCode::MissingSopSection,
        "SOP page missing required section: '"@,
        j,
    );
    lemma_type_issue_in_lint(
        p,
        g,
        valid,
        issue(
            LintCode::MissingSopSection,
            Severity::Warning,
            "SOP page missing required section: '"@ + h + "'"@,
        ),
    );
}

// ---------------------------------------------------------------------------
// Running the rules
// ---------------------------------------------------------------------------

fn push_issue(issues: &mut Vec<LintIssue>, code: LintCode, severity: Severity, message: String)
    ensures
        issues_view(final(issues)@) == issues_view(old(issues)@).push(issue(code, severity, message@)),
{
    let ghost before = issues_view(issues@);
    issues.push(LintIssue { code, severity, message });
    assert(issues_view(issues@) =~= before.push(issue(code, severity, message@)));
}

/// Whether some section has exactly this heading.
fn sections_have(page: &Page, heading: &str) -> (r: bool)
    ensures
        r == has_heading(page@.sections, heading@),
{
    let n = page.sections.len();
    for i in 0..n
        invariant
            n == page.sections@.len(),
            forall|j: int| 0 <= j < i ==> (#[trigger] page@.sections[j]).heading != heading@,
    {
        if str_eq(page.sections[i].heading.as_str(), heading) {
            assert(page@.sections[i as int].heading == heading@);
            return true;
        }
    }
    false
}

/// Adds the warnings for the required headings that are missing.
fn check_required(
    issues: &mut Vec<LintIssue>,
    page: &Page,
    required: &Vec<&str>,
    code: LintCode,
    prefix: &str,
)
    ensures
        issues_view(final(issues)@) == issues_view(old(issues)@) + required_issues(
            page@.sections,
            Seq::new(required@.len(), |i: int| required@[i]@),
            code,
            prefix@,
        ),
{
    let ghost req = Seq::new(required@.len(), |i: int| required@[i]@);
    let ghost start = issues_view(issues@);
    let n = required.len();
    for i in 0..n
        invariant
            n == required@.len(),
            req == Seq::new(required@.len(), |i: int| required@[i]@),
            issues_view(issues@) == start + required_issues(
                page@.sections,
                req.take(i as int),
                code,
                prefix@,
            ),
    {
        let heading: &str = required[i];
        assert(req.take(i + 1).drop_last() =~= req.take(i as int));
        assert(req.take(i + 1).last() == heading@);
        if !sections_have(page, heading) {
            let mut m = String::new();
            append_str(&mut m, prefix);
            append_str(&mut m, heading);
            append_str(&mut m, "'");
            push_issue(issues, code, Severity::Warning, m);
            assert(issues_view(issues@) =~= start + required_issues(
                page@.sections,
                req.take(i + 1),
                code,
                prefix@,
            ));
        }
    }
    assert(req.take(n as int) =~= req);
}

/// Whether some page of the graph has this slug.
fn find_by_slug(kg: &KnowledgeGraph, slug: &Slug) -> (r: bool)
    requires
        kg.wf(),
    ensures
        r == page_with(kg@, slug@),
{
    let global = TenantContext::global();
    proof {
        crate::graph::lemma_global_first_with_slug(kg@, kg@.nodes, slug@);
        crate::graph::lemma_first_with_slug(kg@.nodes, slug@);
    }
    kg.find_by_slug(slug, &global).is_some()
}

fn lint_basics(issues: &mut Vec<LintIssue>, page: &Page)
    ensures
        issues_view(final(issues)@) == issues_view(old(issues)@) + summary_issues(page@) + toc_issues(
            page@,
        ),
{
    let ghost start = issues_view(issues@);
    if page.summary.as_str().is_empty() {
        push_issue(issues, LintCode::MissingSummary, Severity::Error, String::from_str("Page is missing a summary"));
    }
    assert(issues_view(issues@) =~= start + summary_issues(page@));
    let ghost mid = issues_view(issues@);
    if page.toc.entries.len() == 0 {
        push_issue(issues, LintCode::MissingToc, Severity::Error, String::from_str("Page has no table of contents entries"));
    }
    assert(issues_view(issues@) =~= mid + toc_issues(page@));
}

fn lint_sections(issues: &mut Vec<LintIssue>, page: &Page)
    ensures
        issues_view(final(issues)@) == issues_view(old(issues)@) + empty_section_issues(page@.sections),
{
    let ghost start = issues_view(issues@);
    let n = page.sections.len();
    for i in 0..n
        invariant
            n == page.sections@.len(),
            issues_view(issues@) == start + empty_section_issues(page@.sections.take(i as int)),
    {
        let section = &page.sections[i];
        assert(page@.sections.take(i + 1).drop_last() =~= page@.sections.take(i as int));
        assert(page@.sections.take(i + 1).last() == section@);
        if is_blank(section.content.as_str()) {
            let mut m = String::new();
            append_str(&mut m, "Section '");
            append_str(&mut m, section.heading.as_str());
            append_str(&mut m, "' has empty content");
            push_issue(issues, LintCode::EmptySection, Severity::Warning, m);
        }
        assert(issues_view(issues@) =~= start + empty_section_issues(page@.sections.take(i + 1)));
    }
    assert(page@.sections.take(n as int) =~= page@.sections);
}

fn lint_slug(issues: &mut Vec<LintIssue>, page: &Page)
    ensures
        issues_view(final(issues)@) == issues_view(old(issues)@) + slug_issues(page@),
{
    let ghost start = issues_view(issues@);
    let lower = lowercase(page.title.as_str());
    let expected_slug = replace_char(lower.as_str(), ' ', '-');
    if !str_eq(page.slug.as_str(), expected_slug.as_str()) {
        let mut m = String::new();
        append_str(&mut m, "Slug '");
        append_str(&mut m, page.slug.as_str());
        append_str(&mut m, "' doesn't match title (expected '");
        append_str(&mut m, expected_slug.as_str());
        append_str(&mut m, "')");
        push_issue(issues, LintCode::TitleSlugMismatch, Severity::Info, m);
    }
    assert(issues_view(issues@) =~= start + slug_issues(page@));
}

fn lint_type(issues: &mut Vec<LintIssue>, page: &Page)
    ensures
        issues_view(final(issues)@) == issues_view(old(issues)@) + type_issues(page@),
{
    let ghost start = issues_view(issues@);
    if page.page_type == PageType::Sop {
        let required: Vec<&str> = vec!["Prerequisites", "Steps", "Constraints", "Verification"];
        check_required(issues, page, &required, LintCode::MissingSopSection, "SOP page missing required section: '");
        assert(Seq::new(required@.len(), |i: int| required@[i]@) =~= sop_required());
    } else if page.page_type == PageType::Skill {
        let required: Vec<&str> = vec!["When to Use", "Prompt Pattern", "Example", "Limitations"];
        check_required(issues, page, &required, LintCode::MissingSkillSection, "Skill page missing required section: '");
        assert(Seq::new(required@.len(), |i: int| required@[i]@) =~= skill_required());
    }
    assert(issues_view(issues@) =~= start + type_issues(page@));
}

fn lint_secrets(issues: &mut Vec<LintIssue>, page: &Page, ref_validity: Option<&Vec<bool>>)
    requires
        ref_validity matches Some(v) ==> v@.len() == page.secret_refs@.len(),
    ensures
        issues_view(final(issues)@) == issues_view(old(issues)@) + public_secret_issues(page@) + match ref_validity {
            Some(v) => invalid_ref_issues(page@.secret_refs, v@),
            None => Seq::empty(),
        },
{
    let ghost start = issues_view(issues@);
    if page.access.base_visibility == BaseVisibility::Public && page.secret_refs.len() > 0 {
        push_issue(
            issues,
            LintCode::PublicPageWithSecrets,
            Severity::Error,
            String::from_str("Public page carries secret references; only a Private page may gate a secret"),
        );
    }
    assert(issues_view(issues@) =~= start + public_secret_issues(page@));
    let ghost after_public = issues_view(issues@);
    match ref_validity {
        Some(valid) => {
            let m = page.secret_refs.len();
            for k in 0..m
                invariant
                    m == page.secret_refs@.len(),
                    m == valid@.len(),
                    issues_view(issues@) == after_public + invalid_ref_issues(
                        page@.secret_refs.take(k as int),
                        valid@.take(k as int),
                    ),
            {
                assert(page@.secret_refs.take(k + 1).drop_last() =~= page@.secret_refs.take(k as int));
                assert(valid@.take(k + 1).drop_last() =~= valid@.take(k as int));
                assert(page@.secret_refs.take(k + 1).last() == page.secret_refs@[k as int]@);
                assert(valid@.take(k + 1).last() == valid@[k as int]);
                if !valid[k] {
                    let mut msg = String::new();
                    append_str(&mut msg, "Secret ref '");
                    append_str(&mut msg, page.secret_refs[k].name.as_str());
                    append_str(&mut msg, "' is not a valid backend reference");
                    push_issue(issues, LintCode::InvalidSecretReference, Severity::Error, msg);
                }
                assert(issues_view(issues@) =~= after_public + invalid_ref_issues(
                    page@.secret_refs.take(k + 1),
                    valid@.take(k + 1),
                ));
            }
            assert(page@.secret_refs.take(m as int) =~= page@.secret_refs);
            assert(valid@.take(m as int) =~= valid@);
        },
        None => {
            assert(issues_view(issues@) =~= after_public + Seq::empty());
        },
    }
}

fn lint_graph(issues: &mut Vec<LintIssue>, page: &Page, kg: &KnowledgeGraph)
    requires
        kg.wf(),
    ensures
        issues_view(final(issues)@) == issues_view(old(issues)@) + link_issues(kg@, page@.links)
            + orphan_issues(kg@, page@),
{
    let ghost start = issues_view(issues@);
    let l = page.links.len();
    for k in 0..l
        invariant
            l == page.links@.len(),
            kg.wf(),
            issues_view(issues@) == start + link_issues(kg@, page@.links.take(k as int)),
    {
        let link_slug = &page.links[k];
        assert(page@.links.take(k + 1).drop_last() =~= page@.links.take(k as int));
        assert(page@.links.take(k + 1).last() == link_slug@);
        let has_target = find_by_slug(kg, link_slug);
        if !has_target {
            let mut msg = String::new();
            append_str(&mut msg, "Link to '");
            append_str(&mut msg, link_slug.as_str());
            append_str(&mut msg, "' has no matching page");
            push_issue(issues, LintCode::BrokenLink, Severity::Warning, msg);
        }
        assert(issues_view(issues@) =~= start + link_issues(kg@, page@.links.take(k + 1)));
    }
    assert(page@.links.take(l as int) =~= page@.links);
    let ghost after_links = issues_view(issues@);
    if !kg.has_node(&page.id) {
        push_issue(
            issues,
            LintCode::Orphan,
            Severity::Warning,
            String::from_str("Page is not connected to the knowledge graph"),
        );
    }
    assert(issues_view(issues@) =~= after_links + orphan_issues(kg@, page@));
}

/// Runs the lint rules on a page, given for each secret reference whether
/// the secrets backend accepted it (`None` when there is no backend) and,
/// optionally, the graph (for broken-link and orphan checks).
pub fn lint_issues(page: &Page, graph: Option<&KnowledgeGraph>, ref_validity: Option<&Vec<bool>>) -> (r: Vec<
    LintIssue,
>)
    requires
        graph matches Some(g) ==> g.wf(),
        ref_validity matches Some(v) ==> v@.len() == page.secret_refs@.len(),
    ensures
        issues_view(r@) == spec_lint(
            page@,
            opt_graph_view(graph),
            match ref_validity {
                Some(v) => Some(v@),
                None => None,
            },
        ),
{
    let mut issues: Vec<LintIssue> = Vec::new();
    lint_basics(&mut issues, page);
    lint_sections(&mut issues, page);
    lint_slug(&mut issues, page);
    lint_type(&mut issues, page);
    lint_secrets(&mut issues, page, ref_validity);
    let ghost before_graph = issues_view(issues@);
    match graph {
        Some(kg) => {
            lint_graph(&mut issues, page, kg);
        },
        None => {},
    }
    assert(issues_view(issues@) =~= spec_lint(
        page@,
        opt_graph_view(graph),
        match ref_validity {
            Some(v) => Some(v@),
            None => None,
        },
    ));
    issues
}

/// The backend's verdict on each secret reference, when there is a backend.
pub open spec fn verdicts<R: SecretsResolver>(resolver: Option<&R>, refs: Seq<(Seq<char>, Seq<char>)>) -> Option<
    Seq<bool>,
> {
    match resolver {
        Some(res) => Some(Seq::new(refs.len(), |k: int| res.accepts(refs[k].1))),
        None => None,
    }
}

/// Runs the lint rules on a page. With a secrets backend, each secret
/// reference is checked by it (its verdict is the backend's `accepts`);
/// with a graph, links and graph membership are checked too.
pub fn lint_page<R: SecretsResolver>(page: &Page, graph: Option<&KnowledgeGraph>, resolver: Option<&R>) -> (r: Vec<
    LintIssue,
>)
    requires
        graph matches Some(g) ==> g.wf(),
    ensures
        issues_view(r@) == spec_lint(page@, opt_graph_view(graph), verdicts(resolver, page@.secret_refs)),
{
    match resolver {
        Some(res) => {
            let mut valid: Vec<bool> = Vec::new();
            let m = page.secret_refs.len();
            for k in 0..m
                invariant
                    m == page.secret_refs@.len(),
                    valid@.len() == k,
                    forall|j: int| 0 <= j < k ==> valid@[j] == res.accepts(#[trigger] page@.secret_refs[j].1),
            {
                let ok = match res.validate_reference(page.secret_refs[k].reference.as_str()) {
                    Ok(()) => true,
                    Err(_) => false,
                };
                assert(page@.secret_refs[k as int] == page.secret_refs@[k as int]@);
                valid.push(ok);
            }
            assert(valid@ =~= Seq::new(m as nat, |j: int| res.accepts(page@.secret_refs[j].1)));
            lint_issues(page, graph, Some(&valid))
        },
        None => lint_issues(page, graph, None),
    }
}

} // verus!
