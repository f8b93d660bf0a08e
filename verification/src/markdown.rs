//! The stored form of a page: an object key per storage partition, and a
//! Markdown document with a front-matter block and one `## ` heading per
//! section, in which fenced code blocks are never split into sections.
use vstd::prelude::*;

use crate::error::{ErrorView, MindPalaceError};
use crate::page::Page;
use crate::tenant::{ctx_user, ids_view, ContextView, TenantContext};
use crate::text::{
    append_str, chars_of, concat2, concat3, ends_with, has_prefix, has_suffix, push_char, spec_trim, spec_trim_start,
    starts_with, string_from_chars, strs_view, trim_chars,
};
use crate::clock::Timestamp;
use crate::text::copy_str;
use crate::value_objects::{
    duplicate_refs, refs_view, sections_view, slug_error_of, slug_error_text, slugs_view,
    spec_access_from_visibility, PageAccess, PageId, PageType, SecretRef, Section, SectionView,
    Slug, SlugError, TableOfContents, Visibility, VisibilityView,
};

verus! {

broadcast use vstd::string::group_string_axioms;

// ---------------------------------------------------------------------------
// Object keys
// ---------------------------------------------------------------------------

/// The storage segment of a partition.
pub open spec fn spec_segment(v: VisibilityView) -> Seq<char> {
    match v {
        VisibilityView::General => "general"@,
        VisibilityView::Tenant(t) => t,
        VisibilityView::User(u) => "user-"@ + u,
        VisibilityView::Archived => "archived"@,
    }
}

/// The object key of a page: `{prefix}/{segment}/pages/{slug}.md`.
pub open spec fn spec_object_key(prefix: Seq<char>, slug: Seq<char>, v: VisibilityView) -> Seq<char> {
    prefix + "/"@ + spec_segment(v) + "/pages/"@ + slug + ".md"@
}

fn segment(visibility: &Visibility) -> (r: String)
    ensures
        r@ == spec_segment(visibility@),
{
    match visibility {
        Visibility::General => String::from_str("general"),
        Visibility::Tenant(t) => t.0.clone(),
        Visibility::User(u) => concat2("user-", u.as_str()),
        Visibility::Archived => String::from_str("archived"),
    }
}

/// The object key of page `slug` stored in partition `visibility`.
pub fn object_key(prefix: &str, slug: &Slug, visibility: &Visibility) -> (r: String)
    ensures
        r@ == spec_object_key(prefix@, slug@, visibility@),
{
    let seg = segment(visibility);
    let mut r = concat3(prefix, "/", seg.as_str());
    append_str(&mut r, "/pages/");
    append_str(&mut r, slug.as_str());
    append_str(&mut r, ".md");
    r
}

/// The keys an unfiltered read tries first, in order: the page in the
/// general partition, then in the archive.
pub open spec fn spec_direct_keys(prefix: Seq<char>, slug: Seq<char>) -> Seq<Seq<char>> {
    seq![
        spec_object_key(prefix, slug, VisibilityView::General),
        spec_object_key(prefix, slug, VisibilityView::Archived),
    ]
}

/// The keys an unfiltered read of `slug` tries before scanning.
pub fn direct_keys(prefix: &str, slug: &Slug) -> (r: Vec<String>)
    ensures
        strs_view(r@) == spec_direct_keys(prefix@, slug@),
{
    let mut v: Vec<String> = Vec::new();
    v.push(object_key(prefix, slug, &Visibility::General));
    v.push(object_key(prefix, slug, &Visibility::Archived));
    assert(strs_view(v@) =~= spec_direct_keys(prefix@, slug@));
    v
}

/// Whether a scanned key holds page `slug` in some partition: it ends in
/// `/{slug}.md`.
pub fn key_names_page(key: &str, slug: &Slug) -> (r: bool)
    ensures
        r == has_suffix(key@, "/"@ + slug@ + ".md"@),
{
    let mut tail = concat2("/", slug.as_str());
    append_str(&mut tail, ".md");
    let k = chars_of(key);
    let t = chars_of(tail.as_str());
    ends_with(&k, &t)
}

/// The key prefixes a caller's listing reads: the general partition, each
/// visible tenant's, and the caller's own when authenticated.
pub open spec fn spec_list_prefixes(prefix: Seq<char>, c: ContextView) -> Seq<Seq<char>> {
    seq![prefix + "/general/pages/"@] + Seq::new(
        c.visible_tenants.len(),
        |i: int| prefix + "/"@ + c.visible_tenants[i] + "/pages/"@,
    ) + match ctx_user(c) {
        Some(u) => seq![prefix + "/user-"@ + u + "/pages/"@],
        None => Seq::empty(),
    }
}

/// The key prefixes a caller's listing reads.
pub fn list_prefix(prefix: &str, ctx: &TenantContext) -> (r: Vec<String>)
    ensures
        strs_view(r@) == spec_list_prefixes(prefix@, ctx@),
{
    let mut out: Vec<String> = Vec::new();
    out.push(concat2(prefix, "/general/pages/"));
    let n = ctx.visible_tenants.len();
    for i in 0..n
        invariant
            n == ctx.visible_tenants@.len(),
            out@.len() == i + 1,
            out@[0]@ == prefix@ + "/general/pages/"@,
            forall|k: int|
                0 <= k < i ==> (#[trigger] out@[k + 1])@ == prefix@ + "/"@ + ctx@.visible_tenants[k]
                    + "/pages/"@,
    {
        let mut p = concat3(prefix, "/", ctx.visible_tenants[i].0.as_str());
        append_str(&mut p, "/pages/");
        assert(ctx@.visible_tenants[i as int] == ctx.visible_tenants@[i as int]@);
        out.push(p);
    }
    let ghost mid = strs_view(out@);
    assert(mid =~= seq![prefix@ + "/general/pages/"@] + Seq::new(
        ctx@.visible_tenants.len(),
        |i: int| prefix@ + "/"@ + ctx@.visible_tenants[i] + "/pages/"@,
    )) by {
        assert forall|k: int| 1 <= k < mid.len() implies mid[k] == prefix@ + "/"@ + ctx@.visible_tenants[k - 1] + "/pages/"@ by {
            assert(out@[(k - 1) + 1] == out@[k]);
        }
    }
    match ctx.user_id() {
        Some(uid) => {
            let mut p = concat3(prefix, "/user-", uid);
            append_str(&mut p, "/pages/");
            out.push(p);
            assert(strs_view(out@) =~= mid.push(prefix@ + "/user-"@ + uid@ + "/pages/"@));
        },
        None => {},
    }
    assert(strs_view(out@) =~= spec_list_prefixes(prefix@, ctx@));
    out
}

// ---------------------------------------------------------------------------
// Lines
// ---------------------------------------------------------------------------

/// `s` without one trailing carriage return.
pub open spec fn strip_cr(s: Seq<char>) -> Seq<char> {
    if s.len() > 0 && s.last() == '\r' {
        s.drop_last()
    } else {
        s
    }
}

/// The lines of a text (`str::lines`): split at each `\n`, a `\r` before
/// the `\n` removed, and no empty last line after a final `\n`.
pub open spec fn spec_lines(s: Seq<char>) -> Seq<Seq<char>> {
    let p = crate::text::spec_split(s, '\n');
    let full = Seq::new((p.len() - 1) as nat, |i: int| strip_cr(p[i]));
    if p.last().len() > 0 {
        full.push(p.last())
    } else {
        full
    }
}

/// The lines of a text.
pub fn lines_of(s: &str) -> (r: Vec<Vec<char>>)
    ensures
        Seq::new(r@.len(), |i: int| r@[i]@) == spec_lines(s@),
{
    let cs = chars_of(s);
    let ghost p = crate::text::spec_split(s@, '\n');
    let pieces = crate::text::split_char(s, '\n');
    proof {
        crate::text::lemma_split_nonempty(s@, '\n');
    }
    let n = pieces.len();
    let mut out: Vec<Vec<char>> = Vec::new();
    for i in 0..n - 1
        invariant
            n == pieces@.len(),
            n >= 1,
            strs_view(pieces@) == p,
            out@.len() == i,
            forall|k: int| 0 <= k < i ==> (#[trigger] out@[k])@ == strip_cr(p[k]),
    {
        let mut line = chars_of(pieces[i].as_str());
        assert(line@ == p[i as int]);
        if line.len() > 0 && line[line.len() - 1] == '\r' {
            line.pop();
            assert(line@ =~= p[i as int].drop_last());
        }
        out.push(line);
    }
    let last = chars_of(pieces[n - 1].as_str());
    assert(last@ == p.last());
    let ghost full = Seq::new(out@.len(), |i: int| out@[i]@);
    assert(full =~= Seq::new((p.len() - 1) as nat, |i: int| strip_cr(p[i])));
    if last.len() > 0 {
        out.push(last);
        assert(Seq::new(out@.len(), |i: int| out@[i]@) =~= full.push(p.last()));
    }
    out
}

// ---------------------------------------------------------------------------
// Sections
// ---------------------------------------------------------------------------

/// The fence delimiter a (left-trimmed) line opens or closes with: three
/// backticks or three tildes.
pub open spec fn spec_fence(t: Seq<char>) -> Option<Seq<char>> {
    if has_prefix(t, seq!['`', '`', '`']) {
        Some(seq!['`', '`', '`'])
    } else if has_prefix(t, seq!['~', '~', '~']) {
        Some(seq!['~', '~', '~'])
    } else {
        None
    }
}

/// The fence delimiter a (left-trimmed) line opens or closes with.
pub fn fence_delim(trimmed_line: &Vec<char>) -> (r: Option<Vec<char>>)
    ensures
        match spec_fence(trimmed_line@) {
            Some(m) => r matches Some(x) && x@ == m,
            None => r is None,
        },
{
    let ticks: Vec<char> = vec!['`', '`', '`'];
    let tildes: Vec<char> = vec!['~', '~', '~'];
    assert(ticks@ =~= seq!['`', '`', '`']);
    assert(tildes@ =~= seq!['~', '~', '~']);
    if starts_with(trimmed_line, &ticks) {
        Some(ticks)
    } else if starts_with(trimmed_line, &tildes) {
        Some(tildes)
    } else {
        None
    }
}

/// The state of the section parser after some lines: the sections done,
/// the open section's heading and content so far, and the open fence.
pub struct ParseState {
    pub sections: Seq<SectionView>,
    pub heading: Option<Seq<char>>,
    pub content: Seq<char>,
    pub in_fence: bool,
    pub marker: Option<Seq<char>>,
}

/// The state before any line.
pub open spec fn parse_start() -> ParseState {
    ParseState {
        sections: Seq::empty(),
        heading: None,
        content: Seq::empty(),
        in_fence: false,
        marker: None,
    }
}

/// One line of the section parser. A fence line opens a fence, or closes
/// the open one when it is of the same kind, and is content. Outside a
/// fence, a line starting `## ` closes the open section (its content
/// trimmed) and opens a new one. Any other line is content of the open
/// section, if any.
pub open spec fn parse_step(st: ParseState, line: Seq<char>) -> ParseState {
    let t = spec_trim_start(line);
    let appended = if st.heading is Some {
        st.content + line + seq!['\n']
    } else {
        st.content
    };
    match spec_fence(t) {
        Some(m) => {
            let (inf, mk) = if st.in_fence {
                if st.marker == Some(m) {
                    (false, None::<Seq<char>>)
                } else {
                    (true, st.marker)
                }
            } else {
                (true, Some(m))
            };
            ParseState { sections: st.sections, heading: st.heading, content: appended, in_fence: inf, marker: mk }
        },
        None => if !st.in_fence && has_prefix(line, "## "@) {
            let h = line.subrange(3, line.len() as int);
            match st.heading {
                Some(hh) => ParseState {
                    sections: st.sections.push(SectionView { heading: hh, content: spec_trim(st.content) }),
                    heading: Some(h),
                    content: Seq::empty(),
                    in_fence: st.in_fence,
                    marker: st.marker,
                },
                None => ParseState {
                    sections: st.sections,
                    heading: Some(h),
                    content: st.content,
                    in_fence: st.in_fence,
                    marker: st.marker,
                },
            }
        } else {
            ParseState { sections: st.sections, heading: st.heading, content: appended, in_fence: st.in_fence, marker: st.marker }
        },
    }
}

/// The parser's state after the given lines.
pub open spec fn parse_run(lines: Seq<Seq<char>>) -> ParseState
    decreases lines.len(),
{
    if lines.len() == 0 {
        parse_start()
    } else {
        parse_step(parse_run(lines.drop_last()), lines.last())
    }
}

/// The sections of a Markdown body: those the parser closed, then the
/// open one.
pub open spec fn spec_parse_sections(markdown: Seq<char>) -> Seq<SectionView> {
    let st = parse_run(spec_lines(markdown));
    match st.heading {
        Some(h) => st.sections.push(SectionView { heading: h, content: spec_trim(st.content) }),
        None => st.sections,
    }
}

fn trimmed_string(cs: &Vec<char>) -> (r: String)
    ensures
        r@ == spec_trim(cs@),
{
    let t = trim_chars(cs);
    string_from_chars(t.as_slice())
}

fn trim_start_chars(cs: &Vec<char>) -> (r: Vec<char>)
    ensures
        r@ == spec_trim_start(cs@),
{
    let k = crate::text::leading_ws_count(cs);
    proof {
        crate::text::lemma_leading_ws(cs@);
    }
    let mut r: Vec<char> = Vec::new();
    let n = cs.len();
    for i in k..n
        invariant
            k <= n == cs@.len(),
            r@ == cs@.subrange(k as int, i as int),
    {
        r.push(cs[i]);
        assert(cs@.subrange(k as int, i + 1) =~= cs@.subrange(k as int, i as int).push(cs@[i as int]));
    }
    r
}

fn append_chars(s: &mut Vec<char>, t: &Vec<char>)
    ensures
        final(s)@ == old(s)@ + t@,
{
    let n = t.len();
    let ghost start = s@;
    for i in 0..n
        invariant
            n == t@.len(),
            s@ == start + t@.take(i as int),
    {
        s.push(t[i]);
        assert(start + t@.take(i + 1) =~= (start + t@.take(i as int)).push(t@[i as int]));
    }
    assert(t@.take(n as int) =~= t@);
}

/// Parses the sections of a Markdown body (see [`spec_parse_sections`]).
pub fn parse_sections(markdown: &str) -> (r: Vec<Section>)
    ensures
        sections_view(r@) == spec_parse_sections(markdown@),
{
    let lines = lines_of(markdown);
    let ghost ls = Seq::new(lines@.len(), |i: int| lines@[i]@);
    let mut sections: Vec<Section> = Vec::new();
    let mut heading: Option<Vec<char>> = None;
    let mut content: Vec<char> = Vec::new();
    let mut in_fence = false;
    let mut marker: Option<Vec<char>> = None;
    let hash_prefix: Vec<char> = vec!['#', '#', ' '];
    proof {
        reveal_strlit("## ");
    }
    assert(hash_prefix@ =~= "## "@);
    let n = lines.len();
    for i in 0..n
        invariant
            n == lines@.len(),
            ls == Seq::new(lines@.len(), |i: int| lines@[i]@),
            hash_prefix@ == "## "@,
            hash_prefix@.len() == 3,
            ({
                let st = parse_run(ls.take(i as int));
                &&& sections_view(sections@) == st.sections
                &&& match heading {
                    Some(h) => st.heading == Some(h@),
                    None => st.heading is None,
                }
                &&& content@ == st.content
                &&& in_fence == st.in_fence
                &&& match marker {
                    Some(m) => st.marker == Some(m@),
                    None => st.marker is None,
                }
            }),
    {
        let line = &lines[i];
        assert(ls.take(i + 1).drop_last() =~= ls.take(i as int));
        assert(ls.take(i + 1).last() == line@);
        let ghost st = parse_run(ls.take(i as int));
        let t = trim_start_chars(line);
        match fence_delim(&t) {
            Some(m) => {
                if in_fence {
                    let same = match &marker {
                        Some(cur) => crate::text::seq_eq(cur, &m),
                        None => false,
                    };
                    if same {
                        in_fence = false;
                        marker = None;
                    }
                } else {
                    in_fence = true;
                    marker = Some(m);
                }
                if heading.is_some() {
                    append_chars(&mut content, line);
                    content.push('\n');
                }
            },
            None => {
                if !in_fence && starts_with(line, &hash_prefix) {
                    let mut h: Vec<char> = Vec::new();
                    let len = line.len();
                    for k in 3..len
                        invariant
                            3 <= len == line@.len(),
                            h@ == line@.subrange(3, k as int),
                    {
                        h.push(line[k]);
                        assert(line@.subrange(3, k + 1) =~= line@.subrange(3, k as int).push(line@[k as int]));
                    }
                    match heading {
                        Some(prev) => {
                            let ghost before = sections_view(sections@);
                            let sec = Section {
                                heading: string_from_chars(prev.as_slice()),
                                content: trimmed_string(&content),
                            };
                            sections.push(sec);
                            assert(sections_view(sections@) =~= before.push(
                                SectionView { heading: prev@, content: spec_trim(content@) },
                            ));
                            content = Vec::new();
                        },
                        None => {},
                    }
                    heading = Some(h);
                } else if heading.is_some() {
                    append_chars(&mut content, line);
                    content.push('\n');
                }
            },
        }
    }
    assert(ls.take(n as int) =~= ls);
    match heading {
        Some(h) => {
            let ghost before = sections_view(sections@);
            let sec = Section { heading: string_from_chars(h.as_slice()), content: trimmed_string(&content) };
            sections.push(sec);
            assert(sections_view(sections@) =~= before.push(
                SectionView { heading: h@, content: spec_trim(content@) },
            ));
        },
        None => {},
    }
    sections
}

/// The Markdown body of sections: `## heading`, a blank line, the content
/// and a blank line, for each.
pub open spec fn spec_render_sections(ss: Seq<SectionView>) -> Seq<char>
    decreases ss.len(),
{
    if ss.len() == 0 {
        Seq::empty()
    } else {
        spec_render_sections(ss.drop_last()) + "## "@ + ss.last().heading + "\n\n"@
            + ss.last().content + "\n\n"@
    }
}

/// Renders sections as a Markdown body.
pub fn render_sections(sections: &Vec<Section>) -> (r: String)
    ensures
        r@ == spec_render_sections(sections_view(sections@)),
{
    let ghost ss = sections_view(sections@);
    let mut body = String::new();
    let n = sections.len();
    for i in 0..n
        invariant
            n == sections@.len(),
            ss == sections_view(sections@),
            body@ == spec_render_sections(ss.take(i as int)),
    {
        let s = &sections[i];
        append_str(&mut body, "## ");
        append_str(&mut body, s.heading.as_str());
        append_str(&mut body, "\n\n");
        append_str(&mut body, s.content.as_str());
        append_str(&mut body, "\n\n");
        assert(ss.take(i + 1).drop_last() =~= ss.take(i as int));
        assert(ss.take(i + 1).last() == s@);
    }
    assert(ss.take(n as int) =~= ss);
    body
}

// ---------------------------------------------------------------------------
// The stored document
// ---------------------------------------------------------------------------

/// The stored document: `---`, the front matter, `---`, then the body.
pub open spec fn spec_document(front_matter: Seq<char>, body: Seq<char>) -> Seq<char> {
    "---\n"@ + front_matter + "\n---\n"@ + body
}

/// The stored document of a page whose front matter is already rendered.
pub fn frame_document(front_matter: &str, sections: &Vec<Section>) -> (r: String)
    ensures
        r@ == spec_document(front_matter@, spec_render_sections(sections_view(sections@))),
{
    let body = render_sections(sections);
    let mut r = concat3("---\n", front_matter, "\n---\n");
    append_str(&mut r, body.as_str());
    r
}

/// Where the first `\n---\n` starts in `s`, if anywhere.
pub open spec fn first_separator(s: Seq<char>) -> Option<int> {
    if exists|k: int| 0 <= k && k + 5 <= s.len() && #[trigger] s.subrange(k, k + 5) == "\n---\n"@ {
        Some(
            choose|k: int|
                0 <= k && k + 5 <= s.len() && #[trigger] s.subrange(k, k + 5) == "\n---\n"@
                    && forall|j: int| 0 <= j < k ==> #[trigger] s.subrange(j, j + 5) != "\n---\n"@,
        )
    } else {
        None
    }
}

/// Splits a stored document into its front matter and its Markdown body:
/// it must start with `---\n`, and the front matter ends at the first
/// `\n---\n`.
pub fn split_document(raw: &str) -> (r: Result<(String, String), MindPalaceError>)
    ensures
        if !has_prefix(raw@, "---\n"@) {
            r matches Err(e) && e@ == ErrorView::Serialization("missing frontmatter start"@)
        } else {
            let rest = raw@.subrange(4, raw@.len() as int);
            match first_separator(rest) {
                None => (r matches Err(e) && e@ == ErrorView::Serialization("missing frontmatter end"@)),
                Some(k) => (r matches Ok((fm, md)) && fm@ == rest.subrange(0, k) && md@ == rest.subrange(k + 5, rest.len() as int)),
            }
        },
{
    let cs = chars_of(raw);
    let start: Vec<char> = vec!['-', '-', '-', '\n'];
    proof {
        reveal_strlit("---\n");
        reveal_strlit("\n---\n");
    }
    assert(start@ =~= "---\n"@);
    if !starts_with(&cs, &start) {
        return Err(MindPalaceError::Serialization(String::from_str("missing frontmatter start")));
    }
    let ghost rest = raw@.subrange(4, raw@.len() as int);
    let n = cs.len();
    let ghost sep: Seq<char> = "\n---\n"@;
    let mut k: usize = 4;
    while k < n && n - k >= 5
        invariant
            4 <= k,
            n == cs@.len(),
            cs@ == raw@,
            rest == raw@.subrange(4, raw@.len() as int),
            sep == "\n---\n"@,
            has_prefix(raw@, "---\n"@),
            k <= n + 1,
            forall|j: int| 0 <= j < k - 4 ==> #[trigger] rest.subrange(j, j + 5) != sep,
        decreases n + 1 - k,
    {
        proof {
            reveal_strlit("\n---\n");
        }
        if cs[k] == '\n' && cs[k + 1] == '-' && cs[k + 2] == '-' && cs[k + 3] == '-' && cs[k + 4] == '\n' {
            let ghost kk = (k - 4) as int;
            assert(rest.subrange(kk, kk + 5) =~= sep);
            proof {
                assert(0 <= kk && kk + 5 <= rest.len() && rest.subrange(kk, kk + 5) == sep
                    && forall|j: int| 0 <= j < kk ==> #[trigger] rest.subrange(j, j + 5) != sep);
                let c = choose|c: int|
                    0 <= c && c + 5 <= rest.len() && #[trigger] rest.subrange(c, c + 5) == sep
                        && forall|j: int| 0 <= j < c ==> #[trigger] rest.subrange(j, j + 5) != sep;
                if c < kk {
                    assert(rest.subrange(c, c + 5) != sep);
                } else if c > kk {
                    assert(rest.subrange(kk, kk + 5) != sep);
                }
                assert(first_separator(rest) == Some(kk));
            }
            let mut fm: Vec<char> = Vec::new();
            for i in 4..k
                invariant
                    4 <= k <= n,
                    n == cs@.len(),
                    fm@ == cs@.subrange(4, i as int),
            {
                fm.push(cs[i]);
                assert(cs@.subrange(4, i + 1) =~= cs@.subrange(4, i as int).push(cs@[i as int]));
            }
            let mut md: Vec<char> = Vec::new();
            for i in k + 5..n
                invariant
                    k + 5 <= n == cs@.len(),
                    md@ == cs@.subrange(k + 5, i as int),
            {
                md.push(cs[i]);
                assert(cs@.subrange(k + 5, i + 1) =~= cs@.subrange(k + 5, i as int).push(cs@[i as int]));
            }
            assert(fm@ =~= rest.subrange(0, kk));
            assert(md@ =~= rest.subrange(kk + 5, rest.len() as int));
            return Ok((string_from_chars(fm.as_slice()), string_from_chars(md.as_slice())));
        }
        proof {
            let kk = (k - 4) as int;
            if rest.subrange(kk, kk + 5) == sep {
                assert(rest.subrange(kk, kk + 5)[0] == cs@[k as int]);
                assert(rest.subrange(kk, kk + 5)[1] == cs@[k + 1]);
                assert(rest.subrange(kk, kk + 5)[2] == cs@[k + 2]);
                assert(rest.subrange(kk, kk + 5)[3] == cs@[k + 3]);
                assert(rest.subrange(kk, kk + 5)[4] == cs@[k + 4]);
            }
        }
        k = k + 1;
    }
    assert(first_separator(rest) is None) by {
        if exists|c: int| 0 <= c && c + 5 <= rest.len() && #[trigger] rest.subrange(c, c + 5) == sep {
            let c = choose|c: int| 0 <= c && c + 5 <= rest.len() && #[trigger] rest.subrange(c, c + 5) == sep;
            assert(c < k - 4);
        }
    }
    Err(MindPalaceError::Serialization(String::from_str("missing frontmatter end")))
}

/// The front matter of a stored page: every field but the sections, as
/// plain values. An absent access model (pages written before access
/// control) is migrated from the storage partition on load.
#[derive(Debug, Clone)]
pub struct FrontMatter {
    pub id: u128,
    pub slug: String,
    pub title: String,
    pub summary: String,
    pub page_type: PageType,
    pub visibility: Visibility,
    pub access: Option<PageAccess>,
    pub secret_refs: Vec<SecretRef>,
    pub parent: Option<String>,
    pub version: u32,
    pub created_at: Timestamp,
    pub updated_at: Timestamp,
    pub links: Vec<String>,
    pub toc: TableOfContents,
}

/// The front matter of a page.
pub fn front_matter_of(page: &Page) -> (r: FrontMatter)
    ensures
        r.id == page@.id,
        r.slug@ == page@.slug,
        r.title@ == page@.title,
        r.summary@ == page@.summary,
        r.page_type == page@.page_type,
        r.visibility@ == page@.visibility,
        r.access matches Some(a) && a@ == page@.access,
        refs_view(r.secret_refs@) == page@.secret_refs,
        ostr(r.parent) == page@.parent,
        r.version == page@.version,
        r.created_at == page@.created_at,
        r.updated_at == page@.updated_at,
        strs_view(r.links@) == page@.links,
        r.toc@ == page@.toc,
{
    let mut links: Vec<String> = Vec::new();
    let n = page.links.len();
    for i in 0..n
        invariant
            n == page.links@.len(),
            links@.len() == i,
            forall|k: int| 0 <= k < i ==> (#[trigger] links@[k])@ == page.links@[k]@,
    {
        links.push(copy_str(page.links[i].as_str()));
    }
    assert(strs_view(links@) =~= page@.links);
    FrontMatter {
        id: page.id.0,
        slug: copy_str(page.slug.as_str()),
        title: page.title.clone(),
        summary: page.summary.clone(),
        page_type: page.page_type,
        visibility: page.visibility.duplicate(),
        access: Some(page.access.duplicate()),
        secret_refs: duplicate_refs(&page.secret_refs),
        parent: match &page.parent {
            Some(p) => Some(copy_str(p.as_str())),
            None => None,
        },
        version: page.version,
        created_at: page.created_at,
        updated_at: page.updated_at,
        links,
        toc: page.toc.duplicate(),
    }
}

/// The index of the first string that is not a valid slug, if any.
pub open spec fn first_bad_slug(v: Seq<Seq<char>>) -> Option<int>
    decreases v.len(),
{
    if v.len() == 0 {
        None
    } else if slug_error_of(v[0]) is Some {
        Some(0)
    } else {
        match first_bad_slug(v.drop_first()) {
            Some(i) => Some(i + 1),
            None => None,
        }
    }
}

proof fn lemma_first_bad_slug(v: Seq<Seq<char>>)
    ensures
        match first_bad_slug(v) {
            Some(i) => 0 <= i < v.len() && slug_error_of(v[i]) is Some && forall|j: int|
                0 <= j < i ==> slug_error_of(#[trigger] v[j]) is None,
            None => forall|j: int| 0 <= j < v.len() ==> slug_error_of(#[trigger] v[j]) is None,
        },
    decreases v.len(),
{
    if v.len() > 0 && slug_error_of(v[0]) is None {
        lemma_first_bad_slug(v.drop_first());
        assert forall|j: int| 1 <= j < v.len() implies v[j] == v.drop_first()[j - 1] by {}
    }
}

/// The error loading a page reports, if any: an invalid slug, then the
/// first invalid link, then an invalid parent.
pub open spec fn load_error(fm: FrontMatter) -> Option<SlugError> {
    if slug_error_of(fm.slug@) is Some {
        slug_error_of(fm.slug@)
    } else {
        match first_bad_slug(strs_view(fm.links@)) {
            Some(i) => slug_error_of(strs_view(fm.links@)[i]),
            None => match fm.parent {
                Some(p) => slug_error_of(p@),
                None => None,
            },
        }
    }
}

/// Checks a list of slugs, stopping at the first invalid one.
fn parse_slugs(v: &Vec<String>) -> (r: Result<Vec<Slug>, SlugError>)
    ensures
        match first_bad_slug(strs_view(v@)) {
            Some(i) => r matches Err(e) && slug_error_of(strs_view(v@)[i]) == Some(e),
            None => r matches Ok(out) && slugs_view(out@) == strs_view(v@),
        },
{
    proof {
        lemma_first_bad_slug(strs_view(v@));
    }
    let mut out: Vec<Slug> = Vec::new();
    let n = v.len();
    for i in 0..n
        invariant
            n == v@.len(),
            out@.len() == i,
            forall|k: int| 0 <= k < i ==> (#[trigger] out@[k])@ == v@[k]@,
            forall|k: int| 0 <= k < i ==> slug_error_of(#[trigger] strs_view(v@)[k]) is None,
    {
        match Slug::new(v[i].as_str()) {
            Ok(s) => {
                out.push(s);
            },
            Err(e) => {
                proof {
                    lemma_first_bad_slug(strs_view(v@));
                    match first_bad_slug(strs_view(v@)) {
                        Some(j) => {
                            if j < i {
                            } else if j > i {
                                assert(slug_error_of(strs_view(v@)[i as int]) is Some);
                            }
                        },
                        None => {
                            assert(slug_error_of(strs_view(v@)[i as int]) is Some);
                        },
                    }
                }
                return Err(e);
            },
        }
    }
    assert(slugs_view(out@) =~= strs_view(v@));
    Ok(out)
}

/// A page from its front matter and Markdown body: the slug, the links and
/// the parent must be valid slugs (else a serialization error with the slug
/// error's text); the sections are parsed from the body; an absent access
/// model is migrated from the storage partition.
pub fn assemble_page(fm: FrontMatter, markdown: &str) -> (r: Result<Page, MindPalaceError>)
    ensures
        match load_error(fm) {
            Some(e) => r matches Err(x) && x@ == ErrorView::Serialization(slug_error_text(e)),
            None => r matches Ok(p) && {
                &&& p@.id == fm.id
                &&& p@.slug == fm.slug@
                &&& p@.title == fm.title@
                &&& p@.summary == fm.summary@
                &&& p@.page_type == fm.page_type
                &&& p@.visibility == fm.visibility@
                &&& p@.access == match fm.access {
                    Some(a) => a@,
                    None => spec_access_from_visibility(fm.visibility@),
                }
                &&& p@.secret_refs == refs_view(fm.secret_refs@)
                &&& p@.parent == ostr(fm.parent)
                &&& p@.version == fm.version
                &&& p@.created_at == fm.created_at
                &&& p@.updated_at == fm.updated_at
                &&& p@.links == strs_view(fm.links@)
                &&& p@.toc == fm.toc@
                &&& p@.sections == spec_parse_sections(markdown@)
            },
        },
{
    let slug = match Slug::new(fm.slug.as_str()) {
        Ok(s) => s,
        Err(e) => return Err(MindPalaceError::Serialization(copy_str(e.message()))),
    };
    let links = match parse_slugs(&fm.links) {
        Ok(l) => l,
        Err(e) => return Err(MindPalaceError::Serialization(copy_str(e.message()))),
    };
    let parent = match &fm.parent {
        Some(p) => match Slug::new(p.as_str()) {
            Ok(s) => Some(s),
            Err(e) => return Err(MindPalaceError::Serialization(copy_str(e.message()))),
        },
        None => None,
    };
    let access = match &fm.access {
        Some(a) => a.duplicate(),
        None => PageAccess::from_visibility(&fm.visibility),
    };
    let sections = parse_sections(markdown);
    Ok(
        Page {
            id: PageId(fm.id),
            slug,
            title: fm.title,
            summary: fm.summary,
            toc: fm.toc,
            sections,
            page_type: fm.page_type,
            visibility: fm.visibility,
            access,
            secret_refs: fm.secret_refs,
            version: fm.version,
            created_at: fm.created_at,
            updated_at: fm.updated_at,
            links,
            parent,
        },
    )
}

/// The value of an optional string.
pub open spec fn ostr(o: Option<String>) -> Option<Seq<char>> {
    match o {
        Some(s) => Some(s@),
        None => None,
    }
}

// ---------------------------------------------------------------------------
// What is stored is what is read back
// ---------------------------------------------------------------------------

/// Appending text without separators extends the last piece.
proof fn lemma_split_append_plain(s: Seq<char>, t: Seq<char>, sep: char)
    requires
        !t.contains(sep),
    ensures
        crate::text::spec_split(s + t, sep) == crate::text::spec_split(s, sep).update(
            crate::text::spec_split(s, sep).len() - 1,
            crate::text::spec_split(s, sep).last() + t,
        ),
    decreases t.len(),
{
    crate::text::lemma_split_nonempty(s, sep);
    if t.len() == 0 {
        assert(s + t =~= s);
        let p = crate::text::spec_split(s, sep);
        assert(p.last() + t =~= p.last());
        assert(p.update(p.len() - 1, p.last()) =~= p);
    } else {
        let t0 = t.drop_last();
        assert(!t0.contains(sep)) by {
            if t0.contains(sep) {
                let i = choose|i: int| 0 <= i < t0.len() && t0[i] == sep;
                assert(t[i] == sep);
            }
        }
        lemma_split_append_plain(s, t0, sep);
        assert((s + t).drop_last() =~= s + t0);
        assert((s + t).last() == t.last());
        assert(t.last() != sep) by {
            assert(t[t.len() - 1] == t.last());
        }
        let p = crate::text::spec_split(s, sep);
        let q = crate::text::spec_split(s + t0, sep);
        crate::text::lemma_split_nonempty(s + t0, sep);
        assert(q.last() == p.last() + t0);
        assert((p.last() + t0).push(t.last()) =~= p.last() + t);
        assert(q.update(q.len() - 1, q.last().push(t.last())) =~= p.update(p.len() - 1, p.last() + t));
    }
}

/// Appending a line and its separator closes the last piece and opens an
/// empty one.
proof fn lemma_split_append_line(s: Seq<char>, t: Seq<char>, sep: char)
    requires
        !t.contains(sep),
    ensures
        crate::text::spec_split(s + t + seq![sep], sep) == crate::text::spec_split(s, sep).update(
            crate::text::spec_split(s, sep).len() - 1,
            crate::text::spec_split(s, sep).last() + t,
        ).push(Seq::empty()),
{
    lemma_split_append_plain(s, t, sep);
    assert((s + t + seq![sep]).drop_last() =~= s + t);
    assert((s + t + seq![sep]).last() == sep);
}

/// A trimmed string has no white space at either end.
proof fn lemma_trimmed_ends(c: Seq<char>)
    requires
        spec_trim(c) == c,
        c.len() > 0,
    ensures
        !crate::text::spec_is_whitespace(c[0]),
        !crate::text::spec_is_whitespace(c.last()),
{
    crate::text::lemma_leading_ws(c);
    let t = spec_trim_start(c);
    crate::text::lemma_trailing_ws(t);
    assert(t.len() == c.len() - crate::text::leading_ws(c));
    assert(spec_trim(c).len() <= t.len());
    assert(crate::text::leading_ws(c) == 0);
    assert(t =~= c);
    assert(crate::text::trailing_ws(c) == 0) by {
        assert(spec_trim(c).len() == c.len() - crate::text::trailing_ws(t));
    }
}

/// Leading white space of a string that starts with a non-blank.
proof fn lemma_leading_ws_nonblank(c: Seq<char>, tail: Seq<char>)
    requires
        c.len() > 0,
        !crate::text::spec_is_whitespace(c[0]),
    ensures
        crate::text::leading_ws(c + tail) == 0,
{
    assert((c + tail)[0] == c[0]);
}

/// The content a parsed section accumulates, trimmed, is the section's
/// trimmed content.
proof fn lemma_trim_framed(c: Seq<char>)
    requires
        spec_trim(c) == c,
    ensures
        spec_trim(seq!['\n'] + c + seq!['\n', '\n']) == c,
{
    let x = seq!['\n'] + c + seq!['\n', '\n'];
    assert(crate::text::spec_is_whitespace('\n'));
    if c.len() == 0 {
        assert(x =~= seq!['\n', '\n', '\n']);
        crate::text::lemma_trim_empty(x);
        assert(crate::text::all_ws(x));
        assert(spec_trim(x).len() == 0);
        assert(spec_trim(x) =~= c);
    } else {
        lemma_trimmed_ends(c);
        let rest = c + seq!['\n', '\n'];
        assert(x.drop_first() =~= rest);
        lemma_leading_ws_nonblank(c, seq!['\n', '\n']);
        assert(crate::text::leading_ws(x) == 1);
        let t = spec_trim_start(x);
        assert(t =~= rest);
        assert(rest.drop_last() =~= c + seq!['\n']);
        assert((c + seq!['\n']).drop_last() =~= c);
        assert(crate::text::trailing_ws(c) == 0) by {
            assert(c.last() == c[c.len() - 1]);
        }
        assert(crate::text::trailing_ws(c + seq!['\n']) == 1);
        assert(crate::text::trailing_ws(rest) == 2);
        assert(spec_trim(x) =~= c);
    }
}

/// The parser's state after the lines of stored sections: all but the last
/// section done, the last open with its content framed by line breaks.
pub open spec fn state_after(ss: Seq<SectionView>) -> ParseState {
    if ss.len() == 0 {
        parse_start()
    } else {
        ParseState {
            sections: ss.drop_last(),
            heading: Some(ss.last().heading),
            content: seq!['\n'] + ss.last().content + seq!['\n', '\n'],
            in_fence: false,
            marker: None,
        }
    }
}

// ---------------------------------------------------------------------------
// Read-back of multi-line and fenced sections
// ---------------------------------------------------------------------------

/// Splitting a concatenation: the pieces of `s` but its last, the last
/// piece of `s` joined to the first of `t`, then the other pieces of `t`.
proof fn lemma_split_concat(s: Seq<char>, t: Seq<char>, sep: char)
    ensures
        crate::text::spec_split(s + t, sep) == crate::text::spec_split(s, sep).drop_last() + seq![
            crate::text::spec_split(s, sep).last() + crate::text::spec_split(t, sep)[0],
        ] + crate::text::spec_split(t, sep).drop_first(),
    decreases t.len(),
{
    let ps = crate::text::spec_split(s, sep);
    crate::text::lemma_split_nonempty(s, sep);
    if t.len() == 0 {
        assert(s + t =~= s);
        assert(crate::text::spec_split(t, sep) =~= seq![Seq::<char>::empty()]);
        assert(ps.last() + Seq::<char>::empty() =~= ps.last());
        assert(ps.drop_last() + seq![ps.last()] + seq![Seq::<char>::empty()].drop_first() =~= ps);
    } else {
        let t0 = t.drop_last();
        let x = t.last();
        lemma_split_concat(s, t0, sep);
        crate::text::lemma_split_nonempty(t0, sep);
        let pt0 = crate::text::spec_split(t0, sep);
        let pt = crate::text::spec_split(t, sep);
        let q = crate::text::spec_split(s + t0, sep);
        assert((s + t).drop_last() =~= s + t0);
        assert((s + t).last() == x);
        assert(t.drop_last() =~= t0);
        if x == sep {
            assert(pt == pt0.push(Seq::<char>::empty()));
            assert(pt[0] == pt0[0]);
            assert(pt.drop_first() =~= pt0.drop_first().push(Seq::<char>::empty()));
            assert(crate::text::spec_split(s + t, sep) == q.push(Seq::<char>::empty()));
            assert(q.push(Seq::<char>::empty()) =~= ps.drop_last() + seq![ps.last() + pt[0]] + pt.drop_first());
        } else {
            assert(pt == pt0.update(pt0.len() - 1, pt0.last().push(x)));
            crate::text::lemma_split_nonempty(s + t0, sep);
            assert(crate::text::spec_split(s + t, sep) == q.update(q.len() - 1, q.last().push(x)));
            if pt0.len() == 1 {
                assert(pt[0] == pt0[0].push(x));
                assert(pt.drop_first() =~= Seq::<Seq<char>>::empty());
                assert(q =~= ps.drop_last() + seq![ps.last() + pt0[0]]);
                assert((ps.last() + pt0[0]).push(x) =~= ps.last() + pt[0]);
                assert(q.update(q.len() - 1, q.last().push(x)) =~= ps.drop_last() + seq![ps.last() + pt[0]]
                    + pt.drop_first());
            } else {
                assert(pt[0] == pt0[0]);
                assert(pt.drop_first() =~= pt0.drop_first().update(
                    pt0.len() - 2,
                    pt0.last().push(x),
                ));
                assert(q.update(q.len() - 1, q.last().push(x)) =~= ps.drop_last() + seq![ps.last() + pt[0]]
                    + pt.drop_first());
            }
        }
    }
}

/// The fence state after some content lines: whether a fence is open, and
/// its marker (see [`parse_step`]).
pub open spec fn fence_after(lines: Seq<Seq<char>>) -> (bool, Option<Seq<char>>)
    decreases lines.len(),
{
    if lines.len() == 0 {
        (false, None)
    } else {
        let (inf, mk) = fence_after(lines.drop_last());
        match spec_fence(spec_trim_start(lines.last())) {
            Some(m) => if inf {
                if mk == Some(m) {
                    (false, None)
                } else {
                    (true, mk)
                }
            } else {
                (true, Some(m))
            },
            None => (inf, mk),
        }
    }
}

/// Lines the parser keeps as content: none ends in a carriage return, and
/// none outside a fence starts a heading.
pub open spec fn content_lines_ok(lines: Seq<Seq<char>>) -> bool
    decreases lines.len(),
{
    lines.len() == 0 || {
        &&& content_lines_ok(lines.drop_last())
        &&& !(lines.last().len() > 0 && lines.last().last() == '\r')
        &&& (spec_fence(spec_trim_start(lines.last())) is None && !fence_after(lines.drop_last()).0)
            ==> !has_prefix(lines.last(), "## "@)
    }
}

/// A section that survives storage as it is: a one-line heading, and
/// trimmed content of any number of lines that the parser keeps as content
/// and that closes every code fence it opens.
pub open spec fn stored_section(s: SectionView) -> bool {
    &&& !s.heading.contains('\n')
    &&& !(s.heading.len() > 0 && s.heading.last() == '\r')
    &&& spec_trim(s.content) == s.content
    &&& content_lines_ok(crate::text::spec_split(s.content, '\n'))
    &&& fence_after(crate::text::spec_split(s.content, '\n')) == (false, None::<Seq<char>>)
}

/// Lines, each followed by a line break.
pub open spec fn joined(lines: Seq<Seq<char>>) -> Seq<char>
    decreases lines.len(),
{
    if lines.len() == 0 {
        Seq::empty()
    } else {
        joined(lines.drop_last()) + lines.last() + seq!['\n']
    }
}

/// The lines a rendered list of sections consists of: for each, its
/// heading line, a blank line, the lines of its content, a blank line.
pub open spec fn stored_lines(ss: Seq<SectionView>) -> Seq<Seq<char>>
    decreases ss.len(),
{
    if ss.len() == 0 {
        Seq::empty()
    } else {
        stored_lines(ss.drop_last()) + seq!["## "@ + ss.last().heading, Seq::<char>::empty()]
            + crate::text::spec_split(ss.last().content, '\n') + seq![Seq::<char>::empty()]
    }
}

/// The lines of a text, each followed by a line break, give the text and a
/// line break.
proof fn lemma_joined_split(c: Seq<char>)
    ensures
        joined(crate::text::spec_split(c, '\n')) == c + seq!['\n'],
    decreases c.len(),
{
    if c.len() == 0 {
        assert(crate::text::spec_split(c, '\n') =~= seq![Seq::<char>::empty()]);
        let l = seq![Seq::<char>::empty()];
        assert(l.drop_last() =~= Seq::<Seq<char>>::empty());
        assert(joined(l.drop_last()) =~= Seq::<char>::empty());
        assert(joined(l) == joined(l.drop_last()) + l.last() + seq!['\n']);
        assert(joined(l) =~= c + seq!['\n']);
    } else {
        let d = c.drop_last();
        let x = c.last();
        lemma_joined_split(d);
        crate::text::lemma_split_nonempty(d, '\n');
        let r = crate::text::spec_split(d, '\n');
        assert(d.push(x) =~= c);
        if x == '\n' {
            let l = r.push(Seq::<char>::empty());
            assert(l.drop_last() =~= r);
            assert(joined(l) =~= c + seq!['\n']);
        } else {
            let l = r.update(r.len() - 1, r.last().push(x));
            assert(l.drop_last() =~= r.drop_last());
            assert(joined(r) == joined(r.drop_last()) + r.last() + seq!['\n']);
            assert(joined(r.drop_last()) + r.last() =~= d) by {
                assert(joined(r.drop_last()) + r.last() + seq!['\n'] =~= d + seq!['\n']);
                assert((joined(r.drop_last()) + r.last() + seq!['\n']).drop_last() =~= joined(r.drop_last()) + r.last());
                assert((d + seq!['\n']).drop_last() =~= d);
            }
            assert(joined(l) =~= c + seq!['\n']);
        }
    }
}

/// Parsing content lines inside an open section appends each with a line
/// break, and tracks the fences.
proof fn lemma_parse_content(pre: Seq<Seq<char>>, lines: Seq<Seq<char>>)
    requires
        parse_run(pre).heading is Some,
        !parse_run(pre).in_fence,
        parse_run(pre).marker is None,
        content_lines_ok(lines),
    ensures
        parse_run(pre + lines) == (ParseState {
            sections: parse_run(pre).sections,
            heading: parse_run(pre).heading,
            content: parse_run(pre).content + joined(lines),
            in_fence: fence_after(lines).0,
            marker: fence_after(lines).1,
        }),
    decreases lines.len(),
{
    let st0 = parse_run(pre);
    if lines.len() == 0 {
        assert(pre + lines =~= pre);
        assert(st0.content + joined(lines) =~= st0.content);
    } else {
        let l0 = lines.drop_last();
        lemma_parse_content(pre, l0);
        assert((pre + lines).drop_last() =~= pre + l0);
        assert((pre + lines).last() == lines.last());
        let st = parse_run(pre + l0);
        assert(st0.content + joined(l0) + lines.last() + seq!['\n'] =~= st0.content + joined(lines));
    }
}

/// Content lines the parser keeps end in no carriage return.
proof fn lemma_content_lines_no_cr(lines: Seq<Seq<char>>)
    requires
        content_lines_ok(lines),
    ensures
        forall|i: int| 0 <= i < lines.len() ==> strip_cr(#[trigger] lines[i]) == lines[i],
    decreases lines.len(),
{
    if lines.len() > 0 {
        lemma_content_lines_no_cr(lines.drop_last());
        assert forall|i: int| 0 <= i < lines.len() implies strip_cr(#[trigger] lines[i]) == lines[i] by {
            if i < lines.len() - 1 {
                assert(lines[i] == lines.drop_last()[i]);
            }
        }
    }
}

/// Splitting a rendered list of stored sections at line breaks gives its
/// lines and an empty last piece.
proof fn lemma_render_split_stored(ss: Seq<SectionView>)
    requires
        forall|i: int| 0 <= i < ss.len() ==> stored_section(#[trigger] ss[i]),
    ensures
        crate::text::spec_split(spec_render_sections(ss), '\n') == stored_lines(ss).push(
            Seq::<char>::empty(),
        ),
    decreases ss.len(),
{
    reveal_strlit("## ");
    reveal_strlit("\n\n");
    if ss.len() == 0 {
        assert(spec_render_sections(ss) =~= Seq::<char>::empty());
        assert(stored_lines(ss).push(Seq::<char>::empty()) =~= seq![Seq::<char>::empty()]);
    } else {
        let prev = ss.drop_last();
        assert forall|i: int| 0 <= i < prev.len() implies stored_section(#[trigger] prev[i]) by {
            assert(prev[i] == ss[i]);
        }
        lemma_render_split_stored(prev);
        let sec = ss.last();
        assert(stored_section(ss[ss.len() - 1]));
        let r0 = spec_render_sections(prev);
        let h = "## "@ + sec.heading;
        let c = sec.content;
        let e = Seq::<char>::empty();
        assert(!h.contains('\n')) by {
            if h.contains('\n') {
                let i = choose|i: int| 0 <= i < h.len() && h[i] == '\n';
                if i >= 3 {
                    assert(sec.heading[i - 3] == '\n');
                }
            }
        }
        assert(!e.contains('\n'));
        let s1 = r0 + h + seq!['\n'];
        let s2 = s1 + e + seq!['\n'];
        let s2c = s2 + c;
        let s3 = s2c + seq!['\n'];
        let s4 = s3 + e + seq!['\n'];
        assert(spec_render_sections(ss) =~= s4);
        lemma_split_append_line(r0, h, '\n');
        let p0 = stored_lines(prev).push(e);
        assert(p0.last() + h =~= h);
        assert(crate::text::spec_split(s1, '\n') =~= stored_lines(prev).push(h).push(e));
        lemma_split_append_line(s1, e, '\n');
        let p2 = stored_lines(prev).push(h).push(e).push(e);
        assert(crate::text::spec_split(s2, '\n') =~= p2);
        lemma_split_concat(s2, c, '\n');
        let pc = crate::text::spec_split(c, '\n');
        crate::text::lemma_split_nonempty(c, '\n');
        assert(p2.last() + pc[0] =~= pc[0]);
        assert(crate::text::spec_split(s2c, '\n') =~= stored_lines(prev).push(h).push(e) + pc) by {
            assert(p2.drop_last() + seq![pc[0]] + pc.drop_first() =~= stored_lines(prev).push(h).push(e) + pc);
        }
        assert(s3.drop_last() =~= s2c);
        assert(s3.last() == '\n');
        assert(crate::text::spec_split(s3, '\n') == crate::text::spec_split(s2c, '\n').push(e));
        assert(s4 =~= s3 + seq!['\n']);
        assert(s4.drop_last() =~= s3);
        assert(crate::text::spec_split(s4, '\n') == crate::text::spec_split(s3, '\n').push(e));
        assert(stored_lines(ss) =~= stored_lines(prev) + seq![h, e] + pc + seq![e]);
        assert(crate::text::spec_split(s4, '\n') =~= stored_lines(ss).push(e));
    }
}

/// None of the lines of stored sections ends in a carriage return.
proof fn lemma_stored_lines_no_cr(ss: Seq<SectionView>)
    requires
        forall|i: int| 0 <= i < ss.len() ==> stored_section(#[trigger] ss[i]),
    ensures
        forall|i: int|
            0 <= i < stored_lines(ss).len() ==> strip_cr(#[trigger] stored_lines(ss)[i])
                == stored_lines(ss)[i],
    decreases ss.len(),
{
    reveal_strlit("## ");
    if ss.len() > 0 {
        let prev = ss.drop_last();
        assert forall|i: int| 0 <= i < prev.len() implies stored_section(#[trigger] prev[i]) by {
            assert(prev[i] == ss[i]);
        }
        lemma_stored_lines_no_cr(prev);
        assert(stored_section(ss[ss.len() - 1]));
        let sec = ss.last();
        let h = "## "@ + sec.heading;
        assert(h.last() != '\r') by {
            if sec.heading.len() > 0 {
                assert(h.last() == sec.heading.last());
            } else {
                assert(h.last() == ' ');
            }
        }
        let pc = crate::text::spec_split(sec.content, '\n');
        lemma_content_lines_no_cr(pc);
        let e = Seq::<char>::empty();
        let l = stored_lines(ss);
        let lp = stored_lines(prev);
        assert(l =~= lp + seq![h, e] + pc + seq![e]);
        assert forall|i: int| 0 <= i < l.len() implies strip_cr(#[trigger] l[i]) == l[i] by {
            if i < lp.len() {
                assert(l[i] == lp[i]);
            } else if i == lp.len() {
                assert(l[i] == h);
            } else if i == lp.len() + 1 {
                assert(l[i] == e);
            } else if i < lp.len() + 2 + pc.len() {
                assert(l[i] == pc[i - lp.len() - 2]);
            } else {
                assert(l[i] == e);
            }
        }
    }
}

/// The lines of a rendered list of stored sections.
proof fn lemma_render_lines_stored(ss: Seq<SectionView>)
    requires
        forall|i: int| 0 <= i < ss.len() ==> stored_section(#[trigger] ss[i]),
    ensures
        spec_lines(spec_render_sections(ss)) == stored_lines(ss),
{
    lemma_render_split_stored(ss);
    lemma_stored_lines_no_cr(ss);
    let p = crate::text::spec_split(spec_render_sections(ss), '\n');
    let l = stored_lines(ss);
    assert(p.last().len() == 0);
    assert(Seq::new((p.len() - 1) as nat, |i: int| strip_cr(p[i])) =~= l) by {
        assert forall|i: int| 0 <= i < l.len() implies strip_cr(p[i]) == l[i] by {
            assert(p[i] == l[i]);
        }
    }
}

/// Parsing the lines of stored sections leaves the parser in
/// [`state_after`].
proof fn lemma_parse_stored_lines(ss: Seq<SectionView>)
    requires
        forall|i: int| 0 <= i < ss.len() ==> stored_section(#[trigger] ss[i]),
    ensures
        parse_run(stored_lines(ss)) == state_after(ss),
    decreases ss.len(),
{
    reveal_strlit("## ");
    if ss.len() > 0 {
        let prev = ss.drop_last();
        assert forall|i: int| 0 <= i < prev.len() implies stored_section(#[trigger] prev[i]) by {
            assert(prev[i] == ss[i]);
        }
        lemma_parse_stored_lines(prev);
        assert(stored_section(ss[ss.len() - 1]));
        let sec = ss.last();
        let h = "## "@ + sec.heading;
        let e = Seq::<char>::empty();
        let c = sec.content;
        let pc = crate::text::spec_split(c, '\n');
        let lp = stored_lines(prev);
        let l = stored_lines(ss);
        let pre = lp.push(h).push(e);
        assert(l =~= (pre + pc).push(e));
        assert(lp.push(h).push(e).drop_last() =~= lp.push(h));
        assert(lp.push(h).drop_last() =~= lp);
        let st0 = state_after(prev);
        // The heading line.
        assert(h[0] == '#');
        assert(!crate::text::spec_is_whitespace(h[0]));
        lemma_leading_ws_nonblank(seq!['#'], h.drop_first());
        assert(seq!['#'] + h.drop_first() =~= h);
        assert(spec_trim_start(h) =~= h);
        assert(spec_fence(h) is None) by {
            if has_prefix(h, seq!['`', '`', '`']) {
                assert(h.subrange(0, 3)[0] == '`');
            }
            if has_prefix(h, seq!['~', '~', '~']) {
                assert(h.subrange(0, 3)[0] == '~');
            }
        }
        assert(has_prefix(h, "## "@)) by {
            assert(h.subrange(0, 3) =~= "## "@);
        }
        assert(h.subrange(3, h.len() as int) =~= sec.heading);
        let st1 = parse_step(st0, h);
        if prev.len() > 0 {
            lemma_trim_framed(prev.last().content);
            assert(stored_section(ss[prev.len() - 1]));
            assert(prev.last() == ss[prev.len() - 1]);
            assert(st1.sections =~= prev);
        } else {
            assert(st1.sections =~= prev);
        }
        assert(st1.heading == Some(sec.heading));
        assert(st1.content =~= e);
        assert(!st1.in_fence);
        // The blank line after the heading.
        assert(spec_trim_start(e) =~= e);
        let st2 = parse_step(st1, e);
        assert(st2.content =~= seq!['\n']);
        assert(parse_run(lp.push(h)) == parse_step(parse_run(lp), h));
        assert(parse_run(pre) == parse_step(parse_run(lp.push(h)), e));
        // The content lines.
        lemma_parse_content(pre, pc);
        lemma_joined_split(c);
        let st3 = parse_run(pre + pc);
        assert(st3.content =~= seq!['\n'] + c + seq!['\n']);
        assert(!st3.in_fence);
        // The blank line after the content.
        let st4 = parse_step(st3, e);
        assert(st4.content =~= seq!['\n'] + c + seq!['\n', '\n']);
        assert(l.drop_last() =~= pre + pc);
        assert(l.last() == e);
        assert(parse_run(l) == parse_step(parse_run(l.drop_last()), l.last()));
        assert(st4 == state_after(ss));
    }
}

/// What is stored is what is read back, for sections of many lines and
/// with code fences too: rendering stored sections and parsing the result
/// gives the same sections.
pub proof fn lemma_sections_roundtrip(ss: Seq<SectionView>)
    requires
        forall|i: int| 0 <= i < ss.len() ==> stored_section(#[trigger] ss[i]),
    ensures
        spec_parse_sections(spec_render_sections(ss)) == ss,
{
    lemma_render_lines_stored(ss);
    lemma_parse_stored_lines(ss);
    if ss.len() > 0 {
        assert(stored_section(ss[ss.len() - 1]));
        lemma_trim_framed(ss.last().content);
        assert(ss.drop_last().push(ss.last()) =~= ss);
    }
}

/// A section as a writer would state what survives storage: no carriage
/// return anywhere, a one-line heading, trimmed content, every code fence
/// opened in the content closed in it by the same marker, and no content
/// line outside a fence starting with `## `.
pub open spec fn written_section(s: SectionView) -> bool {
    let lines = crate::text::spec_split(s.content, '\n');
    &&& !s.heading.contains('\r')
    &&& !s.content.contains('\r')
    &&& !s.heading.contains('\n')
    &&& spec_trim(s.content) == s.content
    &&& fence_after(lines) == (false, None::<Seq<char>>)
    &&& forall|i: int|
        0 <= i < lines.len() && spec_fence(spec_trim_start(lines[i])) is None && !fence_after(
            lines.take(i),
        ).0 ==> !has_prefix(#[trigger] lines[i], "## "@)
}

/// The pieces of a text split at `sep` hold no character the text lacks.
proof fn lemma_split_lacks(s: Seq<char>, sep: char, c: char)
    requires
        !s.contains(c),
    ensures
        forall|i: int| 0 <= i < crate::text::spec_split(s, sep).len() ==> !(#[trigger] crate::text::spec_split(s, sep)[i]).contains(c),
    decreases s.len(),
{
    if s.len() > 0 {
        let d = s.drop_last();
        assert(!d.contains(c)) by {
            if d.contains(c) {
                let j = choose|j: int| 0 <= j < d.len() && d[j] == c;
                assert(s[j] == c);
            }
        }
        lemma_split_lacks(d, sep, c);
        crate::text::lemma_split_nonempty(d, sep);
        let r = crate::text::spec_split(d, sep);
        let p = crate::text::spec_split(s, sep);
        assert(s.last() != c) by {
            assert(s[s.len() - 1] == s.last());
        }
        assert forall|i: int| 0 <= i < p.len() implies !(#[trigger] p[i]).contains(c) by {
            if s.last() == sep {
                if i < r.len() {
                    assert(p[i] == r[i]);
                } else {
                    assert(p[i] =~= Seq::<char>::empty());
                }
            } else {
                if i < r.len() - 1 {
                    assert(p[i] == r[i]);
                } else {
                    assert(p[i] == r.last().push(s.last()));
                    if p[i].contains(c) {
                        let j = choose|j: int| 0 <= j < p[i].len() && p[i][j] == c;
                        if j < r.last().len() {
                            assert(r.last()[j] == c);
                            assert(r[r.len() - 1].contains(c));
                        }
                    }
                }
            }
        }
    }
}

/// Lines with no carriage return, none outside a fence starting a heading,
/// are lines the parser keeps as content.
proof fn lemma_written_lines_ok(lines: Seq<Seq<char>>)
    requires
        forall|i: int| 0 <= i < lines.len() ==> !(#[trigger] lines[i]).contains('\r'),
        forall|i: int|
            0 <= i < lines.len() && spec_fence(spec_trim_start(lines[i])) is None && !fence_after(
                lines.take(i),
            ).0 ==> !has_prefix(#[trigger] lines[i], "## "@),
    ensures
        content_lines_ok(lines),
    decreases lines.len(),
{
    if lines.len() > 0 {
        let d = lines.drop_last();
        assert forall|i: int| 0 <= i < d.len() implies !(#[trigger] d[i]).contains('\r') by {
            assert(d[i] == lines[i]);
        }
        assert forall|i: int|
            0 <= i < d.len() && spec_fence(spec_trim_start(d[i])) is None && !fence_after(d.take(i)).0
                implies !has_prefix(#[trigger] d[i], "## "@) by {
            assert(d[i] == lines[i]);
            assert(d.take(i) =~= lines.take(i));
        }
        lemma_written_lines_ok(d);
        let k = lines.len() - 1;
        assert(lines.take(k) =~= d);
        assert(lines[k] == lines.last());
        let l = lines.last();
        assert(!(l.len() > 0 && l.last() == '\r')) by {
            if l.len() > 0 && l.last() == '\r' {
                assert(l[l.len() - 1] == '\r');
                assert(l.contains('\r'));
            }
        }
    }
}

/// A section stated the writer's way survives storage as [`stored_section`]
/// asks.
pub proof fn lemma_written_is_stored(s: SectionView)
    requires
        written_section(s),
    ensures
        stored_section(s),
{
    let lines = crate::text::spec_split(s.content, '\n');
    lemma_split_lacks(s.content, '\n', '\r');
    lemma_written_lines_ok(lines);
    assert(!(s.heading.len() > 0 && s.heading.last() == '\r')) by {
        if s.heading.len() > 0 && s.heading.last() == '\r' {
            assert(s.heading[s.heading.len() - 1] == '\r');
        }
    }
}

/// Written sections read back: rendering sections stated the writer's way
/// and parsing the result gives the same sections, in order.
pub proof fn lemma_written_sections_roundtrip(ss: Seq<SectionView>)
    requires
        forall|i: int| 0 <= i < ss.len() ==> written_section(#[trigger] ss[i]),
    ensures
        spec_parse_sections(spec_render_sections(ss)) == ss,
{
    assert forall|i: int| 0 <= i < ss.len() implies stored_section(#[trigger] ss[i]) by {
        lemma_written_is_stored(ss[i]);
    }
    lemma_sections_roundtrip(ss);
}

/// Front matter that holds no `\n---\n` ending it early: none starts
/// inside it, even one running into the closing separator.
pub open spec fn no_early_separator(fm: Seq<char>) -> bool {
    forall|j: int| 0 <= j < fm.len() ==> #[trigger] (fm + "\n---\n"@).subrange(j, j + 5) != "\n---\n"@
}

/// What is framed is what is split back: a document framed from front
/// matter that holds no early separator splits into that front matter and
/// the body written after it.
pub proof fn lemma_document_roundtrip(fm: Seq<char>, body: Seq<char>)
    requires
        no_early_separator(fm),
    ensures
        has_prefix(spec_document(fm, body), "---\n"@),
        ({
            let doc = spec_document(fm, body);
            let rest = doc.subrange(4, doc.len() as int);
            &&& first_separator(rest) == Some(fm.len() as int)
            &&& rest.subrange(0, fm.len() as int) == fm
            &&& rest.subrange(fm.len() as int + 5, rest.len() as int) == body
        }),
{
    reveal_strlit("---\n");
    reveal_strlit("\n---\n");
    let sep = "\n---\n"@;
    let doc = spec_document(fm, body);
    let rest = doc.subrange(4, doc.len() as int);
    assert(doc.subrange(0, 4) =~= "---\n"@);
    assert(rest =~= fm + sep + body);
    let k = fm.len() as int;
    assert(rest.subrange(k, k + 5) =~= sep);
    assert forall|j: int| 0 <= j < k implies #[trigger] rest.subrange(j, j + 5) != sep by {
        assert(rest.subrange(j, j + 5) =~= (fm + sep).subrange(j, j + 5));
    }
    assert(exists|k2: int| 0 <= k2 && k2 + 5 <= rest.len() && #[trigger] rest.subrange(k2, k2 + 5) == sep);
    let c = choose|k2: int|
        0 <= k2 && k2 + 5 <= rest.len() && #[trigger] rest.subrange(k2, k2 + 5) == sep && forall|j: int|
            0 <= j < k2 ==> #[trigger] rest.subrange(j, j + 5) != sep;
    assert(0 <= k && k + 5 <= rest.len() && rest.subrange(k, k + 5) == sep && forall|j: int|
        0 <= j < k ==> #[trigger] rest.subrange(j, j + 5) != sep);
    if c < k {
        assert(rest.subrange(c, c + 5) != sep);
    } else if c > k {
        assert(rest.subrange(k, k + 5) != sep);
    }
    assert(first_separator(rest) == Some(k));
    assert(rest.subrange(0, k) =~= fm);
    assert(rest.subrange(k + 5, rest.len() as int) =~= body);
}

/// A page written as a document reads back: splitting the document gives
/// the front matter written, and parsing its body gives the (stored)
/// sections written.
pub proof fn lemma_page_document_roundtrip(fm: Seq<char>, ss: Seq<SectionView>)
    requires
        no_early_separator(fm),
        forall|i: int| 0 <= i < ss.len() ==> stored_section(#[trigger] ss[i]),
    ensures
        ({
            let doc = spec_document(fm, spec_render_sections(ss));
            let rest = doc.subrange(4, doc.len() as int);
            &&& has_prefix(doc, "---\n"@)
            &&& first_separator(rest) == Some(fm.len() as int)
            &&& rest.subrange(0, fm.len() as int) == fm
            &&& spec_parse_sections(rest.subrange(fm.len() as int + 5, rest.len() as int)) == ss
        }),
{
    lemma_document_roundtrip(fm, spec_render_sections(ss));
    lemma_sections_roundtrip(ss);
}

} // verus!
