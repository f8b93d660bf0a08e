//! The vector index's side of search: the text an embedding is computed
//! from, which partitions a query may match, and how a stored hit's
//! metadata becomes a search result.
use vstd::prelude::*;
use vstd::string::StringSliceAdditionalSpecFns;
use vstd::utf8::{encode_utf8, is_char_boundary};

use crate::auth::{claims_view, string_members};
use crate::ports::SearchResult;
use crate::records::{parse_uuid, spec_parse_uuid};
use crate::tenant::{ctx_user, ContextView, TenantContext};
use crate::text::{concat2, copy_str, str_eq, strs_view};
use crate::value_objects::{opt_view, slug_error_of, PageId, Slug};

verus! {

broadcast use vstd::string::group_string_axioms;

/// Whether `e` is where an embedding input of `bytes` ends: the last
/// character boundary within the 30 000-byte budget.
pub open spec fn embed_cut(bytes: Seq<u8>, e: int) -> bool {
    &&& 0 <= e <= 30_000
    &&& is_char_boundary(bytes, e)
    &&& forall|k: int| e < k <= 30_000 ==> !is_char_boundary(bytes, k)
}

/// The text an embedding is computed from: the whole text when it fits in
/// 30 000 bytes, else its longest prefix that ends on a character boundary
/// within that budget.
pub fn embed_input(text: &str) -> (r: String)
    ensures
        text.spec_bytes().len() <= 30_000 ==> r@ == text@,
        text.spec_bytes().len() > 30_000 ==> exists|e: int|
            #[trigger] embed_cut(text.spec_bytes(), e) && encode_utf8(r@) == text.spec_bytes().subrange(
                0,
                e,
            ),
{
    let n = text.as_bytes().len();
    if n <= 30_000 {
        return copy_str(text);
    }
    proof {
        vstd::utf8::encode_utf8_valid_utf8(text@);
    }
    let mut end: usize = 30_000;
    while !text.is_char_boundary(end)
        invariant
            end <= 30_000,
            (end as int) < text.spec_bytes().len(),
            vstd::utf8::valid_utf8(text.spec_bytes()),
            forall|k: int| end < k <= 30_000 ==> !is_char_boundary(text.spec_bytes(), k),
        decreases end,
    {
        assert(end != 0);
        end = end - 1;
    }
    let (head, _) = text.split_at(end);
    let r = copy_str(head);
    assert(embed_cut(text.spec_bytes(), end as int));
    r
}

/// The partition tags a tenant-scoped query may match: each visible
/// tenant, `general`, and the caller's own `user-` tag. A context without
/// a tenant is not filtered.
pub open spec fn spec_visibility_filter(c: ContextView) -> Option<Seq<Seq<char>>> {
    match c.tenant_id {
        None => None,
        Some(_) => Some(
            c.visible_tenants + seq!["general"@] + match ctx_user(c) {
                Some(u) => seq!["user-"@ + u],
                None => Seq::empty(),
            },
        ),
    }
}

/// The partition tags a query of `ctx` is filtered by, if any.
pub fn visibility_filter(ctx: &TenantContext) -> (r: Option<Vec<String>>)
    ensures
        match spec_visibility_filter(ctx@) {
            Some(tags) => r matches Some(v) && strs_view(v@) == tags,
            None => r is None,
        },
{
    if ctx.tenant_id.is_none() {
        return None;
    }
    let mut out: Vec<String> = Vec::new();
    let n = ctx.visible_tenants.len();
    for i in 0..n
        invariant
            n == ctx.visible_tenants@.len(),
            out@.len() == i,
            ctx@.visible_tenants.len() == n,
            forall|k: int| 0 <= k < i ==> (#[trigger] out@[k])@ == ctx@.visible_tenants[k],
    {
        let t = ctx.visible_tenants[i].0.clone();
        assert(ctx@.visible_tenants[i as int] == ctx.visible_tenants@[i as int]@);
        out.push(t);
    }
    assert(strs_view(out@) =~= ctx@.visible_tenants);
    let ghost mid = strs_view(out@);
    out.push(String::from_str("general"));
    assert(strs_view(out@) =~= mid.push("general"@));
    let ghost mid2 = strs_view(out@);
    match ctx.user_id() {
        Some(uid) => {
            out.push(concat2("user-", uid));
            assert(strs_view(out@) =~= mid2.push("user-"@ + uid@));
        },
        None => {},
    }
    assert(strs_view(out@) =~= spec_visibility_filter(ctx@)->0);
    Some(out)
}

/// Whether a hit's stored metadata makes a search result: an id that
/// parses as a UUID, a valid slug and a title; a missing summary is empty.
pub open spec fn hit_ok(page_id: Option<Seq<char>>, slug: Option<Seq<char>>, title: Option<Seq<char>>) -> bool {
    &&& page_id matches Some(p) && spec_parse_uuid(p) is Ok
    &&& slug matches Some(s) && slug_error_of(s) is None
    &&& title is Some
}

/// A search result from a hit's metadata fields and score (the bits of an
/// `f64`), or `None` when the metadata is incomplete.
pub fn search_hit(
    page_id: Option<String>,
    slug: Option<String>,
    title: Option<String>,
    summary: Option<String>,
    score_bits: u64,
) -> (r: Option<SearchResult>)
    ensures
        hit_ok(opt_view(page_id), opt_view(slug), opt_view(title)) <==> r is Some,
        r matches Some(h) ==> {
            &&& spec_parse_uuid(page_id->0@) == Ok::<u128, Seq<char>>(h.page_id.0)
            &&& h.slug@ == slug->0@
            &&& h.title@ == title->0@
            &&& h.summary@ == match summary {
                Some(s) => s@,
                None => Seq::<char>::empty(),
            }
            &&& h.score_bits == score_bits
        },
{
    let id = match page_id {
        Some(p) => match parse_uuid(p.as_str()) {
            Ok(v) => v,
            Err(_) => return None,
        },
        None => return None,
    };
    let slug = match slug {
        Some(s) => match Slug::new(s.as_str()) {
            Ok(v) => v,
            Err(_) => return None,
        },
        None => return None,
    };
    let title = match title {
        Some(t) => t,
        None => return None,
    };
    let summary = match summary {
        Some(s) => s,
        None => String::new(),
    };
    Some(SearchResult { page_id: PageId(id), slug, title, summary, score_bits })
}

/// The text of member `key` among an object's members (the first of that
/// name; a JSON object has one), when it is a string.
pub open spec fn member_text_of(ms: Seq<(Seq<char>, Option<Seq<char>>)>, key: Seq<char>) -> Option<Seq<char>>
    decreases ms.len(),
{
    if ms.len() == 0 {
        None
    } else if ms[0].0 == key {
        ms[0].1
    } else {
        member_text_of(ms.drop_first(), key)
    }
}

/// The text of member `key`, as [`member_text_of`] says.
fn member_text(members: &Vec<(String, Option<String>)>, key: &str) -> (r: Option<String>)
    ensures
        opt_view(r) == member_text_of(claims_view(members@), key@),
{
    let n = members.len();
    let ghost mv = claims_view(members@);
    assert(mv.subrange(0, n as int) =~= mv);
    for i in 0..n
        invariant
            n == members@.len(),
            mv == claims_view(members@),
            member_text_of(mv, key@) == member_text_of(mv.subrange(i as int, n as int), key@),
    {
        let ghost rest = mv.subrange(i as int, n as int);
        assert(rest.drop_first() =~= mv.subrange(i + 1, n as int));
        assert(rest[0] == mv[i as int]);
        if str_eq(members[i].0.as_str(), key) {
            return match &members[i].1 {
                Some(t) => Some(t.clone()),
                None => None,
            };
        }
    }
    None
}

/// A search result from a hit's metadata members: its `page_id`, `slug`,
/// `title` and `summary` string members, read as [`search_hit`] reads them.
pub fn hit_from_members(members: &Vec<(String, Option<String>)>, score_bits: u64) -> (r: Option<SearchResult>)
    ensures
        ({
            let ms = claims_view(members@);
            let pid = member_text_of(ms, "page_id"@);
            let slug = member_text_of(ms, "slug"@);
            let title = member_text_of(ms, "title"@);
            let summary = member_text_of(ms, "summary"@);
            &&& hit_ok(pid, slug, title) <==> r is Some
            &&& r matches Some(h) ==> {
                &&& spec_parse_uuid(pid->0) == Ok::<u128, Seq<char>>(h.page_id.0)
                &&& h.slug@ == slug->0
                &&& h.title@ == title->0
                &&& h.summary@ == match summary {
                    Some(s) => s,
                    None => Seq::<char>::empty(),
                }
                &&& h.score_bits == score_bits
            }
        }),
{
    let page_id = member_text(members, "page_id");
    let slug = member_text(members, "slug");
    let title = member_text(members, "title");
    let summary = member_text(members, "summary");
    search_hit(page_id, slug, title, summary, score_bits)
}

/// A search result from a hit's metadata object, through its string
/// members (see [`hit_from_members`]). What the object holds is not
/// stated; a result, when there is one, has a valid slug and the given
/// score.
pub fn hit_from_metadata(metadata: &serde_json::Value, score_bits: u64) -> (r: Option<SearchResult>)
    ensures
        r matches Some(h) ==> slug_error_of(h.slug@) is None && h.score_bits == score_bits,
{
    let members = string_members(metadata);
    hit_from_members(&members, score_bits)
}

} // verus!
