//! Keys and fields of the stored records: page and group partition keys,
//! changelog sort keys, and the checks a changelog record passes on load.
use vstd::prelude::*;

use crate::clock::Timestamp;
use crate::error::{ErrorView, MindPalaceError};
use crate::ports::{ChangeAction, ChangelogEntry};
use crate::service::{action_name, action_to_string};
use crate::text::{append_str, chars_of, concat2, copy_str, has_prefix, starts_with, str_eq, string_from_chars};
use crate::value_objects::{slug_error_of, slug_error_text, GroupId, PageId, Slug};

verus! {

broadcast use vstd::string::group_string_axioms;

// ---------------------------------------------------------------------------
// Identifiers as text
// ---------------------------------------------------------------------------

/// The lower-case hexadecimal digit of `d < 16`.
pub open spec fn hex_digit(d: int) -> char {
    if d < 10 {
        ((48 + d) as u8) as char
    } else {
        ((87 + d) as u8) as char
    }
}

/// `16^k`.
pub open spec fn pow16(k: nat) -> int
    decreases k,
{
    if k == 0 {
        1
    } else {
        16 * pow16((k - 1) as nat)
    }
}

/// The 32 hexadecimal digits of a 128-bit value, most significant first.
pub open spec fn hex32(x: u128) -> Seq<char> {
    Seq::new(32, |i: int| hex_digit((x as int / pow16((31 - i) as nat)) % 16))
}

/// The hyphenated lower-case text of a UUID: 8-4-4-4-12 digits.
pub open spec fn spec_uuid_text(x: u128) -> Seq<char> {
    let d = hex32(x);
    d.subrange(0, 8) + seq!['-'] + d.subrange(8, 12) + seq!['-'] + d.subrange(12, 16) + seq!['-']
        + d.subrange(16, 20) + seq!['-'] + d.subrange(20, 32)
}

/// Calls `uuid::Uuid::from_u128` and formats it with `Display`, which writes
/// the hyphenated lower-case form.
#[verifier::external_body]
pub(crate) fn uuid_text(id: u128) -> (r: String)
    ensures
        r@ == spec_uuid_text(id),
{
    uuid::Uuid::from_u128(id).to_string()
}

/// What `uuid::Uuid::parse_str` gives for a text: the value, or the
/// parser's error message.
pub uninterp spec fn spec_parse_uuid(s: Seq<char>) -> Result<u128, Seq<char>>;

/// Calls `uuid::Uuid::parse_str`; the result (the value, or the error's
/// message) is named by `spec_parse_uuid`.
#[verifier::external_body]
pub(crate) fn parse_uuid(s: &str) -> (r: Result<u128, String>)
    ensures
        match spec_parse_uuid(s@) {
            Ok(v) => r == Ok::<u128, String>(v),
            Err(m) => r matches Err(x) && x@ == m,
        },
{
    match uuid::Uuid::parse_str(s) {
        Ok(u) => Ok(u.as_u128()),
        Err(e) => Err(e.to_string()),
    }
}

/// The partition key of a page's graph record: `PAGE#` and its id.
pub fn page_pk(id: &PageId) -> (r: String)
    ensures
        r@ == "PAGE#"@ + spec_uuid_text(id.0),
{
    let t = uuid_text(id.0);
    concat2("PAGE#", t.as_str())
}

/// The partition key of a group's record: `GROUP#` and its id.
pub fn group_pk(id: &GroupId) -> (r: String)
    ensures
        r@ == "GROUP#"@ + id@,
{
    concat2("GROUP#", id.as_str())
}

/// The page id of a graph record's partition key: it must start with
/// `PAGE#`, and the rest must parse as a UUID.
pub fn parse_page_id(pk: &str) -> (r: Result<PageId, MindPalaceError>)
    ensures
        if !has_prefix(pk@, "PAGE#"@) {
            r matches Err(e) && e@ == ErrorView::Graph("invalid PK format"@)
        } else {
            match spec_parse_uuid(pk@.subrange(5, pk@.len() as int)) {
                Ok(v) => r matches Ok(id) && id.0 == v,
                Err(m) => r matches Err(e) && e@ == ErrorView::Graph(m),
            }
        },
{
    let cs = chars_of(pk);
    let prefix = chars_of("PAGE#");
    proof {
        reveal_strlit("PAGE#");
    }
    if !starts_with(&cs, &prefix) {
        return Err(MindPalaceError::Graph(String::from_str("invalid PK format")));
    }
    let mut rest: Vec<char> = Vec::new();
    let n = cs.len();
    for i in 5..n
        invariant
            5 <= n == cs@.len(),
            rest@ == cs@.subrange(5, i as int),
    {
        rest.push(cs[i]);
        assert(cs@.subrange(5, i + 1) =~= cs@.subrange(5, i as int).push(cs@[i as int]));
    }
    let text = string_from_chars(rest.as_slice());
    match parse_uuid(text.as_str()) {
        Ok(v) => Ok(PageId(v)),
        Err(m) => Err(MindPalaceError::Graph(m)),
    }
}

// ---------------------------------------------------------------------------
// Changelog records
// ---------------------------------------------------------------------------

/// What `chrono` writes for an instant with `DateTime::to_rfc3339`, when
/// the instant can be represented.
pub uninterp spec fn spec_rfc3339(secs: i64, nanos: u32) -> Option<Seq<char>>;

/// Calls `chrono::DateTime::from_timestamp` and `to_rfc3339`; the text is
/// named by `spec_rfc3339`, `None` when the instant is out of range.
#[verifier::external_body]
fn rfc3339(t: Timestamp) -> (r: Option<String>)
    ensures
        match spec_rfc3339(t.secs, t.nanos) {
            Some(s) => r matches Some(x) && x@ == s,
            None => r is None,
        },
{
    match chrono::DateTime::from_timestamp(t.secs, t.nanos) {
        Some(d) => Some(d.to_rfc3339()),
        None => None,
    }
}

/// What `chrono::DateTime::parse_from_rfc3339` gives for a text, taken to
/// UTC: the instant as seconds and nanoseconds, or the parser's message.
pub uninterp spec fn spec_parse_rfc3339(s: Seq<char>) -> Result<(i64, u32), Seq<char>>;

/// Calls `chrono::DateTime::parse_from_rfc3339`; the result is named by
/// `spec_parse_rfc3339`.
#[verifier::external_body]
fn parse_rfc3339(s: &str) -> (r: Result<Timestamp, String>)
    ensures
        match spec_parse_rfc3339(s@) {
            Ok((secs, nanos)) => r matches Ok(t) && t.secs == secs && t.nanos == nanos,
            Err(m) => r matches Err(x) && x@ == m,
        },
{
    match chrono::DateTime::parse_from_rfc3339(s) {
        Ok(d) => Ok(Timestamp { secs: d.timestamp(), nanos: d.timestamp_subsec_nanos() }),
        Err(e) => Err(e.to_string()),
    }
}

/// The partition key of changelog records.
pub fn changelog_pk() -> (r: String)
    ensures
        r@ == "CHANGELOG"@,
{
    String::from_str("CHANGELOG")
}

/// The sort key of a changelog record: its time in RFC 3339, `#`, and a
/// random UUID that keeps keys unique. `None` when the time cannot be
/// written.
pub fn changelog_sk(entry: &ChangelogEntry) -> (r: Option<String>)
    ensures
        match spec_rfc3339(entry.timestamp.secs, entry.timestamp.nanos) {
            Some(t) => r matches Some(s) && exists|u: u128| s@ == t + "#"@ + #[trigger] spec_uuid_text(u),
            None => r is None,
        },
{
    let ts = match rfc3339(entry.timestamp) {
        Some(t) => t,
        None => return None,
    };
    let id = PageId::new();
    let u = uuid_text(id.0);
    let mut s = concat2(ts.as_str(), "#");
    append_str(&mut s, u.as_str());
    assert(s@ == ts@ + "#"@ + spec_uuid_text(id.0));
    Some(s)
}

/// The part of a sort key before its first `#` (all of it when there is
/// none).
pub open spec fn before_hash(s: Seq<char>) -> Seq<char>
    decreases s.len(),
{
    if s.len() == 0 {
        s
    } else if s[0] == '#' {
        Seq::empty()
    } else {
        seq![s[0]] + before_hash(s.drop_first())
    }
}

fn prefix_before_hash(s: &str) -> (r: String)
    ensures
        r@ == before_hash(s@),
{
    let cs = chars_of(s);
    let n = cs.len();
    let mut out: Vec<char> = Vec::new();
    let mut i: usize = 0;
    assert(cs@.subrange(0, n as int) =~= s@);
    assert(out@ + before_hash(cs@.subrange(0, n as int)) =~= before_hash(s@));
    while i < n && cs[i] != '#'
        invariant
            n == cs@.len(),
            cs@ == s@,
            i <= n,
            out@ == cs@.subrange(0, i as int),
            before_hash(s@) == out@ + before_hash(cs@.subrange(i as int, n as int)),
        decreases n - i,
    {
        let ghost rest = cs@.subrange(i as int, n as int);
        assert(rest.drop_first() =~= cs@.subrange(i + 1, n as int));
        out.push(cs[i]);
        assert(out@ =~= cs@.subrange(0, i + 1));
        i = i + 1;
        assert(before_hash(s@) =~= out@ + before_hash(cs@.subrange(i as int, n as int)));
    }
    proof {
        let rest = cs@.subrange(i as int, n as int);
        if i < n {
            assert(rest[0] == '#');
        }
        assert(before_hash(rest) =~= Seq::<char>::empty());
    }
    string_from_chars(out.as_slice())
}

/// The time of a changelog record from its sort key: the RFC 3339 text
/// before the first `#`.
pub fn parse_timestamp_from_sk(sk: &str) -> (r: Result<Timestamp, MindPalaceError>)
    ensures
        match spec_parse_rfc3339(before_hash(sk@)) {
            Ok((secs, nanos)) => r matches Ok(t) && t.secs == secs && t.nanos == nanos,
            Err(m) => r matches Err(e) && e@ == ErrorView::Changelog("invalid timestamp in SK: "@ + m),
        },
{
    let ts = prefix_before_hash(sk);
    match parse_rfc3339(ts.as_str()) {
        Ok(t) => Ok(t),
        Err(m) => Err(MindPalaceError::Changelog(concat2("invalid timestamp in SK: ", m.as_str()))),
    }
}

/// The action a stored name denotes.
pub open spec fn spec_action_from(s: Seq<char>) -> Option<ChangeAction> {
    if s == action_name(ChangeAction::Created) {
        Some(ChangeAction::Created)
    } else if s == action_name(ChangeAction::Updated) {
        Some(ChangeAction::Updated)
    } else if s == action_name(ChangeAction::Deleted) {
        Some(ChangeAction::Deleted)
    } else {
        None
    }
}

/// The action a stored name denotes.
pub fn action_from_name(s: &str) -> (r: Option<ChangeAction>)
    ensures
        r == spec_action_from(s@),
{
    if str_eq(s, "Created") {
        Some(ChangeAction::Created)
    } else if str_eq(s, "Updated") {
        Some(ChangeAction::Updated)
    } else if str_eq(s, "Deleted") {
        Some(ChangeAction::Deleted)
    } else {
        None
    }
}

/// What a changelog record's fields give: the entry's time, slug, page id
/// and action, or the changelog error of the first field that fails.
pub open spec fn spec_entry_fields(sk: Seq<char>, slug: Seq<char>, page_id: Seq<char>, action: Seq<char>) -> Result<
    (i64, u32, u128, ChangeAction),
    ErrorView,
> {
    match spec_parse_rfc3339(before_hash(sk)) {
        Err(m) => Err(ErrorView::Changelog("invalid timestamp in SK: "@ + m)),
        Ok((secs, nanos)) => match slug_error_of(slug) {
            Some(e) => Err(ErrorView::Changelog(slug_error_text(e))),
            None => match spec_parse_uuid(page_id) {
                Err(m) => Err(ErrorView::Changelog(m)),
                Ok(id) => match spec_action_from(action) {
                    None => Err(ErrorView::Changelog("unknown change action: "@ + action)),
                    Some(a) => Ok((secs, nanos, id, a)),
                },
            },
        },
    }
}

/// Whether `e` is the entry that `spec_entry_fields` describes, with the
/// given slug and optional fields.
pub open spec fn entry_matches(
    e: ChangelogEntry,
    f: (i64, u32, u128, ChangeAction),
    slug: Seq<char>,
    agent_id: Option<Seq<char>>,
    summary: Option<Seq<char>>,
) -> bool {
    &&& e.timestamp.secs == f.0
    &&& e.timestamp.nanos == f.1
    &&& e.page_id.0 == f.2
    &&& e.action == f.3
    &&& e.slug@ == slug
    &&& crate::value_objects::opt_view(e.agent_id) == agent_id
    &&& crate::value_objects::opt_view(e.summary) == summary
}

/// A changelog entry from a record's text fields. The time comes from the
/// sort key; the slug must be valid, the page id a UUID and the action a
/// known name; the first failure, in that order, is the error.
pub fn entry_from_fields(
    sk: &str,
    slug: &str,
    page_id: &str,
    action: &str,
    agent_id: Option<String>,
    summary: Option<String>,
) -> (r: Result<ChangelogEntry, MindPalaceError>)
    ensures
        match spec_entry_fields(sk@, slug@, page_id@, action@) {
            Ok(f) => r matches Ok(e) && entry_matches(
                e,
                f,
                slug@,
                crate::value_objects::opt_view(agent_id),
                crate::value_objects::opt_view(summary),
            ),
            Err(v) => r matches Err(e) && e@ == v,
        },
{
    let timestamp = match parse_timestamp_from_sk(sk) {
        Ok(t) => t,
        Err(e) => return Err(e),
    };
    let slug = match Slug::new(slug) {
        Ok(s) => s,
        Err(e) => return Err(MindPalaceError::Changelog(String::from_str(e.message()))),
    };
    let id = match parse_uuid(page_id) {
        Ok(v) => v,
        Err(m) => return Err(MindPalaceError::Changelog(m)),
    };
    let action = match action_from_name(action) {
        Some(a) => a,
        None => return Err(MindPalaceError::Changelog(concat2("unknown change action: ", action))),
    };
    Ok(ChangelogEntry { timestamp, slug, page_id: PageId(id), action, agent_id, summary })
}

// ---------------------------------------------------------------------------
// Stored items as name/value pairs
// ---------------------------------------------------------------------------

/// The string attribute `key` of a stored item, given as its string
/// attributes in order: the first pair with that name.
pub open spec fn item_attr(item: Seq<(String, String)>, key: Seq<char>) -> Option<Seq<char>> {
    crate::config::spec_env_var(item, key)
}

/// The string attribute `key` of a stored item.
pub fn attr_s(item: &Vec<(String, String)>, key: &str) -> (r: Option<String>)
    ensures
        crate::value_objects::opt_view(r) == item_attr(item@, key@),
{
    crate::config::env_var(item, key)
}

/// The message of a missing attribute.
pub open spec fn missing_attr(key: Seq<char>) -> Seq<char> {
    "missing attribute: "@ + key
}

fn missing_text(key: &str) -> (r: String)
    ensures
        r@ == missing_attr(key@),
{
    concat2("missing attribute: ", key)
}

/// What a changelog item gives: the entry, or the changelog error of the
/// first attribute that is missing or does not parse.
pub open spec fn spec_changelog_item(item: Seq<(String, String)>) -> Result<
    (i64, u32, u128, ChangeAction),
    ErrorView,
> {
    match item_attr(item, "SK"@) {
        None => Err(ErrorView::Changelog(missing_attr("SK"@))),
        Some(sk) => match spec_parse_rfc3339(before_hash(sk)) {
            Err(m) => Err(ErrorView::Changelog("invalid timestamp in SK: "@ + m)),
            Ok(_) => match item_attr(item, "slug"@) {
                None => Err(ErrorView::Changelog(missing_attr("slug"@))),
                Some(slug) => match slug_error_of(slug) {
                    Some(e) => Err(ErrorView::Changelog(slug_error_text(e))),
                    None => match item_attr(item, "page_id"@) {
                        None => Err(ErrorView::Changelog(missing_attr("page_id"@))),
                        Some(pid) => match spec_parse_uuid(pid) {
                            Err(m) => Err(ErrorView::Changelog(m)),
                            Ok(_) => match item_attr(item, "action"@) {
                                None => Err(ErrorView::Changelog(missing_attr("action"@))),
                                Some(a) => spec_entry_fields(sk, slug, pid, a),
                            },
                        },
                    },
                },
            },
        },
    }
}

/// A changelog entry from a stored item: `SK`, `slug`, `page_id` and
/// `action` are required; `agent_id` and `summary` are taken when present.
pub fn changelog_entry_from_item(item: &Vec<(String, String)>) -> (r: Result<ChangelogEntry, MindPalaceError>)
    ensures
        match spec_changelog_item(item@) {
            Ok(f) => r matches Ok(e) && entry_matches(
                e,
                f,
                item_attr(item@, "slug"@)->0,
                item_attr(item@, "agent_id"@),
                item_attr(item@, "summary"@),
            ),
            Err(v) => r matches Err(e) && e@ == v,
        },
{
    let sk = match attr_s(item, "SK") {
        Some(s) => s,
        None => return Err(MindPalaceError::Changelog(missing_text("SK"))),
    };
    let timestamp = match parse_timestamp_from_sk(sk.as_str()) {
        Ok(t) => t,
        Err(e) => return Err(e),
    };
    let slug_text = match attr_s(item, "slug") {
        Some(s) => s,
        None => return Err(MindPalaceError::Changelog(missing_text("slug"))),
    };
    let slug = match Slug::new(slug_text.as_str()) {
        Ok(s) => s,
        Err(e) => return Err(MindPalaceError::Changelog(String::from_str(e.message()))),
    };
    let pid = match attr_s(item, "page_id") {
        Some(s) => s,
        None => return Err(MindPalaceError::Changelog(missing_text("page_id"))),
    };
    let id = match parse_uuid(pid.as_str()) {
        Ok(v) => v,
        Err(m) => return Err(MindPalaceError::Changelog(m)),
    };
    let action_text = match attr_s(item, "action") {
        Some(s) => s,
        None => return Err(MindPalaceError::Changelog(missing_text("action"))),
    };
    let action = match action_from_name(action_text.as_str()) {
        Some(a) => a,
        None => return Err(MindPalaceError::Changelog(concat2("unknown change action: ", action_text.as_str()))),
    };
    let agent_id = attr_s(item, "agent_id");
    let summary = attr_s(item, "summary");
    Ok(ChangelogEntry { timestamp, slug, page_id: PageId(id), action, agent_id, summary })
}

/// The view of an item's name/value pairs.
pub open spec fn pairs_view(item: Seq<(String, String)>) -> Seq<(Seq<char>, Seq<char>)> {
    Seq::new(item.len(), |i: int| (item[i].0@, item[i].1@))
}

/// An optional attribute: one pair when present, none otherwise.
pub open spec fn opt_attr(key: Seq<char>, v: Option<String>) -> Seq<(Seq<char>, Seq<char>)> {
    match v {
        Some(s) => seq![(key, s@)],
        None => Seq::empty(),
    }
}

/// The attributes of a changelog record with sort key `sk`.
pub open spec fn changelog_attrs(e: ChangelogEntry, sk: Seq<char>) -> Seq<(Seq<char>, Seq<char>)> {
    seq![
        ("PK"@, "CHANGELOG"@),
        ("SK"@, sk),
        ("slug"@, e.slug@),
        ("page_id"@, spec_uuid_text(e.page_id.0)),
        ("action"@, action_name(e.action)),
    ] + opt_attr("agent_id"@, e.agent_id) + opt_attr("summary"@, e.summary)
}

fn push_pair(item: &mut Vec<(String, String)>, key: &str, value: String)
    ensures
        pairs_view(final(item)@) == pairs_view(old(item)@).push((key@, value@)),
{
    let ghost before = pairs_view(item@);
    item.push((copy_str(key), value));
    assert(pairs_view(item@) =~= before.push((key@, value@)));
}

/// The record that stores a changelog entry; `None` when its time cannot
/// be written.
pub fn changelog_item(entry: &ChangelogEntry) -> (r: Option<Vec<(String, String)>>)
    ensures
        match spec_rfc3339(entry.timestamp.secs, entry.timestamp.nanos) {
            Some(t) => r matches Some(v) && exists|u: u128|
                pairs_view(v@) == changelog_attrs(*entry, t + "#"@ + #[trigger] spec_uuid_text(u)),
            None => r is None,
        },
{
    let sk = match changelog_sk(entry) {
        Some(s) => s,
        None => return None,
    };
    let ghost skv = sk@;
    let mut item: Vec<(String, String)> = Vec::new();
    push_pair(&mut item, "PK", changelog_pk());
    push_pair(&mut item, "SK", sk);
    push_pair(&mut item, "slug", copy_str(entry.slug.as_str()));
    push_pair(&mut item, "page_id", uuid_text(entry.page_id.0));
    push_pair(&mut item, "action", action_to_string(entry.action));
    let ghost base = pairs_view(item@);
    match &entry.agent_id {
        Some(a) => push_pair(&mut item, "agent_id", a.clone()),
        None => {},
    }
    let ghost mid = pairs_view(item@);
    match &entry.summary {
        Some(x) => push_pair(&mut item, "summary", x.clone()),
        None => {},
    }
    assert(pairs_view(item@) =~= changelog_attrs(*entry, skv));
    Some(item)
}

/// Reading a stored changelog record back gives the entry's slug, page id
/// text, action, agent id and summary, and the sort key it was stored
/// under.
pub proof fn lemma_changelog_record_readback(item: Seq<(String, String)>, e: ChangelogEntry, sk: Seq<char>)
    requires
        pairs_view(item) == changelog_attrs(e, sk),
    ensures
        item_attr(item, "SK"@) == Some(sk),
        item_attr(item, "slug"@) == Some(e.slug@),
        item_attr(item, "page_id"@) == Some(spec_uuid_text(e.page_id.0)),
        item_attr(item, "action"@) matches Some(a) && spec_action_from(a) == Some(e.action),
        item_attr(item, "agent_id"@) == crate::value_objects::opt_view(e.agent_id),
        item_attr(item, "summary"@) == crate::value_objects::opt_view(e.summary),
{
    reveal_strlit("PK");
    reveal_strlit("SK");
    reveal_strlit("slug");
    reveal_strlit("page_id");
    reveal_strlit("action");
    reveal_strlit("agent_id");
    reveal_strlit("summary");
    reveal_strlit("Created");
    reveal_strlit("Updated");
    reveal_strlit("Deleted");
    let pv = pairs_view(item);
    let attrs = changelog_attrs(e, sk);
    assert(item.len() == pv.len());
    assert(pv[0].0 == "PK"@ && pv[1].0 == "SK"@ && pv[2].0 == "slug"@ && pv[3].0 == "page_id"@
        && pv[4].0 == "action"@);
    assert(pv[1].1 == sk && pv[2].1 == e.slug@ && pv[3].1 == spec_uuid_text(e.page_id.0) && pv[4].1
        == action_name(e.action));
    assert("PK"@[0] != "SK"@[0]);
    assert("PK"@[0] != "slug"@[0] && "SK"@[0] != "slug"@[0]);
    assert("PK"@[0] != "page_id"@[0] && "SK"@[0] != "page_id"@[0] && "slug"@[0] != "page_id"@[0]);
    assert("PK"@[0] != "action"@[0] && "SK"@[0] != "action"@[0] && "slug"@[0] != "action"@[0]
        && "page_id"@[0] != "action"@[0]);
    assert("PK"@[0] != "agent_id"@[0] && "SK"@[0] != "agent_id"@[0] && "slug"@[0] != "agent_id"@[0]
        && "page_id"@[0] != "agent_id"@[0] && "action"@[1] != "agent_id"@[1]);
    assert("PK"@[0] != "summary"@[0] && "SK"@[0] != "summary"@[0] && "slug"@[1] != "summary"@[1]
        && "page_id"@[0] != "summary"@[0] && "action"@[0] != "summary"@[0] && "agent_id"@[0]
        != "summary"@[0]);
    assert forall|j: int| 0 <= j < item.len() implies (#[trigger] item[j]).0@ == pv[j].0 by {}
    crate::auth::lemma_first_env_index_at(item, "SK"@, 1);
    crate::auth::lemma_first_env_index_at(item, "slug"@, 2);
    crate::auth::lemma_first_env_index_at(item, "page_id"@, 3);
    crate::auth::lemma_first_env_index_at(item, "action"@, 4);
    assert("Created"@[0] != "Updated"@[0] && "Created"@[0] != "Deleted"@[0] && "Updated"@[0]
        != "Deleted"@[0]);
    let ka: int = 5;
    let ks: int = if e.agent_id is Some { 6 } else { 5 };
    if e.agent_id is Some {
        crate::auth::lemma_first_env_index_at(item, "agent_id"@, ka);
    } else {
        crate::auth::lemma_first_env_index(item, "agent_id"@);
    }
    if e.summary is Some {
        crate::auth::lemma_first_env_index_at(item, "summary"@, ks);
    } else {
        crate::auth::lemma_first_env_index(item, "summary"@);
    }
}

// ---------------------------------------------------------------------------
// Graph records
// ---------------------------------------------------------------------------

/// The sort key of an edge record, kept under its source: `EDGE#` and the
/// target's id.
pub fn edge_sk(target: &PageId) -> (r: String)
    ensures
        r@ == "EDGE#"@ + spec_uuid_text(target.0),
{
    let t = uuid_text(target.0);
    concat2("EDGE#", t.as_str())
}

/// The sort key of a backlink record, kept under an edge's target:
/// `BACKLINK#` and the source's id.
pub fn backlink_sk(source: &PageId) -> (r: String)
    ensures
        r@ == "BACKLINK#"@ + spec_uuid_text(source.0),
{
    let t = uuid_text(source.0);
    concat2("BACKLINK#", t.as_str())
}

/// The sort key of a node's own record.
pub fn meta_sk() -> (r: String)
    ensures
        r@ == "META"@,
{
    String::from_str("META")
}

/// The page id of a partition key, as `parse_page_id` reads it.
pub open spec fn spec_pk_id(pk: Seq<char>) -> Result<u128, ErrorView> {
    if !has_prefix(pk, "PAGE#"@) {
        Err(ErrorView::Graph("invalid PK format"@))
    } else {
        match spec_parse_uuid(pk.subrange(5, pk.len() as int)) {
            Ok(v) => Ok(v),
            Err(m) => Err(ErrorView::Graph(m)),
        }
    }
}

/// A graph item read back: a node's record, with its visibility and page
/// type still in their stored JSON; an edge record, with its kind in JSON;
/// or another record (a backlink), which loading skips.
pub enum GraphItem {
    Node {
        page_id: PageId,
        slug: Slug,
        title: String,
        summary: String,
        visibility_json: String,
        page_type_json: String,
    },
    Edge { source: PageId, target: PageId, kind_json: String },
    Other,
}

/// The mathematical value of a [`GraphItem`].
pub enum GraphItemView {
    Node {
        page_id: u128,
        slug: Seq<char>,
        title: Seq<char>,
        summary: Seq<char>,
        visibility_json: Seq<char>,
        page_type_json: Seq<char>,
    },
    Edge { source: u128, target: u128, kind_json: Seq<char> },
    Other,
}

impl View for GraphItem {
    type V = GraphItemView;

    open spec fn view(&self) -> GraphItemView {
        match self {
            GraphItem::Node { page_id, slug, title, summary, visibility_json, page_type_json } =>
                GraphItemView::Node {
                page_id: page_id.0,
                slug: slug@,
                title: title@,
                summary: summary@,
                visibility_json: visibility_json@,
                page_type_json: page_type_json@,
            },
            GraphItem::Edge { source, target, kind_json } => GraphItemView::Edge {
                source: source.0,
                target: target.0,
                kind_json: kind_json@,
            },
            GraphItem::Other => GraphItemView::Other,
        }
    }
}

/// A node's record from its attributes, once its id is known.
pub open spec fn spec_node_item(item: Seq<(String, String)>, id: u128) -> Result<GraphItemView, ErrorView> {
    match item_attr(item, "slug"@) {
        None => Err(ErrorView::Graph(missing_attr("slug"@))),
        Some(slug) => match slug_error_of(slug) {
            Some(e) => Err(ErrorView::Graph(slug_error_text(e))),
            None => match item_attr(item, "title"@) {
                None => Err(ErrorView::Graph(missing_attr("title"@))),
                Some(title) => match item_attr(item, "summary"@) {
                    None => Err(ErrorView::Graph(missing_attr("summary"@))),
                    Some(summary) => match item_attr(item, "visibility"@) {
                        None => Err(ErrorView::Graph(missing_attr("visibility"@))),
                        Some(vis) => match item_attr(item, "page_type"@) {
                            None => Err(ErrorView::Graph(missing_attr("page_type"@))),
                            Some(pt) => Ok(
                                GraphItemView::Node {
                                    page_id: id,
                                    slug,
                                    title,
                                    summary,
                                    visibility_json: vis,
                                    page_type_json: pt,
                                },
                            ),
                        },
                    },
                },
            },
        },
    }
}

/// What a graph item is: `SK` and `PK` are required; `META` marks a node,
/// `EDGE#` and the target's id an edge, anything else is skipped. Each
/// failure is a graph error, the first in the order the fields are read.
pub open spec fn spec_graph_item(item: Seq<(String, String)>) -> Result<GraphItemView, ErrorView> {
    match item_attr(item, "SK"@) {
        None => Err(ErrorView::Graph(missing_attr("SK"@))),
        Some(sk) => match item_attr(item, "PK"@) {
            None => Err(ErrorView::Graph(missing_attr("PK"@))),
            Some(pk) => if sk == "META"@ {
                match spec_pk_id(pk) {
                    Err(e) => Err(e),
                    Ok(id) => spec_node_item(item, id),
                }
            } else if has_prefix(sk, "EDGE#"@) {
                match spec_pk_id(pk) {
                    Err(e) => Err(e),
                    Ok(source) => match spec_parse_uuid(sk.subrange(5, sk.len() as int)) {
                        Err(m) => Err(ErrorView::Graph(m)),
                        Ok(target) => match item_attr(item, "edge_kind"@) {
                            None => Err(ErrorView::Graph(missing_attr("edge_kind"@))),
                            Some(k) => Ok(GraphItemView::Edge { source, target, kind_json: k }),
                        },
                    },
                }
            } else {
                Ok(GraphItemView::Other)
            },
        },
    }
}

fn graph_attr(item: &Vec<(String, String)>, key: &str) -> (r: Result<String, MindPalaceError>)
    ensures
        match item_attr(item@, key@) {
            Some(v) => r matches Ok(x) && x@ == v,
            None => r matches Err(e) && e@ == ErrorView::Graph(missing_attr(key@)),
        },
{
    match attr_s(item, key) {
        Some(v) => Ok(v),
        None => Err(MindPalaceError::Graph(missing_text(key))),
    }
}

fn node_item(item: &Vec<(String, String)>, id: PageId) -> (r: Result<GraphItem, MindPalaceError>)
    ensures
        match spec_node_item(item@, id.0) {
            Ok(v) => r matches Ok(g) && g@ == v,
            Err(v) => r matches Err(e) && e@ == v,
        },
{
    let slug_text = match graph_attr(item, "slug") {
        Ok(s) => s,
        Err(e) => return Err(e),
    };
    let slug = match Slug::new(slug_text.as_str()) {
        Ok(s) => s,
        Err(e) => return Err(MindPalaceError::Graph(String::from_str(e.message()))),
    };
    let title = match graph_attr(item, "title") {
        Ok(s) => s,
        Err(e) => return Err(e),
    };
    let summary = match graph_attr(item, "summary") {
        Ok(s) => s,
        Err(e) => return Err(e),
    };
    let visibility_json = match graph_attr(item, "visibility") {
        Ok(s) => s,
        Err(e) => return Err(e),
    };
    let page_type_json = match graph_attr(item, "page_type") {
        Ok(s) => s,
        Err(e) => return Err(e),
    };
    Ok(GraphItem::Node { page_id: id, slug, title, summary, visibility_json, page_type_json })
}

/// Reads one stored graph item.
pub fn graph_item(item: &Vec<(String, String)>) -> (r: Result<GraphItem, MindPalaceError>)
    ensures
        match spec_graph_item(item@) {
            Ok(v) => r matches Ok(g) && g@ == v,
            Err(v) => r matches Err(e) && e@ == v,
        },
{
    let sk = match graph_attr(item, "SK") {
        Ok(s) => s,
        Err(e) => return Err(e),
    };
    let pk = match graph_attr(item, "PK") {
        Ok(s) => s,
        Err(e) => return Err(e),
    };
    proof {
        reveal_strlit("META");
        reveal_strlit("EDGE#");
    }
    if str_eq(sk.as_str(), "META") {
        let id = match parse_page_id(pk.as_str()) {
            Ok(id) => id,
            Err(e) => return Err(e),
        };
        return node_item(item, id);
    }
    let cs = chars_of(sk.as_str());
    let prefix = chars_of("EDGE#");
    if !starts_with(&cs, &prefix) {
        return Ok(GraphItem::Other);
    }
    let source = match parse_page_id(pk.as_str()) {
        Ok(id) => id,
        Err(e) => return Err(e),
    };
    let mut rest: Vec<char> = Vec::new();
    let n = cs.len();
    for i in 5..n
        invariant
            5 <= n == cs@.len(),
            rest@ == cs@.subrange(5, i as int),
    {
        rest.push(cs[i]);
        assert(cs@.subrange(5, i + 1) =~= cs@.subrange(5, i as int).push(cs@[i as int]));
    }
    let text = string_from_chars(rest.as_slice());
    let target = match parse_uuid(text.as_str()) {
        Ok(v) => v,
        Err(m) => return Err(MindPalaceError::Graph(m)),
    };
    let kind_json = match graph_attr(item, "edge_kind") {
        Ok(s) => s,
        Err(e) => return Err(e),
    };
    Ok(GraphItem::Edge { source, target: PageId(target), kind_json })
}

/// The one strftime format the library writes instants with: UTC, to the
/// second, ending in `Z`.
pub open spec fn utc_z_format() -> Seq<char> {
    "%Y-%m-%dT%H:%M:%SZ"@
}

/// What `chrono` writes for the instant `secs`, `nanos` with the format
/// `fmt`, when the instant can be represented.
pub uninterp spec fn spec_utc_format(secs: i64, nanos: u32, fmt: Seq<char>) -> Option<Seq<char>>;

/// Calls `chrono::DateTime::from_timestamp` and formats the instant with
/// `DateTime::format(fmt)`; the text is named by `spec_utc_format`. Only
/// the library's format is admitted: chrono panics on a malformed one.
#[verifier::external_body]
fn utc_format(secs: i64, nanos: u32, fmt: &str) -> (r: Option<String>)
    requires
        fmt@ == utc_z_format(),
    ensures
        match spec_utc_format(secs, nanos, fmt@) {
            Some(s) => r matches Some(x) && x@ == s,
            None => r is None,
        },
{
    match chrono::DateTime::from_timestamp(secs, nanos) {
        Some(d) => Some(d.format(fmt).to_string()),
        None => None,
    }
}

/// The UTC form an SSO token expiry must be rewritten to, if any: a time
/// already ending in `Z` is left alone, so is one that does not parse;
/// otherwise it is the same instant in UTC, whole seconds, written in
/// [`utc_z_format`].
pub fn sso_expiry_fix(expires: &str) -> (r: Option<String>)
    ensures
        if expires@.len() > 0 && expires@.last() == 'Z' {
            r is None
        } else {
            match spec_parse_rfc3339(expires@) {
                Err(_) => r is None,
                Ok((secs, _)) => match spec_utc_format(secs, 0, utc_z_format()) {
                    Some(s) => r matches Some(x) && x@ == s,
                    None => r is None,
                },
            }
        },
{
    let cs = chars_of(expires);
    if cs.len() > 0 && cs[cs.len() - 1] == 'Z' {
        return None;
    }
    match parse_rfc3339(expires) {
        Err(_) => None,
        Ok(t) => {
            proof {
                reveal_strlit("%Y-%m-%dT%H:%M:%SZ");
            }
            utc_format(t.secs, 0, "%Y-%m-%dT%H:%M:%SZ")
        },
    }
}

} // verus!
