//! Value objects of the domain: identifiers, visibility and the access model.
use vstd::prelude::*;

use crate::text::{chars_of, copy_str, lowercase, replace_char, spec_lowercase, spec_replace_char};

verus! {

broadcast use vstd::string::group_string_axioms;

/// A version-4 UUID as an integer: version nibble 4 (bits 76 to 79) and the
/// RFC 4122 variant `10` (bits 62 and 63).
pub open spec fn is_uuid_v4(x: u128) -> bool {
    &&& (x / 0x10000000000000000000u128) % 16 == 4
    &&& (x / 0x4000000000000000u128) % 4 == 2
}

/// Calls `uuid::Uuid::new_v4` and reads the random UUID as an integer. The
/// value is random; `new_v4` sets the version and variant bits, which is
/// all that is stated.
#[verifier::external_body]
fn random_uuid_v4() -> (r: u128)
    ensures
        is_uuid_v4(r),
{
    uuid::Uuid::new_v4().as_u128()
}

/// Identifier of a page: a v4 UUID, held as its 128-bit value.
#[derive(Debug, Clone, Copy, PartialEq, Eq, Hash, Structural)]
pub struct PageId(pub u128);

impl PageId {
    /// A fresh random identifier: a version-4 UUID.
    pub fn new() -> (r: PageId)
        ensures
            is_uuid_v4(r.0),
    {
        PageId(random_uuid_v4())
    }
}

// ---------------------------------------------------------------------------
// Slug
// ---------------------------------------------------------------------------

/// A character allowed in a slug: lowercase ASCII, a digit or a hyphen.
pub open spec fn slug_char_ok(c: char) -> bool {
    ('a' <= c && c <= 'z') || ('0' <= c && c <= '9') || c == '-'
}

/// All characters of `s` are allowed in a slug.
pub open spec fn slug_chars_ok(s: Seq<char>) -> bool {
    forall|i: int| 0 <= i < s.len() ==> slug_char_ok(#[trigger] s[i])
}

/// The error `Slug::new` reports for a string, if any.
pub open spec fn slug_error_of(s: Seq<char>) -> Option<SlugError> {
    if s.len() == 0 {
        Some(SlugError::Empty)
    } else if !slug_chars_ok(s) {
        Some(SlugError::InvalidChars)
    } else if s[0] == '-' || s.last() == '-' {
        Some(SlugError::InvalidFormat)
    } else {
        None
    }
}

/// A well-formed slug: non-empty, only `[a-z0-9-]`, no leading or trailing hyphen.
pub open spec fn valid_slug(s: Seq<char>) -> bool {
    slug_error_of(s) is None
}

/// Exactly the strings made of `a`-`z`, `0`-`9` and `-` pass the character
/// check: a slug holds no other character, and a non-empty string with any
/// other character is refused for its characters.
pub proof fn lemma_slug_alphabet(s: Seq<char>)
    ensures
        valid_slug(s) ==> forall|i: int|
            0 <= i < s.len() ==> ('a' <= #[trigger] s[i] && s[i] <= 'z') || ('0' <= s[i] && s[i]
                <= '9') || s[i] == '-',
        (exists|i: int|
            0 <= i < s.len() && !(('a' <= #[trigger] s[i] && s[i] <= 'z') || ('0' <= s[i] && s[i]
                <= '9') || s[i] == '-')) ==> slug_error_of(s) == Some(SlugError::InvalidChars),
{
    if exists|i: int|
        0 <= i < s.len() && !(('a' <= #[trigger] s[i] && s[i] <= 'z') || ('0' <= s[i] && s[i]
            <= '9') || s[i] == '-') {
        let i = choose|i: int|
            0 <= i < s.len() && !(('a' <= #[trigger] s[i] && s[i] <= 'z') || ('0' <= s[i] && s[i]
                <= '9') || s[i] == '-');
        assert(!slug_char_ok(s[i]));
    }
}

/// A URL-safe page name.
#[derive(Debug, Clone, PartialEq, Eq, Hash)]
pub struct Slug(String);

/// Why a string is not a slug.
#[derive(Debug, Clone, Copy, PartialEq, Eq, Structural)]
pub enum SlugError {
    Empty,
    InvalidChars,
    InvalidFormat,
}

/// The text of a slug error.
pub open spec fn slug_error_text(e: SlugError) -> Seq<char> {
    match e {
        SlugError::Empty => "slug cannot be empty"@,
        SlugError::InvalidChars => "slug must contain only lowercase ascii, digits, or hyphens"@,
        SlugError::InvalidFormat => "slug cannot start or end with a hyphen"@,
    }
}

impl SlugError {
    /// The human-readable message of the error.
    pub fn message(&self) -> (r: &'static str)
        ensures
            r@ == slug_error_text(*self),
    {
        match self {
            SlugError::Empty => "slug cannot be empty",
            SlugError::InvalidChars => "slug must contain only lowercase ascii, digits, or hyphens",
            SlugError::InvalidFormat => "slug cannot start or end with a hyphen",
        }
    }
}

impl View for Slug {
    type V = Seq<char>;

    closed spec fn view(&self) -> Seq<char> {
        self.0@
    }
}

impl Slug {
    /// Validates `value` as a slug.
    pub fn new(value: &str) -> (r: Result<Slug, SlugError>)
        ensures
            match r {
                Ok(s) => valid_slug(value@) && s@ == value@,
                Err(e) => slug_error_of(value@) == Some(e),
            },
            r is Ok ==> forall|i: int|
                0 <= i < value@.len() ==> ('a' <= #[trigger] value@[i] && value@[i] <= 'z') || ('0'
                    <= value@[i] && value@[i] <= '9') || value@[i] == '-',
            (exists|i: int|
                0 <= i < value@.len() && !(('a' <= #[trigger] value@[i] && value@[i] <= 'z') || ('0'
                    <= value@[i] && value@[i] <= '9') || value@[i] == '-')) ==> r == Err::<
                Slug,
                SlugError,
            >(SlugError::InvalidChars),
    {
        let cs = chars_of(value);
        if cs.len() == 0 {
            return Err(SlugError::Empty);
        }
        let n = cs.len();
        for i in 0..n
            invariant
                n == cs@.len(),
                cs@ == value@,
                forall|j: int| 0 <= j < i ==> slug_char_ok(#[trigger] cs@[j]),
        {
            let c = cs[i];
            if !(('a' <= c && c <= 'z') || ('0' <= c && c <= '9') || c == '-') {
                assert(!slug_char_ok(value@[i as int]));
                return Err(SlugError::InvalidChars);
            }
        }
        assert(slug_chars_ok(value@));
        if cs[0] == '-' || cs[n - 1] == '-' {
            return Err(SlugError::InvalidFormat);
        }
        assert(valid_slug(value@));
        let text = copy_str(value);
        Ok(Slug(text))
    }

    /// The slug's text.
    pub fn as_str(&self) -> (r: &str)
        ensures
            r@ == self@,
    {
        self.0.as_str()
    }

    /// A copy with the same text.
    pub fn duplicate(&self) -> (r: Slug)
        ensures
            r@ == self@,
    {
        Slug(self.0.clone())
    }

    /// Whether two slugs have the same text.
    pub fn same_as(&self, other: &Slug) -> (r: bool)
        ensures
            r == (self@ == other@),
    {
        self.0 == other.0
    }
}

// ---------------------------------------------------------------------------
// Tenants and groups
// ---------------------------------------------------------------------------

/// Identifier of a tenant.
#[derive(Debug, Clone, PartialEq, Eq, Hash)]
pub struct TenantId(pub String);

impl View for TenantId {
    type V = Seq<char>;

    open spec fn view(&self) -> Seq<char> {
        self.0@
    }
}

impl TenantId {
    pub fn new(value: &str) -> (r: TenantId)
        ensures
            r@ == value@,
    {
        TenantId(copy_str(value))
    }

    /// A copy with the same text.
    pub fn duplicate(&self) -> (r: TenantId)
        ensures
            r@ == self@,
    {
        TenantId(self.0.clone())
    }
}

/// Identifier of a group.
#[derive(Debug, Clone, PartialEq, Eq, Hash)]
pub struct GroupId(pub String);

impl View for GroupId {
    type V = Seq<char>;

    open spec fn view(&self) -> Seq<char> {
        self.0@
    }
}

impl GroupId {
    pub fn new(value: &str) -> (r: GroupId)
        ensures
            r@ == value@,
    {
        GroupId(copy_str(value))
    }

    pub fn as_str(&self) -> (r: &str)
        ensures
            r@ == self@,
    {
        self.0.as_str()
    }

    /// A copy with the same text.
    pub fn duplicate(&self) -> (r: GroupId)
        ensures
            r@ == self@,
    {
        GroupId(self.0.clone())
    }
}

// ---------------------------------------------------------------------------
// Storage visibility
// ---------------------------------------------------------------------------

/// Storage partition of a page (also the legacy visibility model).
#[derive(Debug, Clone, PartialEq, Eq)]
pub enum Visibility {
    General,
    Tenant(TenantId),
    User(String),
    Archived,
}

/// The mathematical value of a [`Visibility`].
pub enum VisibilityView {
    General,
    Tenant(Seq<char>),
    User(Seq<char>),
    Archived,
}

impl View for Visibility {
    type V = VisibilityView;

    open spec fn view(&self) -> VisibilityView {
        match self {
            Visibility::General => VisibilityView::General,
            Visibility::Tenant(t) => VisibilityView::Tenant(t@),
            Visibility::User(u) => VisibilityView::User(u@),
            Visibility::Archived => VisibilityView::Archived,
        }
    }
}

impl Visibility {
    /// A copy with the same value.
    pub fn duplicate(&self) -> (r: Visibility)
        ensures
            r@ == self@,
    {
        match self {
            Visibility::General => Visibility::General,
            Visibility::Tenant(t) => Visibility::Tenant(t.duplicate()),
            Visibility::User(u) => Visibility::User(u.clone()),
            Visibility::Archived => Visibility::Archived,
        }
    }

    /// Whether this is the archived (soft-deleted) state.
    pub fn is_archived(&self) -> (r: bool)
        ensures
            r == (self@ is Archived),
    {
        match self {
            Visibility::Archived => true,
            _ => false,
        }
    }

    /// The storage partition derived from an access model (a lossy projection):
    /// `Public` gives `General`; `Private` with an owner gives `User(owner)`;
    /// `Private` without owner whose single grant is to a group gives
    /// `Tenant(group)`; otherwise `User("")`.
    pub fn from_access(access: &PageAccess) -> (r: Visibility)
        ensures
            r@ == spec_visibility_from_access(access@),
    {
        match access.base_visibility {
            BaseVisibility::Public => Visibility::General,
            BaseVisibility::Private => {
                if let Some(owner) = &access.owner {
                    Visibility::User(owner.clone())
                } else if access.grants.len() == 1 {
                    match &access.grants[0].principal {
                        Principal::Group(gid) => Visibility::Tenant(TenantId(gid.0.clone())),
                        Principal::User(_) => Visibility::User(String::new()),
                    }
                } else {
                    Visibility::User(String::new())
                }
            },
        }
    }
}

/// The partition [`Visibility::from_access`] derives.
pub open spec fn spec_visibility_from_access(a: AccessView) -> VisibilityView {
    match a.base_visibility {
        BaseVisibility::Public => VisibilityView::General,
        BaseVisibility::Private => match a.owner {
            Some(o) => VisibilityView::User(o),
            None => if a.grants.len() == 1 && a.grants[0].principal is Group {
                VisibilityView::Tenant(a.grants[0].principal->Group_0)
            } else {
                VisibilityView::User(Seq::empty())
            },
        },
    }
}

// ---------------------------------------------------------------------------
// Access model
// ---------------------------------------------------------------------------

/// Base openness of a page.
#[derive(Debug, Clone, Copy, PartialEq, Eq, Structural)]
pub enum BaseVisibility {
    Public,
    Private,
}

impl Default for BaseVisibility {
    fn default() -> (r: Self)
        ensures
            r == BaseVisibility::Private,
    {
        BaseVisibility::Private
    }
}

/// A principal a grant can be issued to.
#[derive(Debug, Clone, PartialEq, Eq)]
pub enum Principal {
    User(String),
    Group(GroupId),
}

/// The mathematical value of a [`Principal`].
pub enum PrincipalView {
    User(Seq<char>),
    Group(Seq<char>),
}

impl View for Principal {
    type V = PrincipalView;

    open spec fn view(&self) -> PrincipalView {
        match self {
            Principal::User(u) => PrincipalView::User(u@),
            Principal::Group(g) => PrincipalView::Group(g@),
        }
    }
}

impl Principal {
    /// A copy with the same value.
    pub fn duplicate(&self) -> (r: Principal)
        ensures
            r@ == self@,
    {
        match self {
            Principal::User(u) => Principal::User(u.clone()),
            Principal::Group(g) => Principal::Group(g.duplicate()),
        }
    }

    /// Whether two principals are the same.
    pub fn same_as(&self, other: &Principal) -> (r: bool)
        ensures
            r == (self@ == other@),
    {
        match self {
            Principal::User(a) => match other {
                Principal::User(b) => *a == *b,
                Principal::Group(_) => false,
            },
            Principal::Group(a) => match other {
                Principal::User(_) => false,
                Principal::Group(b) => a.0 == b.0,
            },
        }
    }
}

/// Permission level; `Edit` implies `View`.
#[derive(Debug, Clone, Copy, PartialEq, Eq, PartialOrd, Ord, Structural)]
pub enum Level {
    View,
    Edit,
}

/// The larger of two levels (`Edit` above `View`).
pub open spec fn level_max(a: Level, b: Level) -> Level {
    if a == Level::Edit || b == Level::Edit {
        Level::Edit
    } else {
        Level::View
    }
}

impl Level {
    /// The larger of two levels.
    pub fn max_of(a: Level, b: Level) -> (r: Level)
        ensures
            r == level_max(a, b),
    {
        if a == Level::Edit || b == Level::Edit {
            Level::Edit
        } else {
            Level::View
        }
    }
}

/// A single access grant.
#[derive(Debug, Clone, PartialEq, Eq)]
pub struct Grant {
    pub principal: Principal,
    pub level: Level,
}

/// The mathematical value of a [`Grant`].
pub struct GrantView {
    pub principal: PrincipalView,
    pub level: Level,
}

impl View for Grant {
    type V = GrantView;

    open spec fn view(&self) -> GrantView {
        GrantView { principal: self.principal@, level: self.level }
    }
}

impl Grant {
    /// A copy with the same value.
    pub fn duplicate(&self) -> (r: Grant)
        ensures
            r@ == self@,
    {
        Grant { principal: self.principal.duplicate(), level: self.level }
    }
}

/// The views of a sequence of grants.
pub open spec fn grants_view(gs: Seq<Grant>) -> Seq<GrantView> {
    Seq::new(gs.len(), |i: int| gs[i]@)
}

/// A copy of a list of grants.
pub fn duplicate_grants(gs: &Vec<Grant>) -> (r: Vec<Grant>)
    ensures
        grants_view(r@) == grants_view(gs@),
{
    let mut r: Vec<Grant> = Vec::new();
    let n = gs.len();
    for i in 0..n
        invariant
            n == gs@.len(),
            r@.len() == i,
            grants_view(r@) == grants_view(gs@).take(i as int),
    {
        let ghost before = r@;
        let g = gs[i].duplicate();
        r.push(g);
        assert(r@ == before.push(g));
        assert forall|j: int| 0 <= j < i + 1 implies #[trigger] grants_view(r@)[j] == grants_view(
            gs@,
        ).take(i + 1)[j] by {
            if j < i {
                assert(r@[j] == before[j]);
                assert(grants_view(before)[j] == grants_view(gs@).take(i as int)[j]);
            } else {
                assert(r@[j] == g);
            }
        }
        assert(grants_view(r@) =~= grants_view(gs@).take(i + 1));
    }
    assert(grants_view(gs@).take(n as int) =~= grants_view(gs@));
    r
}

/// Full page-centric access model.
#[derive(Debug, Clone, PartialEq, Eq)]
pub struct PageAccess {
    pub owner: Option<String>,
    pub base_visibility: BaseVisibility,
    pub grants: Vec<Grant>,
}

/// The mathematical value of a [`PageAccess`].
pub struct AccessView {
    pub owner: Option<Seq<char>>,
    pub base_visibility: BaseVisibility,
    pub grants: Seq<GrantView>,
}

/// The view of an optional string.
pub open spec fn opt_view(o: Option<String>) -> Option<Seq<char>> {
    match o {
        Some(s) => Some(s@),
        None => None,
    }
}

/// A copy of an optional string.
pub fn duplicate_opt(o: &Option<String>) -> (r: Option<String>)
    ensures
        opt_view(r) == opt_view(*o),
{
    match o {
        Some(s) => Some(s.clone()),
        None => None,
    }
}

impl View for PageAccess {
    type V = AccessView;

    open spec fn view(&self) -> AccessView {
        AccessView {
            owner: opt_view(self.owner),
            base_visibility: self.base_visibility,
            grants: grants_view(self.grants@),
        }
    }
}

impl Default for PageAccess {
    /// Public with no owner and no grants.
    fn default() -> (r: Self)
        ensures
            r@.owner is None,
            r@.base_visibility == BaseVisibility::Public,
            r@.grants.len() == 0,
    {
        PageAccess { owner: None, base_visibility: BaseVisibility::Public, grants: Vec::new() }
    }
}

/// The access model a legacy [`Visibility`] migrates to, with no increase
/// in openness.
pub open spec fn spec_access_from_visibility(v: VisibilityView) -> AccessView {
    match v {
        VisibilityView::General => AccessView {
            owner: None,
            base_visibility: BaseVisibility::Public,
            grants: Seq::empty(),
        },
        VisibilityView::User(u) => AccessView {
            owner: Some(u),
            base_visibility: BaseVisibility::Private,
            grants: seq![GrantView { principal: PrincipalView::User(u), level: Level::View }],
        },
        VisibilityView::Tenant(t) => AccessView {
            owner: None,
            base_visibility: BaseVisibility::Private,
            grants: seq![GrantView { principal: PrincipalView::Group(t), level: Level::View }],
        },
        VisibilityView::Archived => AccessView {
            owner: None,
            base_visibility: BaseVisibility::Private,
            grants: Seq::empty(),
        },
    }
}

impl PageAccess {
    /// Migrates a legacy [`Visibility`] into an access model: `General` is
    /// Public; `User(x)` is Private, owned by `x`, with a View grant to `x`;
    /// `Tenant(t)` is Private with a View grant to the group `t`; `Archived`
    /// is Private with nothing else.
    pub fn from_visibility(visibility: &Visibility) -> (r: PageAccess)
        ensures
            r@ == spec_access_from_visibility(visibility@),
    {
        let r = match visibility {
            Visibility::General => PageAccess {
                owner: None,
                base_visibility: BaseVisibility::Public,
                grants: Vec::new(),
            },
            Visibility::User(uid) => PageAccess {
                owner: Some(uid.clone()),
                base_visibility: BaseVisibility::Private,
                grants: vec![Grant { principal: Principal::User(uid.clone()), level: Level::View }],
            },
            Visibility::Tenant(tid) => PageAccess {
                owner: None,
                base_visibility: BaseVisibility::Private,
                grants: vec![
                    Grant { principal: Principal::Group(GroupId(tid.0.clone())), level: Level::View },
                ],
            },
            Visibility::Archived => PageAccess {
                owner: None,
                base_visibility: BaseVisibility::Private,
                grants: Vec::new(),
            },
        };
        assert(r@.grants =~= spec_access_from_visibility(visibility@).grants);
        r
    }

    /// True if `email` is the owner.
    pub fn is_owner(&self, email: &str) -> (r: bool)
        ensures
            r == (self@.owner == Some(email@)),
    {
        match &self.owner {
            Some(o) => crate::text::str_eq(o.as_str(), email),
            None => false,
        }
    }

    /// A copy with the same value.
    pub fn duplicate(&self) -> (r: PageAccess)
        ensures
            r@ == self@,
    {
        PageAccess {
            owner: duplicate_opt(&self.owner),
            base_visibility: self.base_visibility,
            grants: duplicate_grants(&self.grants),
        }
    }
}

// ---------------------------------------------------------------------------
// Pages
// ---------------------------------------------------------------------------

/// The kind of a page.
#[derive(Debug, Clone, Copy, PartialEq, Eq, Structural)]
pub enum PageType {
    Index,
    Concept,
    Entity,
    Decision,
    Leaf,
    Sop,
    Skill,
}

/// A headed section of page content.
#[derive(Debug, Clone, PartialEq)]
pub struct Section {
    pub heading: String,
    pub content: String,
}

/// The mathematical value of a [`Section`].
pub struct SectionView {
    pub heading: Seq<char>,
    pub content: Seq<char>,
}

impl View for Section {
    type V = SectionView;

    open spec fn view(&self) -> SectionView {
        SectionView { heading: self.heading@, content: self.content@ }
    }
}

impl Section {
    /// A copy with the same value.
    pub fn duplicate(&self) -> (r: Section)
        ensures
            r@ == self@,
    {
        Section { heading: self.heading.clone(), content: self.content.clone() }
    }
}

/// The views of a sequence of sections.
pub open spec fn sections_view(ss: Seq<Section>) -> Seq<SectionView> {
    Seq::new(ss.len(), |i: int| ss[i]@)
}

/// A copy of a list of sections.
pub fn duplicate_sections(ss: &Vec<Section>) -> (r: Vec<Section>)
    ensures
        sections_view(r@) == sections_view(ss@),
{
    let mut r: Vec<Section> = Vec::new();
    let n = ss.len();
    for i in 0..n
        invariant
            n == ss@.len(),
            r@.len() == i,
            sections_view(r@) == sections_view(ss@).take(i as int),
    {
        let ghost before = r@;
        let x = ss[i].duplicate();
        r.push(x);
        assert(r@ == before.push(x));
        assert forall|j: int| 0 <= j < i + 1 implies #[trigger] sections_view(r@)[j]
            == sections_view(ss@).take(i + 1)[j] by {
            if j < i {
                assert(r@[j] == before[j]);
                assert(sections_view(before)[j] == sections_view(ss@).take(i as int)[j]);
            } else {
                assert(r@[j] == x);
            }
        }
        assert(sections_view(r@) =~= sections_view(ss@).take(i + 1));
    }
    assert(sections_view(ss@).take(n as int) =~= sections_view(ss@));
    r
}

/// The table of contents of a page.
#[derive(Debug, Clone, PartialEq)]
pub struct TableOfContents {
    pub entries: Vec<TocEntry>,
}

/// One entry of a table of contents.
#[derive(Debug, Clone, PartialEq)]
pub struct TocEntry {
    pub title: String,
    pub anchor: String,
    pub depth: u8,
}

/// The anchor of a heading: lower-cased, spaces turned into hyphens.
pub open spec fn spec_anchor(heading: Seq<char>) -> Seq<char> {
    spec_replace_char(spec_lowercase(heading), ' ', '-')
}

impl View for TocEntry {
    type V = (Seq<char>, Seq<char>, u8);

    open spec fn view(&self) -> (Seq<char>, Seq<char>, u8) {
        (self.title@, self.anchor@, self.depth)
    }
}

impl View for TableOfContents {
    type V = Seq<(Seq<char>, Seq<char>, u8)>;

    open spec fn view(&self) -> Seq<(Seq<char>, Seq<char>, u8)> {
        Seq::new(self.entries@.len(), |i: int| self.entries@[i]@)
    }
}

/// The table of contents derived from sections: one depth-1 entry per
/// section, titled by its heading and anchored by [`spec_anchor`].
pub open spec fn spec_toc(sections: Seq<SectionView>) -> Seq<(Seq<char>, Seq<char>, u8)> {
    Seq::new(sections.len(), |i: int| (sections[i].heading, spec_anchor(sections[i].heading), 1u8))
}

impl TableOfContents {
    /// One entry per section, in order.
    pub fn from_sections(sections: &[Section]) -> (r: TableOfContents)
        ensures
            r@ == spec_toc(sections_view(sections@)),
    {
        let mut entries: Vec<TocEntry> = Vec::new();
        let n = sections.len();
        for i in 0..n
            invariant
                n == sections@.len(),
                entries@.len() == i,
                forall|j: int|
                    0 <= j < i ==> (#[trigger] entries@[j])@ == (
                        sections@[j].heading@,
                        spec_anchor(sections@[j].heading@),
                        1u8,
                    ),
        {
            let heading = &sections[i].heading;
            let lower = lowercase(heading.as_str());
            let anchor = replace_char(lower.as_str(), ' ', '-');
            entries.push(TocEntry { title: heading.clone(), anchor, depth: 1 });
        }
        let r = TableOfContents { entries };
        assert(r@ =~= spec_toc(sections_view(sections@)));
        r
    }

    /// The empty table of contents.
    pub fn empty() -> (r: TableOfContents)
        ensures
            r@.len() == 0,
    {
        let r = TableOfContents { entries: Vec::new() };
        assert(r@ =~= Seq::empty());
        r
    }

    /// A copy with the same entries.
    pub fn duplicate(&self) -> (r: TableOfContents)
        ensures
            r@ == self@,
    {
        let mut entries: Vec<TocEntry> = Vec::new();
        let n = self.entries.len();
        for i in 0..n
            invariant
                n == self.entries@.len(),
                entries@.len() == i,
                forall|j: int| 0 <= j < i ==> (#[trigger] entries@[j])@ == self.entries@[j]@,
        {
            let e = &self.entries[i];
            entries.push(TocEntry { title: e.title.clone(), anchor: e.anchor.clone(), depth: e.depth });
        }
        let r = TableOfContents { entries };
        assert(r@ =~= self@);
        r
    }
}

/// The kind of a graph edge.
#[derive(Debug, Clone, Copy, PartialEq, Eq, Structural)]
pub enum EdgeKind {
    Parent,
    Child,
    Related,
    Backlink,
}

/// A named, opaque reference to a secret held by a secrets backend. Never the
/// secret's value.
#[derive(Debug, Clone, PartialEq, Eq)]
pub struct SecretRef {
    pub name: String,
    pub reference: String,
}

impl View for SecretRef {
    type V = (Seq<char>, Seq<char>);

    open spec fn view(&self) -> (Seq<char>, Seq<char>) {
        (self.name@, self.reference@)
    }
}

/// The views of a sequence of secret references.
pub open spec fn refs_view(rs: Seq<SecretRef>) -> Seq<(Seq<char>, Seq<char>)> {
    Seq::new(rs.len(), |i: int| rs[i]@)
}

/// A copy of a list of secret references.
pub fn duplicate_refs(rs: &Vec<SecretRef>) -> (r: Vec<SecretRef>)
    ensures
        refs_view(r@) == refs_view(rs@),
{
    let mut r: Vec<SecretRef> = Vec::new();
    let n = rs.len();
    for i in 0..n
        invariant
            n == rs@.len(),
            r@.len() == i,
            forall|j: int| 0 <= j < i ==> (#[trigger] r@[j])@ == rs@[j]@,
    {
        r.push(rs[i].duplicate());
    }
    assert(refs_view(r@) =~= refs_view(rs@));
    r
}

/// The views of a sequence of slugs.
pub open spec fn slugs_view(v: Seq<Slug>) -> Seq<Seq<char>> {
    Seq::new(v.len(), |i: int| v[i]@)
}

/// The view of an optional slug.
pub open spec fn opt_slug_view(o: Option<Slug>) -> Option<Seq<char>> {
    match o {
        Some(s) => Some(s@),
        None => None,
    }
}

/// A copy of an optional slug.
pub fn duplicate_opt_slug(o: &Option<Slug>) -> (r: Option<Slug>)
    ensures
        opt_slug_view(r) == opt_slug_view(*o),
{
    match o {
        Some(s) => Some(s.duplicate()),
        None => None,
    }
}

/// A copy of a list of slugs.
pub fn duplicate_slugs(v: &Vec<Slug>) -> (r: Vec<Slug>)
    ensures
        slugs_view(r@) == slugs_view(v@),
{
    let mut r: Vec<Slug> = Vec::new();
    let n = v.len();
    for i in 0..n
        invariant
            n == v@.len(),
            r@.len() == i,
            forall|j: int| 0 <= j < i ==> (#[trigger] r@[j])@ == v@[j]@,
    {
        r.push(v[i].duplicate());
    }
    assert(slugs_view(r@) =~= slugs_view(v@));
    r
}

impl SecretRef {
    pub fn new(name: &str, reference: &str) -> (r: SecretRef)
        ensures
            r.name@ == name@,
            r.reference@ == reference@,
    {
        SecretRef { name: copy_str(name), reference: copy_str(reference) }
    }

    /// A copy with the same value.
    pub fn duplicate(&self) -> (r: SecretRef)
        ensures
            r.name@ == self.name@,
            r.reference@ == self.reference@,
    {
        SecretRef { name: self.name.clone(), reference: self.reference.clone() }
    }
}

} // verus!
