//! The ports through which the domain reaches storage, search, embeddings,
//! groups, the changelog and secrets, with the data that crosses them.
//!
//! Implementations live outside the domain. Nothing is promised of what a
//! port returns; the service states what it does for each outcome.
use vstd::prelude::*;

use crate::clock::Timestamp;
use crate::error::MindPalaceError;
use crate::graph::GraphNodeView;
use crate::group::Group;
use crate::page::Page;
use crate::tenant::TenantContext;
use crate::text::append_str;
use crate::value_objects::{
    opt_slug_view, EdgeKind, GroupId, PageAccess, PageId, PageType, Slug, Visibility,
};

verus! {

// ---------------------------------------------------------------------------
// Changelog
// ---------------------------------------------------------------------------

/// The action that was performed on a page.
#[derive(Debug, Clone, Copy, PartialEq, Eq, Structural)]
pub enum ChangeAction {
    Created,
    Updated,
    Deleted,
}

/// A single changelog entry recording a wiki mutation.
#[derive(Debug, Clone)]
pub struct ChangelogEntry {
    pub timestamp: Timestamp,
    pub slug: Slug,
    pub page_id: PageId,
    pub action: ChangeAction,
    pub agent_id: Option<String>,
    pub summary: Option<String>,
}

/// Persists and queries changelog entries.
pub trait ChangelogStore {
    /// Appends a new entry.
    fn append(&self, entry: &ChangelogEntry) -> Result<(), MindPalaceError>;

    /// Entries since a given instant, ordered by time ascending.
    fn since(&self, since: Timestamp, limit: Option<usize>) -> Result<
        Vec<ChangelogEntry>,
        MindPalaceError,
    >;

    /// Deletes all entries older than the given instant; returns how many.
    fn prune_before(&self, before: Timestamp) -> Result<u64, MindPalaceError>;
}

// ---------------------------------------------------------------------------
// Embeddings and vector search
// ---------------------------------------------------------------------------

/// Turns text into embedding vectors. A vector's components are held as the
/// IEEE-754 bit patterns of their `f64` values; the domain only carries them
/// from the embedding port to the vector store.
pub trait EmbeddingPort {
    fn embed_text(&self, text: &str) -> Result<Vec<u64>, MindPalaceError>;

    fn embed_texts(&self, texts: &[String]) -> Result<Vec<Vec<u64>>, MindPalaceError>;
}

/// A hit of a semantic search. `score_bits` is the IEEE-754 bit pattern of
/// the `f64` similarity score.
#[derive(Debug, Clone)]
pub struct SearchResult {
    pub page_id: PageId,
    pub slug: Slug,
    pub title: String,
    pub summary: String,
    pub score_bits: u64,
}

/// What is stored beside a page's embedding.
#[derive(Debug, Clone)]
pub struct EmbeddingMetadata {
    pub page_id: PageId,
    pub slug: Slug,
    pub title: String,
    pub visibility: Visibility,
}

/// Stores embeddings and answers nearest-neighbour queries.
pub trait VectorSearchPort {
    fn search(&self, query_embedding: &[u64], limit: usize, ctx: &TenantContext) -> Result<
        Vec<SearchResult>,
        MindPalaceError,
    >;

    fn upsert_embedding(&self, metadata: &EmbeddingMetadata, embedding: &[u64]) -> Result<
        (),
        MindPalaceError,
    >;

    fn delete_embedding(&self, page_id: &PageId) -> Result<(), MindPalaceError>;
}

// ---------------------------------------------------------------------------
// Graph persistence
// ---------------------------------------------------------------------------

/// A node as stored in and loaded from the graph backend.
#[derive(Debug, Clone)]
pub struct GraphNodeData {
    pub page_id: PageId,
    pub slug: Slug,
    pub title: String,
    pub summary: String,
    pub visibility: Visibility,
    /// Access model stored on the node, so listing and traversal can filter
    /// by owner and grants without loading the page.
    pub access: PageAccess,
    pub page_type: PageType,
    /// Containment parent; `None` for a root page.
    pub parent: Option<Slug>,
}

impl View for GraphNodeData {
    type V = GraphNodeView;

    open spec fn view(&self) -> GraphNodeView {
        GraphNodeView {
            page_id: self.page_id.0,
            slug: self.slug@,
            title: self.title@,
            summary: self.summary@,
            visibility: self.visibility@,
            access: self.access@,
            page_type: self.page_type,
            parent: opt_slug_view(self.parent),
        }
    }
}

/// An edge as stored in and loaded from the graph backend.
#[derive(Debug, Clone, Copy, PartialEq, Eq, Structural)]
pub struct GraphEdgeData {
    pub source: PageId,
    pub target: PageId,
    pub kind: EdgeKind,
}

/// The whole graph as loaded from persistence.
#[derive(Debug, Clone)]
pub struct GraphData {
    pub nodes: Vec<GraphNodeData>,
    pub edges: Vec<GraphEdgeData>,
}

impl Default for GraphData {
    /// No nodes and no edges.
    fn default() -> (r: Self)
        ensures
            r.nodes@.len() == 0,
            r.edges@.len() == 0,
    {
        GraphData { nodes: Vec::new(), edges: Vec::new() }
    }
}

/// Persists the knowledge graph.
pub trait GraphStore {
    fn load_graph(&self) -> Result<GraphData, MindPalaceError>;

    fn save_node(&self, node: &GraphNodeData) -> Result<(), MindPalaceError>;

    fn save_edge(&self, edge: &GraphEdgeData) -> Result<(), MindPalaceError>;

    fn delete_node(&self, id: &PageId) -> Result<(), MindPalaceError>;

    fn delete_edge(&self, source: &PageId, target: &PageId) -> Result<(), MindPalaceError>;
}

// ---------------------------------------------------------------------------
// Groups
// ---------------------------------------------------------------------------

/// Persists groups.
pub trait GroupStore {
    /// A single group, or `None` if it does not exist.
    fn get_group(&self, id: &GroupId) -> Result<Option<Group>, MindPalaceError>;

    /// All groups; used to resolve the groups an identity belongs to.
    fn list_groups(&self) -> Result<Vec<Group>, MindPalaceError>;

    /// Creates or replaces a group.
    fn save_group(&self, group: &Group) -> Result<(), MindPalaceError>;

    /// Deletes a group by id.
    fn delete_group(&self, id: &GroupId) -> Result<(), MindPalaceError>;
}

// ---------------------------------------------------------------------------
// Pages
// ---------------------------------------------------------------------------

/// A filter on listed pages.
#[derive(Debug, Clone)]
pub struct PageFilter {
    pub page_type: Option<PageType>,
    pub visibility: Option<Visibility>,
    pub limit: Option<usize>,
}

impl Default for PageFilter {
    /// No filter and no limit.
    fn default() -> (r: Self)
        ensures
            r.page_type is None,
            r.visibility is None,
            r.limit is None,
    {
        PageFilter { page_type: None, visibility: None, limit: None }
    }
}

/// Persists pages.
pub trait PageStore {
    fn get_page(&self, id: &PageId, ctx: &TenantContext) -> Result<Page, MindPalaceError>;

    fn get_page_by_slug(&self, slug: &Slug, ctx: &TenantContext) -> Result<Page, MindPalaceError>;

    /// Reads a page by slug without visibility filtering (e.g. to unarchive).
    fn get_page_by_slug_unfiltered(&self, slug: &Slug) -> Result<Page, MindPalaceError>;

    fn save_page(&self, page: &Page) -> Result<(), MindPalaceError>;

    fn delete_page(&self, id: &PageId) -> Result<(), MindPalaceError>;

    fn list_pages(&self, filter: &PageFilter, ctx: &TenantContext) -> Result<
        Vec<Page>,
        MindPalaceError,
    >;
}

// ---------------------------------------------------------------------------
// Secrets
// ---------------------------------------------------------------------------

/// A resolved secret value. It has no `Debug` and is never serialised, so it
/// cannot leak into logs, page content or transcripts.
#[derive(Clone)]
pub struct SecretValue(String);

impl SecretValue {
    pub fn new(value: String) -> (r: SecretValue)
        ensures
            r@ == value@,
    {
        SecretValue(value)
    }

    /// The plaintext, for the immediate operation only.
    pub fn expose(&self) -> (r: &str)
        ensures
            r@ == self@,
    {
        self.0.as_str()
    }

    /// Consumes the value into its plaintext.
    pub fn into_inner(self) -> (r: String)
        ensures
            r@ == self@,
    {
        self.0
    }

    /// The value as it may appear in logs and debug output: redacted.
    pub fn redacted(&self) -> (r: String)
        ensures
            r@ == "SecretValue(<redacted>)"@,
    {
        String::from_str("SecretValue(<redacted>)")
    }
}

impl View for SecretValue {
    type V = Seq<char>;

    closed spec fn view(&self) -> Seq<char> {
        self.0@
    }
}

/// Errors from a secrets backend. None of them carries a secret value.
#[derive(Debug, Clone, PartialEq, Eq)]
pub enum SecretError {
    /// The reference is not a well-formed locator for the backend (it may be
    /// a raw secret pasted in its place).
    InvalidReference(String),
    /// The reference is well-formed but could not be resolved.
    ResolutionFailed(String),
    /// No secrets backend is configured.
    NotConfigured(String),
}

/// The mathematical value of a [`SecretError`].
pub enum SecretErrorView {
    InvalidReference(Seq<char>),
    ResolutionFailed(Seq<char>),
    NotConfigured(Seq<char>),
}

impl View for SecretError {
    type V = SecretErrorView;

    open spec fn view(&self) -> SecretErrorView {
        match self {
            SecretError::InvalidReference(m) => SecretErrorView::InvalidReference(m@),
            SecretError::ResolutionFailed(m) => SecretErrorView::ResolutionFailed(m@),
            SecretError::NotConfigured(m) => SecretErrorView::NotConfigured(m@),
        }
    }
}

impl SecretError {
    /// A copy with the same value.
    pub fn duplicate(&self) -> (r: SecretError)
        ensures
            r@ == self@,
    {
        match self {
            SecretError::InvalidReference(m) => SecretError::InvalidReference(m.clone()),
            SecretError::ResolutionFailed(m) => SecretError::ResolutionFailed(m.clone()),
            SecretError::NotConfigured(m) => SecretError::NotConfigured(m.clone()),
        }
    }
}

/// The text of a secret error.
pub open spec fn secret_error_text(e: SecretError) -> Seq<char> {
    match e {
        SecretError::InvalidReference(m) => "invalid secret reference: "@ + m@,
        SecretError::ResolutionFailed(m) => "secret resolution failed: "@ + m@,
        SecretError::NotConfigured(m) => "secrets backend not configured: "@ + m@,
    }
}

impl SecretError {
    /// The human-readable message of the error.
    pub fn message(&self) -> (r: String)
        ensures
            r@ == secret_error_text(*self),
    {
        let mut out = String::new();
        match self {
            SecretError::InvalidReference(m) => {
                append_str(&mut out, "invalid secret reference: ");
                append_str(&mut out, m.as_str());
            },
            SecretError::ResolutionFailed(m) => {
                append_str(&mut out, "secret resolution failed: ");
                append_str(&mut out, m.as_str());
            },
            SecretError::NotConfigured(m) => {
                append_str(&mut out, "secrets backend not configured: ");
                append_str(&mut out, m.as_str());
            },
        }
        out
    }
}

/// A pluggable secrets backend.
pub trait SecretsResolver {
    /// Whether this backend accepts `reference` as one of its locators: the
    /// pattern [`SecretsResolver::validate_reference`] checks. A verified
    /// backend defines it; for any other backend it is left unspecified.
    closed spec fn accepts(&self, reference: Seq<char>) -> bool {
        arbitrary()
    }

    /// Checks that `reference` is a well-formed locator for this backend.
    /// A pure pattern check, used at save time and by lint.
    fn validate_reference(&self, reference: &str) -> (r: Result<(), SecretError>)
        ensures
            r is Ok <==> self.accepts(reference@);

    /// Resolves a reference to its value.
    fn resolve(&self, reference: &str) -> Result<SecretValue, SecretError>;
}

} // verus!
