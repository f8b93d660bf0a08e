use mind_palace::clock::Timestamp;
use mind_palace::error::MindPalaceError;
use mind_palace::ports::{ChangeAction, ChangelogEntry, SearchResult};
use mind_palace::records::{
    backlink_sk, changelog_entry_from_item, changelog_item, edge_sk, entry_from_fields, graph_item,
    meta_sk, sso_expiry_fix, GraphItem,
};
use mind_palace::tenant::TenantContext;
use mind_palace::tools::ranked_ids;
use mind_palace::value_objects::{PageId, Slug, TenantId};
use mind_palace::vectors::{embed_input, hit_from_members, search_hit, visibility_filter};

const ID_A: &str = "67e55044-10b1-426f-9247-bb680e5fe0c8";
const ID_B: &str = "a1a2a3a4-b1b2-c1c2-d1d2-d3d4d5d6d7d8";

fn item(pairs: &[(&str, &str)]) -> Vec<(String, String)> {
    pairs.iter().map(|(k, v)| (k.to_string(), v.to_string())).collect()
}

fn pid(s: &str) -> PageId {
    PageId(uuid::Uuid::parse_str(s).unwrap().as_u128())
}

#[test]
fn graph_item_reads_a_node_record() {
    let pk = format!("PAGE#{ID_A}");
    let it = item(&[
        ("PK", &pk),
        ("SK", "META"),
        ("slug", "rust-notes"),
        ("title", "Rust"),
        ("summary", "About Rust"),
        ("visibility", "\"General\""),
        ("page_type", "\"Concept\""),
    ]);
    match graph_item(&it).unwrap() {
        GraphItem::Node { page_id, slug, title, summary, visibility_json, page_type_json } => {
            assert_eq!(page_id, pid(ID_A));
            assert_eq!(slug.as_str(), "rust-notes");
            assert_eq!(title, "Rust");
            assert_eq!(summary, "About Rust");
            assert_eq!(visibility_json, "\"General\"");
            assert_eq!(page_type_json, "\"Concept\"");
        }
        _ => panic!("expected a node"),
    }
}

#[test]
fn graph_item_reads_an_edge_and_skips_backlinks() {
    let pk = format!("PAGE#{ID_A}");
    let sk = format!("EDGE#{ID_B}");
    let it = item(&[("PK", &pk), ("SK", &sk), ("edge_kind", "\"Related\"")]);
    match graph_item(&it).unwrap() {
        GraphItem::Edge { source, target, kind_json } => {
            assert_eq!(source, pid(ID_A));
            assert_eq!(target, pid(ID_B));
            assert_eq!(kind_json, "\"Related\"");
        }
        _ => panic!("expected an edge"),
    }
    let back = format!("BACKLINK#{ID_B}");
    let it = item(&[("PK", &pk), ("SK", &back), ("edge_kind", "\"Related\"")]);
    assert!(matches!(graph_item(&it).unwrap(), GraphItem::Other));
}

#[test]
fn graph_item_errors() {
    let it = item(&[("PK", "PAGE#x")]);
    match graph_item(&it) {
        Err(MindPalaceError::Graph(m)) => assert_eq!(m, "missing attribute: SK"),
        _ => panic!("expected a graph error"),
    }
    let it = item(&[("PK", "NODE#1"), ("SK", "META")]);
    match graph_item(&it) {
        Err(MindPalaceError::Graph(m)) => assert_eq!(m, "invalid PK format"),
        _ => panic!("expected a graph error"),
    }
    let pk = format!("PAGE#{ID_A}");
    let it = item(&[("PK", &pk), ("SK", "META"), ("slug", "Bad Slug")]);
    match graph_item(&it) {
        Err(MindPalaceError::Graph(m)) => {
            assert_eq!(m, "slug must contain only lowercase ascii, digits, or hyphens")
        }
        _ => panic!("expected a graph error"),
    }
    let it = item(&[("PK", &pk), ("SK", "META"), ("slug", "ok"), ("title", "t")]);
    match graph_item(&it) {
        Err(MindPalaceError::Graph(m)) => assert_eq!(m, "missing attribute: summary"),
        _ => panic!("expected a graph error"),
    }
    let it = item(&[("PK", &pk), ("SK", "EDGE#not-a-uuid"), ("edge_kind", "\"Link\"")]);
    assert!(matches!(graph_item(&it), Err(MindPalaceError::Graph(_))));
}

#[test]
fn sort_keys_of_graph_records() {
    assert_eq!(edge_sk(&pid(ID_B)), format!("EDGE#{ID_B}"));
    assert_eq!(backlink_sk(&pid(ID_A)), format!("BACKLINK#{ID_A}"));
    assert_eq!(meta_sk(), "META");
}

fn entry() -> ChangelogEntry {
    ChangelogEntry {
        timestamp: Timestamp { secs: 1_700_000_000, nanos: 0 },
        slug: Slug::new("rust-notes").unwrap(),
        page_id: pid(ID_A),
        action: ChangeAction::Updated,
        agent_id: Some("agent-7".to_string()),
        summary: None,
    }
}

#[test]
fn changelog_record_reads_back() {
    let e = entry();
    let it = changelog_item(&e).unwrap();
    assert_eq!(it[0], ("PK".to_string(), "CHANGELOG".to_string()));
    assert_eq!(it[1].0, "SK");
    assert!(it[1].1.starts_with("2023-11-14T22:13:20+00:00#"));
    assert_eq!(it.len(), 6);
    let back = changelog_entry_from_item(&it).unwrap();
    assert_eq!(back.timestamp, e.timestamp);
    assert_eq!(back.slug.as_str(), e.slug.as_str());
    assert_eq!(back.page_id, e.page_id);
    assert_eq!(back.action, ChangeAction::Updated);
    assert_eq!(back.agent_id, Some("agent-7".to_string()));
    assert_eq!(back.summary, None);
}

#[test]
fn changelog_item_errors() {
    let it = item(&[("SK", "2024-01-01T00:00:00Z#x"), ("slug", "a")]);
    match changelog_entry_from_item(&it) {
        Err(MindPalaceError::Changelog(m)) => assert_eq!(m, "missing attribute: page_id"),
        _ => panic!("expected a changelog error"),
    }
    let it = item(&[("slug", "a")]);
    match changelog_entry_from_item(&it) {
        Err(MindPalaceError::Changelog(m)) => assert_eq!(m, "missing attribute: SK"),
        _ => panic!("expected a changelog error"),
    }
    match entry_from_fields("2024-01-01T00:00:00Z#x", "a", ID_A, "Renamed", None, None) {
        Err(MindPalaceError::Changelog(m)) => assert_eq!(m, "unknown change action: Renamed"),
        _ => panic!("expected a changelog error"),
    }
}

#[test]
fn vector_filter_for_tenant_contexts() {
    assert!(visibility_filter(&TenantContext::global()).is_none());
    let mut ctx = TenantContext::user("ann");
    ctx.tenant_id = Some(TenantId("acme".to_string()));
    ctx.visible_tenants = vec![TenantId("acme".to_string()), TenantId("shared".to_string())];
    assert_eq!(
        visibility_filter(&ctx).unwrap(),
        vec!["acme".to_string(), "shared".to_string(), "general".to_string(), "user-ann".to_string()]
    );
}

#[test]
fn search_hit_from_metadata_fields() {
    let hit = search_hit(
        Some(ID_A.to_string()),
        Some("rust-notes".to_string()),
        Some("Rust".to_string()),
        None,
        0.5f64.to_bits(),
    )
    .unwrap();
    assert_eq!(hit.page_id, pid(ID_A));
    assert_eq!(hit.slug.as_str(), "rust-notes");
    assert_eq!(hit.summary, "");
    assert_eq!(f64::from_bits(hit.score_bits), 0.5);
    assert!(search_hit(Some("nope".into()), Some("a".into()), Some("t".into()), None, 0).is_none());
    assert!(search_hit(Some(ID_A.into()), Some("A".into()), Some("t".into()), None, 0).is_none());
    assert!(search_hit(Some(ID_A.into()), Some("a".into()), None, None, 0).is_none());
}

#[test]
fn ranked_ids_keep_order_and_scores() {
    let mk = |s: &str, score: f64| SearchResult {
        page_id: pid(ID_A),
        slug: Slug::new(s).unwrap(),
        title: String::new(),
        summary: String::new(),
        score_bits: score.to_bits(),
    };
    let r = ranked_ids(&vec![mk("b", 0.9), mk("a", 0.3)]);
    assert_eq!(r, vec![(0.9f64.to_bits(), "b".to_string()), (0.3f64.to_bits(), "a".to_string())]);
}

#[test]
fn embedding_input_is_cut_on_a_char_boundary() {
    let short = "hello wiki";
    assert_eq!(embed_input(short), short);
    let long = "a".repeat(30_005);
    assert_eq!(embed_input(&long).len(), 30_000);
    // 29 999 ASCII bytes, then a 3-byte character straddling the budget.
    let mut text = "b".repeat(29_999);
    text.push('€');
    text.push_str("tail");
    let cut = embed_input(&text);
    assert_eq!(cut.len(), 29_999);
    assert!(text.starts_with(&cut));
}

#[test]
fn sso_expiry_is_rewritten_in_utc() {
    assert_eq!(
        sso_expiry_fix("2026-08-26T11:54:38-04:00"),
        Some("2026-08-26T15:54:38Z".to_string())
    );
    assert_eq!(sso_expiry_fix("2026-08-26T15:54:38Z"), None);
    assert_eq!(sso_expiry_fix("tomorrow"), None);
}

#[test]
fn search_hit_from_plain_members() {
    let ms = vec![
        ("title".to_string(), Some("Rust".to_string())),
        ("page_id".to_string(), Some(ID_A.to_string())),
        ("slug".to_string(), Some("rust-notes".to_string())),
        ("rank".to_string(), None),
    ];
    let h = hit_from_members(&ms, 7).unwrap();
    assert_eq!(h.page_id, pid(ID_A));
    assert_eq!(h.title, "Rust");
    assert_eq!(h.summary, "");
    assert!(hit_from_members(&ms[..1].to_vec(), 7).is_none());
}
