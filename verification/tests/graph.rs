use mind_palace::graph::{Direction, GraphNode, KnowledgeGraph};
use mind_palace::ports::{GraphData, GraphEdgeData, GraphNodeData};
use mind_palace::tenant::TenantContext;
use mind_palace::value_objects::{
    BaseVisibility, EdgeKind, Grant, Level, PageAccess, PageId, PageType, Principal, Slug,
    TenantId, Visibility,
};

fn make_node(id: &str, slug: &str, ptype: PageType, vis: Visibility) -> GraphNode {
    GraphNode {
        page_id: PageId::new(),
        slug: Slug::new(slug).unwrap(),
        title: id.to_string(),
        summary: format!("Summary of {id}"),
        access: PageAccess::from_visibility(&vis),
        visibility: vis,
        page_type: ptype,
        parent: None,
    }
}

fn node_with_parent(slug: &str, parent: Option<&str>) -> GraphNode {
    let mut n = make_node(slug, slug, PageType::Concept, Visibility::General);
    n.parent = parent.map(|p| Slug::new(p).unwrap());
    n
}

#[test]
fn add_and_retrieve_node() {
    let mut kg = KnowledgeGraph::new();
    let node = make_node("Index", "index", PageType::Index, Visibility::General);
    let pid = node.page_id;
    kg.add_node(node);
    assert_eq!(kg.node_count(), 1);
    assert!(kg.get_node(&pid).is_some());
}

#[test]
fn remove_node_cleans_up() {
    let mut kg = KnowledgeGraph::new();
    let n1 = make_node("A", "a", PageType::Concept, Visibility::General);
    let n2 = make_node("B", "b", PageType::Leaf, Visibility::General);
    let pid1 = n1.page_id;
    let pid2 = n2.page_id;
    kg.add_node(n1);
    kg.add_node(n2);
    kg.add_edge(&pid1, &pid2, EdgeKind::Child);
    assert_eq!(kg.node_count(), 2);

    kg.remove_node(&pid1);
    assert_eq!(kg.node_count(), 1);
    assert!(!kg.has_node(&pid1));
    assert!(kg.has_node(&pid2));
}

#[test]
fn remove_node_drops_its_edges_and_reindexes() {
    let mut kg = KnowledgeGraph::new();
    let a = make_node("A", "a", PageType::Concept, Visibility::General);
    let b = make_node("B", "b", PageType::Concept, Visibility::General);
    let c = make_node("C", "c", PageType::Concept, Visibility::General);
    let (pa, pb, pc) = (a.page_id, b.page_id, c.page_id);
    kg.add_node(a);
    kg.add_node(b);
    kg.add_node(c);
    kg.add_edge(&pa, &pb, EdgeKind::Related);
    kg.add_edge(&pb, &pc, EdgeKind::Related);
    kg.add_edge(&pc, &pa, EdgeKind::Related);
    assert_eq!(kg.edge_count(), 3);
    kg.remove_node(&pa);
    assert_eq!(kg.edge_count(), 1);
    assert_eq!(kg.get_node(&pc).unwrap().slug.as_str(), "c");
    let out = kg.get_neighbors(&pb, Direction::Outgoing, &TenantContext::global());
    assert_eq!(out.len(), 1);
    assert_eq!(out[0].slug.as_str(), "c");
}

#[test]
fn remove_edge_removes_one_edge() {
    let mut kg = KnowledgeGraph::new();
    let a = make_node("A", "a", PageType::Concept, Visibility::General);
    let b = make_node("B", "b", PageType::Concept, Visibility::General);
    let (pa, pb) = (a.page_id, b.page_id);
    kg.add_node(a);
    kg.add_node(b);
    kg.add_edge(&pa, &pb, EdgeKind::Child);
    kg.add_edge(&pa, &pb, EdgeKind::Related);
    kg.remove_edge(&pa, &pb);
    assert_eq!(kg.edge_count(), 1);
    kg.remove_edge(&pb, &pa);
    assert_eq!(kg.edge_count(), 1);
}

#[test]
fn get_neighbors_respects_visibility() {
    let mut kg = KnowledgeGraph::new();
    let general = make_node("General", "general", PageType::Concept, Visibility::General);
    let tenant_a = make_node("TenantA", "tenant-a", PageType::Leaf, Visibility::Tenant(TenantId::new("a")));
    let tenant_b = make_node("TenantB", "tenant-b", PageType::Leaf, Visibility::Tenant(TenantId::new("b")));
    let pid_g = general.page_id;
    let pid_a = tenant_a.page_id;
    let pid_b = tenant_b.page_id;
    kg.add_node(general);
    kg.add_node(tenant_a);
    kg.add_node(tenant_b);
    kg.add_edge(&pid_g, &pid_a, EdgeKind::Child);
    kg.add_edge(&pid_g, &pid_b, EdgeKind::Child);

    let ctx_a = TenantContext::leaf(TenantId::new("a"));
    let neighbors = kg.get_neighbors(&pid_g, Direction::Outgoing, &ctx_a);
    assert_eq!(neighbors.len(), 1);
    assert_eq!(neighbors[0].slug.as_str(), "tenant-a");

    let ctx_global = TenantContext::global();
    let neighbors = kg.get_neighbors(&pid_g, Direction::Outgoing, &ctx_global);
    assert_eq!(neighbors.len(), 2);

    let incoming = kg.get_neighbors(&pid_a, Direction::Incoming, &ctx_global);
    assert_eq!(incoming.len(), 1);
    assert_eq!(incoming[0].slug.as_str(), "general");
    assert_eq!(incoming[0].edge_kind, EdgeKind::Child);
}

#[test]
fn subtree_traversal() {
    let mut kg = KnowledgeGraph::new();
    let root = make_node("Root", "root", PageType::Index, Visibility::General);
    let mid = make_node("Mid", "mid", PageType::Concept, Visibility::General);
    let leaf = make_node("Leaf", "leaf", PageType::Leaf, Visibility::General);
    let pid_root = root.page_id;
    let pid_mid = mid.page_id;
    let pid_leaf = leaf.page_id;
    kg.add_node(root);
    kg.add_node(mid);
    kg.add_node(leaf);
    kg.add_edge(&pid_root, &pid_mid, EdgeKind::Child);
    kg.add_edge(&pid_mid, &pid_leaf, EdgeKind::Child);
    let ctx = TenantContext::global();

    let results = kg.get_subtree(&pid_root, 1, &ctx);
    assert_eq!(results.len(), 1);
    assert_eq!(results[0].slug.as_str(), "mid");

    let results = kg.get_subtree(&pid_root, 2, &ctx);
    assert_eq!(results.len(), 2);
}

#[test]
fn subtree_visits_each_page_once_and_skips_hidden() {
    let mut kg = KnowledgeGraph::new();
    let root = make_node("Root", "root", PageType::Index, Visibility::General);
    let a = make_node("A", "a", PageType::Concept, Visibility::General);
    let hidden = make_node("H", "hidden", PageType::Concept, Visibility::User("x@y.z".into()));
    let (pr, pa, ph) = (root.page_id, a.page_id, hidden.page_id);
    kg.add_node(root);
    kg.add_node(a);
    kg.add_node(hidden);
    kg.add_edge(&pr, &pa, EdgeKind::Child);
    kg.add_edge(&pa, &pr, EdgeKind::Related);
    kg.add_edge(&pr, &ph, EdgeKind::Child);
    let anon = TenantContext::anonymous();
    let results = kg.get_subtree(&pr, 5, &anon);
    assert_eq!(results.len(), 1);
    assert_eq!(results[0].slug.as_str(), "a");
    assert!(kg.get_subtree(&PageId::new(), 3, &anon).is_empty());
    assert!(kg.get_subtree(&pr, 0, &anon).is_empty());
}

#[test]
fn get_index_pages_filters() {
    let mut kg = KnowledgeGraph::new();
    kg.add_node(make_node("Idx", "idx", PageType::Index, Visibility::General));
    kg.add_node(make_node("Concept", "concept", PageType::Concept, Visibility::General));
    let ctx = TenantContext::global();
    let indexes = kg.get_index_pages(&ctx);
    assert_eq!(indexes.len(), 1);
    assert_eq!(indexes[0].title, "Idx");
}

#[test]
fn find_by_slug_respects_access() {
    let mut kg = KnowledgeGraph::new();
    kg.add_node(make_node("P", "private-page", PageType::Leaf, Visibility::User("me@x.com".into())));
    assert!(kg.find_by_slug(&Slug::new("private-page").unwrap(), &TenantContext::global()).is_some());
    assert!(kg.find_by_slug(&Slug::new("private-page").unwrap(), &TenantContext::anonymous()).is_none());
    assert!(kg.find_by_slug(&Slug::new("private-page").unwrap(), &TenantContext::user("me@x.com")).is_some());
    assert_eq!(kg.all_nodes(&TenantContext::user("other@x.com")).len(), 0);
}

#[test]
fn from_graph_data() {
    let pid1 = PageId::new();
    let pid2 = PageId::new();
    let data = GraphData {
        nodes: vec![
            GraphNodeData {
                page_id: pid1,
                slug: Slug::new("one").unwrap(),
                title: "One".into(),
                summary: "S1".into(),
                visibility: Visibility::General,
                access: PageAccess::from_visibility(&Visibility::General),
                page_type: PageType::Index,
                parent: None,
            },
            GraphNodeData {
                page_id: pid2,
                slug: Slug::new("two").unwrap(),
                title: "Two".into(),
                summary: "S2".into(),
                visibility: Visibility::General,
                access: PageAccess::from_visibility(&Visibility::General),
                page_type: PageType::Leaf,
                parent: None,
            },
        ],
        edges: vec![GraphEdgeData { source: pid1, target: pid2, kind: EdgeKind::Child }],
    };
    let kg = KnowledgeGraph::from_data(data);
    assert_eq!(kg.node_count(), 2);
    assert_eq!(kg.edge_count(), 1);
    let neighbors = kg.get_neighbors(&pid1, Direction::Outgoing, &TenantContext::global());
    assert_eq!(neighbors.len(), 1);
    assert_eq!(neighbors[0].slug.as_str(), "two");
}

#[test]
fn ancestor_walk_returns_chain_root_last() {
    let mut kg = KnowledgeGraph::new();
    kg.add_node(node_with_parent("root", None));
    kg.add_node(node_with_parent("child", Some("root")));
    let gc = node_with_parent("grandchild", Some("child"));
    let gc_id = gc.page_id;
    kg.add_node(gc);
    let chain: Vec<String> = kg.ancestor_slugs(&gc_id).iter().map(|s| s.as_str().to_string()).collect();
    assert_eq!(chain, vec!["child".to_string(), "root".to_string()]);
}

#[test]
fn ancestor_walk_is_cycle_safe() {
    let mut kg = KnowledgeGraph::new();
    kg.add_node(node_with_parent("a", Some("b")));
    let b = node_with_parent("b", Some("a"));
    let b_id = b.page_id;
    kg.add_node(b);
    let chain = kg.ancestor_slugs(&b_id);
    assert!(chain.len() <= 2);
    assert_eq!(chain.len(), 1);
    assert_eq!(chain[0].as_str(), "a");
}

#[test]
fn effective_access_unions_ancestor_grants_but_not_base_visibility() {
    let mut kg = KnowledgeGraph::new();
    let mut parent = node_with_parent("parent", None);
    parent.access = PageAccess {
        owner: Some("owner@x.com".into()),
        base_visibility: BaseVisibility::Public,
        grants: vec![Grant { principal: Principal::User("alice@x.com".into()), level: Level::View }],
    };
    kg.add_node(parent);
    let mut child = node_with_parent("child", Some("parent"));
    let child_id = child.page_id;
    child.access = PageAccess {
        owner: Some("owner@x.com".into()),
        base_visibility: BaseVisibility::Private,
        grants: vec![],
    };
    kg.add_node(child);
    let eff = kg.effective_access(&child_id).unwrap();
    assert_eq!(eff.base_visibility, BaseVisibility::Private);
    assert!(eff.grants.iter().any(|g| matches!(&g.principal, Principal::User(u) if u == "alice@x.com")));
}

#[test]
fn effective_access_raises_levels() {
    let mut kg = KnowledgeGraph::new();
    let mut parent = node_with_parent("parent", None);
    parent.access.grants = vec![Grant { principal: Principal::User("a@x.com".into()), level: Level::Edit }];
    kg.add_node(parent);
    let mut child = node_with_parent("child", Some("parent"));
    child.access.grants = vec![Grant { principal: Principal::User("a@x.com".into()), level: Level::View }];
    let cid = child.page_id;
    kg.add_node(child);
    let eff = kg.effective_access(&cid).unwrap();
    assert_eq!(eff.grants.len(), 1);
    assert_eq!(eff.grants[0].level, Level::Edit);
    assert_eq!(kg.effective_access_by_slug(&Slug::new("child").unwrap()).unwrap(), eff);
}

#[test]
fn would_create_cycle_detects_self_and_ancestor() {
    let mut kg = KnowledgeGraph::new();
    kg.add_node(node_with_parent("a", None));
    kg.add_node(node_with_parent("b", Some("a")));
    kg.add_node(node_with_parent("c", Some("b")));
    assert!(kg.would_create_cycle(&Slug::new("a").unwrap(), &Slug::new("a").unwrap()));
    assert!(kg.would_create_cycle(&Slug::new("a").unwrap(), &Slug::new("c").unwrap()));
    assert!(!kg.would_create_cycle(&Slug::new("d").unwrap(), &Slug::new("c").unwrap()));
}

#[test]
fn root_effective_access_equals_own_access() {
    let mut kg = KnowledgeGraph::new();
    let n = node_with_parent("solo", None);
    let id = n.page_id;
    let own = n.access.clone();
    kg.add_node(n);
    assert_eq!(kg.effective_access(&id).unwrap(), own);
}

#[test]
fn node_metadata_can_be_refreshed_in_place() {
    let mut kg = KnowledgeGraph::new();
    let n = node_with_parent("page", None);
    let id = n.page_id;
    kg.add_node(n);
    if let Some(node) = kg.get_node_mut(&id) {
        node.title = "Renamed".into();
    }
    assert_eq!(kg.get_node(&id).unwrap().title, "Renamed");
    assert!(kg.get_node_mut(&PageId::new()).is_none());
}
