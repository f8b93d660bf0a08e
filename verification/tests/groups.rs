use mind_palace::error::MindPalaceError;
use mind_palace::group::Group;
use mind_palace::service::{changed_group, group_found, GroupChange};
use mind_palace::tenant::TenantContext;
use mind_palace::value_objects::GroupId;

fn team() -> (Group, GroupId) {
    let id = GroupId::new("team");
    (Group::new(GroupId::new("team"), "Team", "lead@x.com"), id)
}

#[test]
fn manager_adds_and_removes_members() {
    let (g, id) = team();
    let lead = TenantContext::user("lead@x.com");
    let g = changed_group(g, &id, GroupChange::AddMember, "ann@x.com", &lead).unwrap();
    assert_eq!(g.members, vec!["lead@x.com".to_string(), "ann@x.com".to_string()]);
    let g = changed_group(g, &id, GroupChange::AddMember, "ann@x.com", &lead).unwrap();
    assert_eq!(g.members.len(), 2);
    let g = changed_group(g, &id, GroupChange::RemoveMember, "ann@x.com", &lead).unwrap();
    assert_eq!(g.members, vec!["lead@x.com".to_string()]);
}

#[test]
fn non_manager_is_denied() {
    let (g, id) = team();
    let ann = TenantContext::user("ann@x.com");
    match changed_group(g, &id, GroupChange::AddManager, "ann@x.com", &ann) {
        Err(MindPalaceError::AccessDenied(m)) => {
            assert_eq!(m, "only a manager may add managers to group 'team'")
        }
        other => panic!("expected access denied, got {other:?}"),
    }
}

#[test]
fn last_manager_stays() {
    let (g, id) = team();
    let lead = TenantContext::user("lead@x.com");
    match changed_group(g.clone(), &id, GroupChange::RemoveManager, "lead@x.com", &lead) {
        Err(MindPalaceError::Validation(m)) => {
            assert_eq!(m, "cannot remove the last manager of group 'team'")
        }
        other => panic!("expected a validation error, got {other:?}"),
    }
    let g = changed_group(g, &id, GroupChange::AddManager, "bob@x.com", &lead).unwrap();
    assert_eq!(g.managers, vec!["lead@x.com".to_string(), "bob@x.com".to_string()]);
    assert!(g.members.contains(&"bob@x.com".to_string()));
    let g = changed_group(g, &id, GroupChange::RemoveManager, "lead@x.com", &lead).unwrap();
    assert_eq!(g.managers, vec!["bob@x.com".to_string()]);
}

#[test]
fn global_admin_may_change_any_group() {
    let (g, id) = team();
    let g = changed_group(g, &id, GroupChange::AddMember, "zed@x.com", &TenantContext::global()).unwrap();
    assert!(g.members.contains(&"zed@x.com".to_string()));
}

#[test]
fn group_lookup_reads_the_store_answer() {
    let (g, id) = team();
    assert_eq!(group_found(Ok(Some(g.clone())), &id).unwrap(), g);
    match group_found(Ok(None), &id) {
        Err(MindPalaceError::PageNotFound(m)) => assert_eq!(m, "group: team"),
        other => panic!("expected not found, got {other:?}"),
    }
    match group_found(Err(MindPalaceError::Store("down".into())), &id) {
        Err(MindPalaceError::Store(m)) => assert_eq!(m, "down"),
        other => panic!("expected the store error, got {other:?}"),
    }
}

#[test]
fn page_ids_are_version_four_uuids() {
    for _ in 0..16 {
        let id = mind_palace::value_objects::PageId::new();
        let u = uuid::Uuid::from_u128(id.0);
        assert_eq!(u.get_version_num(), 4);
        assert_eq!(u.get_variant(), uuid::Variant::RFC4122);
    }
}
