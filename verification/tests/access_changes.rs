use mind_palace::error::MindPalaceError;
use mind_palace::rules::edit_gate;
use mind_palace::service::{changed_access, page_edit_gate, parent_check, AccessChange};
use mind_palace::tenant::TenantContext;
use mind_palace::value_objects::{BaseVisibility, Grant, Level, PageAccess, PageId, Principal, Slug};

fn owned() -> PageAccess {
    PageAccess { owner: Some("owner@x.com".to_string()), base_visibility: BaseVisibility::Private, grants: vec![] }
}

fn page() -> Slug {
    Slug::new("notes").unwrap()
}

#[test]
fn owner_shares_and_raises_a_grant() {
    let owner = TenantContext::user("owner@x.com");
    let ann = Principal::User("ann@x.com".to_string());
    let a = changed_access(&owned(), 0, &page(), AccessChange::Share(ann.clone(), Level::View), &owner).unwrap();
    assert_eq!(a.grants, vec![Grant { principal: ann.clone(), level: Level::View }]);
    let a = changed_access(&a, 0, &page(), AccessChange::Share(ann.clone(), Level::Edit), &owner).unwrap();
    assert_eq!(a.grants, vec![Grant { principal: ann.clone(), level: Level::Edit }]);
    let a = changed_access(&a, 0, &page(), AccessChange::Unshare(ann), &owner).unwrap();
    assert!(a.grants.is_empty());
    assert_eq!(a.owner.as_deref(), Some("owner@x.com"));
}

#[test]
fn only_the_owner_changes_access() {
    let ann = TenantContext::user("ann@x.com");
    match changed_access(&owned(), 0, &page(), AccessChange::Unshare(Principal::User("b".into())), &ann) {
        Err(MindPalaceError::AccessDenied(m)) => {
            assert_eq!(m, "only the owner may change grants for page 'notes'")
        }
        other => panic!("expected access denied, got {other:?}"),
    }
    match changed_access(&owned(), 0, &page(), AccessChange::SetAccess(None, Some(None)), &ann) {
        Err(MindPalaceError::AccessDenied(m)) => {
            assert_eq!(m, "only the owner may change access for page 'notes'")
        }
        other => panic!("expected access denied, got {other:?}"),
    }
}

#[test]
fn page_with_secret_refs_cannot_go_public() {
    let owner = TenantContext::user("owner@x.com");
    match changed_access(&owned(), 2, &page(), AccessChange::SetAccess(Some(BaseVisibility::Public), None), &owner) {
        Err(MindPalaceError::Validation(m)) => {
            assert_eq!(m, "cannot make page 'notes' public while it carries 2 secret reference(s)")
        }
        other => panic!("expected a validation error, got {other:?}"),
    }
    let a = changed_access(
        &owned(),
        0,
        &page(),
        AccessChange::SetAccess(Some(BaseVisibility::Public), Some(Some("new@x.com".into()))),
        &owner,
    )
    .unwrap();
    assert_eq!(a.base_visibility, BaseVisibility::Public);
    assert_eq!(a.owner.as_deref(), Some("new@x.com"));
}

#[test]
fn edit_gate_names_the_refused_action() {
    let owner = TenantContext::user("owner@x.com");
    assert!(edit_gate(&owned(), &owner, "delete", &page()).is_ok());
    let ann = TenantContext::user("ann@x.com");
    match edit_gate(&owned(), &ann, "archive", &page()) {
        Err(MindPalaceError::AccessDenied(m)) => assert_eq!(m, "no edit permission to archive page 'notes'"),
        other => panic!("expected access denied, got {other:?}"),
    }
    let mut shared = owned();
    shared.grants.push(Grant { principal: Principal::User("ann@x.com".into()), level: Level::Edit });
    assert!(edit_gate(&shared, &ann, "delete", &page()).is_ok());
}

#[test]
fn parent_checks_and_page_edit_gate() {
    let owner = TenantContext::user("owner@x.com");
    let ann = TenantContext::user("ann@x.com");
    let child = Slug::new("child").unwrap();
    let parent = Slug::new("parent").unwrap();
    match parent_check(None, &owned(), &owner, &child, &parent, false) {
        Err(MindPalaceError::Validation(m)) => assert_eq!(m, "parent page 'parent' does not exist"),
        other => panic!("expected a validation error, got {other:?}"),
    }
    match parent_check(Some(PageId(7)), &owned(), &ann, &child, &parent, false) {
        Err(MindPalaceError::AccessDenied(m)) => assert_eq!(m, "no edit permission on parent page 'parent'"),
        other => panic!("expected access denied, got {other:?}"),
    }
    match parent_check(Some(PageId(7)), &owned(), &owner, &child, &parent, true) {
        Err(MindPalaceError::Validation(m)) => {
            assert_eq!(m, "setting parent 'parent' on 'child' would create a containment cycle")
        }
        other => panic!("expected a validation error, got {other:?}"),
    }
    assert_eq!(parent_check(Some(PageId(7)), &owned(), &owner, &child, &parent, false).unwrap(), PageId(7));
    assert!(page_edit_gate(&owned(), &owner, &page()).is_ok());
    match page_edit_gate(&owned(), &ann, &page()) {
        Err(MindPalaceError::AccessDenied(m)) => assert_eq!(m, "no edit permission for page 'notes'"),
        other => panic!("expected access denied, got {other:?}"),
    }
}
