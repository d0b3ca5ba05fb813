use auth_core::errors::{ApiError, ForbiddenReason};
use auth_core::model::{Nullable, Role, User, UserRole};
use auth_core::permission::{
    authorize_role_create, authorize_role_delete, authorize_role_update, authorize_user_create,
    authorize_user_update, can_view_reports, can_view_tasks, check_permission,
};

fn role(level: i32, user_edit: bool) -> Role {
    Role {
        id: 1,
        name: "role".to_string(),
        level,
        has_password: true,
        user_view: false,
        user_create: false,
        user_edit,
        user_delete: false,
        machine_view: false,
        machine_create: false,
        machine_edit: false,
        machine_delete: false,
        task_view: false,
        task_create: false,
        task_edit: false,
        task_delete: false,
        report_view: false,
        report_create: false,
        report_edit: false,
        report_delete: false,
        facility_view: false,
        facility_create: false,
        facility_edit: false,
        facility_delete: false,
    }
}

fn user(id: u128, level: i32, user_edit: bool) -> User {
    User {
        id,
        first_name: "A".to_string(),
        last_name: "B".to_string(),
        email: "a@example.com".to_string(),
        password: Some("hash".to_string()),
        phone: None,
        role: role(level, user_edit),
        active: true,
        last_login: 0,
        occupation: None,
        image: None,
        facility: None,
    }
}

#[test]
fn check_permission_true_always_succeeds() {
    assert!(check_permission(true).is_ok());
}

#[test]
fn check_permission_false_is_missing_permission() {
    assert_eq!(
        check_permission(false),
        Err(ApiError::Forbidden(ForbiddenReason::MissingPermission))
    );
}

#[test]
fn hierarchy_allows_lower_privileged_target() {
    let actor = user(1, 10, true);
    let target = user(2, 20, false);
    assert!(authorize_user_update(&actor, &target, None).is_ok());
}

#[test]
fn hierarchy_rejects_peer_target() {
    let actor = user(1, 10, true);
    let target = user(2, 10, false);
    assert_eq!(
        authorize_user_update(&actor, &target, None),
        Err(ApiError::Forbidden(ForbiddenReason::MissingPermission))
    );
}

#[test]
fn hierarchy_rejects_higher_privileged_target() {
    let actor = user(1, 10, true);
    let target = user(2, 5, false);
    assert_eq!(
        authorize_user_update(&actor, &target, None),
        Err(ApiError::Forbidden(ForbiddenReason::MissingPermission))
    );
}

#[test]
fn self_edit_allowed_without_capability() {
    let actor = user(7, 99, false);
    assert!(authorize_user_update(&actor, &actor, None).is_ok());
}

#[test]
fn self_role_change_always_rejected() {
    let actor = user(7, 10, true);
    for requested in [5, 10, 20] {
        assert_eq!(
            authorize_user_update(&actor, &actor, Some(requested)),
            Err(ApiError::Forbidden(ForbiddenReason::MissingPermission))
        );
    }
}

#[test]
fn foreign_role_assignment_needs_lower_privilege() {
    let actor = user(1, 10, true);
    let target = user(2, 20, false);
    assert!(authorize_user_update(&actor, &target, Some(15)).is_ok());
    assert_eq!(
        authorize_user_update(&actor, &target, Some(10)),
        Err(ApiError::Forbidden(ForbiddenReason::MissingPermission))
    );
    assert_eq!(
        authorize_user_update(&actor, &target, Some(5)),
        Err(ApiError::Forbidden(ForbiddenReason::MissingPermission))
    );
}

#[test]
fn user_create_needs_capability_and_hierarchy() {
    let mut actor = user(1, 10, false);
    actor.role.user_create = true;
    assert!(authorize_user_create(&actor, 11).is_ok());
    assert!(authorize_user_create(&actor, 10).is_err());
    actor.role.user_create = false;
    assert!(authorize_user_create(&actor, 11).is_err());
}

#[test]
fn role_create_update_delete_guards() {
    let mut actor = user(1, 10, true);
    actor.role.user_create = true;
    actor.role.user_delete = true;
    assert!(authorize_role_create(&actor, 11).is_ok());
    assert!(authorize_role_create(&actor, 10).is_err());
    assert!(authorize_role_update(&actor, 20, None).is_ok());
    assert!(authorize_role_update(&actor, 20, Some(12)).is_ok());
    assert!(authorize_role_update(&actor, 20, Some(10)).is_err());
    assert!(authorize_role_update(&actor, 10, None).is_err());
    assert!(authorize_role_delete(&actor, 20).is_ok());
    assert!(authorize_role_delete(&actor, 10).is_err());
}

#[test]
fn own_tasks_and_reports_visible_without_capability() {
    assert!(can_view_tasks(false, true, false));
    assert!(can_view_tasks(false, false, true));
    assert!(!can_view_tasks(false, false, false));
    assert!(can_view_tasks(true, false, false));
    assert!(can_view_reports(false, true));
    assert!(!can_view_reports(false, false));
}

#[test]
fn legacy_role_ladder_levels() {
    assert_eq!(UserRole::Super.level(), 1);
    assert_eq!(UserRole::Administrator.level(), 2);
    assert_eq!(UserRole::Basic.level(), 3);
    assert_eq!(UserRole::Worker.level(), 4);
    assert!(UserRole::Administrator.uses_password());
    assert!(UserRole::Basic.uses_password());
    assert!(!UserRole::Super.uses_password());
    assert!(!UserRole::Worker.uses_password());
}

#[test]
fn nullable_defaults_to_absent() {
    let n: Nullable<i32> = Default::default();
    assert_eq!(n, Nullable::Absent);
}
