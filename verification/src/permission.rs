//! The capability/privilege model: the flag check every mutating handler must
//! run, and the hierarchical guards that apply wherever one user acts on
//! another user or role record.
//!
//! Levels order roles: a lower level means higher privilege, and an actor may
//! act on a target only when the target's level is strictly greater.

use vstd::prelude::*;

use crate::errors::{ApiError, ForbiddenReason};
use crate::model::User;

verus! {

/// Whether an actor at `actor_level` outranks a record at `target_level`
/// strictly enough to act on it.
pub open spec fn outranks(actor_level: int, target_level: int) -> bool {
    target_level > actor_level
}

/// The flag check every mutating or listing handler runs before touching the
/// store: succeeds exactly when the capability flag is set, and otherwise
/// yields `Forbidden(MissingPermission)`.
pub fn check_permission(permission: bool) -> (r: Result<(), ApiError>)
    ensures
        r == if permission {
            Result::<(), ApiError>::Ok(())
        } else {
            Result::<(), ApiError>::Err(ApiError::Forbidden(ForbiddenReason::MissingPermission))
        },
{
    if !permission {
        return Err(ApiError::Forbidden(ForbiddenReason::MissingPermission));
    }
    Ok(())
}

/// When an update of `target` by `actor` is allowed. `new_role_level` is the
/// level of the role the update would assign, if it reassigns one.
///
/// The actor needs the `user_edit` capability unless editing their own
/// record; a foreign target must sit strictly below the actor; a role may
/// only be assigned to someone else, and only a role strictly below the
/// actor's own.
pub open spec fn user_update_allowed(actor: User, target: User, new_role_level: Option<i32>) -> bool {
    &&& actor.role.user_edit || target.id == actor.id
    &&& target.id == actor.id || outranks(actor.role.level as int, target.role.level as int)
    &&& match new_role_level {
        Option::None => true,
        Option::Some(l) => target.id != actor.id && outranks(actor.role.level as int, l as int),
    }
}

/// The hierarchical guard for updating a user record.
pub fn authorize_user_update(actor: &User, target: &User, new_role_level: Option<i32>) -> (r: Result<
    (),
    ApiError,
>)
    ensures
        r is Ok <==> user_update_allowed(*actor, *target, new_role_level),
        r is Err ==> r == Result::<(), ApiError>::Err(
            ApiError::Forbidden(ForbiddenReason::MissingPermission),
        ),
{
    let is_self = target.id == actor.id;
    if !(actor.role.user_edit || is_self) {
        return Err(ApiError::Forbidden(ForbiddenReason::MissingPermission));
    }
    if !is_self && target.role.level <= actor.role.level {
        return Err(ApiError::Forbidden(ForbiddenReason::MissingPermission));
    }
    match new_role_level {
        Option::None => Ok(()),
        Option::Some(l) => {
            if is_self {
                return Err(ApiError::Forbidden(ForbiddenReason::MissingPermission));
            }
            if l <= actor.role.level {
                return Err(ApiError::Forbidden(ForbiddenReason::MissingPermission));
            }
            Ok(())
        },
    }
}

/// When `actor` may create a user carrying a role at `new_role_level`.
pub open spec fn user_create_allowed(actor: User, new_role_level: i32) -> bool {
    actor.role.user_create && outranks(actor.role.level as int, new_role_level as int)
}

/// The guard for creating a user: the `user_create` capability, and the
/// chosen role strictly below the actor's own.
pub fn authorize_user_create(actor: &User, new_role_level: i32) -> (r: Result<(), ApiError>)
    ensures
        r is Ok <==> user_create_allowed(*actor, new_role_level),
        r is Err ==> r == Result::<(), ApiError>::Err(
            ApiError::Forbidden(ForbiddenReason::MissingPermission),
        ),
{
    check_permission(actor.role.user_create)?;
    if new_role_level <= actor.role.level {
        return Err(ApiError::Forbidden(ForbiddenReason::MissingPermission));
    }
    Ok(())
}

/// When `actor` may create a new role at `new_level`.
pub open spec fn role_create_allowed(actor: User, new_level: i32) -> bool {
    actor.role.user_create && outranks(actor.role.level as int, new_level as int)
}

/// The guard for creating a role: the `user_create` capability, and the new
/// level strictly below the actor's own.
pub fn authorize_role_create(actor: &User, new_level: i32) -> (r: Result<(), ApiError>)
    ensures
        r is Ok <==> role_create_allowed(*actor, new_level),
        r is Err ==> r == Result::<(), ApiError>::Err(
            ApiError::Forbidden(ForbiddenReason::MissingPermission),
        ),
{
    check_permission(actor.role.user_create)?;
    if new_level <= actor.role.level {
        return Err(ApiError::Forbidden(ForbiddenReason::MissingPermission));
    }
    Ok(())
}

/// When `actor` may update the role record currently at `target_level`,
/// possibly moving it to `new_level`.
pub open spec fn role_update_allowed(actor: User, target_level: i32, new_level: Option<i32>) -> bool {
    &&& actor.role.user_edit
    &&& outranks(actor.role.level as int, target_level as int)
    &&& match new_level {
        Option::None => true,
        Option::Some(l) => outranks(actor.role.level as int, l as int),
    }
}

/// The guard for updating a role record.
pub fn authorize_role_update(actor: &User, target_level: i32, new_level: Option<i32>) -> (r: Result<
    (),
    ApiError,
>)
    ensures
        r is Ok <==> role_update_allowed(*actor, target_level, new_level),
        r is Err ==> r == Result::<(), ApiError>::Err(
            ApiError::Forbidden(ForbiddenReason::MissingPermission),
        ),
{
    check_permission(actor.role.user_edit)?;
    if target_level <= actor.role.level {
        return Err(ApiError::Forbidden(ForbiddenReason::MissingPermission));
    }
    match new_level {
        Option::None => Ok(()),
        Option::Some(l) => {
            if l <= actor.role.level {
                return Err(ApiError::Forbidden(ForbiddenReason::MissingPermission));
            }
            Ok(())
        },
    }
}

/// When `actor` may delete the role record at `target_level`.
pub open spec fn role_delete_allowed(actor: User, target_level: i32) -> bool {
    actor.role.user_delete && outranks(actor.role.level as int, target_level as int)
}

/// The guard for deleting a role record.
pub fn authorize_role_delete(actor: &User, target_level: i32) -> (r: Result<(), ApiError>)
    ensures
        r is Ok <==> role_delete_allowed(*actor, target_level),
        r is Err ==> r == Result::<(), ApiError>::Err(
            ApiError::Forbidden(ForbiddenReason::MissingPermission),
        ),
{
    check_permission(actor.role.user_delete)?;
    if target_level <= actor.role.level {
        return Err(ApiError::Forbidden(ForbiddenReason::MissingPermission));
    }
    Ok(())
}

/// Whether a task listing may be shown: the `task_view` capability, or the
/// request filters on the viewer's own created or executed tasks.
pub fn can_view_tasks(task_view: bool, is_creator: bool, is_executor: bool) -> (r: bool)
    ensures
        r == (task_view || is_creator || is_executor),
{
    task_view || is_creator || is_executor
}

/// Whether a report listing may be shown: the `report_view` capability, or
/// the request filters on the viewer's own reports.
pub fn can_view_reports(report_view: bool, is_creator: bool) -> (r: bool)
    ensures
        r == (report_view || is_creator),
{
    report_view || is_creator
}

/// Law: a user may always edit the non-role fields of their own record,
/// whatever their privilege level and whatever capabilities they lack.
pub proof fn lemma_self_edit_always_allowed(actor: User)
    ensures
        user_update_allowed(actor, actor, Option::None),
{
}

/// Law: a user may never set or change their own role, whatever level the
/// requested role sits at.
pub proof fn lemma_self_role_change_always_rejected(actor: User, requested_level: i32)
    ensures
        !user_update_allowed(actor, actor, Option::Some(requested_level)),
{
}

/// Law: a foreign target at the actor's own level or above is out of reach,
/// whatever capabilities the actor holds.
pub proof fn lemma_hierarchy_shields_peers(actor: User, target: User, new_role_level: Option<i32>)
    requires
        target.id != actor.id,
        target.role.level <= actor.role.level,
    ensures
        !user_update_allowed(actor, target, new_role_level),
{
}

/// Law: a strictly lower-privileged foreign target may be modified by an
/// actor holding `user_edit`, as long as any role assigned also sits strictly
/// below the actor.
pub proof fn lemma_hierarchy_grants_subordinates(actor: User, target: User)
    requires
        actor.role.user_edit,
        target.id != actor.id,
        target.role.level > actor.role.level,
    ensures
        user_update_allowed(actor, target, Option::None),
{
}

} // verus!
