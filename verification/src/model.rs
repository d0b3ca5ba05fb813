//! The data model the core reads from the credential store: users, roles with
//! their capability flags and privilege level, and the process configuration
//! holding the two signing secrets.
//!
//! Identifiers are modelled as the 128-bit value of the store's UUID column;
//! timestamps as seconds since the Unix epoch.

use vstd::prelude::*;

verus! {

/// A role row: a privilege `level` (lower level = higher privilege), whether
/// accounts of this role log in with a password, and one capability flag per
/// (resource, action) pair.
#[derive(Debug, Clone, PartialEq)]
pub struct Role {
    pub id: u128,
    pub name: String,
    pub level: i32,
    pub has_password: bool,
    pub user_view: bool,
    pub user_create: bool,
    pub user_edit: bool,
    pub user_delete: bool,
    pub machine_view: bool,
    pub machine_create: bool,
    pub machine_edit: bool,
    pub machine_delete: bool,
    pub task_view: bool,
    pub task_create: bool,
    pub task_edit: bool,
    pub task_delete: bool,
    pub report_view: bool,
    pub report_create: bool,
    pub report_edit: bool,
    pub report_delete: bool,
    pub facility_view: bool,
    pub facility_create: bool,
    pub facility_edit: bool,
    pub facility_delete: bool,
}

/// A facility row, carried along with a user when the store embeds it.
#[derive(Debug, Clone, PartialEq)]
pub struct Facility {
    pub id: u128,
    pub name: String,
    pub address: String,
}

/// A user row with its embedded role. `password` holds the stored secret
/// hash, never a plaintext.
#[derive(Debug, Clone, PartialEq)]
pub struct User {
    pub id: u128,
    pub first_name: String,
    pub last_name: String,
    pub email: String,
    pub password: Option<String>,
    pub phone: Option<String>,
    pub role: Role,
    pub active: bool,
    pub last_login: i64,
    pub occupation: Option<String>,
    pub image: Option<String>,
    pub facility: Option<Facility>,
}

impl User {
    /// The store invariant: an account whose role logs in without a password
    /// stores none, and an account whose role requires one stores one.
    pub open spec fn wf(self) -> bool {
        self.password is Some <==> self.role.has_password
    }
}

/// The payload for creating a new role. Flags left out default to false in
/// the store.
#[derive(Debug, Clone, PartialEq)]
pub struct NewRole {
    pub name: String,
    pub level: i32,
    pub has_password: Option<bool>,
    pub user_view: Option<bool>,
    pub user_create: Option<bool>,
    pub user_edit: Option<bool>,
    pub user_delete: Option<bool>,
    pub machine_view: Option<bool>,
    pub machine_create: Option<bool>,
    pub machine_edit: Option<bool>,
    pub machine_delete: Option<bool>,
    pub task_view: Option<bool>,
    pub task_create: Option<bool>,
    pub task_edit: Option<bool>,
    pub task_delete: Option<bool>,
    pub report_view: Option<bool>,
    pub report_create: Option<bool>,
    pub report_edit: Option<bool>,
    pub report_delete: Option<bool>,
    pub facility_view: Option<bool>,
    pub facility_create: Option<bool>,
    pub facility_edit: Option<bool>,
    pub facility_delete: Option<bool>,
}

/// The immutable process configuration, loaded once at startup and passed by
/// reference into every operation. `jwt_secret` signs session tokens;
/// `jwt_pwl_secret` signs pre-auth tokens; the two namespaces stay disjoint.
#[derive(Debug, Clone, PartialEq)]
pub struct Config {
    pub database_url: String,
    pub jwt_secret: String,
    pub jwt_pwl_secret: String,
    /// Session token lifetime, in minutes.
    pub jwt_expires_in: i64,
    pub jwt_maxage: i32,
    pub frontend_url: String,
    pub log_path: String,
}

/// The largest timestamp the core accepts as "now": comfortably past every
/// plausible wall clock while leaving headroom for lifetime arithmetic.
pub const MAX_TIMESTAMP: i64 = 0x0000_00ff_ffff_ffff;

/// The largest session lifetime (in minutes) a well-formed configuration may
/// carry; it keeps `now + lifetime` far from overflow.
pub const MAX_EXPIRES_IN_MINUTES: i64 = 0x7fff_ffff;

impl Config {
    /// A configuration the token layer can do arithmetic with: a positive,
    /// bounded session lifetime.
    pub open spec fn wf(self) -> bool {
        0 < self.jwt_expires_in <= MAX_EXPIRES_IN_MINUTES
    }
}

/// The fixed role ladder of the store's earliest schema, before roles became
/// rows of their own. Kept for data migrated from that schema.
#[derive(Debug, Clone, Copy, PartialEq, Eq, Structural)]
pub enum UserRole {
    Super,
    Administrator,
    Basic,
    Worker,
}

impl UserRole {
    /// The privilege level the ladder position stands for; lower is more
    /// privileged.
    pub open spec fn spec_level(self) -> int {
        match self {
            UserRole::Super => 1,
            UserRole::Administrator => 2,
            UserRole::Basic => 3,
            UserRole::Worker => 4,
        }
    }

    /// The privilege level, executably.
    pub fn level(&self) -> (r: i32)
        ensures
            r as int == self.spec_level(),
    {
        match self {
            UserRole::Super => 1,
            UserRole::Administrator => 2,
            UserRole::Basic => 3,
            UserRole::Worker => 4,
        }
    }

    /// Whether accounts at this ladder position log in with a password:
    /// administrators and basic users do; the ends of the ladder use the
    /// one-time-code path.
    pub fn uses_password(&self) -> (r: bool)
        ensures
            r == (self is Administrator || self is Basic),
    {
        match self {
            UserRole::Administrator => true,
            UserRole::Basic => true,
            _ => false,
        }
    }
}

/// A tri-state for PATCH-style updates: the field was absent from the
/// request, explicitly null (clear it), or set to a value.
#[derive(Debug, Clone, Copy, PartialEq, Eq)]
pub enum Nullable<T> {
    Absent,
    Null,
    Value(T),
}

impl<T> Default for Nullable<T> {
    /// A field not mentioned in a request defaults to absent.
    fn default() -> (r: Self)
        ensures
            r is Absent,
    {
        Nullable::Absent
    }
}

/// The payload for creating a facility.
#[derive(Debug, Clone, PartialEq)]
pub struct NewFacility {
    pub name: String,
    pub address: Option<String>,
}

/// The payload for creating a machine status.
#[derive(Debug, Clone, PartialEq)]
pub struct NewMachineStatus {
    pub name: String,
}

/// The payload for creating a machine type.
#[derive(Debug, Clone, PartialEq)]
pub struct NewMachineType {
    pub name: String,
}

/// The payload for creating a report status.
#[derive(Debug, Clone, PartialEq)]
pub struct NewReportStatus {
    pub name: String,
}

/// The payload for creating a report type.
#[derive(Debug, Clone, PartialEq)]
pub struct NewReportType {
    pub name: String,
}

/// The payload for creating a task status.
#[derive(Debug, Clone, PartialEq)]
pub struct NewTaskStatus {
    pub name: String,
}

/// The payload for creating a task type.
#[derive(Debug, Clone, PartialEq)]
pub struct NewTaskType {
    pub name: String,
}

} // verus!
