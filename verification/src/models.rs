//! Plain data carried between the HTTP layer and the service: configuration,
//! health reporting, and the caller's role.

use vstd::prelude::*;
use vstd::string::StringExecFns;
use crate::text::str_eq;

verus! {

/// The identity-provider coordinates handed to the web UI.
pub struct Keycloak {
    pub client_id: String,
    pub realm: String,
    pub url: String,
}

impl Default for Keycloak {
    fn default() -> (r: Self)
        ensures
            r.client_id@ == Seq::<char>::empty(),
            r.realm@ == Seq::<char>::empty(),
            r.url@ == Seq::<char>::empty(),
    {
        Keycloak { client_id: String::new(), realm: String::new(), url: String::new() }
    }
}

/// The configuration document the UI fetches at startup.
pub struct UIConfiguration {
    pub client_id: String,
    pub realm: String,
    pub url: String,
    pub deployment: String,
}

impl UIConfiguration {
    /// Assembles the UI configuration from the values configuration loading
    /// read at startup.
    pub fn new(client_id: String, realm: String, url: String, deployment: String) -> (r: Self)
        ensures
            r.client_id@ == client_id@,
            r.realm@ == realm@,
            r.url@ == url@,
            r.deployment@ == deployment@,
    {
        UIConfiguration { client_id, realm, url, deployment }
    }
}

impl Default for UIConfiguration {
    fn default() -> (r: Self)
        ensures
            r.client_id@ == Seq::<char>::empty(),
            r.realm@ == Seq::<char>::empty(),
            r.url@ == Seq::<char>::empty(),
            r.deployment@ == Seq::<char>::empty(),
    {
        UIConfiguration {
            client_id: String::new(),
            realm: String::new(),
            url: String::new(),
            deployment: String::new(),
        }
    }
}

/// The process configuration; the values come from the environment, read
/// outside this crate.
pub struct Config {
    pub db_url: Option<String>,
    pub app_name: String,
    pub deployment: String,
}

/// The health-check body.
pub struct HealthCheck {
    pub status: String,
}

impl HealthCheck {
    /// The body the health endpoint reports for a storage-ping outcome.
    pub fn from_ping(db_ok: bool) -> (h: HealthCheck)
        ensures
            db_ok ==> h.status@ == "ok"@,
            !db_ok ==> h.status@ == "error"@,
    {
        if db_ok {
            HealthCheck { status: String::from_str("ok") }
        } else {
            HealthCheck { status: String::from_str("error") }
        }
    }
}

/// The reported state of the service's collaborators.
pub struct ServiceStatus {
    pub s3_status: bool,
    pub kubernetes_status: bool,
}

/// A query flag asking for full-resolution content.
pub struct LowResolution {
    pub high_resolution: bool,
}

/// The caller's role, as the authentication layer reports it.
#[derive(Debug, Clone, PartialEq, Eq)]
pub enum Role {
    Administrator,
    Unknown(String),
}

impl From<String> for Role {
    fn from(value: String) -> (r: Role) {
        if str_eq(value.as_str(), "admin") {
            Role::Administrator
        } else {
            Role::Unknown(value)
        }
    }
}

impl vstd::std_specs::convert::FromSpecImpl<String> for Role {
    open spec fn obeys_from_spec() -> bool {
        true
    }

    open spec fn from_spec(t: String) -> Role {
        if t@ == "admin"@ {
            Role::Administrator
        } else {
            Role::Unknown(t)
        }
    }
}

impl Role {
    /// The role as text, in the wire format the service reports.
    pub fn display_string(&self) -> (s: String)
        ensures
            self matches Role::Administrator ==> s@ == "admin"@,
            self matches Role::Unknown(u) ==> s@ == "Unknown role: "@ + u@,
    {
        match self {
            Role::Administrator => String::from_str("admin"),
            Role::Unknown(u) => {
                let mut s = String::from_str("Unknown role: ");
                s.append(u.as_str());
                s
            },
        }
    }
}

} // verus!
