use memoire::models::{HealthCheck, Keycloak, Role, UIConfiguration};

#[test]
fn role_parses_admin_token() {
    assert_eq!(Role::from("admin".to_string()), Role::Administrator);
    assert_eq!(
        Role::from("viewer".to_string()),
        Role::Unknown("viewer".to_string())
    );
}

#[test]
fn role_displays_as_wire_format() {
    assert_eq!(Role::Administrator.display_string(), "admin");
    assert_eq!(
        Role::Unknown("viewer".to_string()).display_string(),
        "Unknown role: viewer"
    );
}

#[test]
fn ui_configuration_holds_its_parts() {
    let ui = UIConfiguration::new(
        "client".to_string(),
        "realm".to_string(),
        "https://auth.example".to_string(),
        "local".to_string(),
    );
    assert_eq!(ui.client_id, "client");
    assert_eq!(ui.realm, "realm");
    assert_eq!(ui.url, "https://auth.example");
    assert_eq!(ui.deployment, "local");
}

#[test]
fn default_keycloak_is_empty() {
    let k = Keycloak::default();
    assert_eq!(k.client_id, "");
    assert_eq!(k.realm, "");
    assert_eq!(k.url, "");
}

#[test]
fn health_check_reports_ping_outcome() {
    assert_eq!(HealthCheck::from_ping(true).status, "ok");
    assert_eq!(HealthCheck::from_ping(false).status, "error");
}
