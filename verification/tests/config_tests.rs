use orgbrain::api::{cors_policy, AllowedOrigins, CorsPolicy};
use orgbrain::domain::EmployeeRole;
use orgbrain::flow::http_enabled;
use orgbrain::visibility::{employee_role_from_agent_id, seed_employees};

#[test]
fn without_configuration_any_origin_is_allowed() {
    assert_eq!(
        cors_policy(None),
        CorsPolicy { origins: AllowedOrigins::Any, allow_credentials: false }
    );
}

#[test]
fn a_list_of_origins_allows_credentials() {
    assert_eq!(
        cors_policy(Some(" https://a.example , ,https://b.example,")),
        CorsPolicy {
            origins: AllowedOrigins::List(vec![
                "https://a.example".to_string(),
                "https://b.example".to_string()
            ]),
            allow_credentials: true,
        }
    );
    assert_eq!(
        cors_policy(Some("")),
        CorsPolicy { origins: AllowedOrigins::List(Vec::new()), allow_credentials: true }
    );
}

#[test]
fn an_asterisk_allows_any_origin_without_credentials() {
    assert_eq!(
        cors_policy(Some("https://a.example, *")),
        CorsPolicy { origins: AllowedOrigins::Any, allow_credentials: false }
    );
    // An asterisk inside an origin does not name every origin, but still rules out credentials.
    assert_eq!(
        cors_policy(Some("https://*.example")),
        CorsPolicy {
            origins: AllowedOrigins::List(vec!["https://*.example".to_string()]),
            allow_credentials: false,
        }
    );
}

#[test]
fn http_is_served_unless_switched_off() {
    assert!(http_enabled(None));
    assert!(http_enabled(Some("1")));
    assert!(http_enabled(Some("true")));
    assert!(http_enabled(Some("TRUE")));
    assert!(http_enabled(Some("tRuE")));
    assert!(!http_enabled(Some("0")));
    assert!(!http_enabled(Some("")));
    assert!(!http_enabled(Some("yes")));
    assert!(!http_enabled(Some("true ")));
    assert!(!http_enabled(Some("11")));
    assert!(!http_enabled(Some("trüe")));
}

#[test]
fn seeded_employees_have_the_roles_of_their_ids() {
    let seeds = seed_employees();
    let listed: Vec<(&str, &str, &str)> =
        seeds.iter().map(|s| (s.employee_id, s.name, s.role.as_str())).collect();
    assert_eq!(
        listed,
        vec![
            ("employee_john", "John", "ceo"),
            ("employee_sarah", "Sarah", "hr"),
            ("employee_bob", "Bob", "engineer"),
        ]
    );
    for s in seeds {
        assert_eq!(employee_role_from_agent_id(s.employee_id), s.role);
    }
    assert_eq!(EmployeeRole::Engineer.as_str(), "engineer");
}
