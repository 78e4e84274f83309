use codex_proxy::config::attrs_declare_service_name;
use codex_proxy::config::default_creds_base;
use codex_proxy::config::export_enabled;
use codex_proxy::config::is_dev;
use codex_proxy::config::metrics_account;
use codex_proxy::config::needs_service_name;
use codex_proxy::config::CredsBase;

#[test]
fn export_gate_requires_a_non_blank_endpoint() {
    assert!(!export_enabled(None, None), "neither set → off");
    assert!(!export_enabled(Some("   "), Some("")), "blank values → off");
    assert!(
        export_enabled(Some("http://collector:4318"), None),
        "general endpoint → on",
    );
    assert!(
        export_enabled(None, Some("http://collector:4318/v1/traces")),
        "per-signal endpoint → on (would otherwise be a silently-dropped config)",
    );
}

#[test]
fn service_name_in_resource_attributes_is_detected() {
    assert!(!attrs_declare_service_name(None));
    assert!(!attrs_declare_service_name(Some(
        "deployment.environment=prod,codex.account=main"
    )));
    assert!(
        !attrs_declare_service_name(Some("service.name=")),
        "blank value does not count",
    );
    assert!(attrs_declare_service_name(Some("service.name=my-svc")));
    assert!(attrs_declare_service_name(Some(
        "deployment.environment=prod,service.name=my-svc,codex.account=main"
    )));
}

#[test]
fn a_service_name_is_given_only_where_there_is_none() {
    assert!(needs_service_name(None, None));
    assert!(needs_service_name(Some("  "), Some("a=b")));
    assert!(!needs_service_name(Some("svc"), None));
    assert!(!needs_service_name(None, Some(" service.name = svc ")));
    // Only the first `=` separates, and an entry without one is nothing.
    assert!(!needs_service_name(None, Some("service.name=a=b")));
    assert!(needs_service_name(None, Some("service.name")));
}

#[test]
fn the_account_of_the_metrics_is_never_blank() {
    assert_eq!(metrics_account(" main "), "main");
    assert_eq!(metrics_account("   "), "unknown");
    assert_eq!(metrics_account(""), "unknown");
}

#[test]
fn logs_are_for_people_in_development() {
    assert!(is_dev(""));
    assert!(is_dev("dev"));
    assert!(is_dev("development"));
    assert!(!is_dev("production"));
    assert!(!is_dev("Dev"));
}

#[test]
fn the_credentials_file_needs_an_absolute_place() {
    assert_eq!(default_creds_base(true, true), Ok(CredsBase::Xdg));
    assert_eq!(default_creds_base(true, false), Ok(CredsBase::Xdg));
    assert_eq!(default_creds_base(false, true), Ok(CredsBase::HomeConfig));
    assert_eq!(
        default_creds_base(false, false),
        Err("--creds-path is required when neither XDG_CONFIG_HOME nor HOME is set to an absolute path")
    );
}
