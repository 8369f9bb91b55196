use cekunit_client::config::{
    get_env_endpoint, get_env_non_empty, get_env_url, normalize_base, normalize_endpoint,
    EnvConfig,
};
use cekunit_client::error::EnvError;
use cekunit_client::search::SearchBuilder;

fn sample_config() -> EnvConfig {
    EnvConfig {
        user_email: "test@example.com".to_string(),
        user_password: "password123".to_string(),
        base_url: "http://localhost".to_string(),
        login_endpoint: "login".to_string(),
        logout_endpoint: "logout".to_string(),
        dashboard_endpoint: "dashboard".to_string(),
        cekunit_export_endpoint: "export".to_string(),
        cekunit_unique_endpoint: "unique".to_string(),
        cekunit_delete_category_endpoint: "delete_cat".to_string(),
        delete_all_endpoint: "delete_all".to_string(),
        cekunit_item_endpoint: "item".to_string(),
        input_user_endpoint: "input_user".to_string(),
        input_user_export_endpoint: "input_user_export".to_string(),
        input_data_endpoint: "input_data".to_string(),
        pic_endpoint: "pic".to_string(),
        input_pic_endpoint: "input_pic".to_string(),
        pic_item_endpoint: "pic_item".to_string(),
        users_endpoint: "users".to_string(),
        users_item_endpoint: "users_item".to_string(),
    }
}

/// A missing variable is reported by name.
#[test]
fn test_missing_var() {
    let r = get_env_endpoint("DASHBOARD_ENDPOINT", None);
    assert!(matches!(r, Err(EnvError::NotFound(k)) if k == "DASHBOARD_ENDPOINT"));
}

/// A variable that is empty after trimming is reported by name.
#[test]
fn test_empty_var() {
    let r = get_env_endpoint("DASHBOARD_ENDPOINT", Some("   "));
    assert!(matches!(r, Err(EnvError::Empty(k)) if k == "DASHBOARD_ENDPOINT"));
}

/// A base URL without an http(s) scheme is refused.
#[test]
fn test_invalid_url() {
    let r = get_env_url("BASE_URL", Some("ftp://localhost"));
    assert!(matches!(r, Err(EnvError::InvalidUrl(k, _)) if k == "BASE_URL"));
    assert_eq!(get_env_url("BASE_URL", Some(" https://x.example/ ")).unwrap(), "https://x.example");
}

/// A password below eight characters fails validation.
#[test]
fn test_password_too_short() {
    let mut c = sample_config();
    c.user_password = "123".to_string();
    assert!(matches!(c.validate(), Err(EnvError::Invalid(k, _)) if k == "USER_PASSWORD"));
}

/// An email without `@` and a scheme-less base URL fail validation too.
#[test]
fn test_validate_other_failures() {
    let mut c = sample_config();
    c.user_email = "nobody".to_string();
    assert!(matches!(c.validate(), Err(EnvError::Invalid(k, _)) if k == "USER_EMAIL"));
    let mut c2 = sample_config();
    c2.base_url = "localhost".to_string();
    assert!(matches!(c2.validate(), Err(EnvError::InvalidUrl(k, _)) if k == "BASE_URL"));
    assert!(sample_config().validate().is_ok());
}

/// URL normalization trims and strips one trailing slash; endpoint
/// normalization trims and strips leading slashes.
#[test]
fn test_normalization() {
    assert_eq!(normalize_base(" https://t.example/ "), "https://t.example");
    assert_eq!(normalize_base("https://t.example"), "https://t.example");
    assert_eq!(normalize_endpoint(" //login "), "login");
    assert_eq!(normalize_endpoint("login"), "login");
    assert_eq!(get_env_non_empty("USER_EMAIL", Some(" a@b.c ")).unwrap(), "a@b.c");
}

/// Full URLs are the base URL and the endpoint joined by a slash.
#[test]
fn test_full_urls() {
    let c = sample_config();
    assert_eq!(c.full_login_url(), "http://localhost/login");
    assert_eq!(c.full_logout_url(), "http://localhost/logout");
    assert_eq!(c.full_dashboard_url(), "http://localhost/dashboard");
    assert_eq!(c.full_cekunit_export_url(), "http://localhost/export");
    assert_eq!(c.full_cekunit_unique_url(), "http://localhost/unique");
    assert_eq!(c.full_cekunit_delete_category_url(), "http://localhost/delete_cat");
    assert_eq!(c.full_delete_all_url(), "http://localhost/delete_all");
    assert_eq!(c.full_cekunit_item_url("123"), "http://localhost/item/123");
    assert_eq!(c.full_input_user_url(), "http://localhost/input_user");
    assert_eq!(c.full_input_user_export_url(), "http://localhost/input_user_export");
    assert_eq!(c.full_input_data_url(), "http://localhost/input_data");
    assert_eq!(c.full_pic_url(), "http://localhost/pic");
    assert_eq!(c.full_input_pic_url(), "http://localhost/input_pic");
    assert_eq!(c.full_pic_item_url("7"), "http://localhost/pic_item/7");
    assert_eq!(c.full_users_url(), "http://localhost/users");
    assert_eq!(c.full_users_item_url("9"), "http://localhost/users_item/9");
}

/// The search builder collects its parameters in order.
#[test]
fn test_search_builder() {
    let p = SearchBuilder::new()
        .query("BP1274OR")
        .column("nopol")
        .sort_by("created_at", "desc")
        .page(2)
        .build();
    assert_eq!(p.query, "BP1274OR");
    assert_eq!(p.column.as_deref(), Some("nopol"));
    assert_eq!(p.sort_column.as_deref(), Some("created_at"));
    assert_eq!(p.sort_direction.as_deref(), Some("desc"));
    assert_eq!(p.page, Some(2));
}
