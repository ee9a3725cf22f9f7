use guerrillamail::client::status_is_success;
use guerrillamail::Client;
use guerrillamail::ClientBuilder;
use guerrillamail::Error;
use guerrillamail::HttpMethod;

fn header_value(req: &guerrillamail::ApiRequest, name: &str) -> Option<String> {
    for (k, v) in &req.headers {
        if k == name {
            return Some(v.clone());
        }
    }
    None
}

fn bootstrapped() -> Client {
    let page = "window.conf = { api_token : 'tok123' };";
    ClientBuilder::new().build_from_page(page).unwrap()
}

#[test]
fn builder_defaults() {
    let b = ClientBuilder::new();
    assert_eq!(b.proxy, None);
    assert!(b.danger_accept_invalid_certs);
    assert_eq!(
        b.user_agent,
        "Mozilla/5.0 (Windows NT 10.0; Win64; x64; rv:131.0) Gecko/20100101 Firefox/131.0"
    );
    assert_eq!(b.ajax_url, "https://www.guerrillamail.com/ajax.php");
}

#[test]
fn builder_setters_override_defaults() {
    let b = ClientBuilder::new()
        .proxy("http://127.0.0.1:8080".to_string())
        .danger_accept_invalid_certs(false)
        .user_agent("my-app/1.0".to_string())
        .ajax_url("http://localhost:9000/ajax.php".to_string());
    assert_eq!(b.proxy.as_deref(), Some("http://127.0.0.1:8080"));
    assert!(!b.danger_accept_invalid_certs);
    assert_eq!(b.user_agent, "my-app/1.0");
    assert_eq!(b.ajax_url, "http://localhost:9000/ajax.php");
}

#[test]
fn build_from_page_binds_token_and_config() {
    let b = ClientBuilder::new()
        .proxy("http://127.0.0.1:8080".to_string())
        .user_agent("my-app/1.0".to_string());
    let page = "x api_token : 'sess42' y";
    let c = b.build_from_page(page).unwrap();
    assert_eq!(c.api_token, "sess42");
    assert_eq!(c.proxy(), Some("http://127.0.0.1:8080"));
    assert_eq!(c.user_agent, "my-app/1.0");
    assert_eq!(c.ajax_url, "https://www.guerrillamail.com/ajax.php");
}

#[test]
fn build_from_page_without_pattern_fails() {
    let page = "<html>no token here</html>";
    let r = ClientBuilder::new().build_from_page(page);
    assert_eq!(r.unwrap_err(), Error::TokenParse);
}

#[test]
fn create_request_shape() {
    let c = bootstrapped();
    let req = c.create_email_request("myalias");
    assert_eq!(req.method, HttpMethod::Post);
    assert_eq!(req.url, "https://www.guerrillamail.com/ajax.php");
    assert_eq!(req.query, vec![("f".to_string(), "set_email_user".to_string())]);
    assert_eq!(
        req.form,
        vec![
            ("email_user".to_string(), "myalias".to_string()),
            ("lang".to_string(), "en".to_string()),
            ("site".to_string(), "guerrillamail.com".to_string()),
            ("in".to_string(), " Set cancel".to_string()),
        ]
    );
    assert_eq!(
        header_value(&req, "Content-Type").as_deref(),
        Some("application/x-www-form-urlencoded; charset=UTF-8")
    );
}

#[test]
fn check_request_shape() {
    let c = bootstrapped();
    let req = c.check_email_request("foo@guerrillamail.com", 1700000000123);
    assert_eq!(req.method, HttpMethod::Get);
    assert_eq!(
        req.query,
        vec![
            ("f".to_string(), "check_email".to_string()),
            ("seq".to_string(), "1".to_string()),
            ("in".to_string(), "foo".to_string()),
            ("_".to_string(), "1700000000123".to_string()),
        ]
    );
    assert!(req.form.is_empty());
    assert_eq!(header_value(&req, "Content-Type"), None);
}

#[test]
fn fetch_request_shape() {
    let c = bootstrapped();
    let req = c.fetch_email_request("foo@guerrillamail.com", "mail9", 42);
    assert_eq!(req.method, HttpMethod::Get);
    assert_eq!(
        req.query,
        vec![
            ("f".to_string(), "fetch_email".to_string()),
            ("email_id".to_string(), "mail9".to_string()),
            ("in".to_string(), "foo".to_string()),
            ("_".to_string(), "42".to_string()),
        ]
    );
}

#[test]
fn delete_request_shape() {
    let c = bootstrapped();
    let req = c.delete_email_request("foo@guerrillamail.com");
    assert_eq!(req.method, HttpMethod::Post);
    assert_eq!(req.query, vec![("f".to_string(), "forget_me".to_string())]);
    assert_eq!(
        req.form,
        vec![
            ("site".to_string(), "guerrillamail.com".to_string()),
            ("in".to_string(), "foo".to_string()),
        ]
    );
}

#[test]
fn requests_carry_authorization_and_browser_headers() {
    let c = bootstrapped();
    let req = c.check_email_request("foo@x.com", 1);
    assert_eq!(header_value(&req, "Authorization").as_deref(), Some("ApiToken tok123"));
    assert_eq!(header_value(&req, "Host").as_deref(), Some("www.guerrillamail.com"));
    assert_eq!(header_value(&req, "Origin").as_deref(), Some("https://www.guerrillamail.com"));
    assert_eq!(header_value(&req, "Referer").as_deref(), Some("https://www.guerrillamail.com/"));
    assert_eq!(header_value(&req, "X-Requested-With").as_deref(), Some("XMLHttpRequest"));
    assert_eq!(header_value(&req, "Sec-Fetch-Mode").as_deref(), Some("cors"));
}

#[test]
fn timestamps_a_millisecond_apart_differ() {
    let c = bootstrapped();
    let r1 = c.check_email_request("foo@x.com", 1700000000123);
    let r2 = c.check_email_request("foo@x.com", 1700000000124);
    assert_ne!(r1.query[3].1, r2.query[3].1);
}

#[test]
fn delete_succeeds_exactly_on_success_statuses() {
    assert!(status_is_success(200));
    assert!(status_is_success(204));
    assert!(status_is_success(299));
    assert!(!status_is_success(404));
    assert!(!status_is_success(300));
    assert!(!status_is_success(199));
    assert!(!status_is_success(500));
}
