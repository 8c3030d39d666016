use kv_explorer::error::KvError;
use kv_explorer::models::kv::RemoteConnection;
use kv_explorer::remote::counts::{analytics_request, count_probe_request};
use kv_explorer::remote::request::{
    delete_keys_request, get_value_request, list_keys_request, list_namespaces_request,
    put_value_request, HttpMethod, HttpRequest,
};

fn connection() -> RemoteConnection {
    RemoteConnection { account_id: "acct1".to_string(), api_token: "SECRET-REDACTED".to_string() }
}

const BASE: &str = "https://api.cloudflare.com/client/v4/accounts/acct1/storage/kv/namespaces";

fn plain(method: HttpMethod, url: String) -> HttpRequest {
    HttpRequest { method, url, bearer_token: "SECRET-REDACTED".to_string(), json_body: None }
}

#[test]
fn namespaces_are_listed_at_the_base() {
    assert_eq!(list_namespaces_request(&connection()), plain(HttpMethod::Get, BASE.to_string()));
}

#[test]
fn first_page_of_keys_has_no_cursor() {
    assert_eq!(
        list_keys_request(&connection(), "ns9", None),
        plain(HttpMethod::Get, format!("{}/ns9/keys?limit=1000", BASE))
    );
}

#[test]
fn later_page_of_keys_sends_the_cursor() {
    assert_eq!(
        list_keys_request(&connection(), "ns9", Some("abc")),
        plain(HttpMethod::Get, format!("{}/ns9/keys?limit=1000&cursor=abc", BASE))
    );
}

#[test]
fn value_is_fetched_at_its_key() {
    assert_eq!(
        get_value_request(&connection(), "ns9", "k1"),
        plain(HttpMethod::Get, format!("{}/ns9/values/k1", BASE))
    );
}

#[test]
fn value_is_put_as_json_content() {
    assert_eq!(
        put_value_request(&connection(), "ns9", "k1", "{\"x\": 1}"),
        Ok(HttpRequest {
            method: HttpMethod::Put,
            url: format!("{}/ns9/values/k1", BASE),
            bearer_token: "SECRET-REDACTED".to_string(),
            json_body: Some("{\"x\": 1}".to_string()),
        })
    );
}

#[test]
fn value_that_is_not_json_is_not_put() {
    assert_eq!(
        put_value_request(&connection(), "ns9", "k1", "{oops"),
        Err(KvError::InvalidJson)
    );
}

#[test]
fn one_key_is_deleted_at_its_own_address() {
    assert_eq!(
        delete_keys_request(&connection(), "ns9", &vec!["k1".to_string()]),
        plain(HttpMethod::Delete, format!("{}/ns9/values/k1", BASE))
    );
}

#[test]
fn several_keys_are_deleted_in_bulk() {
    assert_eq!(
        delete_keys_request(&connection(), "ns9", &vec!["k1".to_string(), "k\"2".to_string()]),
        HttpRequest {
            method: HttpMethod::Post,
            url: format!("{}/ns9/bulk/delete", BASE),
            bearer_token: "SECRET-REDACTED".to_string(),
            json_body: Some("[\"k1\",\"k\\\"2\"]".to_string()),
        }
    );
}

#[test]
fn no_keys_are_deleted_in_bulk_too() {
    assert_eq!(
        delete_keys_request(&connection(), "ns9", &vec![]),
        HttpRequest {
            method: HttpMethod::Post,
            url: format!("{}/ns9/bulk/delete", BASE),
            bearer_token: "SECRET-REDACTED".to_string(),
            json_body: Some("[]".to_string()),
        }
    );
}

#[test]
fn counts_are_asked_for() {
    assert_eq!(
        analytics_request(&connection()),
        plain(
            HttpMethod::Get,
            "https://api.cloudflare.com/client/v4/accounts/acct1/storage/analytics/stored?dimensions=namespaceId&metrics=storedKeys"
                .to_string()
        )
    );
    assert_eq!(
        count_probe_request(&connection(), "ns9"),
        plain(HttpMethod::Get, format!("{}/ns9/keys?limit=1", BASE))
    );
}
